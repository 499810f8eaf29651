//! Trap classification and dispatch.
//!
//! The common entry sequence pushes the general registers and the three
//! trap-cause registers onto the stack and hands the resulting frame to
//! [`exception_handler`], which reads the exception class out of the
//! syndrome register and routes to one of four category handlers. The
//! handlers are extension points: this core fixes their signatures and
//! provides no policy. An unrecognized class has no safe continuation, so
//! the dispatcher demands a recognized one.

use vstd::prelude::*;

use crate::context::GeneralRegisters;

verus! {

/// The four recognized trap categories.
#[derive(Clone, Copy, Debug, PartialEq, Eq, Structural)]
pub enum ExceptionType {
    /// Synchronous exception (undefined instruction, system call, ...).
    Sync,
    /// Ordinary interrupt request.
    Irq,
    /// Fast interrupt request.
    Fiq,
    /// System error.
    SError,
}

/// The information a trap handler sees: the general registers pushed by the
/// common entry sequence and the three trap-cause registers pushed by the
/// vector stubs. Lives for exactly one trap.
#[derive(Clone, Copy, Debug)]
pub struct TrapFrame {
    /// General registers of the interrupted context.
    pub regs: GeneralRegisters,
    /// Exception syndrome register: cause of the trap.
    pub esr_el1: u64,
    /// Exception link register: address to resume at.
    pub elr_el1: u64,
    /// Saved program status of the interrupted context.
    pub spsr_el1: u64,
}

/// The exception-class field of a syndrome value: bits 26 and up, read as
/// one byte.
pub open spec fn spec_exception_class(esr: u64) -> u64 {
    (esr >> 26) & 0xff
}

/// Which category an exception-class value falls in: classes 0 to 3 are
/// the four recognized categories, anything else is unrecognized.
pub open spec fn spec_classify(ec: u64) -> Option<ExceptionType> {
    if ec == 0 {
        Some(ExceptionType::Sync)
    } else if ec == 1 {
        Some(ExceptionType::Irq)
    } else if ec == 2 {
        Some(ExceptionType::Fiq)
    } else if ec == 3 {
        Some(ExceptionType::SError)
    } else {
        None
    }
}

/// Extracts the exception-class byte from a syndrome value.
pub fn exception_class(esr: u64) -> (r: u8)
    ensures
        r == spec_exception_class(esr),
{
    proof {
        assert((esr >> 26) & 0xff < 256) by (bit_vector);
    }
    ((esr >> 26) & 0xff) as u8
}

/// Maps an exception-class byte to its category, or `None` for a class
/// this core does not recognize.
pub fn classify(ec: u8) -> (r: Option<ExceptionType>)
    ensures
        r == spec_classify(ec as u64),
{
    if ec == 0 {
        Some(ExceptionType::Sync)
    } else if ec == 1 {
        Some(ExceptionType::Irq)
    } else if ec == 2 {
        Some(ExceptionType::Fiq)
    } else if ec == 3 {
        Some(ExceptionType::SError)
    } else {
        None
    }
}

/// Extension point for synchronous exceptions; policy lives above this core.
pub fn handle_sync_exception(frame: &TrapFrame) {
}

/// Extension point for ordinary interrupts.
pub fn handle_irq(frame: &TrapFrame) {
}

/// Extension point for fast interrupts.
pub fn handle_fiq(frame: &TrapFrame) {
}

/// Extension point for system errors.
pub fn handle_serror(frame: &TrapFrame) {
}

/// Routes a trap to the handler of its category. An unrecognized exception
/// class is fatal and has no continuation, so the frame's class is required
/// to be a recognized one; the integrator halts before calling in
/// otherwise.
pub fn exception_handler(frame: &TrapFrame)
    requires
        spec_classify(spec_exception_class(frame.esr_el1)) is Some,
{
    let ec = exception_class(frame.esr_el1);
    match classify(ec) {
        Some(ExceptionType::Sync) => handle_sync_exception(frame),
        Some(ExceptionType::Irq) => handle_irq(frame),
        Some(ExceptionType::Fiq) => handle_fiq(frame),
        Some(ExceptionType::SError) => handle_serror(frame),
        None => {
            // Unreachable: the contract demands a recognized class.
            assert(false);
        },
    }
}

} // verus!
