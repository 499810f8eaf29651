//! Architecture-specific core of a thin AArch64 hypervisor.
//!
//! Two subsystems live here. The context-switching subsystem captures the
//! host kernel's execution state when it traps into the hypervisor and
//! computes the register writes that hand control back. The generic page
//! table engine maintains a 4-level radix tree mapping guest-physical to
//! host-physical addresses over a pluggable entry encoding.
//!
//! Privileged hardware registers are treated as an explicit value
//! ([`context::SystemRegisters`]) rather than ambient state; the unsafe
//! instructions that move that value to and from the real registers are the
//! integrator's responsibility and stay outside this crate.

pub mod context;
pub mod error;
pub mod exception;
pub mod mm;
