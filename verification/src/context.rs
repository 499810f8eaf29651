//! Host ("Linux") context capture, restore and return.
//!
//! When the host kernel hands control to the hypervisor it has pushed a
//! fixed block of [`SAVED_LINUX_REGS`] 64-bit words onto its stack:
//! `x0..x30` at words 0..=30, then the saved stack pointer, the exception
//! link value and the saved program status at words 31, 32 and 33. The
//! integrator reads that block and the live privileged registers and hands
//! both here as plain values; [`LinuxContext::load_from`] turns them into a
//! durable snapshot, [`LinuxContext::restore`] writes the translation
//! registers back in a safe order, and [`LinuxContext::return_to_linux`]
//! computes the complete state with which the host resumes.
//!
//! The privileged register file itself is modeled as an explicit value,
//! [`SystemRegisters`], whose ghost write log records the order of writes:
//! the restore contract pins the table bases and memory attributes to be in
//! place before the system control register is rewritten.

use vstd::prelude::*;

verus! {

/// Number of 64-bit words in the host-entry stack block: 17 register pairs.
pub const SAVED_LINUX_REGS: usize = 17 * 2;

/// A privileged register governing address translation or execution mode.
#[derive(Clone, Copy, Debug, PartialEq, Eq, Structural)]
pub enum SysReg {
    /// Translation table base for the low half of the address space.
    Ttbr0El1,
    /// Translation table base for the high half of the address space.
    Ttbr1El1,
    /// Memory attribute indirection register.
    MairEl1,
    /// Translation control register.
    TcrEl1,
    /// System control register.
    SctlrEl1,
}

/// One write of a privileged register.
#[derive(Clone, Copy, Debug, PartialEq, Eq, Structural)]
pub struct SysRegWrite {
    /// The register written.
    pub reg: SysReg,
    /// The value written.
    pub value: u64,
}

/// The privileged register file treated as an explicit value. The ghost
/// `log` records every write in order, so contracts can speak about the
/// order in which hardware state was rewritten, not only its final value.
pub struct SystemRegisters {
    /// Translation table base register 0.
    pub ttbr0_el1: u64,
    /// Translation table base register 1.
    pub ttbr1_el1: u64,
    /// Memory attribute indirection register.
    pub mair_el1: u64,
    /// Translation control register.
    pub tcr_el1: u64,
    /// System control register.
    pub sctlr_el1: u64,
    /// Every write performed on this register file, in order.
    pub log: Ghost<Seq<SysRegWrite>>,
}

impl SystemRegisters {
    /// Builds a register-file value from the five live register values, as
    /// read by the integrator, with an empty write log.
    pub fn new(ttbr0_el1: u64, ttbr1_el1: u64, mair_el1: u64, tcr_el1: u64, sctlr_el1: u64) -> (r:
        Self)
        ensures
            r.ttbr0_el1 == ttbr0_el1,
            r.ttbr1_el1 == ttbr1_el1,
            r.mair_el1 == mair_el1,
            r.tcr_el1 == tcr_el1,
            r.sctlr_el1 == sctlr_el1,
            r.log@ == Seq::<SysRegWrite>::empty(),
    {
        SystemRegisters {
            ttbr0_el1,
            ttbr1_el1,
            mair_el1,
            tcr_el1,
            sctlr_el1,
            log: Ghost(Seq::empty()),
        }
    }

    /// Writes the low-half translation table base register.
    pub fn write_ttbr0_el1(&mut self, value: u64)
        ensures
            *final(self) == (SystemRegisters {
                ttbr0_el1: value,
                log: Ghost(old(self).log@.push(SysRegWrite { reg: SysReg::Ttbr0El1, value })),
                ..*old(self)
            }),
    {
        self.ttbr0_el1 = value;
        self.log = Ghost(self.log@.push(SysRegWrite { reg: SysReg::Ttbr0El1, value }));
    }

    /// Writes the high-half translation table base register.
    pub fn write_ttbr1_el1(&mut self, value: u64)
        ensures
            *final(self) == (SystemRegisters {
                ttbr1_el1: value,
                log: Ghost(old(self).log@.push(SysRegWrite { reg: SysReg::Ttbr1El1, value })),
                ..*old(self)
            }),
    {
        self.ttbr1_el1 = value;
        self.log = Ghost(self.log@.push(SysRegWrite { reg: SysReg::Ttbr1El1, value }));
    }

    /// Writes the memory attribute indirection register.
    pub fn write_mair_el1(&mut self, value: u64)
        ensures
            *final(self) == (SystemRegisters {
                mair_el1: value,
                log: Ghost(old(self).log@.push(SysRegWrite { reg: SysReg::MairEl1, value })),
                ..*old(self)
            }),
    {
        self.mair_el1 = value;
        self.log = Ghost(self.log@.push(SysRegWrite { reg: SysReg::MairEl1, value }));
    }

    /// Writes the translation control register.
    pub fn write_tcr_el1(&mut self, value: u64)
        ensures
            *final(self) == (SystemRegisters {
                tcr_el1: value,
                log: Ghost(old(self).log@.push(SysRegWrite { reg: SysReg::TcrEl1, value })),
                ..*old(self)
            }),
    {
        self.tcr_el1 = value;
        self.log = Ghost(self.log@.push(SysRegWrite { reg: SysReg::TcrEl1, value }));
    }

    /// Writes the system control register. Enables or disables translation:
    /// the table bases and memory attributes must already hold the intended
    /// values when this write happens.
    pub fn write_sctlr_el1(&mut self, value: u64)
        ensures
            *final(self) == (SystemRegisters {
                sctlr_el1: value,
                log: Ghost(old(self).log@.push(SysRegWrite { reg: SysReg::SctlrEl1, value })),
                ..*old(self)
            }),
    {
        self.sctlr_el1 = value;
        self.log = Ghost(self.log@.push(SysRegWrite { reg: SysReg::SctlrEl1, value }));
    }
}

/// The general-purpose registers the common trap entry sequence pushes for
/// a trap handler, in stack order.
#[derive(Clone, Copy, Debug, Default)]
pub struct GeneralRegisters {
    pub x0: u64,
    pub x1: u64,
    pub x2: u64,
    pub x3: u64,
    pub x4: u64,
    pub x5: u64,
    pub x6: u64,
    pub x7: u64,
    pub x8: u64,
    pub x9: u64,
    pub x10: u64,
    pub x11: u64,
    pub x12: u64,
    pub x13: u64,
    pub x14: u64,
    pub x15: u64,
    pub x16: u64,
    pub x17: u64,
}

/// A durable snapshot of the host kernel's execution state at the moment it
/// was suspended: the callee-saved general registers, the stack pointer and
/// program-counter equivalent, and the five privileged registers governing
/// translation and execution mode.
#[derive(Clone, Copy, Debug)]
pub struct LinuxContext {
    /// The host stack pointer.
    pub sp: u64,
    /// The host program-counter equivalent (exception link value).
    pub elr_el1: u64,
    pub x30: u64,
    pub x29: u64,
    pub x28: u64,
    pub x27: u64,
    pub x26: u64,
    pub x25: u64,
    pub x24: u64,
    pub x23: u64,
    pub x22: u64,
    pub x21: u64,
    pub x20: u64,
    pub x19: u64,
    pub x18: u64,
    /// Low-half translation table base.
    pub ttbr0_el1: u64,
    /// High-half translation table base.
    pub ttbr1_el1: u64,
    /// Memory attributes.
    pub mair_el1: u64,
    /// System control register.
    pub sctlr_el1: u64,
    /// Translation control register.
    pub tcr_el1: u64,
    /// Saved program status.
    pub spsr_el1: u64,
}

/// The snapshot [`LinuxContext::load_from`] builds from a host-entry stack
/// block and the live privileged registers.
pub open spec fn context_of(stack: Seq<u64>, sys: SystemRegisters) -> LinuxContext {
    LinuxContext {
        sp: stack[31],
        elr_el1: stack[32],
        spsr_el1: stack[33],
        x30: stack[30],
        x29: stack[29],
        x28: stack[28],
        x27: stack[27],
        x26: stack[26],
        x25: stack[25],
        x24: stack[24],
        x23: stack[23],
        x22: stack[22],
        x21: stack[21],
        x20: stack[20],
        x19: stack[19],
        x18: stack[18],
        ttbr0_el1: sys.ttbr0_el1,
        ttbr1_el1: sys.ttbr1_el1,
        mair_el1: sys.mair_el1,
        tcr_el1: sys.tcr_el1,
        sctlr_el1: sys.sctlr_el1,
    }
}

/// The complete state with which the host resumes: the general registers to
/// reload, and the stack pointer, link value and program status to place in
/// the privileged shadow registers before the exception return.
#[derive(Clone, Copy, Debug)]
pub struct ResumeState {
    /// Values of the general registers on resumption.
    pub regs: GeneralRegisters,
    /// Value for the host stack pointer.
    pub sp: u64,
    /// Return address for the exception return.
    pub elr: u64,
    /// Program status to restore.
    pub spsr: u64,
}

impl LinuxContext {
    /// Builds the host snapshot from the stack block the host pushed on
    /// entry and the live privileged registers. Callee-saved registers, the
    /// stack pointer, link value and program status come from the block;
    /// the five control registers come from the register file. Must be
    /// called once per suspension: a second call overwrites nothing here,
    /// but the block may no longer exist on the real stack.
    pub fn load_from(stack: &Vec<u64>, sys: &SystemRegisters) -> (r: Self)
        requires
            stack@.len() == SAVED_LINUX_REGS,
        ensures
            r == context_of(stack@, *sys),
    {
        LinuxContext {
            sp: stack[31],
            elr_el1: stack[32],
            spsr_el1: stack[33],
            x30: stack[30],
            x29: stack[29],
            x28: stack[28],
            x27: stack[27],
            x26: stack[26],
            x25: stack[25],
            x24: stack[24],
            x23: stack[23],
            x22: stack[22],
            x21: stack[21],
            x20: stack[20],
            x19: stack[19],
            x18: stack[18],
            ttbr0_el1: sys.ttbr0_el1,
            ttbr1_el1: sys.ttbr1_el1,
            mair_el1: sys.mair_el1,
            tcr_el1: sys.tcr_el1,
            sctlr_el1: sys.sctlr_el1,
        }
    }

    /// Whether the register file holds exactly this snapshot's five control
    /// registers: the state [`LinuxContext::restore`] establishes and
    /// [`LinuxContext::return_to_linux`] demands.
    pub open spec fn restored(self, hw: SystemRegisters) -> bool {
        &&& hw.ttbr0_el1 == self.ttbr0_el1
        &&& hw.ttbr1_el1 == self.ttbr1_el1
        &&& hw.mair_el1 == self.mair_el1
        &&& hw.tcr_el1 == self.tcr_el1
        &&& hw.sctlr_el1 == self.sctlr_el1
    }

    /// The exact sequence of register writes a restore performs: both table
    /// bases and the memory attributes and translation control first, the
    /// system control register last, so that translation is never enabled
    /// over stale table pointers.
    pub open spec fn spec_restore_writes(self) -> Seq<SysRegWrite> {
        seq![
            SysRegWrite { reg: SysReg::Ttbr0El1, value: self.ttbr0_el1 },
            SysRegWrite { reg: SysReg::Ttbr1El1, value: self.ttbr1_el1 },
            SysRegWrite { reg: SysReg::MairEl1, value: self.mair_el1 },
            SysRegWrite { reg: SysReg::TcrEl1, value: self.tcr_el1 },
            SysRegWrite { reg: SysReg::SctlrEl1, value: self.sctlr_el1 },
        ]
    }

    /// Restores the five captured control registers, table bases and
    /// attributes before the control register, and changes nothing else.
    pub fn restore(&self, hw: &mut SystemRegisters)
        ensures
            self.restored(*final(hw)),
            final(hw).log@ == old(hw).log@ + self.spec_restore_writes(),
    {
        hw.write_ttbr0_el1(self.ttbr0_el1);
        hw.write_ttbr1_el1(self.ttbr1_el1);
        hw.write_mair_el1(self.mair_el1);
        hw.write_tcr_el1(self.tcr_el1);
        hw.write_sctlr_el1(self.sctlr_el1);
        proof {
            assert(hw.log@ =~= old(hw).log@ + self.spec_restore_writes());
        }
    }

    /// The write list of [`LinuxContext::restore`] as a run-time value, for
    /// an integrator that must replay it onto the real registers.
    pub fn restore_writes(&self) -> (r: Vec<SysRegWrite>)
        ensures
            r@ == self.spec_restore_writes(),
    {
        let mut writes: Vec<SysRegWrite> = Vec::new();
        writes.push(SysRegWrite { reg: SysReg::Ttbr0El1, value: self.ttbr0_el1 });
        writes.push(SysRegWrite { reg: SysReg::Ttbr1El1, value: self.ttbr1_el1 });
        writes.push(SysRegWrite { reg: SysReg::MairEl1, value: self.mair_el1 });
        writes.push(SysRegWrite { reg: SysReg::TcrEl1, value: self.tcr_el1 });
        writes.push(SysRegWrite { reg: SysReg::SctlrEl1, value: self.sctlr_el1 });
        proof {
            assert(writes@ =~= self.spec_restore_writes());
        }
        writes
    }

    /// Computes the state with which the host resumes: the provided general
    /// registers, and this snapshot's stack pointer, link value and program
    /// status for the privileged shadow registers. The control registers
    /// must already have been restored — the register file is demanded as
    /// evidence; performing the actual exception return is the integrator's
    /// terminal step.
    pub fn return_to_linux(&self, hw: &SystemRegisters, guest_regs: &GeneralRegisters) -> (r:
        ResumeState)
        requires
            self.restored(*hw),
        ensures
            r.regs == *guest_regs,
            r.sp == self.sp,
            r.elr == self.elr_el1,
            r.spsr == self.spsr_el1,
    {
        ResumeState { regs: *guest_regs, sp: self.sp, elr: self.elr_el1, spsr: self.spsr_el1 }
    }
}

/// Capture round-trip: whatever 64-bit words stand in the host-entry stack
/// block and whatever the live registers hold, the snapshot built from them
/// reads back every populated field exactly.
pub proof fn lemma_load_from_round_trip(stack: Seq<u64>, sys: SystemRegisters)
    requires
        stack.len() == SAVED_LINUX_REGS,
    ensures
        context_of(stack, sys).x18 == stack[18],
        context_of(stack, sys).x19 == stack[19],
        context_of(stack, sys).x20 == stack[20],
        context_of(stack, sys).x21 == stack[21],
        context_of(stack, sys).x22 == stack[22],
        context_of(stack, sys).x23 == stack[23],
        context_of(stack, sys).x24 == stack[24],
        context_of(stack, sys).x25 == stack[25],
        context_of(stack, sys).x26 == stack[26],
        context_of(stack, sys).x27 == stack[27],
        context_of(stack, sys).x28 == stack[28],
        context_of(stack, sys).x29 == stack[29],
        context_of(stack, sys).x30 == stack[30],
        context_of(stack, sys).sp == stack[31],
        context_of(stack, sys).elr_el1 == stack[32],
        context_of(stack, sys).spsr_el1 == stack[33],
        context_of(stack, sys).ttbr0_el1 == sys.ttbr0_el1,
        context_of(stack, sys).ttbr1_el1 == sys.ttbr1_el1,
        context_of(stack, sys).mair_el1 == sys.mair_el1,
        context_of(stack, sys).tcr_el1 == sys.tcr_el1,
        context_of(stack, sys).sctlr_el1 == sys.sctlr_el1,
{
}

/// Restore idempotence: any two register-file states that a restore of the
/// same snapshot has produced hold identical register values — restoring
/// twice leaves the same hardware state as restoring once.
pub proof fn lemma_restore_idempotent(ctx: LinuxContext, hw1: SystemRegisters, hw2: SystemRegisters)
    requires
        ctx.restored(hw1),
        ctx.restored(hw2),
    ensures
        hw1.ttbr0_el1 == hw2.ttbr0_el1,
        hw1.ttbr1_el1 == hw2.ttbr1_el1,
        hw1.mair_el1 == hw2.mair_el1,
        hw1.tcr_el1 == hw2.tcr_el1,
        hw1.sctlr_el1 == hw2.sctlr_el1,
{
}

} // verus!
