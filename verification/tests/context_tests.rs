use rvm_core::context::{
    GeneralRegisters, LinuxContext, SysReg, SystemRegisters, SAVED_LINUX_REGS,
};

fn sample_block() -> Vec<u64> {
    // Word i of the host-entry stack block holds 0x1000 + i, so every
    // populated field is distinguishable.
    (0..SAVED_LINUX_REGS as u64).map(|i| 0x1000 + i).collect()
}

fn sample_sysregs() -> SystemRegisters {
    SystemRegisters::new(0x11, 0x22, 0x33, 0x44, 0x55)
}

#[test]
fn load_from_round_trip() {
    let block = sample_block();
    let sys = sample_sysregs();
    let ctx = LinuxContext::load_from(&block, &sys);
    assert_eq!(ctx.x18, 0x1000 + 18);
    assert_eq!(ctx.x19, 0x1000 + 19);
    assert_eq!(ctx.x20, 0x1000 + 20);
    assert_eq!(ctx.x21, 0x1000 + 21);
    assert_eq!(ctx.x22, 0x1000 + 22);
    assert_eq!(ctx.x23, 0x1000 + 23);
    assert_eq!(ctx.x24, 0x1000 + 24);
    assert_eq!(ctx.x25, 0x1000 + 25);
    assert_eq!(ctx.x26, 0x1000 + 26);
    assert_eq!(ctx.x27, 0x1000 + 27);
    assert_eq!(ctx.x28, 0x1000 + 28);
    assert_eq!(ctx.x29, 0x1000 + 29);
    assert_eq!(ctx.x30, 0x1000 + 30);
    assert_eq!(ctx.sp, 0x1000 + 31);
    assert_eq!(ctx.elr_el1, 0x1000 + 32);
    assert_eq!(ctx.spsr_el1, 0x1000 + 33);
    assert_eq!(ctx.ttbr0_el1, 0x11);
    assert_eq!(ctx.ttbr1_el1, 0x22);
    assert_eq!(ctx.mair_el1, 0x33);
    assert_eq!(ctx.tcr_el1, 0x44);
    assert_eq!(ctx.sctlr_el1, 0x55);
}

#[test]
fn restore_writes_captured_registers() {
    let ctx = LinuxContext::load_from(&sample_block(), &sample_sysregs());
    let mut hw = SystemRegisters::new(0, 0, 0, 0, 0);
    ctx.restore(&mut hw);
    assert_eq!(hw.ttbr0_el1, ctx.ttbr0_el1);
    assert_eq!(hw.ttbr1_el1, ctx.ttbr1_el1);
    assert_eq!(hw.mair_el1, ctx.mair_el1);
    assert_eq!(hw.tcr_el1, ctx.tcr_el1);
    assert_eq!(hw.sctlr_el1, ctx.sctlr_el1);
}

#[test]
fn restore_twice_is_restore_once() {
    let ctx = LinuxContext::load_from(&sample_block(), &sample_sysregs());
    let mut once = SystemRegisters::new(0, 0, 0, 0, 0);
    ctx.restore(&mut once);
    let mut twice = SystemRegisters::new(0, 0, 0, 0, 0);
    ctx.restore(&mut twice);
    ctx.restore(&mut twice);
    assert_eq!(twice.ttbr0_el1, once.ttbr0_el1);
    assert_eq!(twice.ttbr1_el1, once.ttbr1_el1);
    assert_eq!(twice.mair_el1, once.mair_el1);
    assert_eq!(twice.tcr_el1, once.tcr_el1);
    assert_eq!(twice.sctlr_el1, once.sctlr_el1);
}

#[test]
fn restore_write_order_ends_with_sctlr() {
    let ctx = LinuxContext::load_from(&sample_block(), &sample_sysregs());
    let writes = ctx.restore_writes();
    assert_eq!(writes.len(), 5);
    assert_eq!(writes[0].reg, SysReg::Ttbr0El1);
    assert_eq!(writes[0].value, ctx.ttbr0_el1);
    assert_eq!(writes[1].reg, SysReg::Ttbr1El1);
    assert_eq!(writes[1].value, ctx.ttbr1_el1);
    assert_eq!(writes[2].reg, SysReg::MairEl1);
    assert_eq!(writes[2].value, ctx.mair_el1);
    assert_eq!(writes[3].reg, SysReg::TcrEl1);
    assert_eq!(writes[3].value, ctx.tcr_el1);
    assert_eq!(writes[4].reg, SysReg::SctlrEl1);
    assert_eq!(writes[4].value, ctx.sctlr_el1);
}

#[test]
fn return_to_linux_hands_back_host_state() {
    let ctx = LinuxContext::load_from(&sample_block(), &sample_sysregs());
    let mut hw = SystemRegisters::new(0, 0, 0, 0, 0);
    ctx.restore(&mut hw);
    let mut regs = GeneralRegisters::default();
    regs.x0 = 0xdead;
    regs.x17 = 0xbeef;
    let resume = ctx.return_to_linux(&hw, &regs);
    assert_eq!(resume.regs.x0, 0xdead);
    assert_eq!(resume.regs.x17, 0xbeef);
    assert_eq!(resume.sp, ctx.sp);
    assert_eq!(resume.elr, ctx.elr_el1);
    assert_eq!(resume.spsr, ctx.spsr_el1);
}
