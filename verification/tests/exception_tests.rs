use rvm_core::context::GeneralRegisters;
use rvm_core::exception::{classify, exception_class, exception_handler, ExceptionType, TrapFrame};

fn frame_with_esr(esr: u64) -> TrapFrame {
    TrapFrame { regs: GeneralRegisters::default(), esr_el1: esr, elr_el1: 0, spsr_el1: 0 }
}

#[test]
fn exception_class_reads_bits_26_up() {
    assert_eq!(exception_class(0), 0);
    assert_eq!(exception_class(1 << 26), 1);
    assert_eq!(exception_class(2 << 26), 2);
    assert_eq!(exception_class(3 << 26), 3);
    assert_eq!(exception_class(0x15 << 26), 0x15);
    assert_eq!(exception_class((3 << 26) | 0x3ff_ffff), 3);
}

#[test]
fn classify_recognizes_four_categories() {
    assert_eq!(classify(0), Some(ExceptionType::Sync));
    assert_eq!(classify(1), Some(ExceptionType::Irq));
    assert_eq!(classify(2), Some(ExceptionType::Fiq));
    assert_eq!(classify(3), Some(ExceptionType::SError));
}

#[test]
fn classify_rejects_unknown_classes() {
    assert_eq!(classify(4), None);
    assert_eq!(classify(0x15), None);
    assert_eq!(classify(255), None);
}

#[test]
fn dispatch_recognized_classes() {
    exception_handler(&frame_with_esr(0));
    exception_handler(&frame_with_esr(1 << 26));
    exception_handler(&frame_with_esr(2 << 26));
    exception_handler(&frame_with_esr((3 << 26) | 0x123));
}
