use armemu::registers::{
    ConditionFlag, InstructionSet, ProcessorMode, Register, Register32, RegisterBank,
    RegisterFile,
};

#[test]
fn registers_it_works() {
    assert_eq!(2, 2);
}

#[test]
fn a_fresh_register_file_starts_in_supervisor_mode() {
    let rf = RegisterFile::new();
    assert_eq!(rf.mode(), ProcessorMode::Supervisor);
    assert_eq!(
        rf.cpsr().active_instruction_set(),
        InstructionSet::ARM
    );
}

#[test]
fn cpsr_mode_writes_read_back() {
    let modes = vec![
        ProcessorMode::User,
        ProcessorMode::FastInterruptRequest,
        ProcessorMode::InterruptRequest,
        ProcessorMode::Supervisor,
        ProcessorMode::Abort,
        ProcessorMode::Undefined,
        ProcessorMode::System,
    ];
    let mut psr = Register32 { bits: 0 };
    for mode in modes {
        psr.set_mode(mode);
        assert_eq!(psr.mode(), Some(mode));
    }
}

#[test]
fn r13_is_banked_per_mode_and_r0_is_shared() {
    let mut rf = RegisterFile::new();
    assert_eq!(rf.mode(), ProcessorMode::Supervisor);
    rf.lookup_mut(RegisterBank::R0).unwrap().bits = 7;
    rf.lookup_mut(RegisterBank::R13).unwrap().bits = 0xdead;
    assert_eq!(rf.lookup(RegisterBank::R13).unwrap().bits, 0xdead);

    rf.on_mode_change(ProcessorMode::User);
    // the User-mode stack pointer is an independent, untouched instance
    assert_eq!(rf.lookup(RegisterBank::R13).unwrap().bits, 0);
    // R0 reflects the single shared instance in any mode
    assert_eq!(rf.lookup(RegisterBank::R0).unwrap().bits, 7);

    rf.on_mode_change(ProcessorMode::Supervisor);
    assert_eq!(rf.lookup(RegisterBank::R13).unwrap().bits, 0xdead);
}

#[test]
fn spsr_resolves_only_in_privileged_exception_modes() {
    let mut rf = RegisterFile::new();
    assert!(rf.lookup(RegisterBank::SPSR).is_some());
    rf.on_mode_change(ProcessorMode::User);
    assert!(rf.lookup(RegisterBank::SPSR).is_none());
    rf.on_mode_change(ProcessorMode::System);
    assert!(rf.lookup(RegisterBank::SPSR).is_none());
}

#[test]
fn reset_zeroes_every_register_and_restores_supervisor() {
    let mut rf = RegisterFile::new();
    rf.lookup_mut(RegisterBank::R5).unwrap().bits = 99;
    rf.reset();
    assert_eq!(rf.lookup(RegisterBank::R5).unwrap().bits, 0);
    assert_eq!(rf.mode(), ProcessorMode::Supervisor);
}

#[test]
fn condition_flags_and_interrupt_masks_toggle_their_bits() {
    let mut psr = Register32 { bits: 0x13 };
    psr.set_condition_flag(ConditionFlag::Zero, true);
    assert!(psr.is_condition_flag_on(ConditionFlag::Zero));
    assert_eq!(psr.bits, 0x4000_0013);
    psr.set_condition_flag(ConditionFlag::Zero, false);
    assert!(!psr.is_condition_flag_on(ConditionFlag::Zero));

    assert!(psr.permit_interrupt(armemu::registers::InterruptMask::IRQ));
    psr.set_interrupt_mask(armemu::registers::InterruptMask::IRQ, true);
    assert!(!psr.permit_interrupt(armemu::registers::InterruptMask::IRQ));
}

#[test]
fn plain_registers_read_and_write_single_bits() {
    let mut reg = Register32 { bits: 0 };
    assert!(reg.valid_index(31));
    assert!(!reg.valid_index(32));
    assert!(reg.permit_read(3) && reg.permit_write(3));
    reg.write_bit(3, true);
    assert!(reg.read_bit(3));
    assert_eq!(reg.bits, 8);
    reg.write_bit(3, false);
    assert!(!reg.read_bit(3));
}

#[test]
fn status_register_permissions_follow_the_mode() {
    let mut psr = Register32 { bits: 0x13 };
    // privileged: everything goes
    assert!(psr.psr_permit_read(20));
    assert!(psr.psr_permit_write(20));
    psr.set_mode(ProcessorMode::User);
    // unprivileged: control fields and flags read, only flags write
    assert!(psr.psr_permit_read(3));
    assert!(psr.psr_permit_read(30));
    assert!(!psr.psr_permit_read(20));
    assert!(psr.psr_permit_write(30));
    assert!(!psr.psr_permit_write(3));
}
