use armemu::computer::{Computer, ExecError};
use armemu::processor::{CondInstr, Condition, Instruction};
use armemu::registers::RegisterBank;

fn register_value(c: &Computer, bank: RegisterBank) -> u32 {
    c.cpu.register_file.lookup(bank).unwrap().bits
}

#[test]
fn branch() {
    let rel_offset = 48;
    let _branch = Instruction::Cond(CondInstr::B(rel_offset), Condition::AL);
}

#[test]
fn conditional_instructions() {
}

#[test]
fn branch_lands_exactly_on_its_target() {
    // B with offset field 0b10111110 decodes to a branch displaced by 768;
    // after one step the counter sits exactly there, not four past it.
    let boot = vec![0xbe, 0x00, 0x00, 0xea];
    let mut c = Computer::new(boot);
    assert_eq!(register_value(&c, RegisterBank::R15), 0);
    assert!(c.execute_next_instruction().is_ok());
    assert_eq!(register_value(&c, RegisterBank::R15), 768);
}

#[test]
fn branch_with_link_stores_the_return_address() {
    // BL with offset field 0b111001 decodes to a displacement of 236.
    let boot = vec![0x39, 0x00, 0x00, 0xeb];
    let mut c = Computer::new(boot);
    assert!(c.execute_next_instruction().is_ok());
    assert_eq!(register_value(&c, RegisterBank::R15), 236);
    assert_eq!(register_value(&c, RegisterBank::R14), 4);
}

#[test]
fn mov_writes_the_rotated_immediate() {
    // MOV R1, #5
    let boot = vec![0x05, 0x10, 0xa0, 0xe3];
    let mut c = Computer::new(boot);
    assert!(c.execute_next_instruction().is_ok());
    assert_eq!(register_value(&c, RegisterBank::R1), 5);
    assert_eq!(register_value(&c, RegisterBank::R15), 4);
}

#[test]
fn teq_sets_the_zero_flag_and_discards_its_result() {
    // TEQ R1, #26 with R1 zeroed: result 26, so Zero stays off and R1 is
    // untouched; the CPSR keeps its mode bits.
    let boot = vec![0x1a, 0x00, 0x31, 0xe3];
    let mut c = Computer::new(boot);
    assert!(c.execute_next_instruction().is_ok());
    assert_eq!(register_value(&c, RegisterBank::R1), 0);
    let cpsr = register_value(&c, RegisterBank::CPSR);
    assert_eq!(cpsr & 0x4000_0000, 0);
    assert_eq!(cpsr & 0x1f, 0x13);
}

#[test]
fn fetching_unmapped_memory_is_a_soft_error() {
    let mut c = Computer::new(vec![]);
    assert_eq!(c.instruction_at(0), Err(ExecError::UninitializedMemory));
    assert_eq!(
        c.execute_next_instruction(),
        Err(ExecError::UninitializedMemory)
    );
    // nothing moved
    assert_eq!(register_value(&c, RegisterBank::R15), 0);
}

#[test]
fn unrecognized_words_are_a_soft_error() {
    let mut c = Computer::new(vec![0xff, 0xff, 0xff, 0xff]);
    assert_eq!(c.instruction_at(0), Err(ExecError::UnrecognizedInstruction));
    assert_eq!(
        c.execute_next_instruction(),
        Err(ExecError::UnrecognizedInstruction)
    );
    assert_eq!(register_value(&c, RegisterBank::R15), 0);
}

#[test]
fn msr_rejects_an_unrecognizable_mode() {
    // MSR CPSR with the flag and control masks from R0, which holds zero:
    // the written mode code would be zero, which names no mode.
    let boot = vec![0x00, 0xf0, 0x29, 0xe1];
    let mut c = Computer::new(boot);
    assert_eq!(
        c.execute_next_instruction(),
        Err(ExecError::InvalidModeWrite)
    );
    assert_eq!(register_value(&c, RegisterBank::CPSR), 0x13);
    assert_eq!(register_value(&c, RegisterBank::R15), 0);
}

#[test]
fn reading_the_spsr_from_user_mode_is_an_error() {
    // MOV R0, #0x10; MSR CPSR from R0 (control mask) drops to User mode;
    // MRS R2, SPSR then resolves no register.
    let boot = vec![
        0x10, 0x00, 0xa0, 0xe3, // MOV R0, #0x10
        0x00, 0xf0, 0x29, 0xe1, // MSR CPSR_fc, R0
        0x00, 0x20, 0x4f, 0xe1, // MRS R2, SPSR
    ];
    let mut c = Computer::new(boot);
    assert!(c.execute_next_instruction().is_ok());
    assert!(c.execute_next_instruction().is_ok());
    assert_eq!(register_value(&c, RegisterBank::CPSR) & 0x1f, 0x10);
    assert_eq!(c.execute_next_instruction(), Err(ExecError::NoSuchRegister));
}

#[test]
fn and_with_s_updates_the_zero_flag() {
    // AND R1, R0, #31 with R0 zeroed and the s flag set: result zero, so
    // the Zero flag comes on.
    let boot = vec![0x1f, 0x10, 0x10, 0xe2];
    let mut c = Computer::new(boot);
    assert!(c.execute_next_instruction().is_ok());
    assert_eq!(register_value(&c, RegisterBank::R1), 0);
    let cpsr = register_value(&c, RegisterBank::CPSR);
    assert_eq!(cpsr & 0x4000_0000, 0x4000_0000);
}

#[test]
fn ldr_loads_a_word_through_the_memory_map() {
    // LDR R0, [R15, #0x6c]: the base register holds 0 at dispatch, so the
    // load reads the word the boot image holds at 0x6c.
    let mut boot = vec![0x6c, 0x00, 0x9f, 0xe5];
    while boot.len() < 0x6c {
        boot.push(0);
    }
    boot.extend_from_slice(&[0x01, 0x02, 0x03, 0x04]);
    let mut c = Computer::new(boot);
    assert!(c.execute_next_instruction().is_ok());
    assert_eq!(register_value(&c, RegisterBank::R0), 0x04030201);
    assert_eq!(register_value(&c, RegisterBank::R15), 4);
}

#[test]
fn bx_returns_through_the_link_register() {
    let boot = vec![
        0x00, 0x00, 0x00, 0xeb, // BL with a zero offset field: displacement 8
        0x05, 0x10, 0xa0, 0xe3, // MOV R1, #5 (the return target)
        0x1e, 0xff, 0x2f, 0xe1, // BX R14
    ];
    let mut c = Computer::new(boot);
    assert!(c.execute_next_instruction().is_ok());
    assert_eq!(register_value(&c, RegisterBank::R15), 8);
    assert_eq!(register_value(&c, RegisterBank::R14), 4);
    assert!(c.execute_next_instruction().is_ok());
    assert_eq!(register_value(&c, RegisterBank::R15), 4);
}

#[test]
fn sub_wraps_around_zero() {
    // SUB R0, R0, #19 ror 26 with R0 zeroed: the rotated immediate is
    // 0x4c0 and the difference wraps.
    let boot = vec![0x13, 0x0d, 0x40, 0xe2];
    let mut c = Computer::new(boot);
    assert!(c.execute_next_instruction().is_ok());
    assert_eq!(register_value(&c, RegisterBank::R0), 0xffff_fb40);
}

#[test]
fn orr_writes_its_result_back() {
    // ORR R0, R0, #0x13 (condition NE, which today always passes)
    let boot = vec![0x13, 0x00, 0x80, 0x13];
    let mut c = Computer::new(boot);
    assert!(c.execute_next_instruction().is_ok());
    assert_eq!(register_value(&c, RegisterBank::R0), 0x13);
}

#[test]
fn coprocessor_instructions_are_state_preserving_no_ops() {
    // MCR p15-style word from the decoding table: nothing may change but
    // the program counter.
    let boot = vec![0x10, 0x01, 0x01, 0xee];
    let mut c = Computer::new(boot);
    assert!(c.execute_next_instruction().is_ok());
    assert_eq!(register_value(&c, RegisterBank::R0), 0);
    assert_eq!(register_value(&c, RegisterBank::CPSR), 0x13);
    assert_eq!(register_value(&c, RegisterBank::R15), 4);
}
