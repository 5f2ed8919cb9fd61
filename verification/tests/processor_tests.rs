use armemu::processor::{
    AddressingOffset12, BarrelShiftOp, CondInstr, Condition, Instruction, Processor, RegisterList,
    ShiftSize, WordOrUnsignedByte,
};
use armemu::registers::RegisterBank;

#[test]
fn decode_instructions() {
    let decodings = vec![
        (
            0b1110_1010_000000000000000010111110,
            Instruction::Cond(CondInstr::B(768), Condition::AL),
        ),
        (
            0b1110_0001_000011110000000000000000,
            Instruction::Cond(
                CondInstr::MRS {
                    rd: RegisterBank::R0,
                    psr: RegisterBank::CPSR,
                },
                Condition::AL,
            ),
        ),
        (
            0b1110_0010_0000_0000_0001_0000_00011111,
            Instruction::Cond(
                CondInstr::AND {
                    s: false,
                    rn: RegisterBank::R0,
                    rd: RegisterBank::R1,
                    rotate: 0,
                    immed: 0b00011111,
                },
                Condition::AL,
            ),
        ),
        (
            0b1110_0011_0011_000100000_0000_0011010,
            Instruction::Cond(
                CondInstr::TEQ {
                    rn: RegisterBank::R1,
                    rotate: 0,
                    immed: 0b0011010,
                },
                Condition::AL,
            ),
        ),
        (
            0b0001_0011_110000000000000000011111,
            Instruction::Cond(
                CondInstr::BIC {
                    s: false,
                    rd: RegisterBank::R0,
                    rn: RegisterBank::R0,
                    rotate: 0,
                    immed: 0b00011111,
                },
                Condition::NE,
            ),
        ),
        (
            0b0001_0011_1000_00000000000000010011,
            Instruction::Cond(
                CondInstr::ORR {
                    s: false,
                    rd: RegisterBank::R0,
                    rn: RegisterBank::R0,
                    rotate: 0,
                    immed: 0b00010011,
                },
                Condition::NE,
            ),
        ),
        (
            0b1110_0001_0010_1001_1111000000000000,
            Instruction::Cond(
                CondInstr::MSR {
                    psr: RegisterBank::CPSR,
                    rm: RegisterBank::R0,
                    f: true,
                    s: false,
                    x: false,
                    c: true,
                },
                Condition::AL,
            ),
        ),
        (
            0b1110_1110_0001_0001_0000_1111_0001_0000,
            Instruction::Cond(
                CondInstr::MRC {
                    op1: 0,
                    cn: 1,
                    rd: RegisterBank::R0,
                    copro: 0b1111,
                    op2: 0,
                    cm: 0,
                },
                Condition::AL,
            ),
        ),
        (
            0b1110_1110_0000_0001_0000_1111_0001_0000,
            Instruction::Cond(
                CondInstr::MCR {
                    op1: 0,
                    cn: 1,
                    rd: RegisterBank::R0,
                    copro: 0b1111,
                    op2: 0,
                    cm: 0,
                },
                Condition::AL,
            ),
        ),
        (
            0b1110_0101_1001_1111_0000_0000_0110_1100,
            Instruction::Cond(
                CondInstr::LDR {
                    rd: RegisterBank::R0,
                    addr_ref: WordOrUnsignedByte::PreIndex {
                        offset: AddressingOffset12::Immed {
                            base_addr: RegisterBank::R15,
                            offset12: 0b0000_0110_1100,
                        },
                        positive: true,
                        writeback: false,
                    },
                },
                Condition::AL,
            ),
        ),
        (
            0b1110_1011_0000_0000_0000_0000_0011_1001,
            Instruction::Cond(CondInstr::BL(236), Condition::AL),
        ),
        (
            0b1110_0001_1010_0000_0000_0000_0000_1101,
            Instruction::Cond(
                CondInstr::MOV {
                    s: false,
                    rd: RegisterBank::R0,
                    shift_op: BarrelShiftOp::LSL(RegisterBank::R13, ShiftSize::Imm(0)),
                },
                Condition::AL,
            ),
        ),
        (
            0b1110_0010_0100_0000_0000_1101_0001_0011,
            Instruction::Cond(
                CondInstr::SUB {
                    s: false,
                    rd: RegisterBank::R0,
                    rn: RegisterBank::R0,
                    rotate: 0b1101,
                    immed: 0b00010011,
                },
                Condition::AL,
            ),
        ),
        (
            0b1110_0001_0010_1111_1111_1111_0001_1110,
            Instruction::Cond(CondInstr::BX(RegisterBank::R14), Condition::AL),
        ),
        (
            0b1110_1001_0010_1101_0100_0000_0001_0000,
            Instruction::Cond(
                CondInstr::STMDB {
                    carrot: false,
                    w: true,
                    rn: RegisterBank::R13,
                    reg_list: RegisterList::from_banks(vec![
                        RegisterBank::R4,
                        RegisterBank::R14,
                    ]),
                },
                Condition::AL,
            ),
        ),
        (
            0b1110_0011_1010_0000_0001_0000_0000_0000,
            Instruction::Cond(
                CondInstr::MOV {
                    s: false,
                    rd: RegisterBank::R1,
                    shift_op: BarrelShiftOp::RotateImmed {
                        immed: 0,
                        rotate: 0,
                    },
                },
                Condition::AL,
            ),
        ),
    ];

    for (code, expected_instr) in decodings {
        assert_eq!(Instruction::decode(code).unwrap(), expected_instr);
    }
}

#[test]
fn roundtrip_instructions() {
    // No instruction encoder exists; the condition table is the one
    // encodable piece, so it round-trips here.
    let conds = vec![
        Condition::EQ,
        Condition::NE,
        Condition::CS_HS,
        Condition::CC_LO,
        Condition::MI,
        Condition::PL,
        Condition::VS,
        Condition::VC,
        Condition::HI,
        Condition::LS,
        Condition::GE,
        Condition::LT,
        Condition::GT,
        Condition::LE,
        Condition::AL,
    ];
    for cond in conds {
        assert_eq!(Condition::decode(Condition::encode(cond)), Some(cond));
    }
}

#[test]
fn undecodable_words_yield_nothing() {
    // the reserved condition field never decodes
    assert_eq!(Instruction::decode(0xffffffff), None);
    // an unsupported major opcode group
    assert_eq!(Instruction::decode(0b1110_0000_0000_0000_0000_0000_0000_0000), None);
}

#[test]
fn register_list_round_trip() {
    let list = RegisterList::from_banks(vec![RegisterBank::R4, RegisterBank::R14]);
    assert_eq!(
        list.to_banks(),
        vec![RegisterBank::R4, RegisterBank::R14]
    );
    let empty = RegisterList { mask: 0 };
    assert_eq!(empty.to_banks(), Vec::<RegisterBank>::new());
}

#[test]
fn instruction_as_str_names_the_mnemonic() {
    let b = Instruction::decode(0b1110_1010_000000000000000010111110).unwrap();
    assert_eq!(b.as_str(), "B");
    let bic_ne = Instruction::decode(0b0001_0011_110000000000000000011111).unwrap();
    assert_eq!(bic_ne.as_str(), "BICNE");
}

#[test]
fn processor_decodes_through_its_register_file() {
    let p = Processor::new();
    let decoded = p.decode_instruction(0b1110_1011_0000_0000_0000_0000_0011_1001);
    assert_eq!(
        decoded,
        Some(Instruction::Cond(CondInstr::BL(236), Condition::AL))
    );
}
