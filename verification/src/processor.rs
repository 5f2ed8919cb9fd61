//! The instruction decoder: from a 32-bit machine word to a typed
//! instruction, covering conditional dispatch, barrel-shift operands,
//! load/store addressing modes and branch offsets.
#![allow(non_camel_case_types)]

use crate::address::Address;
use crate::registers::{ProcessorMode, Register32, RegisterBank, RegisterFile};
use vstd::prelude::*;
use vstd::string::StringExecFns;

verus! {

/// The processor: today the register file; decoding itself needs no
/// state.
pub struct Processor {
    pub register_file: RegisterFile,
}

impl Processor {
    pub fn new() -> (p: Processor)
        ensures
            p.register_file.wf(),
            p.register_file.spec_mode_opt() == Some(ProcessorMode::Supervisor),
            forall|i: int|
                0 <= i < crate::registers::REGISTER_SLOT_COUNT && i
                    != crate::registers::CPSR_SLOT ==> p.register_file.table@[i].bits == 0,
            p.register_file.table@[crate::registers::CPSR_SLOT as int].bits == 0x13u32,
    {
        Processor { register_file: RegisterFile::new() }
    }

    pub fn decode_instruction(&self, data: u32) -> (r: Option<Instruction>)
        ensures
            r == spec_decode(data),
            r matches Some(i) ==> spec_instruction_wf(i),
    {
        Instruction::decode(data)
    }
}

impl Default for Processor {
    fn default() -> (p: Processor)
        ensures
            p.register_file.wf(),
            p.register_file.spec_mode_opt() == Some(ProcessorMode::Supervisor),
    {
        Processor::new()
    }
}

// ---------------------------------------------------------------------------
// Bit-field extraction
// ---------------------------------------------------------------------------

/// The bit field `[hi:lo]` of `n`, shifted down to the low end.
pub open spec fn spec_bits(n: u32, hi: u16, lo: u16) -> u32 {
    (n >> (lo as u32)) & (((1u32 << (((hi - lo + 1)) as u32)) - 1) as u32)
}

/// Extract the bit field `[hi:lo]` of `n`.
pub fn bits(n: u32, hi: u16, lo: u16) -> (r: u32)
    requires
        lo <= hi,
        hi < 32,
        hi - lo < 31,
    ensures
        r == spec_bits(n, hi, lo),
        hi - lo == 0 ==> r < 2,
        hi - lo == 1 ==> r < 4,
        hi - lo == 2 ==> r < 8,
        hi - lo == 3 ==> r < 16,
        hi - lo == 4 ==> r < 32,
        hi - lo == 5 ==> r < 64,
        hi - lo == 7 ==> r < 256,
        hi - lo == 11 ==> r < 4096,
        hi - lo == 15 ==> r < 65536,
        hi - lo == 17 ==> r < 0x40000,
        hi - lo == 23 ==> r < 0x1000000,
{
    let w: u32 = (hi - lo + 1) as u32;
    proof {
        assert(1u32 << w >= 1 && ((1u32 << w) - 1) as u32 == ((1u32 << (((hi - lo + 1)) as u32))
            - 1) as u32) by (bit_vector)
            requires
                w == ((hi - lo + 1) as u32),
                lo <= hi,
                hi < 32,
                hi - lo < 31,
        ;
        assert({
            &&& hi - lo == 0 ==> spec_bits(n, hi, lo) < 2
            &&& hi - lo == 1 ==> spec_bits(n, hi, lo) < 4
            &&& hi - lo == 2 ==> spec_bits(n, hi, lo) < 8
            &&& hi - lo == 3 ==> spec_bits(n, hi, lo) < 16
            &&& hi - lo == 4 ==> spec_bits(n, hi, lo) < 32
            &&& hi - lo == 5 ==> spec_bits(n, hi, lo) < 64
            &&& hi - lo == 7 ==> spec_bits(n, hi, lo) < 256
            &&& hi - lo == 11 ==> spec_bits(n, hi, lo) < 4096
            &&& hi - lo == 15 ==> spec_bits(n, hi, lo) < 65536
            &&& hi - lo == 17 ==> spec_bits(n, hi, lo) < 0x40000
            &&& hi - lo == 23 ==> spec_bits(n, hi, lo) < 0x1000000
        }) by (bit_vector)
            requires
                lo <= hi,
                hi < 32,
                hi - lo < 31,
        ;
    }
    let mask: u32 = (1u32 << w) - 1;
    (n >> (lo as u32)) & mask
}

// ---------------------------------------------------------------------------
// Conditions
// ---------------------------------------------------------------------------

#[derive(Clone, Copy, PartialEq, Eq, Structural, Debug)]
pub enum Condition {
    EQ,
    NE,
    CS_HS,
    CC_LO,
    MI,
    PL,
    VS,
    VC,
    HI,
    LS,
    GE,
    LT,
    GT,
    LE,
    AL,
}

/// The fixed 15-entry condition table; field value 15 is reserved and
/// decodes to nothing.
pub open spec fn spec_cond_decode(code: u32) -> Option<Condition> {
    if code == 0 {
        Some(Condition::EQ)
    } else if code == 1 {
        Some(Condition::NE)
    } else if code == 2 {
        Some(Condition::CS_HS)
    } else if code == 3 {
        Some(Condition::CC_LO)
    } else if code == 4 {
        Some(Condition::MI)
    } else if code == 5 {
        Some(Condition::PL)
    } else if code == 6 {
        Some(Condition::VS)
    } else if code == 7 {
        Some(Condition::VC)
    } else if code == 8 {
        Some(Condition::HI)
    } else if code == 9 {
        Some(Condition::LS)
    } else if code == 10 {
        Some(Condition::GE)
    } else if code == 11 {
        Some(Condition::LT)
    } else if code == 12 {
        Some(Condition::GT)
    } else if code == 13 {
        Some(Condition::LE)
    } else if code == 14 {
        Some(Condition::AL)
    } else {
        None
    }
}

/// The 4-bit code of a condition.
pub open spec fn spec_cond_encode(cond: Condition) -> u32 {
    match cond {
        Condition::EQ => 0,
        Condition::NE => 1,
        Condition::CS_HS => 2,
        Condition::CC_LO => 3,
        Condition::MI => 4,
        Condition::PL => 5,
        Condition::VS => 6,
        Condition::VC => 7,
        Condition::HI => 8,
        Condition::LS => 9,
        Condition::GE => 10,
        Condition::LT => 11,
        Condition::GT => 12,
        Condition::LE => 13,
        Condition::AL => 14,
    }
}

impl Condition {
    pub fn decode(code: u32) -> (r: Option<Condition>)
        ensures
            r == spec_cond_decode(code),
    {
        if code == 0 {
            Some(Condition::EQ)
        } else if code == 1 {
            Some(Condition::NE)
        } else if code == 2 {
            Some(Condition::CS_HS)
        } else if code == 3 {
            Some(Condition::CC_LO)
        } else if code == 4 {
            Some(Condition::MI)
        } else if code == 5 {
            Some(Condition::PL)
        } else if code == 6 {
            Some(Condition::VS)
        } else if code == 7 {
            Some(Condition::VC)
        } else if code == 8 {
            Some(Condition::HI)
        } else if code == 9 {
            Some(Condition::LS)
        } else if code == 10 {
            Some(Condition::GE)
        } else if code == 11 {
            Some(Condition::LT)
        } else if code == 12 {
            Some(Condition::GT)
        } else if code == 13 {
            Some(Condition::LE)
        } else if code == 14 {
            Some(Condition::AL)
        } else {
            None
        }
    }

    /// The inverse of `decode` on the 15 valid codes.
    pub fn encode(cond: Condition) -> (r: u32)
        ensures
            r == spec_cond_encode(cond),
            r < 15,
            spec_cond_decode(r) == Some(cond),
    {
        match cond {
            Condition::EQ => 0,
            Condition::NE => 1,
            Condition::CS_HS => 2,
            Condition::CC_LO => 3,
            Condition::MI => 4,
            Condition::PL => 5,
            Condition::VS => 6,
            Condition::VC => 7,
            Condition::HI => 8,
            Condition::LS => 9,
            Condition::GE => 10,
            Condition::LT => 11,
            Condition::GT => 12,
            Condition::LE => 13,
            Condition::AL => 14,
        }
    }
}

// ---------------------------------------------------------------------------
// Register-bank codes
// ---------------------------------------------------------------------------

/// The fixed 16-entry register table R0..R15; every 4-bit code names a
/// register.
pub open spec fn spec_bank_decode(code: u32) -> RegisterBank {
    if code == 0 {
        RegisterBank::R0
    } else if code == 1 {
        RegisterBank::R1
    } else if code == 2 {
        RegisterBank::R2
    } else if code == 3 {
        RegisterBank::R3
    } else if code == 4 {
        RegisterBank::R4
    } else if code == 5 {
        RegisterBank::R5
    } else if code == 6 {
        RegisterBank::R6
    } else if code == 7 {
        RegisterBank::R7
    } else if code == 8 {
        RegisterBank::R8
    } else if code == 9 {
        RegisterBank::R9
    } else if code == 10 {
        RegisterBank::R10
    } else if code == 11 {
        RegisterBank::R11
    } else if code == 12 {
        RegisterBank::R12
    } else if code == 13 {
        RegisterBank::R13
    } else if code == 14 {
        RegisterBank::R14
    } else {
        RegisterBank::R15
    }
}

impl RegisterBank {
    /// Decode a 4-bit register code; no invalid codes exist.
    pub fn decode(code: u32) -> (r: RegisterBank)
        requires
            code < 16,
        ensures
            r == spec_bank_decode(code),
            r != RegisterBank::CPSR,
            r != RegisterBank::SPSR,
    {
        if code == 0 {
            RegisterBank::R0
        } else if code == 1 {
            RegisterBank::R1
        } else if code == 2 {
            RegisterBank::R2
        } else if code == 3 {
            RegisterBank::R3
        } else if code == 4 {
            RegisterBank::R4
        } else if code == 5 {
            RegisterBank::R5
        } else if code == 6 {
            RegisterBank::R6
        } else if code == 7 {
            RegisterBank::R7
        } else if code == 8 {
            RegisterBank::R8
        } else if code == 9 {
            RegisterBank::R9
        } else if code == 10 {
            RegisterBank::R10
        } else if code == 11 {
            RegisterBank::R11
        } else if code == 12 {
            RegisterBank::R12
        } else if code == 13 {
            RegisterBank::R13
        } else if code == 14 {
            RegisterBank::R14
        } else {
            RegisterBank::R15
        }
    }

    /// The 4-bit code of a general register; the table holds no code for
    /// the status registers, so asking for one is a caller error.
    pub fn encode(register_bank: RegisterBank) -> (r: u32)
        requires
            register_bank != RegisterBank::CPSR,
            register_bank != RegisterBank::SPSR,
        ensures
            r < 16,
            spec_bank_decode(r) == register_bank,
            r == spec_bank_index(register_bank),
    {
        match register_bank {
            RegisterBank::R0 => 0,
            RegisterBank::R1 => 1,
            RegisterBank::R2 => 2,
            RegisterBank::R3 => 3,
            RegisterBank::R4 => 4,
            RegisterBank::R5 => 5,
            RegisterBank::R6 => 6,
            RegisterBank::R7 => 7,
            RegisterBank::R8 => 8,
            RegisterBank::R9 => 9,
            RegisterBank::R10 => 10,
            RegisterBank::R11 => 11,
            RegisterBank::R12 => 12,
            RegisterBank::R13 => 13,
            RegisterBank::R14 => 14,
            RegisterBank::R15 => 15,
            RegisterBank::CPSR => 0,
            RegisterBank::SPSR => 0,
        }
    }
}

// ---------------------------------------------------------------------------
// Barrel-shift operands
// ---------------------------------------------------------------------------

#[derive(Clone, Copy, PartialEq, Eq, Structural, Debug)]
pub enum ShiftSize {
    Imm(u32),
    Reg(RegisterBank),
}

#[derive(Clone, Copy, PartialEq, Eq, Structural, Debug)]
pub enum BarrelShiftOp {
    Imm(u32),
    Reg(RegisterBank),
    LSL(RegisterBank, ShiftSize),
    LSR(RegisterBank, ShiftSize),
    ASR(RegisterBank, ShiftSize),
    ROR(RegisterBank, ShiftSize),
    RotateImmed { immed: u32, rotate: u32 },
    RRX(RegisterBank),
}

/// The decoded form of a register-shift operand: a shift amount of zero
/// means shift-by-32 for LSR and ASR, and rotate-with-carry for ROR.
pub open spec fn spec_barrel_decode(
    src_reg: RegisterBank,
    op_code: u32,
    shift_size: ShiftSize,
) -> Option<BarrelShiftOp> {
    if op_code == 0 {
        Some(BarrelShiftOp::LSL(src_reg, shift_size))
    } else if op_code == 1 {
        match shift_size {
            ShiftSize::Imm(n) => Some(
                BarrelShiftOp::LSR(src_reg, ShiftSize::Imm(if n == 0 { 32u32 } else { n })),
            ),
            ShiftSize::Reg(_) => Some(BarrelShiftOp::LSR(src_reg, shift_size)),
        }
    } else if op_code == 2 {
        match shift_size {
            ShiftSize::Imm(n) => Some(
                BarrelShiftOp::ASR(src_reg, ShiftSize::Imm(if n == 0 { 32u32 } else { n })),
            ),
            ShiftSize::Reg(_) => Some(BarrelShiftOp::ASR(src_reg, shift_size)),
        }
    } else {
        match shift_size {
            ShiftSize::Imm(n) => if n == 0 {
                Some(BarrelShiftOp::RRX(src_reg))
            } else {
                Some(BarrelShiftOp::ROR(src_reg, ShiftSize::Imm(n)))
            },
            ShiftSize::Reg(_) => Some(BarrelShiftOp::ROR(src_reg, shift_size)),
        }
    }
}

impl BarrelShiftOp {
    /// Decode a barrel-shift operand from its 2-bit operation code.  Only
    /// the four shift codes exist; an immediate shift amount must fit the
    /// operand's 5-bit field extended by the shift-by-32 convention.
    pub fn decode(src_reg: RegisterBank, op_code: u32, shift_size: ShiftSize) -> (r: Option<
        BarrelShiftOp,
    >)
        requires
            op_code < 4,
            shift_size matches ShiftSize::Imm(n) ==> n <= 32,
        ensures
            r == spec_barrel_decode(src_reg, op_code, shift_size),
            r is Some,
    {
        if op_code == 0 {
            Some(BarrelShiftOp::LSL(src_reg, shift_size))
        } else if op_code == 1 {
            match shift_size {
                ShiftSize::Imm(n) => {
                    let amount = if n == 0 {
                        32u32
                    } else {
                        n
                    };
                    Some(BarrelShiftOp::LSR(src_reg, ShiftSize::Imm(amount)))
                },
                ShiftSize::Reg(_) => Some(BarrelShiftOp::LSR(src_reg, shift_size)),
            }
        } else if op_code == 2 {
            match shift_size {
                ShiftSize::Imm(n) => {
                    let amount = if n == 0 {
                        32u32
                    } else {
                        n
                    };
                    Some(BarrelShiftOp::ASR(src_reg, ShiftSize::Imm(amount)))
                },
                ShiftSize::Reg(_) => Some(BarrelShiftOp::ASR(src_reg, shift_size)),
            }
        } else {
            match shift_size {
                ShiftSize::Imm(n) => {
                    if n == 0 {
                        Some(BarrelShiftOp::RRX(src_reg))
                    } else {
                        Some(BarrelShiftOp::ROR(src_reg, ShiftSize::Imm(n)))
                    }
                },
                ShiftSize::Reg(_) => Some(BarrelShiftOp::ROR(src_reg, shift_size)),
            }
        }
    }
}

// ---------------------------------------------------------------------------
// Load/store addressing
// ---------------------------------------------------------------------------

#[derive(Clone, Copy, PartialEq, Eq, Structural, Debug)]
pub enum AddressingOffset12 {
    Immed { base_addr: RegisterBank, offset12: u16 },
    Register { base_addr: RegisterBank, offset: RegisterBank },
}

/// The base register of an addressing operand.
pub open spec fn spec_offset12_base(o: AddressingOffset12) -> RegisterBank {
    match o {
        AddressingOffset12::Immed { base_addr, .. } => base_addr,
        AddressingOffset12::Register { base_addr, .. } => base_addr,
    }
}

/// The signed offset an immediate 12-bit operand contributes.
pub open spec fn spec_offset12_amount(offset12: u16, positive: bool) -> i32 {
    if positive {
        offset12 as i32
    } else {
        (-(offset12 as int)) as i32
    }
}

impl AddressingOffset12 {
    pub fn get_base(&self) -> (r: RegisterBank)
        ensures
            r == spec_offset12_base(*self),
    {
        match self {
            AddressingOffset12::Immed { base_addr, .. } => *base_addr,
            AddressingOffset12::Register { base_addr, .. } => *base_addr,
        }
    }

    /// The signed offset contributed by an immediate operand; a
    /// register-sourced offset needs live register access and cannot be
    /// answered here.
    pub fn get_offset(&self, positive: bool) -> (r: i32)
        requires
            *self matches AddressingOffset12::Immed { .. },
            (*self matches AddressingOffset12::Immed { offset12, .. } ==> offset12 < 4096),
        ensures
            *self matches AddressingOffset12::Immed { offset12, .. } ==> r
                == spec_offset12_amount(offset12, positive),
    {
        match self {
            AddressingOffset12::Immed { offset12, .. } => {
                if positive {
                    *offset12 as i32
                } else {
                    -(*offset12 as i32)
                }
            },
            AddressingOffset12::Register { .. } => 0,
        }
    }
}

/// A word or unsigned-byte transfer's addressing mode: pre-indexed
/// (offset applied before the access, optionally written back) or
/// post-indexed (offset applied after).
#[derive(Clone, Copy, PartialEq, Eq, Structural, Debug)]
pub enum WordOrUnsignedByte {
    PreIndex { offset: AddressingOffset12, positive: bool, writeback: bool },
    PostIndex { offset: AddressingOffset12, positive: bool },
}

/// Shape of an addressing mode the executable helpers accept: an
/// immediate offset inside its 12-bit field.
pub open spec fn spec_addressing_wf(w: WordOrUnsignedByte) -> bool {
    match w {
        WordOrUnsignedByte::PreIndex { offset, .. } => offset matches AddressingOffset12::Immed {
            offset12,
            ..
        } && offset12 < 4096,
        WordOrUnsignedByte::PostIndex { offset, .. } => offset matches AddressingOffset12::Immed {
            offset12,
            ..
        } && offset12 < 4096,
    }
}

/// The addressing mode's offset descriptor.
pub open spec fn spec_addressing_offset(w: WordOrUnsignedByte) -> AddressingOffset12 {
    match w {
        WordOrUnsignedByte::PreIndex { offset, .. } => offset,
        WordOrUnsignedByte::PostIndex { offset, .. } => offset,
    }
}

/// The addressing mode's sign flag.
pub open spec fn spec_addressing_positive(w: WordOrUnsignedByte) -> bool {
    match w {
        WordOrUnsignedByte::PreIndex { positive, .. } => positive,
        WordOrUnsignedByte::PostIndex { positive, .. } => positive,
    }
}

/// The addressing mode's writeback flag; only pre-indexing writes back.
pub open spec fn spec_addressing_writeback(w: WordOrUnsignedByte) -> bool {
    match w {
        WordOrUnsignedByte::PreIndex { writeback, .. } => writeback,
        WordOrUnsignedByte::PostIndex { .. } => false,
    }
}

/// The signed offset amount of a well-formed addressing mode.
pub open spec fn spec_addressing_amount(w: WordOrUnsignedByte) -> i32 {
    spec_offset12_amount(
        spec_addressing_offset(w)->Immed_offset12,
        spec_addressing_positive(w),
    )
}

/// The effective address: the base register's value plus the signed
/// offset, computed in 32-bit two's complement and then sign-extended
/// into the 64-bit address space.
pub open spec fn spec_effective_addr32(base: u32, off: i32) -> u32 {
    vstd::wrapping::i32_specs::wrapping_add(base as i32, off) as u32
}

pub open spec fn spec_effective_addr(base: u32, off: i32) -> Address {
    vstd::wrapping::i32_specs::wrapping_add(base as i32, off) as u64
}

impl WordOrUnsignedByte {
    /// The effective address of the transfer, from the base register's
    /// current value.
    pub fn get_addr(&self, rn: &Register32) -> (r: Address)
        requires
            spec_addressing_wf(*self),
        ensures
            r == spec_effective_addr(rn.bits, spec_addressing_amount(*self)),
    {
        let off = self.get_offset_amount();
        (rn.bits as i32).wrapping_add(off) as Address
    }

    pub fn get_base(&self) -> (r: RegisterBank)
        ensures
            r == spec_offset12_base(spec_addressing_offset(*self)),
    {
        self.get_offset().get_base()
    }

    fn get_offset_amount(&self) -> (r: i32)
        requires
            spec_addressing_wf(*self),
        ensures
            r == spec_addressing_amount(*self),
    {
        self.get_offset().get_offset(self.is_positive_offset())
    }

    fn get_offset(&self) -> (r: &AddressingOffset12)
        ensures
            *r == spec_addressing_offset(*self),
    {
        match self {
            WordOrUnsignedByte::PreIndex { offset, .. } => offset,
            WordOrUnsignedByte::PostIndex { offset, .. } => offset,
        }
    }

    fn is_positive_offset(&self) -> (r: bool)
        ensures
            r == spec_addressing_positive(*self),
    {
        match self {
            WordOrUnsignedByte::PreIndex { positive, .. } => *positive,
            WordOrUnsignedByte::PostIndex { positive, .. } => *positive,
        }
    }

    fn is_writeback(&self) -> (r: bool)
        ensures
            r == spec_addressing_writeback(*self),
    {
        match self {
            WordOrUnsignedByte::PreIndex { writeback, .. } => *writeback,
            WordOrUnsignedByte::PostIndex { .. } => false,
        }
    }

    /// Pre-indexed writeback: the base register receives the effective
    /// address (in its 32-bit form); without writeback the register is
    /// untouched.
    pub fn handle_writeback(&self, rn: &mut Register32)
        requires
            spec_addressing_wf(*self),
        ensures
            final(rn).bits == (if spec_addressing_writeback(*self) {
                spec_effective_addr32(old(rn).bits, spec_addressing_amount(*self))
            } else {
                old(rn).bits
            }),
    {
        if self.is_writeback() {
            let off = self.get_offset_amount();
            rn.bits = (rn.bits as i32).wrapping_add(off) as u32;
        }
    }
}

#[derive(Clone, Copy, PartialEq, Eq, Structural, Debug)]
pub enum AddressingOffset8 {
    Immed { base_addr: RegisterBank, offset8: u8 },
    Register { base_addr: RegisterBank, offset: RegisterBank },
}

#[derive(Clone, Copy, PartialEq, Eq, Structural, Debug)]
pub enum HalfwordOrSigned {
    PreIndex { offset: AddressingOffset8, positive: bool, writeback: bool },
    PostIndex { offset: AddressingOffset8, positive: bool },
}

// ---------------------------------------------------------------------------
// Register lists
// ---------------------------------------------------------------------------

/// Whether bit `i` of a 16-bit register mask is set.
pub open spec fn spec_bit16(mask: u16, i: int) -> bool {
    mask & (1u16 << (i as u16)) != 0
}

/// The banks named by `mask` from index `i` upward, in ascending order.
pub open spec fn spec_banks_from(mask: u16, i: int) -> Seq<RegisterBank>
    decreases 16 - i,
{
    if i >= 16 {
        Seq::empty()
    } else if spec_bit16(mask, i) {
        seq![spec_bank_decode(i as u32)] + spec_banks_from(mask, i + 1)
    } else {
        spec_banks_from(mask, i + 1)
    }
}

/// A block-transfer register list, held as the instruction's 16-bit mask:
/// bit `i` names `Ri`.
#[derive(Clone, Copy, PartialEq, Eq, Structural, Debug)]
pub struct RegisterList {
    pub mask: u16,
}

impl RegisterList {
    /// The named banks, in ascending register order.
    pub fn to_banks(&self) -> (r: Vec<RegisterBank>)
        ensures
            r@ == spec_banks_from(self.mask, 0),
    {
        let mut out: Vec<RegisterBank> = Vec::new();
        let mut i: u16 = 0;
        while i < 16
            invariant
                i <= 16,
                out@ + spec_banks_from(self.mask, i as int) == spec_banks_from(self.mask, 0),
            decreases 16 - i,
        {
            proof {
                assert(spec_banks_from(self.mask, i as int) == (if spec_bit16(self.mask, i as int) {
                    seq![spec_bank_decode(i as u32)] + spec_banks_from(self.mask, i as int + 1)
                } else {
                    spec_banks_from(self.mask, i as int + 1)
                }));
            }
            if self.mask & (1u16 << i) != 0 {
                out.push(RegisterBank::decode(i as u32));
                proof {
                    assert(out@ + spec_banks_from(self.mask, i as int + 1) =~= spec_banks_from(
                        self.mask,
                        0,
                    ));
                }
            }
            i = i + 1;
        }
        out
    }

    /// The mask naming exactly the given banks.
    pub fn from_banks(banks: Vec<RegisterBank>) -> (r: RegisterList)
        requires
            forall|k: int|
                0 <= k < banks@.len() ==> (#[trigger] banks@[k]) != RegisterBank::CPSR
                    && banks@[k] != RegisterBank::SPSR,
        ensures
            r.mask == spec_mask_of(banks@, banks@.len() as int),
    {
        let mut mask: u16 = 0;
        let mut k: usize = 0;
        while k < banks.len()
            invariant
                k <= banks@.len(),
                forall|j: int|
                    0 <= j < banks@.len() ==> (#[trigger] banks@[j]) != RegisterBank::CPSR
                        && banks@[j] != RegisterBank::SPSR,
                mask == spec_mask_of(banks@, k as int),
            decreases banks@.len() - k,
        {
            let code = RegisterBank::encode(banks[k]);
            mask = mask | (1u16 << (code as u16));
            k = k + 1;
        }
        RegisterList { mask }
    }
}

/// The mask accumulated from the first `k` banks of the list.
pub open spec fn spec_mask_of(banks: Seq<RegisterBank>, k: int) -> u16
    decreases k,
{
    if k <= 0 {
        0u16
    } else {
        spec_mask_of(banks, k - 1) | (1u16 << (spec_bank_index(banks[k - 1]) as u16))
    }
}

// ---------------------------------------------------------------------------
// Instructions
// ---------------------------------------------------------------------------

/// A conditional instruction body, one variant per supported mnemonic,
/// carrying its operand fields.
#[derive(Clone, Copy, PartialEq, Eq, Structural, Debug)]
pub enum CondInstr {
    AND { s: bool, rd: RegisterBank, rn: RegisterBank, rotate: u32, immed: u32 },
    B(i32),
    BL(i32),
    BX(RegisterBank),
    BIC { s: bool, rd: RegisterBank, rn: RegisterBank, rotate: u32, immed: u32 },
    LDR { rd: RegisterBank, addr_ref: WordOrUnsignedByte },
    LDRB { rd: RegisterBank, addr_ref: WordOrUnsignedByte },
    LDRH { rd: RegisterBank, addr_ref: HalfwordOrSigned },
    LDRSB { rd: RegisterBank, addr_ref: HalfwordOrSigned },
    LDRSH { rd: RegisterBank, addr_ref: HalfwordOrSigned },
    MCR { op1: u32, cn: u32, rd: RegisterBank, copro: u32, op2: u32, cm: u32 },
    MOV { s: bool, rd: RegisterBank, shift_op: BarrelShiftOp },
    MRC { op1: u32, cn: u32, rd: RegisterBank, copro: u32, op2: u32, cm: u32 },
    MRS { rd: RegisterBank, psr: RegisterBank },
    MSR { psr: RegisterBank, rm: RegisterBank, f: bool, s: bool, x: bool, c: bool },
    ORR { s: bool, rd: RegisterBank, rn: RegisterBank, rotate: u32, immed: u32 },
    STMDB { carrot: bool, w: bool, rn: RegisterBank, reg_list: RegisterList },
    STR { rd: RegisterBank, addr_ref: HalfwordOrSigned },
    STRB { rd: RegisterBank, addr_ref: HalfwordOrSigned },
    STRH { rd: RegisterBank, addr_ref: HalfwordOrSigned },
    SUB { s: bool, rd: RegisterBank, rn: RegisterBank, rotate: u32, immed: u32 },
    TEQ { rn: RegisterBank, rotate: u32, immed: u32 },
}

/// Unconditional instructions.  None is supported today, so words with
/// the reserved condition field never decode; the one variant stands for
/// that reserved space and is never produced by the decoder.
#[derive(Clone, Copy, PartialEq, Eq, Structural, Debug)]
pub enum UncondInstr {
    Reserved,
}

#[derive(Clone, Copy, PartialEq, Eq, Structural, Debug)]
pub enum Instruction {
    Cond(CondInstr, Condition),
    Uncond(UncondInstr),
}

/// Field bounds that every decoded conditional instruction meets: rotate
/// and immediate fields inside their encodings, and immediate-form
/// addressing for loads.
pub open spec fn spec_cond_instr_wf(ci: CondInstr) -> bool {
    match ci {
        CondInstr::AND { rd, rn, rotate, immed, .. } => rotate < 16 && immed < 256
            && spec_general_bank(rd) && spec_general_bank(rn),
        CondInstr::ORR { rd, rn, rotate, immed, .. } => rotate < 16 && immed < 256
            && spec_general_bank(rd) && spec_general_bank(rn),
        CondInstr::BIC { rd, rn, rotate, immed, .. } => rotate < 16 && immed < 256
            && spec_general_bank(rd) && spec_general_bank(rn),
        CondInstr::SUB { rd, rn, rotate, immed, .. } => rotate < 16 && immed < 256
            && spec_general_bank(rd) && spec_general_bank(rn),
        CondInstr::TEQ { rn, rotate, immed } => rotate < 16 && immed < 256 && spec_general_bank(
            rn,
        ),
        CondInstr::MOV { rd, shift_op, .. } => spec_general_bank(rd) && match shift_op {
            BarrelShiftOp::RotateImmed { immed, rotate } => immed < 256 && rotate < 32,
            _ => true,
        },
        CondInstr::LDR { rd, addr_ref } => spec_addressing_wf(addr_ref) && spec_general_bank(rd)
            && spec_general_bank(spec_offset12_base(spec_addressing_offset(addr_ref))),
        CondInstr::BX(rm) => spec_general_bank(rm),
        CondInstr::MRS { rd, psr } => spec_general_bank(rd) && (psr == RegisterBank::CPSR || psr
            == RegisterBank::SPSR),
        CondInstr::MSR { psr, rm, .. } => spec_general_bank(rm) && (psr == RegisterBank::CPSR
            || psr == RegisterBank::SPSR),
        _ => true,
    }
}

/// A bank named by a 4-bit register code: everything but the status
/// registers.
pub open spec fn spec_general_bank(bank: RegisterBank) -> bool {
    bank != RegisterBank::CPSR && bank != RegisterBank::SPSR
}

/// Field bounds that every decoded instruction meets.
pub open spec fn spec_instruction_wf(i: Instruction) -> bool {
    match i {
        Instruction::Cond(ci, _) => spec_cond_instr_wf(ci),
        Instruction::Uncond(_) => true,
    }
}

/// The PC-relative displacement of a branch: the 24-bit field
/// sign-extended through bit 23, shifted left twice for word alignment,
/// plus the pipeline's fetch-ahead allowance of 8.
pub open spec fn spec_rel_offset(offset_bits: u32) -> i32 {
    if offset_bits < 0x800000 {
        (8 + 4 * offset_bits) as i32
    } else {
        (8 + 4 * (offset_bits - 0x1000000)) as i32
    }
}

/// The decoded conditional instruction of a word, if its bit pattern
/// matches a supported rule.  This is the decoding table of the
/// architecture subset, written over `spec_bits`.
pub open spec fn spec_decode_conditional(code: u32) -> Option<CondInstr> {
    let group = spec_bits(code, 27, 24);
    if group == 0b0001 {
        if spec_bits(code, 21, 16) == 0b001111 && spec_bits(code, 11, 0) == 0 {
            Some(
                CondInstr::MRS {
                    rd: spec_bank_decode(spec_bits(code, 15, 12)),
                    psr: if spec_bits(code, 22, 22) == 0 {
                        RegisterBank::CPSR
                    } else {
                        RegisterBank::SPSR
                    },
                },
            )
        } else if spec_bits(code, 21, 20) == 2 && spec_bits(code, 15, 4) == 0b111100000000 {
            Some(
                CondInstr::MSR {
                    psr: if spec_bits(code, 22, 22) == 0 {
                        RegisterBank::CPSR
                    } else {
                        RegisterBank::SPSR
                    },
                    rm: spec_bank_decode(spec_bits(code, 3, 0)),
                    f: spec_bits(code, 19, 19) == 1,
                    s: spec_bits(code, 18, 18) == 1,
                    x: spec_bits(code, 17, 17) == 1,
                    c: spec_bits(code, 16, 16) == 1,
                },
            )
        } else if spec_bits(code, 23, 23) == 1 && spec_bits(code, 21, 21) == 1 && spec_bits(
            code,
            19,
            16,
        ) == 0 && spec_bits(code, 7, 7) == 0 && spec_bits(code, 4, 4) == 0 {
            if spec_bits(code, 22, 22) == 0 {
                Some(
                    CondInstr::MOV {
                        s: spec_bits(code, 20, 20) == 1,
                        rd: spec_bank_decode(spec_bits(code, 15, 12)),
                        shift_op: spec_barrel_decode(
                            spec_bank_decode(spec_bits(code, 3, 0)),
                            spec_bits(code, 6, 5),
                            ShiftSize::Imm(spec_bits(code, 11, 7)),
                        )->Some_0,
                    },
                )
            } else {
                None
            }
        } else if spec_bits(code, 23, 6) == 0b0010_1111_1111_1111_00 && spec_bits(code, 4, 4)
            == 1 {
            if spec_bits(code, 5, 5) == 0 {
                Some(CondInstr::BX(spec_bank_decode(spec_bits(code, 3, 0))))
            } else {
                None
            }
        } else {
            None
        }
    } else if group == 0b0010 {
        let s = spec_bits(code, 20, 20) == 1;
        let rn = spec_bank_decode(spec_bits(code, 19, 16));
        let rd = spec_bank_decode(spec_bits(code, 15, 12));
        let rotate = spec_bits(code, 11, 8);
        let immed = spec_bits(code, 7, 0);
        if spec_bits(code, 23, 21) == 0b000 {
            Some(CondInstr::AND { s, rd, rn, rotate, immed })
        } else if spec_bits(code, 23, 21) == 0b010 {
            Some(CondInstr::SUB { s, rd, rn, rotate, immed })
        } else {
            None
        }
    } else if group == 0b0011 {
        if spec_bits(code, 23, 23) == 0 {
            if spec_bits(code, 20, 20) == 0 {
                None
            } else {
                if spec_bits(code, 22, 21) == 0b01 {
                    Some(
                        CondInstr::TEQ {
                            rn: spec_bank_decode(spec_bits(code, 19, 16)),
                            rotate: spec_bits(code, 11, 8),
                            immed: spec_bits(code, 7, 0),
                        },
                    )
                } else {
                    None
                }
            }
        } else {
            if spec_bits(code, 21, 21) == 0 {
                let s = spec_bits(code, 20, 20) == 1;
                let rn = spec_bank_decode(spec_bits(code, 19, 16));
                let rd = spec_bank_decode(spec_bits(code, 15, 12));
                let rotate = spec_bits(code, 11, 8);
                let immed = spec_bits(code, 7, 0);
                if spec_bits(code, 22, 22) == 0 {
                    Some(CondInstr::ORR { s, rd, rn, rotate, immed })
                } else {
                    Some(CondInstr::BIC { s, rd, rn, rotate, immed })
                }
            } else {
                if spec_bits(code, 19, 16) != 0 {
                    None
                } else if spec_bits(code, 22, 22) == 0 {
                    Some(
                        CondInstr::MOV {
                            s: spec_bits(code, 20, 20) == 1,
                            rd: spec_bank_decode(spec_bits(code, 15, 12)),
                            shift_op: BarrelShiftOp::RotateImmed {
                                immed: spec_bits(code, 7, 0),
                                rotate: (2 * spec_bits(code, 11, 8)) as u32,
                            },
                        },
                    )
                } else {
                    None
                }
            }
        }
    } else if group == 0b0101 {
        if (spec_bits(code, 22, 22) * 2 + spec_bits(code, 20, 20)) as u32 == 0b01 {
            Some(
                CondInstr::LDR {
                    rd: spec_bank_decode(spec_bits(code, 15, 12)),
                    addr_ref: WordOrUnsignedByte::PreIndex {
                        offset: AddressingOffset12::Immed {
                            base_addr: spec_bank_decode(spec_bits(code, 19, 16)),
                            offset12: spec_bits(code, 11, 0) as u16,
                        },
                        positive: spec_bits(code, 23, 23) == 1,
                        writeback: spec_bits(code, 21, 21) == 1,
                    },
                },
            )
        } else {
            None
        }
    } else if group == 0b1001 {
        Some(
            CondInstr::STMDB {
                carrot: spec_bits(code, 22, 22) == 1,
                w: spec_bits(code, 21, 21) == 1,
                rn: spec_bank_decode(spec_bits(code, 19, 16)),
                reg_list: RegisterList { mask: spec_bits(code, 15, 0) as u16 },
            },
        )
    } else if group == 0b1010 {
        Some(CondInstr::B(spec_rel_offset(spec_bits(code, 23, 0))))
    } else if group == 0b1011 {
        Some(CondInstr::BL(spec_rel_offset(spec_bits(code, 23, 0))))
    } else if group == 0b1110 {
        if spec_bits(code, 4, 4) == 0 {
            None
        } else {
            let op1 = spec_bits(code, 23, 21);
            let cn = spec_bits(code, 19, 16);
            let rd = spec_bank_decode(spec_bits(code, 15, 12));
            let copro = spec_bits(code, 11, 8);
            let op2 = spec_bits(code, 7, 5);
            let cm = spec_bits(code, 3, 0);
            if spec_bits(code, 20, 20) == 0 {
                Some(CondInstr::MCR { op1, cn, rd, copro, op2, cm })
            } else {
                Some(CondInstr::MRC { op1, cn, rd, copro, op2, cm })
            }
        }
    } else {
        None
    }
}

/// The decoded instruction of a word: the condition field picks the
/// conditional table, and the reserved field value routes to the (empty)
/// unconditional table.
pub open spec fn spec_decode(code: u32) -> Option<Instruction> {
    match spec_cond_decode(spec_bits(code, 31, 28)) {
        Some(condition) => match spec_decode_conditional(code) {
            Some(instr) => Some(Instruction::Cond(instr, condition)),
            None => None,
        },
        None => None,
    }
}

impl Instruction {
    /// Decode a 32-bit machine word; an unmatched bit pattern yields
    /// nothing, never a failure.
    pub fn decode(code: u32) -> (r: Option<Instruction>)
        ensures
            r == spec_decode(code),
            r matches Some(i) ==> spec_instruction_wf(i),
    {
        match Condition::decode(bits(code, 31, 28)) {
            Some(condition) => {
                if let Some(instr) = Self::decode_conditional(code) {
                    Some(Instruction::Cond(instr, condition))
                } else {
                    None
                }
            },
            None => {
                if let Some(instr) = Self::decode_unconditional(code) {
                    Some(Instruction::Uncond(instr))
                } else {
                    None
                }
            },
        }
    }

    /// The sign-extended, pipeline-adjusted branch displacement.
    pub fn rel_offset(offset_bits: u32) -> (r: i32)
        requires
            offset_bits < 0x1000000,
        ensures
            r == spec_rel_offset(offset_bits),
    {
        proof {
            assert(offset_bits & (1u32 << 23u32) == 0 ==> offset_bits < 0x800000) by (bit_vector)
                requires
                    offset_bits < 0x1000000,
            ;
            assert(offset_bits & (1u32 << 23u32) != 0 ==> offset_bits >= 0x800000) by (bit_vector)
                requires
                    offset_bits < 0x1000000,
            ;
            assert(offset_bits >= 0x800000 && offset_bits < 0x1000000 ==> (offset_bits
                | (0b11111111u32 << 24u32)) as i32 == offset_bits - 0x1000000) by (bit_vector);
        }
        let signed_num: i32 = if offset_bits & (1u32 << 23u32) == 0 {
            offset_bits as i32
        } else {
            let hi_mask: u32 = 0b11111111u32 << 24u32;
            (offset_bits | hi_mask) as i32
        };
        8 + (signed_num * 4)
    }

    fn decode_conditional(code: u32) -> (r: Option<CondInstr>)
        ensures
            r == spec_decode_conditional(code),
            r matches Some(ci) ==> spec_cond_instr_wf(ci),
    {
        let group = bits(code, 27, 24);
        if group == 0b0001 {
            if bits(code, 21, 16) == 0b001111 && bits(code, 11, 0) == 0 {
                let rd = RegisterBank::decode(bits(code, 15, 12));
                Some(
                    CondInstr::MRS {
                        rd,
                        psr: if bits(code, 22, 22) == 0 {
                            RegisterBank::CPSR
                        } else {
                            RegisterBank::SPSR
                        },
                    },
                )
            } else if bits(code, 21, 20) == 2 && bits(code, 15, 4) == 0b111100000000 {
                Some(
                    CondInstr::MSR {
                        psr: if bits(code, 22, 22) == 0 {
                            RegisterBank::CPSR
                        } else {
                            RegisterBank::SPSR
                        },
                        rm: RegisterBank::decode(bits(code, 3, 0)),
                        f: bits(code, 19, 19) == 1,
                        s: bits(code, 18, 18) == 1,
                        x: bits(code, 17, 17) == 1,
                        c: bits(code, 16, 16) == 1,
                    },
                )
            } else if bits(code, 23, 23) == 1 && bits(code, 21, 21) == 1 && bits(code, 19, 16)
                == 0 && bits(code, 7, 7) == 0 && bits(code, 4, 4) == 0 {
                let s = bits(code, 20, 20) == 1;
                let rd = RegisterBank::decode(bits(code, 15, 12));
                let shift_size = ShiftSize::Imm(bits(code, 11, 7));
                let shift_code = bits(code, 6, 5);
                let rm = RegisterBank::decode(bits(code, 3, 0));
                if bits(code, 22, 22) == 0 {
                    Some(
                        CondInstr::MOV {
                            s,
                            rd,
                            shift_op: BarrelShiftOp::decode(rm, shift_code, shift_size).unwrap(),
                        },
                    )
                } else {
                    None
                }
            } else if bits(code, 23, 6) == 0b0010_1111_1111_1111_00 && bits(code, 4, 4) == 1 {
                if bits(code, 5, 5) == 0 {
                    let rm = RegisterBank::decode(bits(code, 3, 0));
                    Some(CondInstr::BX(rm))
                } else {
                    None  // BLX
                }
            } else {
                None
            }
        } else if group == 0b0010 {
            let s = bits(code, 20, 20) == 1;
            let rn = RegisterBank::decode(bits(code, 19, 16));
            let rd = RegisterBank::decode(bits(code, 15, 12));
            let rotate = bits(code, 11, 8);
            let immed = bits(code, 7, 0);
            let sub = bits(code, 23, 21);
            if sub == 0b000 {
                Some(CondInstr::AND { s, rd, rn, rotate, immed })
            } else if sub == 0b010 {
                Some(CondInstr::SUB { s, rd, rn, rotate, immed })
            } else {
                None
            }
        } else if group == 0b0011 {
            if bits(code, 23, 23) == 0 {
                if bits(code, 20, 20) == 0 {
                    None
                } else {
                    let rn = RegisterBank::decode(bits(code, 19, 16));
                    let rotate = bits(code, 11, 8);
                    let immed = bits(code, 7, 0);
                    if bits(code, 22, 21) == 0b01 {
                        Some(CondInstr::TEQ { rn, rotate, immed })
                    } else {
                        None
                    }
                }
            } else {
                if bits(code, 21, 21) == 0 {
                    let s = bits(code, 20, 20) == 1;
                    let rn = RegisterBank::decode(bits(code, 19, 16));
                    let rd = RegisterBank::decode(bits(code, 15, 12));
                    let rotate = bits(code, 11, 8);
                    let immed = bits(code, 7, 0);
                    if bits(code, 22, 22) == 0 {
                        Some(CondInstr::ORR { s, rd, rn, rotate, immed })
                    } else {
                        Some(CondInstr::BIC { s, rd, rn, rotate, immed })
                    }
                } else {
                    // An operand pattern with a nonzero first-operand field
                    // matches no rule; it is a soft decode failure, not a
                    // fault.
                    if bits(code, 19, 16) != 0 {
                        None
                    } else if bits(code, 22, 22) == 0 {
                        let s = bits(code, 20, 20) == 1;
                        let rd = RegisterBank::decode(bits(code, 15, 12));
                        let rotate = bits(code, 11, 8);
                        let immed = bits(code, 7, 0);
                        Some(
                            CondInstr::MOV {
                                s,
                                rd,
                                shift_op: BarrelShiftOp::RotateImmed { immed, rotate: 2 * rotate },
                            },
                        )
                    } else {
                        None  // MVN
                    }
                }
            }
        } else if group == 0b0101 {
            let u = bits(code, 23, 23) == 1;
            let w = bits(code, 21, 21) == 1;
            let rn = RegisterBank::decode(bits(code, 19, 16));
            let rd = RegisterBank::decode(bits(code, 15, 12));
            let immed12 = bits(code, 11, 0);
            // pre-indexed; W selects writeback, U an upward (positive) offset
            if bits(code, 22, 22) * 2 + bits(code, 20, 20) == 0b01 {
                Some(
                    CondInstr::LDR {
                        rd,
                        addr_ref: WordOrUnsignedByte::PreIndex {
                            offset: AddressingOffset12::Immed {
                                base_addr: rn,
                                offset12: immed12 as u16,
                            },
                            positive: u,
                            writeback: w,
                        },
                    },
                )
            } else {
                None
            }
        } else if group == 0b1001 {
            let carrot = bits(code, 22, 22) == 1;
            let w = bits(code, 21, 21) == 1;
            let rn = RegisterBank::decode(bits(code, 19, 16));
            let reg_list = RegisterList { mask: bits(code, 15, 0) as u16 };
            Some(CondInstr::STMDB { carrot, w, rn, reg_list })
        } else if group == 0b1010 {
            Some(CondInstr::B(Self::rel_offset(bits(code, 23, 0))))
        } else if group == 0b1011 {
            Some(CondInstr::BL(Self::rel_offset(bits(code, 23, 0))))
        } else if group == 0b1110 {
            let cn = bits(code, 19, 16);
            let copro = bits(code, 11, 8);
            let op2 = bits(code, 7, 5);
            let cm = bits(code, 3, 0);
            if bits(code, 4, 4) == 0 {
                None  // coprocessor data processing
            } else {
                let op1 = bits(code, 23, 21);
                let rd = RegisterBank::decode(bits(code, 15, 12));
                if bits(code, 20, 20) == 0 {
                    Some(CondInstr::MCR { op1, cn, rd, copro, op2, cm })
                } else {
                    Some(CondInstr::MRC { op1, cn, rd, copro, op2, cm })
                }
            }
        } else {
            None
        }
    }

    /// No unconditional instruction is supported.
    fn decode_unconditional(_code: u32) -> (r: Option<UncondInstr>)
        ensures
            r is None,
    {
        None
    }
}

// ---------------------------------------------------------------------------
// Mnemonic rendering
// ---------------------------------------------------------------------------

/// The assembly suffix of a condition; the always-condition is written
/// without one.
pub open spec fn spec_cond_suffix(cond: Condition) -> Seq<char> {
    match cond {
        Condition::EQ => "EQ"@,
        Condition::NE => "NE"@,
        Condition::CS_HS => "CS"@,
        Condition::CC_LO => "CC"@,
        Condition::MI => "MI"@,
        Condition::PL => "PL"@,
        Condition::VS => "VS"@,
        Condition::VC => "VC"@,
        Condition::HI => "HI"@,
        Condition::LS => "LS"@,
        Condition::GE => "GE"@,
        Condition::LT => "LT"@,
        Condition::GT => "GT"@,
        Condition::LE => "LE"@,
        Condition::AL => ""@,
    }
}

/// The mnemonic of a conditional instruction.
pub open spec fn spec_mnemonic(ci: CondInstr) -> Seq<char> {
    match ci {
        CondInstr::AND { .. } => "AND"@,
        CondInstr::B(_) => "B"@,
        CondInstr::BL(_) => "BL"@,
        CondInstr::BX(_) => "BX"@,
        CondInstr::BIC { .. } => "BIC"@,
        CondInstr::LDR { .. } => "LDR"@,
        CondInstr::LDRB { .. } => "LDRB"@,
        CondInstr::LDRH { .. } => "LDRH"@,
        CondInstr::LDRSB { .. } => "LDRSB"@,
        CondInstr::LDRSH { .. } => "LDRSH"@,
        CondInstr::MCR { .. } => "MCR"@,
        CondInstr::MOV { .. } => "MOV"@,
        CondInstr::MRC { .. } => "MRC"@,
        CondInstr::MRS { .. } => "MRS"@,
        CondInstr::MSR { .. } => "MSR"@,
        CondInstr::ORR { .. } => "ORR"@,
        CondInstr::STMDB { .. } => "STMDB"@,
        CondInstr::STR { .. } => "STR"@,
        CondInstr::STRB { .. } => "STRB"@,
        CondInstr::STRH { .. } => "STRH"@,
        CondInstr::SUB { .. } => "SUB"@,
        CondInstr::TEQ { .. } => "TEQ"@,
    }
}

/// The rendering of a whole instruction: mnemonic plus condition suffix.
pub open spec fn spec_instruction_str(i: Instruction) -> Seq<char> {
    match i {
        Instruction::Cond(ci, cond) => spec_mnemonic(ci) + spec_cond_suffix(cond),
        Instruction::Uncond(_) => "RESERVED"@,
    }
}

fn mnemonic_of(instr: &CondInstr) -> (r: &'static str)
    ensures
        r@ == spec_mnemonic(*instr),
{
    match instr {
        CondInstr::AND { .. } => "AND",
        CondInstr::B(_) => "B",
        CondInstr::BL(_) => "BL",
        CondInstr::BX(_) => "BX",
        CondInstr::BIC { .. } => "BIC",
        CondInstr::LDR { .. } => "LDR",
        CondInstr::LDRB { .. } => "LDRB",
        CondInstr::LDRH { .. } => "LDRH",
        CondInstr::LDRSB { .. } => "LDRSB",
        CondInstr::LDRSH { .. } => "LDRSH",
        CondInstr::MCR { .. } => "MCR",
        CondInstr::MOV { .. } => "MOV",
        CondInstr::MRC { .. } => "MRC",
        CondInstr::MRS { .. } => "MRS",
        CondInstr::MSR { .. } => "MSR",
        CondInstr::ORR { .. } => "ORR",
        CondInstr::STMDB { .. } => "STMDB",
        CondInstr::STR { .. } => "STR",
        CondInstr::STRB { .. } => "STRB",
        CondInstr::STRH { .. } => "STRH",
        CondInstr::SUB { .. } => "SUB",
        CondInstr::TEQ { .. } => "TEQ",
    }
}

fn suffix_of(cond: &Condition) -> (r: &'static str)
    ensures
        r@ == spec_cond_suffix(*cond),
{
    match cond {
        Condition::EQ => "EQ",
        Condition::NE => "NE",
        Condition::CS_HS => "CS",
        Condition::CC_LO => "CC",
        Condition::MI => "MI",
        Condition::PL => "PL",
        Condition::VS => "VS",
        Condition::VC => "VC",
        Condition::HI => "HI",
        Condition::LS => "LS",
        Condition::GE => "GE",
        Condition::LT => "LT",
        Condition::GT => "GT",
        Condition::LE => "LE",
        Condition::AL => "",
    }
}

/// Render a conditional instruction as its mnemonic with the condition's
/// suffix.
pub fn cond_as_str(instr: &CondInstr, cond: &Condition) -> (r: String)
    ensures
        r@ == spec_mnemonic(*instr) + spec_cond_suffix(*cond),
{
    let mut out = String::new();
    out.append(mnemonic_of(instr));
    out.append(suffix_of(cond));
    out
}

/// Render an unconditional instruction; only the reserved space exists.
pub fn uncond_as_str(instr: &UncondInstr) -> (r: String)
    ensures
        r@ == "RESERVED"@,
{
    match instr {
        UncondInstr::Reserved => {
            let mut out = String::new();
            out.append("RESERVED");
            out
        },
    }
}

impl Instruction {
    /// A short printable form of the instruction.
    pub fn as_str(&self) -> (r: String)
        ensures
            r@ == spec_instruction_str(*self),
    {
        match self {
            Instruction::Cond(instr, cond) => cond_as_str(instr, cond),
            Instruction::Uncond(instr) => uncond_as_str(instr),
        }
    }
}

/// The table index of a general register bank.
pub open spec fn spec_bank_index(bank: RegisterBank) -> u32 {
    match bank {
        RegisterBank::R0 => 0,
        RegisterBank::R1 => 1,
        RegisterBank::R2 => 2,
        RegisterBank::R3 => 3,
        RegisterBank::R4 => 4,
        RegisterBank::R5 => 5,
        RegisterBank::R6 => 6,
        RegisterBank::R7 => 7,
        RegisterBank::R8 => 8,
        RegisterBank::R9 => 9,
        RegisterBank::R10 => 10,
        RegisterBank::R11 => 11,
        RegisterBank::R12 => 12,
        RegisterBank::R13 => 13,
        RegisterBank::R14 => 14,
        RegisterBank::R15 => 15,
        RegisterBank::CPSR => 0,
        RegisterBank::SPSR => 0,
    }
}

} // verus!
