//! The register file: generic 32-bit registers with per-bit access, the
//! program-status-register bit semantics layered on top of them, and the
//! mode-banked table of physical registers.

use vstd::prelude::*;

verus! {

// ---------------------------------------------------------------------------
// Bit-level helpers
// ---------------------------------------------------------------------------

/// Whether bit `i` of `b` is set.
pub open spec fn spec_bit(b: u32, i: u8) -> bool {
    b & (1u32 << (i as u32)) != 0
}

/// `b` with bit `i` set to `v`.
pub open spec fn spec_set_bit(b: u32, i: u8, v: bool) -> u32 {
    if v {
        b | (1u32 << (i as u32))
    } else {
        b & !(1u32 << (i as u32))
    }
}

proof fn lemma_set_bit(b: u32, i: u8, v: bool, j: u8)
    by (bit_vector)
    requires
        i < 32,
        j < 32,
    ensures
        spec_bit(spec_set_bit(b, i, v), j) == (if j == i {
            v
        } else {
            spec_bit(b, j)
        }),
{
}

// ---------------------------------------------------------------------------
// The generic register capability
// ---------------------------------------------------------------------------

/// A fixed-width register with per-bit read and write access.  Bit indexes
/// must be valid, and the permission hooks decide whether an access is
/// allowed; the base hooks allow everything.
pub trait Register {
    /// Number of bits the register holds.
    spec fn spec_bit_width(&self) -> u8;

    /// The value of bit `i`.
    spec fn spec_read_bit(&self, i: u8) -> bool;

    fn _bit_width(&self) -> (r: u8)
        ensures
            r == self.spec_bit_width(),
    ;

    fn _read_bit(&self, i: u8) -> (r: bool)
        requires
            i < self.spec_bit_width(),
        ensures
            r == self.spec_read_bit(i),
    ;

    fn _write_bit(&mut self, i: u8, v: bool)
        requires
            i < old(self).spec_bit_width(),
        ensures
            final(self).spec_bit_width() == old(self).spec_bit_width(),
            forall|j: u8|
                j < old(self).spec_bit_width() ==> final(self).spec_read_bit(j) == (if j == i {
                    v
                } else {
                    old(self).spec_read_bit(j)
                }),
    ;

    fn valid_index(&self, i: u8) -> (r: bool)
        ensures
            r == (i < self.spec_bit_width()),
    {
        i < self._bit_width()
    }

    fn permit_read(&self, _i: u8) -> (r: bool)
        ensures
            r,
    {
        true
    }

    /// A read of a valid, permitted index; the index bound is a caller
    /// obligation rather than a run-time check.
    fn read_bit(&self, index: u8) -> (r: bool)
        requires
            index < self.spec_bit_width(),
        ensures
            r == self.spec_read_bit(index),
    {
        self._read_bit(index)
    }

    fn permit_write(&self, _i: u8) -> (r: bool)
        ensures
            r,
    {
        true
    }

    /// A write of a valid, permitted index; the index bound is a caller
    /// obligation rather than a run-time check.
    fn write_bit(&mut self, index: u8, v: bool)
        requires
            index < old(self).spec_bit_width(),
        ensures
            final(self).spec_bit_width() == old(self).spec_bit_width(),
            forall|j: u8|
                j < old(self).spec_bit_width() ==> final(self).spec_read_bit(j) == (if j == index {
                    v
                } else {
                    old(self).spec_read_bit(j)
                }),
    {
        self._write_bit(index, v)
    }
}

/// A 32-bit register.
#[derive(Clone, Copy, PartialEq, Eq, Structural, Debug)]
pub struct Register32 {
    pub bits: u32,
}

impl Register for Register32 {
    open spec fn spec_bit_width(&self) -> u8 {
        32
    }

    open spec fn spec_read_bit(&self, i: u8) -> bool {
        spec_bit(self.bits, i)
    }

    fn _bit_width(&self) -> (r: u8) {
        32
    }

    fn _read_bit(&self, i: u8) -> (r: bool) {
        self.bits & (1u32 << (i as u32)) != 0
    }

    fn write_bit(&mut self, index: u8, v: bool)
        ensures
            final(self).bits == spec_set_bit(old(self).bits, index, v),
    {
        self._write_bit(index, v)
    }

    fn _write_bit(&mut self, i: u8, v: bool)
        ensures
            final(self).bits == spec_set_bit(old(self).bits, i, v),
    {
        let n = 1u32 << (i as u32);
        if v {
            self.bits = self.bits | n;
        } else {
            self.bits = self.bits & !n;
        }
        proof {
            assert forall|j: u8| j < 32 implies self.spec_read_bit(j) == (if j == i {
                v
            } else {
                old(self).spec_read_bit(j)
            }) by {
                lemma_set_bit(old(self).bits, i, v, j);
            }
        }
    }
}

// ---------------------------------------------------------------------------
// Processor modes and program-status-register semantics
// ---------------------------------------------------------------------------

#[derive(Clone, Copy, PartialEq, Eq, Hash, Structural, Debug)]
pub enum ProcessorMode {
    /// A failed attempt to access memory.
    Abort,
    /// The fast interrupt system.
    FastInterruptRequest,
    /// The interrupt system.
    InterruptRequest,
    /// The mode after reset.
    Supervisor,
    /// User, except with read-write access to the CPSR.
    System,
    /// An undefined or unsupported instruction.
    Undefined,
    /// The mode for programs and applications.
    User,
}

#[derive(Clone, Copy, PartialEq, Eq, Structural, Debug)]
pub enum ConditionFlag {
    Negative,
    Zero,
    Carry,
    Overflow,
}

#[derive(Clone, Copy, PartialEq, Eq, Structural, Debug)]
pub enum InterruptMask {
    IRQ,
    FIQ,
}

#[derive(Clone, Copy, PartialEq, Eq, Structural, Debug)]
pub enum InstructionSet {
    ARM,
    Thumb,
}

/// The architectural 5-bit code of a processor mode.
pub open spec fn spec_mode_code(mode: ProcessorMode) -> u32 {
    match mode {
        ProcessorMode::User => 0x10,
        ProcessorMode::FastInterruptRequest => 0x11,
        ProcessorMode::InterruptRequest => 0x12,
        ProcessorMode::Supervisor => 0x13,
        ProcessorMode::Abort => 0x17,
        ProcessorMode::Undefined => 0x1b,
        ProcessorMode::System => 0x1f,
    }
}

/// The mode encoded by the low five bits of a status register, if any.
pub open spec fn spec_psr_mode(bits: u32) -> Option<ProcessorMode> {
    let code = bits & 0x1fu32;
    if code == 0x10 {
        Some(ProcessorMode::User)
    } else if code == 0x11 {
        Some(ProcessorMode::FastInterruptRequest)
    } else if code == 0x12 {
        Some(ProcessorMode::InterruptRequest)
    } else if code == 0x13 {
        Some(ProcessorMode::Supervisor)
    } else if code == 0x17 {
        Some(ProcessorMode::Abort)
    } else if code == 0x1b {
        Some(ProcessorMode::Undefined)
    } else if code == 0x1f {
        Some(ProcessorMode::System)
    } else {
        None
    }
}

/// Bit index of a condition flag inside a status register.
pub open spec fn spec_condition_flag_index(cf: ConditionFlag) -> u8 {
    match cf {
        ConditionFlag::Negative => 31,
        ConditionFlag::Zero => 30,
        ConditionFlag::Carry => 29,
        ConditionFlag::Overflow => 28,
    }
}

/// Bit index of an interrupt mask inside a status register.
pub open spec fn spec_interrupt_mask_index(im: InterruptMask) -> u8 {
    match im {
        InterruptMask::IRQ => 7,
        InterruptMask::FIQ => 6,
    }
}

/// Program-status-register semantics, layered over the plain bit access of
/// a `Register32`: bits 0 to 4 hold the mode, bit 5 selects the instruction
/// set, bits 6 and 7 mask interrupts and bits 28 to 31 are condition flags.
impl Register32 {
    /// The processor mode held in bits 0 to 4, or `None` for an
    /// unrecognized code.
    pub fn mode(&self) -> (r: Option<ProcessorMode>)
        ensures
            r == spec_psr_mode(self.bits),
    {
        let code = self.bits & 0x1fu32;
        if code == 0x10 {
            Some(ProcessorMode::User)
        } else if code == 0x11 {
            Some(ProcessorMode::FastInterruptRequest)
        } else if code == 0x12 {
            Some(ProcessorMode::InterruptRequest)
        } else if code == 0x13 {
            Some(ProcessorMode::Supervisor)
        } else if code == 0x17 {
            Some(ProcessorMode::Abort)
        } else if code == 0x1b {
            Some(ProcessorMode::Undefined)
        } else if code == 0x1f {
            Some(ProcessorMode::System)
        } else {
            None
        }
    }

    /// Writes `mode`'s code into bits 0 to 4, leaving the rest untouched.
    pub fn set_mode(&mut self, mode: ProcessorMode)
        ensures
            final(self).bits == (old(self).bits & !0x1fu32) | spec_mode_code(mode),
            spec_psr_mode(final(self).bits) == Some(mode),
    {
        let code: u32 = match mode {
            ProcessorMode::User => 0x10,
            ProcessorMode::FastInterruptRequest => 0x11,
            ProcessorMode::InterruptRequest => 0x12,
            ProcessorMode::Supervisor => 0x13,
            ProcessorMode::Abort => 0x17,
            ProcessorMode::Undefined => 0x1b,
            ProcessorMode::System => 0x1f,
        };
        let b = self.bits;
        self.bits = (b & !0x1fu32) | code;
        proof {
            assert(((b & !0x1fu32) | code) & 0x1fu32 == code) by (bit_vector)
                requires
                    code < 0x20u32,
            ;
        }
    }

    /// Whether the current mode is a privileged (non-User) one.
    pub fn is_privileged_mode(&self) -> (r: bool)
        ensures
            r == (match spec_psr_mode(self.bits) {
                Some(m) => m != ProcessorMode::User,
                None => false,
            }),
    {
        match self.mode() {
            Some(m) => m != ProcessorMode::User,
            None => false,
        }
    }

    pub fn is_control_field(&self, i: u8) -> (r: bool)
        ensures
            r == (i < 8),
    {
        i < 8
    }

    pub fn is_condition_flag(&self, i: u8) -> (r: bool)
        ensures
            r == (27 < i && i < 32),
    {
        i > 27 && i < 32
    }

    /// Whether reading bit `i` of a status register is allowed: any bit in a
    /// privileged mode, and the control fields and condition flags always.
    /// As in the generic register, this is a query; the bit accessors do not
    /// enforce it.
    pub fn psr_permit_read(&self, i: u8) -> (r: bool)
        ensures
            r == ((match spec_psr_mode(self.bits) {
                Some(m) => m != ProcessorMode::User,
                None => false,
            }) || i < 8 || (27 < i && i < 32)),
    {
        self.is_privileged_mode() || self.is_control_field(i) || self.is_condition_flag(i)
    }

    /// Whether writing bit `i` of a status register is allowed: any bit in a
    /// privileged mode, and the condition flags always.
    pub fn psr_permit_write(&self, i: u8) -> (r: bool)
        ensures
            r == ((match spec_psr_mode(self.bits) {
                Some(m) => m != ProcessorMode::User,
                None => false,
            }) || (27 < i && i < 32)),
    {
        self.is_privileged_mode() || self.is_condition_flag(i)
    }

    pub fn condition_flag_index(&self, cf: ConditionFlag) -> (r: u8)
        ensures
            r == spec_condition_flag_index(cf),
    {
        match cf {
            ConditionFlag::Negative => 31,
            ConditionFlag::Zero => 30,
            ConditionFlag::Carry => 29,
            ConditionFlag::Overflow => 28,
        }
    }

    pub fn set_condition_flag(&mut self, cf: ConditionFlag, setting: bool)
        ensures
            final(self).bits == spec_set_bit(old(self).bits, spec_condition_flag_index(cf), setting),
    {
        let index = self.condition_flag_index(cf);
        self.write_bit(index, setting);
    }

    pub fn is_condition_flag_on(&self, cf: ConditionFlag) -> (r: bool)
        ensures
            r == spec_bit(self.bits, spec_condition_flag_index(cf)),
    {
        self.read_bit(self.condition_flag_index(cf))
    }

    pub fn interrupt_mask_index(&self, im: InterruptMask) -> (r: u8)
        ensures
            r == spec_interrupt_mask_index(im),
    {
        match im {
            InterruptMask::IRQ => 7,
            InterruptMask::FIQ => 6,
        }
    }

    pub fn set_interrupt_mask(&mut self, im: InterruptMask, disable: bool)
        ensures
            final(self).bits == spec_set_bit(old(self).bits, spec_interrupt_mask_index(im), disable),
    {
        let index = self.interrupt_mask_index(im);
        self.write_bit(index, disable);
    }

    pub fn permit_interrupt(&self, im: InterruptMask) -> (r: bool)
        ensures
            r == !spec_bit(self.bits, spec_interrupt_mask_index(im)),
    {
        !self.read_bit(self.interrupt_mask_index(im))
    }

    pub fn thumb_state_index(&self) -> (r: u8)
        ensures
            r == 5,
    {
        5
    }

    /// Selects the instruction set through bit 5; the mode field is
    /// untouched.
    pub fn set_instruction_set(&mut self, instr_set: InstructionSet)
        ensures
            final(self).bits == spec_set_bit(
                old(self).bits,
                5,
                instr_set == InstructionSet::Thumb,
            ),
            spec_psr_mode(final(self).bits) == spec_psr_mode(old(self).bits),
    {
        let index = self.thumb_state_index();
        match instr_set {
            InstructionSet::Thumb => self.write_bit(index, true),
            InstructionSet::ARM => self.write_bit(index, false),
        }
        proof {
            let b = old(self).bits;
            assert((b | (1u32 << 5u32)) & 0x1fu32 == b & 0x1fu32) by (bit_vector);
            assert((b & !(1u32 << 5u32)) & 0x1fu32 == b & 0x1fu32) by (bit_vector);
        }
    }

    pub fn active_instruction_set(&self) -> (r: InstructionSet)
        ensures
            r == (if spec_bit(self.bits, 5) {
                InstructionSet::Thumb
            } else {
                InstructionSet::ARM
            }),
    {
        if self.read_bit(self.thumb_state_index()) {
            InstructionSet::Thumb
        } else {
            InstructionSet::ARM
        }
    }
}

// ---------------------------------------------------------------------------
// The mode-banked register file
// ---------------------------------------------------------------------------

#[derive(Clone, Copy, PartialEq, Eq, Hash, Structural, Debug)]
pub enum RegisterBank {
    R0,
    R1,
    R2,
    R3,
    R4,
    R5,
    R6,
    R7,
    R8,
    R9,
    R10,
    R11,
    R12,
    R13,
    R14,
    R15,
    CPSR,
    SPSR,
}

/// Number of physically existing registers: the banking table below names
/// each one once.
pub const REGISTER_SLOT_COUNT: usize = 37;

/// Storage slot of the CPSR, which exists only under `User` by convention.
pub const CPSR_SLOT: usize = 31;

/// The fixed banking table: the storage slot that physically holds
/// `(bank, mode)`, or `None` where no such register exists.  R0 to R7, R15
/// and the CPSR exist only under `User` (shared by every mode through the
/// lookup fallback); R8 to R12 are banked once for the fast interrupt mode;
/// R13 and R14 are banked per privileged mode; the SPSR exists only under
/// the five privileged non-System modes.
pub open spec fn spec_slot(bank: RegisterBank, mode: ProcessorMode) -> Option<usize> {
    match (bank, mode) {
        (RegisterBank::R0, ProcessorMode::User) => Some(0),
        (RegisterBank::R1, ProcessorMode::User) => Some(1),
        (RegisterBank::R2, ProcessorMode::User) => Some(2),
        (RegisterBank::R3, ProcessorMode::User) => Some(3),
        (RegisterBank::R4, ProcessorMode::User) => Some(4),
        (RegisterBank::R5, ProcessorMode::User) => Some(5),
        (RegisterBank::R6, ProcessorMode::User) => Some(6),
        (RegisterBank::R7, ProcessorMode::User) => Some(7),
        (RegisterBank::R8, ProcessorMode::User) => Some(8),
        (RegisterBank::R9, ProcessorMode::User) => Some(9),
        (RegisterBank::R10, ProcessorMode::User) => Some(10),
        (RegisterBank::R11, ProcessorMode::User) => Some(11),
        (RegisterBank::R12, ProcessorMode::User) => Some(12),
        (RegisterBank::R8, ProcessorMode::FastInterruptRequest) => Some(13),
        (RegisterBank::R9, ProcessorMode::FastInterruptRequest) => Some(14),
        (RegisterBank::R10, ProcessorMode::FastInterruptRequest) => Some(15),
        (RegisterBank::R11, ProcessorMode::FastInterruptRequest) => Some(16),
        (RegisterBank::R12, ProcessorMode::FastInterruptRequest) => Some(17),
        (RegisterBank::R13, ProcessorMode::User) => Some(18),
        (RegisterBank::R13, ProcessorMode::FastInterruptRequest) => Some(19),
        (RegisterBank::R13, ProcessorMode::InterruptRequest) => Some(20),
        (RegisterBank::R13, ProcessorMode::Supervisor) => Some(21),
        (RegisterBank::R13, ProcessorMode::Undefined) => Some(22),
        (RegisterBank::R13, ProcessorMode::Abort) => Some(23),
        (RegisterBank::R14, ProcessorMode::User) => Some(24),
        (RegisterBank::R14, ProcessorMode::FastInterruptRequest) => Some(25),
        (RegisterBank::R14, ProcessorMode::InterruptRequest) => Some(26),
        (RegisterBank::R14, ProcessorMode::Supervisor) => Some(27),
        (RegisterBank::R14, ProcessorMode::Undefined) => Some(28),
        (RegisterBank::R14, ProcessorMode::Abort) => Some(29),
        (RegisterBank::R15, ProcessorMode::User) => Some(30),
        (RegisterBank::CPSR, ProcessorMode::User) => Some(31),
        (RegisterBank::SPSR, ProcessorMode::FastInterruptRequest) => Some(32),
        (RegisterBank::SPSR, ProcessorMode::InterruptRequest) => Some(33),
        (RegisterBank::SPSR, ProcessorMode::Supervisor) => Some(34),
        (RegisterBank::SPSR, ProcessorMode::Undefined) => Some(35),
        (RegisterBank::SPSR, ProcessorMode::Abort) => Some(36),
        _ => None,
    }
}

/// Every slot the banking table names is inside the storage.
pub proof fn lemma_slot_in_range(bank: RegisterBank, mode: ProcessorMode)
    ensures
        match spec_slot(bank, mode) {
            Some(i) => i < REGISTER_SLOT_COUNT,
            None => true,
        },
{
}

/// The exec mirror of the banking table.
pub fn slot(bank: RegisterBank, mode: ProcessorMode) -> (r: Option<usize>)
    ensures
        r == spec_slot(bank, mode),
{
    match (bank, mode) {
        (RegisterBank::R0, ProcessorMode::User) => Some(0),
        (RegisterBank::R1, ProcessorMode::User) => Some(1),
        (RegisterBank::R2, ProcessorMode::User) => Some(2),
        (RegisterBank::R3, ProcessorMode::User) => Some(3),
        (RegisterBank::R4, ProcessorMode::User) => Some(4),
        (RegisterBank::R5, ProcessorMode::User) => Some(5),
        (RegisterBank::R6, ProcessorMode::User) => Some(6),
        (RegisterBank::R7, ProcessorMode::User) => Some(7),
        (RegisterBank::R8, ProcessorMode::User) => Some(8),
        (RegisterBank::R9, ProcessorMode::User) => Some(9),
        (RegisterBank::R10, ProcessorMode::User) => Some(10),
        (RegisterBank::R11, ProcessorMode::User) => Some(11),
        (RegisterBank::R12, ProcessorMode::User) => Some(12),
        (RegisterBank::R8, ProcessorMode::FastInterruptRequest) => Some(13),
        (RegisterBank::R9, ProcessorMode::FastInterruptRequest) => Some(14),
        (RegisterBank::R10, ProcessorMode::FastInterruptRequest) => Some(15),
        (RegisterBank::R11, ProcessorMode::FastInterruptRequest) => Some(16),
        (RegisterBank::R12, ProcessorMode::FastInterruptRequest) => Some(17),
        (RegisterBank::R13, ProcessorMode::User) => Some(18),
        (RegisterBank::R13, ProcessorMode::FastInterruptRequest) => Some(19),
        (RegisterBank::R13, ProcessorMode::InterruptRequest) => Some(20),
        (RegisterBank::R13, ProcessorMode::Supervisor) => Some(21),
        (RegisterBank::R13, ProcessorMode::Undefined) => Some(22),
        (RegisterBank::R13, ProcessorMode::Abort) => Some(23),
        (RegisterBank::R14, ProcessorMode::User) => Some(24),
        (RegisterBank::R14, ProcessorMode::FastInterruptRequest) => Some(25),
        (RegisterBank::R14, ProcessorMode::InterruptRequest) => Some(26),
        (RegisterBank::R14, ProcessorMode::Supervisor) => Some(27),
        (RegisterBank::R14, ProcessorMode::Undefined) => Some(28),
        (RegisterBank::R14, ProcessorMode::Abort) => Some(29),
        (RegisterBank::R15, ProcessorMode::User) => Some(30),
        (RegisterBank::CPSR, ProcessorMode::User) => Some(31),
        (RegisterBank::SPSR, ProcessorMode::FastInterruptRequest) => Some(32),
        (RegisterBank::SPSR, ProcessorMode::InterruptRequest) => Some(33),
        (RegisterBank::SPSR, ProcessorMode::Supervisor) => Some(34),
        (RegisterBank::SPSR, ProcessorMode::Undefined) => Some(35),
        (RegisterBank::SPSR, ProcessorMode::Abort) => Some(36),
        _ => None,
    }
}

/// The complete table of physical registers, keyed by the banking table,
/// plus the active mode, which is read from the CPSR on every lookup and
/// never cached.
pub struct RegisterFile {
    pub table: Vec<Register32>,
}

impl RegisterFile {
    /// Well-formed: one storage slot for each entry of the banking table.
    pub open spec fn wf(self) -> bool {
        self.table@.len() == REGISTER_SLOT_COUNT
    }

    /// The mode encoded in the CPSR, if its code is recognized.
    pub open spec fn spec_mode_opt(self) -> Option<ProcessorMode> {
        spec_psr_mode(self.table@[CPSR_SLOT as int].bits)
    }

    /// The active mode; meaningful only under `spec_mode_opt() is Some`.
    pub open spec fn spec_mode(self) -> ProcessorMode {
        match self.spec_mode_opt() {
            Some(m) => m,
            None => ProcessorMode::User,
        }
    }

    /// The slot a lookup of `bank` resolves to: `(bank, current mode)` if it
    /// physically exists, else the `(bank, User)` entry; `None` only for the
    /// SPSR in modes that have none.
    pub open spec fn spec_lookup_slot(self, bank: RegisterBank) -> Option<usize> {
        match spec_slot(bank, self.spec_mode()) {
            Some(i) => Some(i),
            None => spec_slot(bank, ProcessorMode::User),
        }
    }

    /// The value a lookup of `bank` reads, if the register exists.
    pub open spec fn spec_reg(self, bank: RegisterBank) -> Option<u32> {
        match self.spec_lookup_slot(bank) {
            Some(i) => Some(self.table@[i as int].bits),
            None => None,
        }
    }

    pub fn new() -> (rf: RegisterFile)
        ensures
            rf.wf(),
            rf.table@.len() == REGISTER_SLOT_COUNT,
            forall|i: int|
                0 <= i < REGISTER_SLOT_COUNT && i != CPSR_SLOT ==> rf.table@[i].bits == 0,
            rf.table@[CPSR_SLOT as int].bits == 0x13u32,
            rf.spec_mode_opt() == Some(ProcessorMode::Supervisor),
    {
        let mut rf = RegisterFile { table: Vec::new() };
        rf.reset();
        rf
    }

    /// (Re)initializes every entry of the banking table to zero, then puts
    /// the CPSR into Supervisor mode with the base instruction set.
    pub fn reset(&mut self)
        ensures
            final(self).wf(),
            final(self).table@.len() == REGISTER_SLOT_COUNT,
            forall|i: int|
                0 <= i < REGISTER_SLOT_COUNT && i != CPSR_SLOT ==> final(self).table@[i].bits == 0,
            final(self).table@[CPSR_SLOT as int].bits == 0x13u32,
            final(self).spec_mode_opt() == Some(ProcessorMode::Supervisor),
    {
        self.table = Vec::new();
        let mut k: usize = 0;
        while k < REGISTER_SLOT_COUNT
            invariant
                k <= REGISTER_SLOT_COUNT,
                self.table@.len() == k,
                forall|i: int| 0 <= i < k ==> self.table@[i].bits == 0,
            decreases REGISTER_SLOT_COUNT - k,
        {
            self.table.push(Register32 { bits: 0 });
            k = k + 1;
        }
        let cpsr = self.cpsr_mut();
        cpsr.set_mode(ProcessorMode::Supervisor);
        cpsr.set_instruction_set(InstructionSet::ARM);
        proof {
            assert(((0u32 & !0x1fu32) | 0x13u32) == 0x13u32) by (bit_vector);
            assert(spec_set_bit(0x13u32, 5, false) == 0x13u32) by (bit_vector);
        }
    }

    /// The CPSR, which every mode shares.
    pub fn cpsr(&self) -> (r: &Register32)
        requires
            self.wf(),
        ensures
            *r == self.table@[CPSR_SLOT as int],
    {
        &self.table[CPSR_SLOT]
    }

    fn cpsr_mut(&mut self) -> (r: &mut Register32)
        requires
            old(self).wf(),
        ensures
            *r == old(self).table@[CPSR_SLOT as int],
            final(self).table@ == old(self).table@.update(CPSR_SLOT as int, *final(r)),
    {
        &mut self.table[CPSR_SLOT]
    }

    /// The active processor mode, derived from the CPSR's mode field; an
    /// unrecognized code there is a caller contract violation.
    pub fn mode(&self) -> (r: ProcessorMode)
        requires
            self.wf(),
            self.spec_mode_opt() is Some,
        ensures
            r == self.spec_mode(),
    {
        self.cpsr().mode().unwrap()
    }

    /// Whether `(bank, current mode)` physically exists in the banking
    /// table.
    pub fn register_exists(&self, bank: RegisterBank) -> (r: bool)
        requires
            self.wf(),
            self.spec_mode_opt() is Some,
        ensures
            r == (spec_slot(bank, self.spec_mode()) is Some),
    {
        slot(bank, self.mode()).is_some()
    }

    /// Resolves `bank` under the current mode, falling back to the shared
    /// `User` entry; `None` only for the SPSR in a mode that has none.
    pub fn lookup(&self, bank: RegisterBank) -> (r: Option<&Register32>)
        requires
            self.wf(),
            self.spec_mode_opt() is Some,
        ensures
            match self.spec_lookup_slot(bank) {
                Some(i) => r is Some && *r->Some_0 == self.table@[i as int],
                None => r is None,
            },
    {
        proof {
            lemma_slot_in_range(bank, self.spec_mode());
            lemma_slot_in_range(bank, ProcessorMode::User);
        }
        match slot(bank, self.mode()) {
            Some(i) => Some(&self.table[i]),
            None => match slot(bank, ProcessorMode::User) {
                Some(i) => Some(&self.table[i]),
                None => None,
            },
        }
    }

    /// As `lookup`, for mutation.
    pub fn lookup_mut(&mut self, bank: RegisterBank) -> (r: Option<&mut Register32>)
        requires
            old(self).wf(),
            old(self).spec_mode_opt() is Some,
        ensures
            match r {
                Some(reg) => {
                    &&& old(self).spec_lookup_slot(bank) is Some
                    &&& *reg == old(self).table@[old(self).spec_lookup_slot(bank)->Some_0 as int]
                    &&& final(self).table@ == old(self).table@.update(
                        old(self).spec_lookup_slot(bank)->Some_0 as int,
                        *final(reg),
                    )
                },
                None => {
                    &&& old(self).spec_lookup_slot(bank) is None
                    &&& *final(self) == *old(self)
                },
            },
    {
        proof {
            lemma_slot_in_range(bank, old(self).spec_mode());
            lemma_slot_in_range(bank, ProcessorMode::User);
        }
        let m = self.mode();
        match slot(bank, m) {
            Some(i) => Some(&mut self.table[i]),
            None => match slot(bank, ProcessorMode::User) {
                Some(i) => Some(&mut self.table[i]),
                None => None,
            },
        }
    }

    /// The bits a lookup of `bank` resolves to.
    pub fn read_register(&self, bank: RegisterBank) -> (r: Option<u32>)
        requires
            self.wf(),
            self.spec_mode_opt() is Some,
        ensures
            r == self.spec_reg(bank),
    {
        match self.lookup(bank) {
            Some(reg) => Some(reg.bits),
            None => None,
        }
    }

    /// Stores `bits` in the register a lookup of `bank` resolves to;
    /// `false`, with nothing changed, where no such register exists.
    pub fn write_register(&mut self, bank: RegisterBank, bits: u32) -> (r: bool)
        requires
            old(self).wf(),
            old(self).spec_mode_opt() is Some,
        ensures
            r == (old(self).spec_lookup_slot(bank) is Some),
            match old(self).spec_lookup_slot(bank) {
                Some(i) => final(self).table@ == old(self).table@.update(
                    i as int,
                    Register32 { bits },
                ),
                None => *final(self) == *old(self),
            },
    {
        match self.lookup_mut(bank) {
            Some(reg) => {
                reg.bits = bits;
                true
            },
            None => false,
        }
    }

    /// Switches the active mode by rewriting the CPSR's mode field.
    pub fn on_mode_change(&mut self, mode: ProcessorMode)
        requires
            old(self).wf(),
        ensures
            final(self).wf(),
            final(self).table@ == old(self).table@.update(
                CPSR_SLOT as int,
                Register32 {
                    bits: (old(self).table@[CPSR_SLOT as int].bits & !0x1fu32) | spec_mode_code(
                        mode,
                    ),
                },
            ),
            final(self).spec_mode_opt() == Some(mode),
    {
        self.cpsr_mut().set_mode(mode);
    }

    /// Turns one condition flag of the CPSR on.
    pub fn on_condition(&mut self, cf: ConditionFlag)
        requires
            old(self).wf(),
        ensures
            final(self).wf(),
            final(self).table@ == old(self).table@.update(
                CPSR_SLOT as int,
                Register32 {
                    bits: spec_set_bit(
                        old(self).table@[CPSR_SLOT as int].bits,
                        spec_condition_flag_index(cf),
                        true,
                    ),
                },
            ),
    {
        self.cpsr_mut().set_condition_flag(cf, true);
    }
}

/// The banking law: R13 resolves to distinct physical slots under
/// Supervisor and under User, so a value stored through the Supervisor-mode
/// instance never shows through the User-mode instance; R0, which exists
/// only under User, resolves to that single shared slot from every mode.
pub proof fn lemma_r13_banked_r0_shared(rf0: RegisterFile, rf1: RegisterFile, rf2: RegisterFile, v: u32)
    requires
        rf0.wf(),
        rf0.spec_mode_opt() == Some(ProcessorMode::Supervisor),
        // rf1: rf0 after `write_register(R13, v)`
        rf1.table@ == rf0.table@.update(
            rf0.spec_lookup_slot(RegisterBank::R13)->Some_0 as int,
            Register32 { bits: v },
        ),
        // rf2: rf1 after `on_mode_change(User)`
        rf2.table@ == rf1.table@.update(
            CPSR_SLOT as int,
            Register32 {
                bits: (rf1.table@[CPSR_SLOT as int].bits & !0x1fu32) | spec_mode_code(
                    ProcessorMode::User,
                ),
            },
        ),
    ensures
        // the Supervisor-mode write went to the Supervisor-mode slot ...
        rf0.spec_lookup_slot(RegisterBank::R13) == spec_slot(
            RegisterBank::R13,
            ProcessorMode::Supervisor,
        ),
        // ... and a read back under User sees the untouched User-mode slot
        rf2.spec_mode_opt() == Some(ProcessorMode::User),
        rf2.spec_reg(RegisterBank::R13) == Some(
            rf0.table@[spec_slot(RegisterBank::R13, ProcessorMode::User)->Some_0 as int].bits,
        ),
        // R0 reads the one shared slot in both modes, unchanged by either step
        rf0.spec_reg(RegisterBank::R0) == rf2.spec_reg(RegisterBank::R0),
        rf0.spec_lookup_slot(RegisterBank::R0) == spec_slot(RegisterBank::R0, ProcessorMode::User),
        rf2.spec_lookup_slot(RegisterBank::R0) == spec_slot(RegisterBank::R0, ProcessorMode::User),
{
    let b = rf1.table@[CPSR_SLOT as int].bits;
    assert(((b & !0x1fu32) | 0x10u32) & 0x1fu32 == 0x10u32) by (bit_vector);
}

} // verus!

