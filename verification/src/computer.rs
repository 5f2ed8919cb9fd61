//! The execution engine: fetches the word at the program counter,
//! decodes it and dispatches the instruction against the register file
//! and the memory map, reproducing the pipeline's fetch-ahead arithmetic.

use crate::address::{spec_get32, Address, Addressable, Cell, MemMap32};
use crate::processor::{
    spec_addressing_amount, spec_addressing_offset, spec_addressing_wf,
    spec_addressing_writeback, spec_cond_instr_wf, spec_decode, spec_effective_addr,
    spec_effective_addr32, spec_instruction_wf, spec_offset12_base, BarrelShiftOp, CondInstr,
    Condition, Instruction, Processor,
};
use crate::registers::{
    spec_condition_flag_index, spec_psr_mode, spec_set_bit, spec_slot, ConditionFlag,
    ProcessorMode, Register32, RegisterBank, RegisterFile, CPSR_SLOT, REGISTER_SLOT_COUNT,
};
use vstd::prelude::*;

verus! {

/// What can go wrong while fetching, decoding or executing one
/// instruction.  Every error leaves the machine untouched.
#[derive(Clone, Copy, PartialEq, Eq, Structural, Debug)]
pub enum ExecError {
    /// The fetch or a load touched unmapped memory.
    UninitializedMemory,
    /// The fetched word matches no decoding rule.
    UnrecognizedInstruction,
    /// A decoded mnemonic that the execution engine has no handler for.
    UnsupportedInstruction,
    /// A status-register access resolved to no physical register.
    NoSuchRegister,
    /// A status-register write that would leave an unrecognizable mode.
    InvalidModeWrite,
}

/// The computer: one processor, one memory map, one endianness.
pub struct Computer {
    pub cpu: Processor,
    pub mem: MemMap32,
    pub big_endian: bool,
}

// ---------------------------------------------------------------------------
// The machine model
// ---------------------------------------------------------------------------

/// A machine fit to run: a complete register file, a recognizable mode in
/// the CPSR, and the 32-bit memory map's span.
pub open spec fn spec_computer_wf(c: Computer) -> bool {
    &&& c.cpu.register_file.wf()
    &&& c.cpu.register_file.spec_mode_opt() is Some
    &&& c.mem.address_space.end == 0xffffffffu64
}

/// The register table.
pub open spec fn spec_regs(c: Computer) -> Seq<Register32> {
    c.cpu.register_file.table@
}

/// The slot a bank resolves to in the current mode.
pub open spec fn spec_lslot(c: Computer, bank: RegisterBank) -> Option<usize> {
    c.cpu.register_file.spec_lookup_slot(bank)
}

/// The bits a resolvable bank holds.
pub open spec fn spec_rbits(c: Computer, bank: RegisterBank) -> u32 {
    spec_regs(c)[spec_lslot(c, bank)->Some_0 as int].bits
}

/// The program counter's slot: R15 exists only under `User`, so every
/// mode resolves to that one slot.
pub open spec fn spec_pc_slot() -> int {
    spec_slot(RegisterBank::R15, ProcessorMode::User)->Some_0 as int
}

/// The program counter.
pub open spec fn spec_pc(c: Computer) -> u32 {
    spec_regs(c)[spec_pc_slot()].bits
}

/// How every bank resolves, whatever the mode: the general banks and the
/// CPSR always find a slot below the CPSR's; R15 and the CPSR resolve to
/// fixed slots; only the SPSR can fail.
proof fn lemma_bank_slot(rf: RegisterFile, bank: RegisterBank)
    ensures
        bank != RegisterBank::SPSR ==> rf.spec_lookup_slot(bank) is Some,
        rf.spec_lookup_slot(bank) matches Some(i) ==> i < REGISTER_SLOT_COUNT,
        (bank != RegisterBank::CPSR && bank != RegisterBank::SPSR)
            ==> rf.spec_lookup_slot(bank)->Some_0 != CPSR_SLOT,
        bank == RegisterBank::CPSR ==> rf.spec_lookup_slot(bank) == Some(CPSR_SLOT),
        bank == RegisterBank::R15 ==> rf.spec_lookup_slot(bank) == Some(30usize),
        bank == RegisterBank::SPSR && rf.spec_lookup_slot(bank) is Some ==> 32
            <= rf.spec_lookup_slot(bank)->Some_0 < REGISTER_SLOT_COUNT,
{
}

/// A rotate right by `y` places; `y == 0` leaves `x` unchanged.
pub open spec fn spec_ror(x: u32, y: u32) -> u32 {
    if y == 0 {
        x
    } else {
        (x >> y) | (x << ((32 - y) as u32))
    }
}

/// Condition flags Zero and Negative rewritten from `result`; Carry and
/// Overflow are untouched (the shifter-carry update is a known gap).
pub open spec fn spec_flags_zn(cpsr: u32, result: u32) -> u32 {
    spec_set_bit(
        spec_set_bit(cpsr, spec_condition_flag_index(ConditionFlag::Zero), result == 0),
        spec_condition_flag_index(ConditionFlag::Negative),
        result >= 0x80000000,
    )
}

/// Condition evaluation against the CPSR's flags: today unconditionally
/// true, an acknowledged gap of the engine.
pub open spec fn spec_condition_satisfied(cond: Condition) -> bool {
    true
}

/// The register table after dispatching one conditional instruction, or
/// the error that stops it.  All registers are resolved against the
/// pre-state; no handler writes memory.
pub open spec fn spec_dispatch(c: Computer, instr: CondInstr) -> Result<Seq<Register32>, ExecError> {
    let t = spec_regs(c);
    match instr {
        CondInstr::AND { s, rd, rn, rotate, immed } => {
            let v = spec_rbits(c, rn) & spec_ror(immed, (2 * rotate) as u32);
            let t1 = t.update(spec_lslot(c, rd)->Some_0 as int, Register32 { bits: v });
            if s {
                Ok(
                    t1.update(
                        CPSR_SLOT as int,
                        Register32 { bits: spec_flags_zn(t1[CPSR_SLOT as int].bits, v) },
                    ),
                )
            } else {
                Ok(t1)
            }
        },
        CondInstr::ORR { s, rd, rn, rotate, immed } => {
            let v = spec_rbits(c, rn) | spec_ror(immed, (2 * rotate) as u32);
            let t1 = t.update(spec_lslot(c, rd)->Some_0 as int, Register32 { bits: v });
            if s {
                Ok(
                    t1.update(
                        CPSR_SLOT as int,
                        Register32 { bits: spec_flags_zn(t1[CPSR_SLOT as int].bits, v) },
                    ),
                )
            } else {
                Ok(t1)
            }
        },
        CondInstr::BIC { s, rd, rn, rotate, immed } => {
            let v = spec_rbits(c, rn) & !spec_ror(immed, (2 * rotate) as u32);
            let t1 = t.update(spec_lslot(c, rd)->Some_0 as int, Register32 { bits: v });
            if s {
                Ok(
                    t1.update(
                        CPSR_SLOT as int,
                        Register32 { bits: spec_flags_zn(t1[CPSR_SLOT as int].bits, v) },
                    ),
                )
            } else {
                Ok(t1)
            }
        },
        CondInstr::SUB { s, rd, rn, rotate, immed } => {
            let v = vstd::wrapping::u32_specs::wrapping_sub(
                spec_rbits(c, rn),
                spec_ror(immed, (2 * rotate) as u32),
            );
            let t1 = t.update(spec_lslot(c, rd)->Some_0 as int, Register32 { bits: v });
            if s {
                Ok(
                    t1.update(
                        CPSR_SLOT as int,
                        Register32 { bits: spec_flags_zn(t1[CPSR_SLOT as int].bits, v) },
                    ),
                )
            } else {
                Ok(t1)
            }
        },
        CondInstr::TEQ { rn, rotate, immed } => {
            let v = spec_rbits(c, rn) ^ spec_ror(immed, (2 * rotate) as u32);
            Ok(
                t.update(
                    CPSR_SLOT as int,
                    Register32 { bits: spec_flags_zn(t[CPSR_SLOT as int].bits, v) },
                ),
            )
        },
        CondInstr::B(rel_offset) => {
            let target = vstd::wrapping::u32_specs::wrapping_sub(
                vstd::wrapping::u32_specs::wrapping_add_signed(spec_pc(c), rel_offset),
                4,
            );
            Ok(t.update(spec_pc_slot(), Register32 { bits: target }))
        },
        CondInstr::BL(rel_offset) => {
            let ret = vstd::wrapping::u32_specs::wrapping_add(spec_pc(c), 4);
            let t1 = t.update(
                spec_lslot(c, RegisterBank::R14)->Some_0 as int,
                Register32 { bits: ret },
            );
            let target = vstd::wrapping::u32_specs::wrapping_sub(
                vstd::wrapping::u32_specs::wrapping_add_signed(spec_pc(c), rel_offset),
                4,
            );
            Ok(t1.update(spec_pc_slot(), Register32 { bits: target }))
        },
        CondInstr::BX(rm) => {
            let target = vstd::wrapping::u32_specs::wrapping_sub(
                spec_rbits(c, rm) & 0xfffffffeu32,
                4,
            );
            Ok(t.update(spec_pc_slot(), Register32 { bits: target }))
        },
        CondInstr::MRS { rd, psr } => {
            match spec_lslot(c, psr) {
                None => Err(ExecError::NoSuchRegister),
                Some(i) => Ok(
                    t.update(spec_lslot(c, rd)->Some_0 as int, Register32 { bits: t[i as int].bits }),
                ),
            }
        },
        CondInstr::MSR { psr, rm, f, s, x, c: cmask } => {
            let mask = (if cmask {
                0x000000ffu32
            } else {
                0u32
            }) | (if x {
                0x0000ff00u32
            } else {
                0u32
            }) | (if s {
                0x00ff0000u32
            } else {
                0u32
            }) | (if f {
                0xff000000u32
            } else {
                0u32
            });
            match spec_lslot(c, psr) {
                None => Err(ExecError::NoSuchRegister),
                Some(i) => {
                    let nv = (t[i as int].bits & !mask) | (spec_rbits(c, rm) & mask);
                    if i == CPSR_SLOT && spec_psr_mode(nv) is None {
                        Err(ExecError::InvalidModeWrite)
                    } else {
                        Ok(t.update(i as int, Register32 { bits: nv }))
                    }
                },
            }
        },
        CondInstr::LDR { rd, addr_ref } => {
            let base_bank = spec_offset12_base(spec_addressing_offset(addr_ref));
            let base = spec_rbits(c, base_bank);
            let a = spec_effective_addr(base, spec_addressing_amount(addr_ref));
            if a > 0xffff_ffff_ffff_fffcu64 {
                Err(ExecError::UninitializedMemory)
            } else {
                match spec_get32(c.mem, a, c.big_endian) {
                    None => Err(ExecError::UninitializedMemory),
                    Some(word) => {
                        let t1 = if spec_addressing_writeback(addr_ref) {
                            t.update(
                                spec_lslot(c, base_bank)->Some_0 as int,
                                Register32 {
                                    bits: spec_effective_addr32(
                                        base,
                                        spec_addressing_amount(addr_ref),
                                    ),
                                },
                            )
                        } else {
                            t
                        };
                        Ok(
                            t1.update(
                                spec_lslot(c, rd)->Some_0 as int,
                                Register32 { bits: word },
                            ),
                        )
                    },
                }
            }
        },
        CondInstr::MOV { s, rd, shift_op } => {
            match shift_op {
                BarrelShiftOp::RotateImmed { immed, rotate } => Ok(
                    t.update(
                        spec_lslot(c, rd)->Some_0 as int,
                        Register32 { bits: spec_ror(immed, rotate) },
                    ),
                ),
                // shifted-register forms: a not-yet-implemented no-op
                _ => Ok(t),
            }
        },
        // coprocessor instructions: explicitly unimplemented no-ops
        CondInstr::MCR { .. } => Ok(t),
        CondInstr::MRC { .. } => Ok(t),
        // block store: a not-yet-implemented no-op
        CondInstr::STMDB { .. } => Ok(t),
        _ => Err(ExecError::UnsupportedInstruction),
    }
}

/// The register table after the blanket program-counter increment.
pub open spec fn spec_bump_pc(t: Seq<Register32>) -> Seq<Register32> {
    t.update(
        spec_pc_slot(),
        Register32 {
            bits: vstd::wrapping::u32_specs::wrapping_add(t[spec_pc_slot()].bits, 4),
        },
    )
}

/// The register table after executing one whole instruction: dispatch if
/// the condition holds, then the blanket increment — which the branch
/// handlers cancel exactly by aiming four below their target.
pub open spec fn spec_execute(c: Computer, instr: Instruction) -> Result<
    Seq<Register32>,
    ExecError,
> {
    match instr {
        Instruction::Cond(ci, cond) => if spec_condition_satisfied(cond) {
            match spec_dispatch(c, ci) {
                Ok(t) => Ok(spec_bump_pc(t)),
                Err(e) => Err(e),
            }
        } else {
            Ok(spec_bump_pc(spec_regs(c)))
        },
        Instruction::Uncond(_) => Ok(spec_bump_pc(spec_regs(c))),
    }
}

/// Fetching and decoding the word at `addr`: unmapped memory and
/// unrecognized words are soft errors.
pub open spec fn spec_instruction_at(c: Computer, addr: Address) -> Result<
    Instruction,
    ExecError,
> {
    match spec_get32(c.mem, addr, c.big_endian) {
        None => Err(ExecError::UninitializedMemory),
        Some(word) => match spec_decode(word) {
            None => Err(ExecError::UnrecognizedInstruction),
            Some(instr) => Ok(instr),
        },
    }
}

/// Rewriting the Zero and Negative flags leaves the mode field alone.
proof fn lemma_flags_keep_mode(b: u32, v: u32)
    ensures
        spec_psr_mode(spec_flags_zn(b, v)) == spec_psr_mode(b),
{
    let z = v == 0;
    let n = v >= 0x80000000;
    assert(spec_set_bit(spec_set_bit(b, 30u8, z), 31u8, n) & 0x1fu32 == b & 0x1fu32)
        by (bit_vector);
}

/// The sign bit read as a two's-complement comparison.
proof fn lemma_sign_bit(v: u32)
    by (bit_vector)
    ensures
        ((v as i32) < 0) == (v >= 0x80000000),
{
}

// ---------------------------------------------------------------------------
// The engine
// ---------------------------------------------------------------------------

impl Computer {
    /// A machine with `boot_code` leased as read-only memory at address
    /// zero and a freshly reset register file.
    pub fn new(boot_code: Vec<Cell>) -> (c: Computer)
        requires
            boot_code@.len() < 0x10000,
        ensures
            spec_computer_wf(c),
            c.big_endian == false,
            c.cpu.register_file.spec_mode_opt() == Some(ProcessorMode::Supervisor),
            spec_pc(c) == 0,
            forall|i: int|
                0 <= i < REGISTER_SLOT_COUNT && i != CPSR_SLOT ==> spec_regs(c)[i].bits == 0,
            spec_regs(c)[CPSR_SLOT as int].bits == 0x13u32,
            forall|a: Address|
                c.mem.address_space.spec_get(a) == crate::address::spec_memmap32_cell(
                    boot_code@,
                    a,
                ),
            forall|a: Address|
                c.mem.address_space.spec_writable(a) == crate::address::spec_memmap32_writable(a),
    {
        let c = Computer {
            cpu: Processor::new(),
            mem: MemMap32::new(boot_code),
            big_endian: false,
        };
        proof {
            lemma_bank_slot(c.cpu.register_file, RegisterBank::R15);
        }
        c
    }

    /// Fetch and decode the word at `addr` without executing it; the
    /// address must be word-aligned and inside the map.
    pub fn instruction_at(&self, addr: Address) -> (r: Result<Instruction, ExecError>)
        requires
            addr % 4 == 0,
            addr <= self.mem.address_space.end,
            addr + 3 <= 0xffff_ffff_ffff_ffffu64,
        ensures
            r == spec_instruction_at(*self, addr),
            r matches Ok(i) ==> spec_instruction_wf(i),
    {
        match self.mem.get32(addr, self.big_endian) {
            None => Err(ExecError::UninitializedMemory),
            Some(word) => match self.cpu.decode_instruction(word) {
                None => Err(ExecError::UnrecognizedInstruction),
                Some(instr) => Ok(instr),
            },
        }
    }

    /// Advance the machine by exactly one instruction: fetch at the
    /// program counter, decode, dispatch, and apply the blanket counter
    /// increment.  Every error leaves the machine untouched.  In
    /// particular a branch lands exactly on its target: the handler's
    /// deliberate overshoot by minus four and the increment cancel.
    pub fn execute_next_instruction(&mut self) -> (r: Result<(), ExecError>)
        requires
            spec_computer_wf(*old(self)),
            spec_pc(*old(self)) % 4 == 0,
        ensures
            final(self).mem == old(self).mem,
            final(self).big_endian == old(self).big_endian,
            match spec_instruction_at(*old(self), spec_pc(*old(self)) as Address) {
                Err(e) => r == Err::<(), ExecError>(e) && *final(self) == *old(self),
                Ok(instr) => match spec_execute(*old(self), instr) {
                    Ok(t) => r is Ok && spec_regs(*final(self)) == t && spec_computer_wf(
                        *final(self),
                    ),
                    Err(e) => r == Err::<(), ExecError>(e) && *final(self) == *old(self),
                },
            },
            match spec_instruction_at(*old(self), spec_pc(*old(self)) as Address) {
                Ok(Instruction::Cond(CondInstr::B(rel), _)) => r is Ok && spec_pc(*final(self))
                    == vstd::wrapping::u32_specs::wrapping_add_signed(spec_pc(*old(self)), rel),
                _ => true,
            },
    {
        let pc_addr = self.program_counter() as Address;
        match self.instruction_at(pc_addr) {
            Err(e) => Err(e),
            Ok(instr) => {
                let res = self.execute(instr);
                proof {
                    match instr {
                        Instruction::Cond(ci, _) => match ci {
                            CondInstr::B(rel) => {
                                let pc0 = spec_pc(*old(self));
                                let t = spec_dispatch(*old(self), ci)->Ok_0;
                                assert(spec_regs(*self) == spec_bump_pc(t));
                                assert(t[spec_pc_slot()].bits
                                    == vstd::wrapping::u32_specs::wrapping_sub(
                                    vstd::wrapping::u32_specs::wrapping_add_signed(pc0, rel),
                                    4,
                                ));
                                assert(spec_pc(*self)
                                    == vstd::wrapping::u32_specs::wrapping_add_signed(pc0, rel));
                            },
                            _ => {},
                        },
                        _ => {},
                    }
                }
                res
            },
        }
    }

    /// The bits a resolvable bank currently holds.
    fn reg_bits(&self, bank: RegisterBank) -> (r: u32)
        requires
            spec_computer_wf(*self),
            spec_lslot(*self, bank) is Some,
        ensures
            r == spec_rbits(*self, bank),
    {
        self.cpu.register_file.read_register(bank).unwrap()
    }

    /// Store `bits` in a resolvable bank.
    fn set_reg(&mut self, bank: RegisterBank, bits: u32)
        requires
            spec_computer_wf(*old(self)),
            spec_lslot(*old(self), bank) is Some,
        ensures
            final(self).cpu.register_file.wf(),
            final(self).mem == old(self).mem,
            final(self).big_endian == old(self).big_endian,
            spec_regs(*final(self)) == spec_regs(*old(self)).update(
                spec_lslot(*old(self), bank)->Some_0 as int,
                Register32 { bits },
            ),
    {
        let _ok = self.cpu.register_file.write_register(bank, bits);
    }

    /// The program counter's current value.
    fn program_counter(&self) -> (r: u32)
        requires
            spec_computer_wf(*self),
        ensures
            r == spec_pc(*self),
    {
        proof {
            lemma_bank_slot(self.cpu.register_file, RegisterBank::R15);
        }
        self.reg_bits(RegisterBank::R15)
    }

    /// Dispatch one whole instruction: the conditional body if its
    /// condition holds, then the blanket program-counter increment.
    fn execute(&mut self, instr: Instruction) -> (r: Result<(), ExecError>)
        requires
            spec_computer_wf(*old(self)),
            spec_instruction_wf(instr),
        ensures
            final(self).mem == old(self).mem,
            final(self).big_endian == old(self).big_endian,
            match spec_execute(*old(self), instr) {
                Ok(t) => r is Ok && spec_regs(*final(self)) == t && spec_computer_wf(
                    *final(self),
                ),
                Err(e) => r == Err::<(), ExecError>(e) && *final(self) == *old(self),
            },
    {
        let step: Result<(), ExecError> = match instr {
            Instruction::Cond(ci, cond) => {
                if self.condition_satisfied(cond) {
                    self.execute_conditional(&ci)
                } else {
                    Ok(())
                }
            },
            Instruction::Uncond(_) => Ok(()),
        };
        match step {
            Err(e) => Err(e),
            Ok(_) => {
                proof {
                    lemma_bank_slot(self.cpu.register_file, RegisterBank::R15);
                }
                let ghost mid = *self;
                let pc = self.program_counter();
                self.set_reg(RegisterBank::R15, pc.wrapping_add(4));
                proof {
                    assert(spec_regs(*self)[CPSR_SLOT as int] == spec_regs(mid)[CPSR_SLOT as int]);
                }
                Ok(())
            },
        }
    }

    /// One conditional instruction's semantics against registers and
    /// memory.  Data-processing writes its destination and, under the `s`
    /// flag, the Zero and Negative flags; branches aim four below their
    /// target to cancel the blanket increment; loads read through the
    /// memory map.  Errors leave the machine untouched.
    fn execute_conditional(&mut self, instr: &CondInstr) -> (r: Result<(), ExecError>)
        requires
            spec_computer_wf(*old(self)),
            spec_cond_instr_wf(*instr),
        ensures
            final(self).mem == old(self).mem,
            final(self).big_endian == old(self).big_endian,
            spec_computer_wf(*final(self)),
            match spec_dispatch(*old(self), *instr) {
                Ok(t) => r is Ok && spec_regs(*final(self)) == t,
                Err(e) => r == Err::<(), ExecError>(e) && *final(self) == *old(self),
            },
    {
        let ghost c0 = *old(self);
        match *instr {
            CondInstr::AND { s, rd, rn, rotate, immed } => {
                proof {
                    lemma_bank_slot(c0.cpu.register_file, rn);
                    lemma_bank_slot(c0.cpu.register_file, rd);
                }
                let v = self.reg_bits(rn) & Self::ror(immed, 2 * rotate);
                self.set_reg(rd, v);
                if s {
                    self.update_flags_zn(v);
                }
                Ok(())
            },
            CondInstr::ORR { s, rd, rn, rotate, immed } => {
                proof {
                    lemma_bank_slot(c0.cpu.register_file, rn);
                    lemma_bank_slot(c0.cpu.register_file, rd);
                }
                let v = self.reg_bits(rn) | Self::ror(immed, 2 * rotate);
                self.set_reg(rd, v);
                if s {
                    self.update_flags_zn(v);
                }
                Ok(())
            },
            CondInstr::BIC { s, rd, rn, rotate, immed } => {
                proof {
                    lemma_bank_slot(c0.cpu.register_file, rn);
                    lemma_bank_slot(c0.cpu.register_file, rd);
                }
                let v = self.reg_bits(rn) & !Self::ror(immed, 2 * rotate);
                self.set_reg(rd, v);
                if s {
                    self.update_flags_zn(v);
                }
                Ok(())
            },
            CondInstr::SUB { s, rd, rn, rotate, immed } => {
                proof {
                    lemma_bank_slot(c0.cpu.register_file, rn);
                    lemma_bank_slot(c0.cpu.register_file, rd);
                }
                let v = self.reg_bits(rn).wrapping_sub(Self::ror(immed, 2 * rotate));
                self.set_reg(rd, v);
                if s {
                    self.update_flags_zn(v);
                }
                Ok(())
            },
            CondInstr::TEQ { rn, rotate, immed } => {
                proof {
                    lemma_bank_slot(c0.cpu.register_file, rn);
                }
                // the result serves flag-setting only and is discarded
                let v = self.reg_bits(rn) ^ Self::ror(immed, 2 * rotate);
                self.update_flags_zn(v);
                Ok(())
            },
            CondInstr::B(rel_offset) => {
                proof {
                    lemma_bank_slot(c0.cpu.register_file, RegisterBank::R15);
                }
                let pc = self.program_counter();
                // overshoot by minus four; the blanket increment undoes it
                let target = pc.wrapping_add_signed(rel_offset).wrapping_sub(4);
                self.set_reg(RegisterBank::R15, target);
                Ok(())
            },
            CondInstr::BL(rel_offset) => {
                proof {
                    lemma_bank_slot(c0.cpu.register_file, RegisterBank::R14);
                    lemma_bank_slot(c0.cpu.register_file, RegisterBank::R15);
                }
                let pc = self.program_counter();
                let ret = pc.wrapping_add(4);
                self.set_reg(RegisterBank::R14, ret);
                proof {
                    assert(spec_regs(*self)[CPSR_SLOT as int] == spec_regs(c0)[CPSR_SLOT as int]);
                    lemma_bank_slot(self.cpu.register_file, RegisterBank::R15);
                }
                let target = pc.wrapping_add_signed(rel_offset).wrapping_sub(4);
                self.set_reg(RegisterBank::R15, target);
                Ok(())
            },
            CondInstr::BX(rm) => {
                proof {
                    lemma_bank_slot(c0.cpu.register_file, rm);
                    lemma_bank_slot(c0.cpu.register_file, RegisterBank::R15);
                }
                // clear bit 0; the instruction-set switch it encodes is a
                // known gap
                let v = self.reg_bits(rm) & 0xfffffffeu32;
                self.set_reg(RegisterBank::R15, v.wrapping_sub(4));
                Ok(())
            },
            CondInstr::MRS { rd, psr } => {
                proof {
                    lemma_bank_slot(c0.cpu.register_file, psr);
                    lemma_bank_slot(c0.cpu.register_file, rd);
                }
                match self.cpu.register_file.read_register(psr) {
                    None => Err(ExecError::NoSuchRegister),
                    Some(_) => {
                        self.copy_register(rd, psr);
                        proof {
                            assert(spec_regs(*self)[CPSR_SLOT as int] == spec_regs(
                                c0,
                            )[CPSR_SLOT as int]);
                        }
                        Ok(())
                    },
                }
            },
            CondInstr::MSR { psr, rm, f, s, x, c: cmask } => {
                proof {
                    lemma_bank_slot(c0.cpu.register_file, psr);
                    lemma_bank_slot(c0.cpu.register_file, rm);
                }
                match self.cpu.register_file.read_register(psr) {
                    None => Err(ExecError::NoSuchRegister),
                    Some(psr_bits) => {
                        let rm_bits = self.reg_bits(rm);
                        let mask: u32 = (if cmask {
                            0x000000ffu32
                        } else {
                            0u32
                        }) | (if x {
                            0x0000ff00u32
                        } else {
                            0u32
                        }) | (if s {
                            0x00ff0000u32
                        } else {
                            0u32
                        }) | (if f {
                            0xff000000u32
                        } else {
                            0u32
                        });
                        let nv = (psr_bits & !mask) | (rm_bits & mask);
                        match psr {
                            RegisterBank::CPSR => {
                                // a control write must leave a recognizable
                                // mode behind
                                let candidate = Register32 { bits: nv };
                                if candidate.mode().is_none() {
                                    Err(ExecError::InvalidModeWrite)
                                } else {
                                    self.set_reg(RegisterBank::CPSR, nv);
                                    Ok(())
                                }
                            },
                            _ => {
                                self.set_reg(psr, nv);
                                proof {
                                    assert(spec_regs(*self)[CPSR_SLOT as int] == spec_regs(
                                        c0,
                                    )[CPSR_SLOT as int]);
                                }
                                Ok(())
                            },
                        }
                    },
                }
            },
            CondInstr::LDR { rd, addr_ref } => {
                let base_bank = addr_ref.get_base();
                proof {
                    lemma_bank_slot(c0.cpu.register_file, base_bank);
                    lemma_bank_slot(c0.cpu.register_file, rd);
                }
                let base = self.reg_bits(base_bank);
                let rn_val = Register32 { bits: base };
                let a = addr_ref.get_addr(&rn_val);
                if a > 0xffff_ffff_ffff_fffcu64 {
                    Err(ExecError::UninitializedMemory)
                } else {
                    match self.mem.get32(a, self.big_endian) {
                        None => Err(ExecError::UninitializedMemory),
                        Some(word) => {
                            let mut rn_mut = Register32 { bits: base };
                            addr_ref.handle_writeback(&mut rn_mut);
                            self.set_reg(base_bank, rn_mut.bits);
                            proof {
                                assert(spec_regs(*self)[CPSR_SLOT as int] == spec_regs(
                                    c0,
                                )[CPSR_SLOT as int]);
                                assert(self.cpu.register_file.spec_mode_opt()
                                    == c0.cpu.register_file.spec_mode_opt());
                                if !spec_addressing_writeback(addr_ref) {
                                    assert(spec_regs(c0)[spec_lslot(c0, base_bank)->Some_0 as int]
                                        == Register32 { bits: base });
                                    assert(spec_regs(*self) =~= spec_regs(c0));
                                }
                            }
                            self.set_reg(rd, word);
                            proof {
                                assert(spec_regs(*self)[CPSR_SLOT as int] == spec_regs(
                                    c0,
                                )[CPSR_SLOT as int]);
                            }
                            Ok(())
                        },
                    }
                }
            },
            CondInstr::MOV { s: _, rd, shift_op } => {
                match shift_op {
                    BarrelShiftOp::RotateImmed { immed, rotate } => {
                        proof {
                            lemma_bank_slot(c0.cpu.register_file, rd);
                        }
                        let v = Self::ror(immed, rotate);
                        self.set_reg(rd, v);
                        Ok(())
                    },
                    // shifted-register forms are not yet implemented; a
                    // deliberate no-op
                    _ => Ok(()),
                }
            },
            // coprocessor instructions: explicitly unimplemented no-ops
            CondInstr::MCR { .. } => Ok(()),
            CondInstr::MRC { .. } => Ok(()),
            // block store: not yet implemented, deliberately a no-op
            CondInstr::STMDB { .. } => Ok(()),
            _ => Err(ExecError::UnsupportedInstruction),
        }
    }

    /// Rewrite the CPSR's Zero and Negative flags from `result`.
    fn update_flags_zn(&mut self, result: u32)
        requires
            spec_computer_wf(*old(self)),
        ensures
            spec_computer_wf(*final(self)),
            final(self).mem == old(self).mem,
            final(self).big_endian == old(self).big_endian,
            spec_regs(*final(self)) == spec_regs(*old(self)).update(
                CPSR_SLOT as int,
                Register32 {
                    bits: spec_flags_zn(spec_regs(*old(self))[CPSR_SLOT as int].bits, result),
                },
            ),
    {
        proof {
            lemma_bank_slot(self.cpu.register_file, RegisterBank::CPSR);
        }
        let b = self.reg_bits(RegisterBank::CPSR);
        let mut cpsr = Register32 { bits: b };
        cpsr.set_condition_flag(ConditionFlag::Zero, result == 0);
        cpsr.set_condition_flag(ConditionFlag::Negative, (result as i32) < 0);
        proof {
            lemma_sign_bit(result);
            assert(cpsr.bits == spec_flags_zn(b, result));
            lemma_flags_keep_mode(b, result);
        }
        self.set_reg(RegisterBank::CPSR, cpsr.bits);
    }

    /// Condition evaluation against the CPSR flags: unconditionally true
    /// today, a documented gap.
    fn condition_satisfied(&self, cond: Condition) -> (r: bool)
        ensures
            r == spec_condition_satisfied(cond),
    {
        true
    }

    /// Rotate right; a zero amount leaves the value unchanged.
    fn ror(x: u32, y: u32) -> (r: u32)
        requires
            y < 32,
        ensures
            r == spec_ror(x, y),
    {
        if y == 0 {
            x
        } else {
            (x >> y) | (x << (32 - y))
        }
    }

    /// Copy one resolvable register's bits into another.
    fn copy_register(&mut self, dest: RegisterBank, src: RegisterBank)
        requires
            spec_computer_wf(*old(self)),
            spec_lslot(*old(self), dest) is Some,
            spec_lslot(*old(self), src) is Some,
        ensures
            final(self).cpu.register_file.wf(),
            final(self).mem == old(self).mem,
            final(self).big_endian == old(self).big_endian,
            spec_regs(*final(self)) == spec_regs(*old(self)).update(
                spec_lslot(*old(self), dest)->Some_0 as int,
                Register32 { bits: spec_rbits(*old(self), src) },
            ),
    {
        let bits = self.reg_bits(src);
        self.set_reg(dest, bits);
    }
}

} // verus!
