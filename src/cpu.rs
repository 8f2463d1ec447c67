//! Register file, condition evaluation, and the ARM and Thumb
//! decode/execute engines with the step driver that ties them to the bus.
use vstd::prelude::*;

use vstd::arithmetic::div_mod::lemma_add_mod_noop;

use crate::{lemma_and_le, lemma_and_le16};
use crate::memory::{MemView, Memory};

verus! {

/// Processor operating modes; `bits` gives each one's 5-bit encoding.
#[derive(Debug, Clone, Copy, PartialEq, Eq, Structural)]
pub enum CpuMode {
    User,
    Fiq,
    Irq,
    Supervisor,
    Abort,
    Undefined,
    System,
}

impl CpuMode {
    /// The mode's 5-bit encoding in the flags word.
    pub fn bits(self) -> (r: u32)
        ensures
            r == match self {
                CpuMode::User => 0x10u32,
                CpuMode::Fiq => 0x11u32,
                CpuMode::Irq => 0x12u32,
                CpuMode::Supervisor => 0x13u32,
                CpuMode::Abort => 0x17u32,
                CpuMode::Undefined => 0x1Bu32,
                CpuMode::System => 0x1Fu32,
            },
    {
        match self {
            CpuMode::User => 0x10,
            CpuMode::Fiq => 0x11,
            CpuMode::Irq => 0x12,
            CpuMode::Supervisor => 0x13,
            CpuMode::Abort => 0x17,
            CpuMode::Undefined => 0x1B,
            CpuMode::System => 0x1F,
        }
    }
}

/// Abstract processor state. `regs` holds the sixteen architectural
/// registers as stored: r0-r12, then the stack pointer (13), the link
/// register (14) and the program counter (15).
#[verifier::ext_equal]
pub struct CpuView {
    pub regs: Seq<u32>,
    pub cpsr: u32,
    pub spsr: Seq<u32>,
    pub mode: CpuMode,
    pub thumb: bool,
}

/// Reduction of an integer to 32 bits, two's-complement style.
pub open spec fn wrap32(x: int) -> u32 {
    (x % 0x1_0000_0000) as u32
}

pub open spec fn flag(cpsr: u32, bit: u32) -> bool {
    (cpsr >> bit) & 1 == 1
}

/// The condition table shared by both encodings.
pub open spec fn condition_passes(code: u32, n: bool, z: bool, c: bool, v: bool) -> bool {
    if code == 0x0 {
        z
    } else if code == 0x1 {
        !z
    } else if code == 0x2 {
        c
    } else if code == 0x3 {
        !c
    } else if code == 0x4 {
        n
    } else if code == 0x5 {
        !n
    } else if code == 0x6 {
        v
    } else if code == 0x7 {
        !v
    } else if code == 0x8 {
        c && !z
    } else if code == 0x9 {
        !c || z
    } else if code == 0xA {
        n == v
    } else if code == 0xB {
        n != v
    } else if code == 0xC {
        !z && n == v
    } else if code == 0xD {
        z || n != v
    } else {
        code == 0xE
    }
}

impl CpuView {
    pub open spec fn pc(self) -> u32 {
        self.regs[15]
    }

    pub open spec fn lr(self) -> u32 {
        self.regs[14]
    }

    pub open spec fn n(self) -> bool {
        flag(self.cpsr, 31)
    }

    pub open spec fn z(self) -> bool {
        flag(self.cpsr, 30)
    }

    pub open spec fn c(self) -> bool {
        flag(self.cpsr, 29)
    }

    pub open spec fn v(self) -> bool {
        flag(self.cpsr, 28)
    }

    pub open spec fn passes(self, code: u32) -> bool {
        condition_passes(code, self.n(), self.z(), self.c(), self.v())
    }

    /// Register `r` read as an operand: the program counter reads eight
    /// bytes ahead.
    pub open spec fn operand(self, r: int) -> u32 {
        if r == 15 {
            self.pc().wrapping_add(8)
        } else {
            self.regs[r]
        }
    }

    /// Stores `v` into slot `r` as it is.
    pub open spec fn with_slot(self, r: int, v: u32) -> CpuView {
        CpuView { regs: self.regs.update(r, v), ..self }
    }

    /// Register write: the program counter drops its two low bits.
    pub open spec fn with_register(self, r: int, v: u32) -> CpuView {
        self.with_slot(r, if r == 15 { v & !3u32 } else { v })
    }

    pub open spec fn with_cpsr(self, cpsr: u32) -> CpuView {
        CpuView { cpsr, ..self }
    }
}

/// State at reset: entry at the cartridge, stack in internal work RAM,
/// System mode, ARM encoding.
pub open spec fn reset_state() -> CpuView {
    CpuView {
        regs: Seq::new(13, |_i: int| 0u32) + seq![0x0300_7F00u32, 0u32, 0x0800_0000u32],
        cpsr: 0x1F,
        spsr: Seq::new(5, |_i: int| 0u32),
        mode: CpuMode::System,
        thumb: false,
    }
}

/// `x` rotated right by `r` bit positions.
pub open spec fn ror(x: u32, r: u32) -> u32 {
    if r == 0 {
        x
    } else {
        (x >> r) | (x << ((32 - r) as u32))
    }
}

/// Second operand of a data-processing instruction: a rotated 8-bit
/// immediate, or an unshifted register.
pub open spec fn arm_operand2(s: CpuView, instr: u32) -> u32 {
    if (instr >> 25u32) & 1 == 1 {
        ror(instr & 0xFF, (((instr >> 8u32) & 0xF) * 2) as u32)
    } else {
        s.operand((instr & 0xF) as int)
    }
}

/// Signed value of the 24-bit branch field.
pub open spec fn arm_branch_offset(instr: u32) -> int {
    let f = instr & 0x00FF_FFFF;
    if f >= 0x80_0000 {
        f - 0x100_0000
    } else {
        f as int
    }
}

pub open spec fn arm_branch(s: CpuView, instr: u32) -> CpuView {
    let linked = if (instr >> 24u32) & 1 == 1 {
        s.with_slot(14, s.pc())
    } else {
        s
    };
    linked.with_slot(15, wrap32(s.pc() + 4 * arm_branch_offset(instr) + 4))
}

pub open spec fn arm_transfer(s: CpuView, m: MemView, instr: u32) -> (CpuView, MemView) {
    let load = (instr >> 20u32) & 1 == 1;
    let byte = (instr >> 22u32) & 1 == 1;
    let up = (instr >> 23u32) & 1 == 1;
    let pre = (instr >> 24u32) & 1 == 1;
    let writeback = (instr >> 21u32) & 1 == 1;
    let rd = ((instr >> 12u32) & 0xF) as int;
    let rn = ((instr >> 16u32) & 0xF) as int;
    let base = s.operand(rn);
    let offset = if (instr >> 25u32) & 1 == 1 {
        0u32
    } else {
        instr & 0xFFF
    };
    let moved = if up {
        base.wrapping_add(offset)
    } else {
        base.wrapping_sub(offset)
    };
    let address = if pre {
        moved
    } else {
        base
    };
    let (s1, m1) = if load {
        let value = if byte {
            m.load_byte(address) as u32
        } else {
            m.load_word(address)
        };
        (s.with_register(rd, value), m)
    } else {
        let value = s.operand(rd);
        (s, if byte {
            m.store_byte(address, value as u8)
        } else {
            m.store_word(address, value)
        })
    };
    if !pre || writeback {
        (s1.with_register(rn, moved), m1)
    } else {
        (s1, m1)
    }
}

/// Flags word after a compare of `a` with `b`: the four condition bits are
/// rebuilt from scratch (Z if the difference is zero, N from its bit 31, C
/// when `a >= b`, V clear); the low 28 bits are kept.
pub open spec fn compare_flags(cpsr: u32, a: u32, b: u32) -> u32 {
    let d = a.wrapping_sub(b);
    (cpsr & 0x0FFF_FFFF) | (if d == 0 { 0x4000_0000u32 } else { 0 }) | (if d & 0x8000_0000 != 0 {
        0x8000_0000u32
    } else {
        0
    }) | (if a >= b { 0x2000_0000u32 } else { 0 })
}

pub open spec fn arm_data_processing(s: CpuView, instr: u32) -> CpuView {
    let opcode = (instr >> 21u32) & 0xF;
    let rd = ((instr >> 12u32) & 0xF) as int;
    let rn = ((instr >> 16u32) & 0xF) as int;
    let op2 = arm_operand2(s, instr);
    if opcode == 0xD {
        s.with_register(rd, op2)
    } else if opcode == 0x4 {
        s.with_register(rd, s.operand(rn).wrapping_add(op2))
    } else if opcode == 0x2 {
        s.with_register(rd, s.operand(rn).wrapping_sub(op2))
    } else if opcode == 0xA {
        s.with_cpsr(compare_flags(s.cpsr, s.operand(rn), op2))
    } else {
        s
    }
}

/// One ARM instruction, with the program counter already advanced.
pub open spec fn arm_execute(s: CpuView, m: MemView, instr: u32) -> (CpuView, MemView) {
    if !s.passes((instr >> 28u32) & 0xF) {
        (s, m)
    } else if (instr >> 25u32) & 0x7 == 0x5 {
        (arm_branch(s, instr), m)
    } else if (instr >> 26u32) & 0x3 == 0x1 {
        arm_transfer(s, m, instr)
    } else {
        (arm_data_processing(s, instr), m)
    }
}

/// Signed value of the 11-bit field of a Thumb branch.
pub open spec fn thumb_offset11(instr: u16) -> int {
    let f = instr & 0x7FF;
    if f >= 0x400 {
        f - 0x800
    } else {
        f as int
    }
}

/// Signed value of the 8-bit field of a Thumb conditional branch.
pub open spec fn thumb_offset8(instr: u16) -> int {
    let f = instr & 0xFF;
    if f >= 0x80 {
        f - 0x100
    } else {
        f as int
    }
}

/// One Thumb instruction, with the program counter already advanced.
pub open spec fn thumb_execute(s: CpuView, instr: u16) -> CpuView {
    let format = (instr >> 11u16) & 0x1F;
    if format == 0x1C {
        s.with_slot(15, wrap32(s.pc() + 2 * thumb_offset11(instr) + 2))
    } else if format == 0x1A || format == 0x1B {
        let code = ((instr >> 8u16) & 0xF) as u32;
        if code != 0xF && s.passes(code) {
            s.with_slot(15, wrap32(s.pc() + 2 * thumb_offset8(instr) + 2))
        } else {
            s
        }
    } else if format == 0x1E {
        s.with_slot(14, wrap32(s.pc() + 0x1000 * thumb_offset11(instr) + 2))
    } else if format == 0x1F {
        s.with_slot(14, s.pc() | 1).with_slot(15, wrap32(s.lr() + 2 * (instr & 0x7FF)))
    } else if format == 0x4 {
        s.with_slot(((instr >> 8u16) & 0x7) as int, (instr & 0xFF) as u32)
    } else {
        s
    }
}

/// Fetch at the program counter in the active encoding, advance it by the
/// instruction's width, then execute.
pub open spec fn cpu_step(s: CpuView, m: MemView) -> (CpuView, MemView) {
    if s.thumb {
        (thumb_execute(s.with_slot(15, s.pc().wrapping_add(2)), m.load_half(s.pc())), m)
    } else {
        arm_execute(s.with_slot(15, s.pc().wrapping_add(4)), m, m.load_word(s.pc()))
    }
}

proof fn lemma_flag_bits(cpsr: u32, z: u32, n: u32, c: u32)
    requires
        z == 0 || z == 0x4000_0000,
        n == 0 || n == 0x8000_0000,
        c == 0 || c == 0x2000_0000,
    ensures
        ({
            let f = (cpsr & 0x0FFF_FFFF) | z | n | c;
            &&& flag(f, 31) == (n != 0)
            &&& flag(f, 30) == (z != 0)
            &&& flag(f, 29) == (c != 0)
            &&& !flag(f, 28)
            &&& f & 0x0FFF_FFFF == cpsr & 0x0FFF_FFFF
        }),
{
    assert({
        let f = (cpsr & 0x0FFF_FFFF) | z | n | c;
        &&& ((f >> 31u32) & 1 == 1) == (n != 0)
        &&& ((f >> 30u32) & 1 == 1) == (z != 0)
        &&& ((f >> 29u32) & 1 == 1) == (c != 0)
        &&& !((f >> 28u32) & 1 == 1)
        &&& f & 0x0FFF_FFFF == cpsr & 0x0FFF_FFFF
    }) by (bit_vector)
        requires
            z == 0 || z == 0x4000_0000,
            n == 0 || n == 0x8000_0000,
            c == 0 || c == 0x2000_0000,
    ;
}

/// A compare rebuilds all four condition flags from its operands alone (Z
/// when they are equal, N from bit 31 of their difference, C when the first
/// is not below the second, V clear), whatever they were before, and keeps
/// the rest of the flags word.
pub proof fn lemma_compare_flags(cpsr: u32, a: u32, b: u32)
    ensures
        ({
            let f = compare_flags(cpsr, a, b);
            &&& flag(f, 30) == (a == b)
            &&& flag(f, 31) == (a.wrapping_sub(b) & 0x8000_0000 != 0)
            &&& flag(f, 29) == (a >= b)
            &&& !flag(f, 28)
            &&& f & 0x0FFF_FFFF == cpsr & 0x0FFF_FFFF
        }),
{
    let d = a.wrapping_sub(b);
    lemma_flag_bits(
        cpsr,
        if d == 0 { 0x4000_0000u32 } else { 0 },
        if d & 0x8000_0000 != 0 { 0x8000_0000u32 } else { 0 },
        if a >= b { 0x2000_0000u32 } else { 0 },
    );
}

/// A data-processing instruction whose register operand is the program
/// counter observes it eight bytes ahead.
pub proof fn lemma_pc_operand(s: CpuView, instr: u32)
    requires
        (instr >> 25u32) & 1 == 0,
        instr & 0xF == 15,
    ensures
        arm_operand2(s, instr) == s.pc().wrapping_add(8),
{
}

/// `x.wrapping_add(y)` is the 32-bit reduction of the sum.
proof fn lemma_wrapping_add(x: u32, y: u32)
    ensures
        x.wrapping_add(y) == wrap32(x + y),
{
}

/// Reducing a partial sum first does not change the reduced total.
proof fn lemma_wrap_sum(x: int, y: int)
    ensures
        wrap32(wrap32(x) + wrap32(y)) == wrap32(x + y),
{
    lemma_add_mod_noop(x, y, 0x1_0000_0000);
}

/// `pc + pipeline + delta`, reduced to 32 bits, from the reduction of `delta`.
fn relative_target(pc: u32, pipeline: u32, displacement: u32, Ghost(delta): Ghost<int>) -> (t: u32)
    requires
        displacement == wrap32(delta),
    ensures
        t == wrap32(pc + delta + pipeline),
{
    proof {
        lemma_wrapping_add(pc, pipeline);
        lemma_wrapping_add(pc.wrapping_add(pipeline), displacement);
        lemma_wrap_sum(pc + pipeline, delta);
        assert(pc + pipeline + delta == pc + delta + pipeline);
    }
    pc.wrapping_add(pipeline).wrapping_add(displacement)
}

fn rotate_right(x: u32, r: u32) -> (y: u32)
    requires
        r < 32,
    ensures
        y == ror(x, r),
{
    if r == 0 {
        x
    } else {
        (x >> r) | (x << (32 - r))
    }
}

#[derive(Debug)]
pub struct Cpu {
    pub registers: [u32; 13],
    pub sp: u32,
    pub lr: u32,
    pub pc: u32,
    pub cpsr: u32,
    pub spsr: [u32; 5],
    pub mode: CpuMode,
    pub thumb_mode: bool,
}

impl View for Cpu {
    type V = CpuView;

    open spec fn view(&self) -> CpuView {
        CpuView {
            regs: self.registers@ + seq![self.sp, self.lr, self.pc],
            cpsr: self.cpsr,
            spsr: self.spsr@,
            mode: self.mode,
            thumb: self.thumb_mode,
        }
    }
}

impl Cpu {
    pub fn new() -> (c: Cpu)
        ensures
            c@ == reset_state(),
    {
        let c = Cpu {
            registers: [0; 13],
            sp: 0x0300_7F00,
            lr: 0,
            pc: 0x0800_0000,
            cpsr: 0x1F,
            spsr: [0; 5],
            mode: CpuMode::System,
            thumb_mode: false,
        };
        assert(c@ =~= reset_state());
        c
    }

    /// Value of register `reg` as an instruction operand.
    pub fn get_register(&self, reg: usize) -> (r: u32)
        requires
            reg < 16,
        ensures
            r == self@.operand(reg as int),
    {
        match reg {
            13 => self.sp,
            14 => self.lr,
            15 => self.pc.wrapping_add(8),
            _ => self.registers[reg],
        }
    }

    /// Writes register `reg`; a write to the program counter clears its two
    /// low bits.
    pub fn set_register(&mut self, reg: usize, value: u32)
        requires
            reg < 16,
        ensures
            final(self)@ == old(self)@.with_register(reg as int, value),
    {
        match reg {
            13 => self.sp = value,
            14 => self.lr = value,
            15 => self.pc = value & !0x3u32,
            _ => self.registers[reg] = value,
        }
        assert(self@ =~= old(self)@.with_register(reg as int, value));
    }

    pub fn check_condition(&self, condition: u32) -> (r: bool)
        ensures
            r == self@.passes(condition),
    {
        let n = (self.cpsr >> 31u32) & 1 == 1;
        let z = (self.cpsr >> 30u32) & 1 == 1;
        let c = (self.cpsr >> 29u32) & 1 == 1;
        let v = (self.cpsr >> 28u32) & 1 == 1;
        match condition {
            0x0 => z,
            0x1 => !z,
            0x2 => c,
            0x3 => !c,
            0x4 => n,
            0x5 => !n,
            0x6 => v,
            0x7 => !v,
            0x8 => c && !z,
            0x9 => !c || z,
            0xA => n == v,
            0xB => n != v,
            0xC => !z && (n == v),
            0xD => z || (n != v),
            0xE => true,
            _ => false,
        }
    }

    /// Second operand of a data-processing instruction.
    pub fn get_data_processing_operand(&self, instruction: u32) -> (r: u32)
        ensures
            r == arm_operand2(self@, instruction),
    {
        if (instruction >> 25u32) & 1 == 1 {
            let imm = instruction & 0xFF;
            proof {
                lemma_and_le(instruction >> 8u32, 0xF);
            }
            let rotate = ((instruction >> 8u32) & 0xF) * 2;
            rotate_right(imm, rotate)
        } else {
            proof {
                lemma_and_le(instruction, 0xF);
            }
            self.get_register((instruction & 0xF) as usize)
        }
    }

    /// Branch and branch-with-link; the program counter has already been
    /// advanced past the instruction.
    pub fn execute_branch(&mut self, instruction: u32)
        ensures
            final(self)@ == arm_branch(old(self)@, instruction),
    {
        let link = (instruction >> 24u32) & 1 == 1;
        let field = instruction & 0x00FF_FFFF;
        proof {
            lemma_and_le(instruction, 0x00FF_FFFF);
        }
        let displacement: u32 = if field >= 0x80_0000 {
            field * 4 + 0xFC00_0000
        } else {
            field * 4
        };
        let target = relative_target(
            self.pc,
            4,
            displacement,
            Ghost(4 * arm_branch_offset(instruction)),
        );
        if link {
            self.lr = self.pc;
        }
        self.pc = target;
        assert(self@ =~= arm_branch(old(self)@, instruction));
    }

    /// Single data transfer: word or byte load/store with an immediate
    /// offset, pre- or post-indexed, with optional base write-back.
    pub fn execute_single_data_transfer(&mut self, instruction: u32, memory: &mut Memory)
        ensures
            (final(self)@, final(memory)@) == arm_transfer(old(self)@, old(memory)@, instruction),
    {
        let load = (instruction >> 20u32) & 1 == 1;
        let byte = (instruction >> 22u32) & 1 == 1;
        let up = (instruction >> 23u32) & 1 == 1;
        let pre = (instruction >> 24u32) & 1 == 1;
        let writeback = (instruction >> 21u32) & 1 == 1;
        proof {
            lemma_and_le(instruction >> 12u32, 0xF);
            lemma_and_le(instruction >> 16u32, 0xF);
        }
        let rd = ((instruction >> 12u32) & 0xF) as usize;
        let rn = ((instruction >> 16u32) & 0xF) as usize;

        let base = self.get_register(rn);
        let offset = if (instruction >> 25u32) & 1 == 1 {
            0
        } else {
            instruction & 0xFFF
        };
        let moved = if up {
            base.wrapping_add(offset)
        } else {
            base.wrapping_sub(offset)
        };
        let address = if pre {
            moved
        } else {
            base
        };

        if load {
            let value = if byte {
                memory.read_u8(address) as u32
            } else {
                memory.read_u32(address)
            };
            self.set_register(rd, value);
        } else {
            let value = self.get_register(rd);
            if byte {
                memory.write_u8(address, value as u8);
            } else {
                memory.write_u32(address, value);
            }
        }

        if !pre || writeback {
            self.set_register(rn, moved);
        }
    }

    /// Executes one ARM instruction whose fetch has already advanced the
    /// program counter. A failed condition, and an opcode outside move, add,
    /// subtract and compare, leave the state as it is.
    pub fn execute_arm(&mut self, instruction: u32, memory: &mut Memory)
        ensures
            (final(self)@, final(memory)@) == arm_execute(old(self)@, old(memory)@, instruction),
    {
        if !self.check_condition((instruction >> 28u32) & 0xF) {
            return;
        }
        if (instruction >> 25u32) & 0x7 == 0x5 {
            self.execute_branch(instruction);
            return;
        }
        if (instruction >> 26u32) & 0x3 == 0x1 {
            self.execute_single_data_transfer(instruction, memory);
            return;
        }

        proof {
            lemma_and_le(instruction >> 12u32, 0xF);
            lemma_and_le(instruction >> 16u32, 0xF);
        }
        let opcode = (instruction >> 21u32) & 0xF;
        let rd = ((instruction >> 12u32) & 0xF) as usize;
        let rn = ((instruction >> 16u32) & 0xF) as usize;
        match opcode {
            0xD => {
                let operand = self.get_data_processing_operand(instruction);
                self.set_register(rd, operand);
            },
            0x4 => {
                let operand = self.get_data_processing_operand(instruction);
                let result = self.get_register(rn).wrapping_add(operand);
                self.set_register(rd, result);
            },
            0x2 => {
                let operand = self.get_data_processing_operand(instruction);
                let result = self.get_register(rn).wrapping_sub(operand);
                self.set_register(rd, result);
            },
            0xA => {
                let operand = self.get_data_processing_operand(instruction);
                let rn_val = self.get_register(rn);
                let result = rn_val.wrapping_sub(operand);
                let zero: u32 = if result == 0 { 0x4000_0000 } else { 0 };
                let negative: u32 = if result & 0x8000_0000 != 0 { 0x8000_0000 } else { 0 };
                let carry: u32 = if rn_val >= operand { 0x2000_0000 } else { 0 };
                self.cpsr = (self.cpsr & 0x0FFF_FFFF) | zero | negative | carry;
                assert(self@ =~= old(self)@.with_cpsr(compare_flags(old(self).cpsr, rn_val, operand)));
            },
            _ => {},
        }
    }

    /// Executes one Thumb instruction whose fetch has already advanced the
    /// program counter. Formats outside the branches and move-immediate
    /// leave the state as it is.
    pub fn execute_thumb(&mut self, instruction: u16, _memory: &mut Memory)
        ensures
            final(self)@ == thumb_execute(old(self)@, instruction),
            final(_memory)@ == old(_memory)@,
    {
        let format = (instruction >> 11u16) & 0x1F;
        match format {
            0x1C => {
                let field = instruction & 0x7FF;
                proof {
                    lemma_and_le16(instruction, 0x7FF);
                }
                let displacement: u32 = if field >= 0x400 {
                    field as u32 * 2 + 0xFFFF_F000
                } else {
                    field as u32 * 2
                };
                self.pc = relative_target(
                    self.pc,
                    2,
                    displacement,
                    Ghost(2 * thumb_offset11(instruction)),
                );
            },
            0x1A | 0x1B => {
                proof {
                    lemma_and_le16(instruction >> 8u16, 0xF);
                }
                let condition = ((instruction >> 8u16) & 0xF) as u32;
                if condition != 0xF && self.check_condition(condition) {
                    let field = instruction & 0xFF;
                    proof {
                        lemma_and_le16(instruction, 0xFF);
                    }
                    let displacement: u32 = if field >= 0x80 {
                        field as u32 * 2 + 0xFFFF_FE00
                    } else {
                        field as u32 * 2
                    };
                    self.pc = relative_target(
                        self.pc,
                        2,
                        displacement,
                        Ghost(2 * thumb_offset8(instruction)),
                    );
                }
            },
            0x1E => {
                let field = instruction & 0x7FF;
                proof {
                    lemma_and_le16(instruction, 0x7FF);
                }
                let displacement: u32 = if field >= 0x400 {
                    field as u32 * 0x1000 + 0xFF80_0000
                } else {
                    field as u32 * 0x1000
                };
                self.lr = relative_target(
                    self.pc,
                    2,
                    displacement,
                    Ghost(0x1000 * thumb_offset11(instruction)),
                );
            },
            0x1F => {
                let field = instruction & 0x7FF;
                proof {
                    lemma_and_le16(instruction, 0x7FF);
                    lemma_wrapping_add(self.lr, (field as u32 * 2) as u32);
                }
                let target = self.lr.wrapping_add(field as u32 * 2);
                self.lr = self.pc | 1;
                self.pc = target;
            },
            0x4 => {
                proof {
                    lemma_and_le16(instruction >> 8u16, 0x7);
                }
                let rd = ((instruction >> 8u16) & 0x7) as usize;
                self.registers[rd] = (instruction & 0xFF) as u32;
            },
            _ => {},
        }
        assert(self@ =~= thumb_execute(old(self)@, instruction));
    }

    /// Fetches at the program counter in the active encoding, advances it
    /// by 2 (Thumb) or 4 (ARM), and executes the instruction.
    pub fn step(&mut self, memory: &mut Memory)
        ensures
            (final(self)@, final(memory)@) == cpu_step(old(self)@, old(memory)@),
    {
        if self.thumb_mode {
            let instruction = memory.read_u16(self.pc);
            self.pc = self.pc.wrapping_add(2);
            assert(self@ =~= old(self)@.with_slot(15, old(self).pc.wrapping_add(2)));
            self.execute_thumb(instruction, memory);
        } else {
            let instruction = memory.read_u32(self.pc);
            self.pc = self.pc.wrapping_add(4);
            assert(self@ =~= old(self)@.with_slot(15, old(self).pc.wrapping_add(4)));
            self.execute_arm(instruction, memory);
        }
    }
}

} // verus!
