//! The CHIP-8 machine: memory, registers, timers, and the instruction cycle.
//!
//! Memory map:
//! - 0x000-0x1FF: interpreter area
//! - 0x050-0x0A0: the built-in 4x5 font (0-F), 80 bytes from 0x050 on
//! - 0x200-0xFFF: program ROM and work RAM

use vstd::prelude::*;

use crate::graphics::{blank_screen, draw_sprite, with_pixel, Display, Screen, HEIGHT, WIDTH};
use crate::stack::{popped, pushed, Stack, STACK_CAPACITY};

verus! {

/// Index of the flag register VF.
pub const VFLAG: usize = 15;

/// Size of the address space in bytes.
pub const MEM_SIZE: usize = 4096;

/// Address where programs are loaded and execution starts.
pub const PROGRAM_START: usize = 0x200;

/// Largest program that is loaded: it fills 0x200 up to and including 0xFFF.
pub const PROGRAM_CAPACITY: usize = 0xE00;

/// Address of the first byte of the built-in font.
pub const FONT_START: usize = 0x050;

/// Number of bytes of the built-in font.
pub const FONT_SIZE: usize = 80;

/// The built-in font: sixteen 4x5 glyphs, 0 to F, five bytes each.
pub open spec fn font() -> Seq<u8> {
    seq![
        0xF0, 0x90, 0x90, 0x90, 0xF0, // 0
        0x20, 0x60, 0x20, 0x20, 0x70, // 1
        0xF0, 0x10, 0xF0, 0x80, 0xF0, // 2
        0xF0, 0x10, 0xF0, 0x10, 0xF0, // 3
        0x90, 0x90, 0xF0, 0x10, 0x10, // 4
        0xF0, 0x80, 0xF0, 0x10, 0xF0, // 5
        0xF0, 0x80, 0xF0, 0x90, 0xF0, // 6
        0xF0, 0x10, 0x20, 0x40, 0x40, // 7
        0xF0, 0x90, 0xF0, 0x90, 0xF0, // 8
        0xF0, 0x90, 0xF0, 0x10, 0xF0, // 9
        0xF0, 0x90, 0xF0, 0x90, 0x90, // A
        0xE0, 0x90, 0xE0, 0x90, 0xE0, // B
        0xF0, 0x80, 0x80, 0x80, 0xF0, // C
        0xE0, 0x90, 0x90, 0x90, 0xE0, // D
        0xF0, 0x80, 0xF0, 0x80, 0xF0, // E
        0xF0, 0x80, 0xF0, 0x80, 0x80, // F
    ]
}

/// A decoded instruction. Register operands are register numbers 0-15.
#[derive(Clone, Copy, PartialEq, Eq, Structural, Debug)]
pub enum Instruction {
    /// 00E0: clear the screen.
    Cls,
    /// 00EE: return to the address on top of the stack.
    Ret,
    /// 0nnn, 1nnn and Annn: continue at `nnn`.
    Jump(usize),
    /// 2nnn: push the address of the next instruction (ignored when the
    /// stack is full) and continue at `nnn`.
    Call(usize),
    /// 3xkk: skip the next instruction if Vx == kk.
    SkipEqImm(usize, u8),
    /// 4xkk: skip the next instruction if Vx != kk.
    SkipNeImm(usize, u8),
    /// 5xy0: skip the next instruction if Vx == Vy.
    SkipEqReg(usize, usize),
    /// 6xkk: Vx = kk.
    LoadImm(usize, u8),
    /// 7xkk: Vx = Vx + kk.
    AddImm(usize, u8),
    /// 8xy0: Vx = Vy.
    Move(usize, usize),
    /// 8xy1: Vx = Vx | Vy.
    Or(usize, usize),
    /// 8xy2: Vx = Vx & Vy.
    And(usize, usize),
    /// 8xy3: Vx = Vx ^ Vy.
    Xor(usize, usize),
    /// 8xy4: Vx = Vx + Vy modulo 256, VF = carry.
    AddReg(usize, usize),
    /// 8xy5: VF = (Vx < Vy), then Vx = Vx - Vy.
    SubReg(usize, usize),
    /// 8xy6: VF = lowest bit of Vx, then Vx = Vx >> 1.
    ShiftRight(usize),
    /// 8xy7: VF = (Vx < Vy), then Vx = Vy - Vx.
    SubN(usize, usize),
    /// 8xyE: VF = highest bit of Vx, then Vx = Vx << 1.
    ShiftLeft(usize),
    /// 9xy0: skip the next instruction if Vx != Vy.
    SkipNeReg(usize, usize),
    /// Bnnn: continue at nnn + V0.
    JumpV0(usize),
    /// Cxkk: draws a random byte, then Vx = Vx & kk.
    Random(usize, u8),
    /// Dxyn: draw the n-byte sprite at I with its corner at (x, y), the
    /// register numbers themselves; VF = collision.
    Draw(usize, usize, usize),
    /// Ex9E: skip the next instruction if key x is down.
    SkipKey(usize),
    /// ExA1: skip the next instruction if key x is up.
    SkipNoKey(usize),
    /// Fx07: Vx = delay timer.
    LoadDelay(usize),
    /// Fx0A: waiting for a key press; has no effect here.
    WaitKey(usize),
    /// Fx15: delay timer = Vx.
    SetDelay(usize),
    /// Fx18: sound timer = Vx.
    SetSound(usize),
    /// Fx1E and Fx29: I = I + Vx.
    AddIndex(usize),
    /// Fx33: the decimal digits of the register number x are stored at
    /// I, I + 1 and I + 2.
    Digits(usize),
    /// Fx55: V0 to Vx are stored in memory from I on.
    StoreRegs(usize),
    /// Fx65: V0 to Vx are loaded from memory from I on.
    LoadRegs(usize),
    /// Anything else: no effect.
    Unknown(u16),
}

/// Decodes an opcode `OXYN`, split into the nibbles O, X, Y, N.
pub open spec fn spec_decode(op: u16) -> Instruction {
    let n1 = op / 4096;
    let n2 = (op / 256) % 16;
    let n3 = (op / 16) % 16;
    let n4 = op % 16;
    let nnn = (op % 4096) as usize;
    let kk = (op % 256) as u8;
    let x = n2 as usize;
    let y = n3 as usize;
    if n1 == 0 && n2 == 0 && n3 == 0xE && n4 == 0 {
        Instruction::Cls
    } else if n1 == 0 && n2 == 0 && n3 == 0xE && n4 == 0xE {
        Instruction::Ret
    } else if n1 == 0 || n1 == 1 || n1 == 0xA {
        Instruction::Jump(nnn)
    } else if n1 == 2 {
        Instruction::Call(nnn)
    } else if n1 == 3 {
        Instruction::SkipEqImm(x, kk)
    } else if n1 == 4 {
        Instruction::SkipNeImm(x, kk)
    } else if n1 == 5 && n4 == 0 {
        Instruction::SkipEqReg(x, y)
    } else if n1 == 6 {
        Instruction::LoadImm(x, kk)
    } else if n1 == 7 {
        Instruction::AddImm(x, kk)
    } else if n1 == 8 && n4 == 0 {
        Instruction::Move(x, y)
    } else if n1 == 8 && n4 == 1 {
        Instruction::Or(x, y)
    } else if n1 == 8 && n4 == 2 {
        Instruction::And(x, y)
    } else if n1 == 8 && n4 == 3 {
        Instruction::Xor(x, y)
    } else if n1 == 8 && n4 == 4 {
        Instruction::AddReg(x, y)
    } else if n1 == 8 && n4 == 5 {
        Instruction::SubReg(x, y)
    } else if n1 == 8 && n4 == 6 {
        Instruction::ShiftRight(x)
    } else if n1 == 8 && n4 == 7 {
        Instruction::SubN(x, y)
    } else if n1 == 8 && n4 == 0xE {
        Instruction::ShiftLeft(x)
    } else if n1 == 9 && n4 == 0 {
        Instruction::SkipNeReg(x, y)
    } else if n1 == 0xB {
        Instruction::JumpV0(nnn)
    } else if n1 == 0xC {
        Instruction::Random(x, kk)
    } else if n1 == 0xD {
        Instruction::Draw(x, y, n4 as usize)
    } else if n1 == 0xE && n3 == 9 && n4 == 0xE {
        Instruction::SkipKey(x)
    } else if n1 == 0xE && n3 == 0xA && n4 == 1 {
        Instruction::SkipNoKey(x)
    } else if n1 == 0xF && n3 == 0 && n4 == 7 {
        Instruction::LoadDelay(x)
    } else if n1 == 0xF && n3 == 0 && n4 == 0xA {
        Instruction::WaitKey(x)
    } else if n1 == 0xF && n3 == 1 && n4 == 5 {
        Instruction::SetDelay(x)
    } else if n1 == 0xF && n3 == 1 && n4 == 8 {
        Instruction::SetSound(x)
    } else if n1 == 0xF && ((n3 == 1 && n4 == 0xE) || (n3 == 2 && n4 == 9)) {
        Instruction::AddIndex(x)
    } else if n1 == 0xF && n3 == 3 && n4 == 3 {
        Instruction::Digits(x)
    } else if n1 == 0xF && n3 == 5 && n4 == 5 {
        Instruction::StoreRegs(x)
    } else if n1 == 0xF && n3 == 6 && n4 == 5 {
        Instruction::LoadRegs(x)
    } else {
        Instruction::Unknown(op)
    }
}

proof fn lemma_nibbles(op: u16)
    ensures
        (op & 0xF000) >> 12u16 == op / 4096,
        (op & 0x0F00) >> 8u16 == (op / 256) % 16,
        (op & 0x00F0) >> 4u16 == (op / 16) % 16,
        op & 0x000F == op % 16,
        op & 0x0FFF == op % 4096,
        op & 0x00FF == op % 256,
{
    assert((op & 0xF000) >> 12u16 == op / 4096) by (bit_vector);
    assert((op & 0x0F00) >> 8u16 == (op / 256) % 16) by (bit_vector);
    assert((op & 0x00F0) >> 4u16 == (op / 16) % 16) by (bit_vector);
    assert(op & 0x000F == op % 16) by (bit_vector);
    assert(op & 0x0FFF == op % 4096) by (bit_vector);
    assert(op & 0x00FF == op % 256) by (bit_vector);
}

/// Decodes an opcode into the instruction it stands for.
pub fn decode(op: u16) -> (r: Instruction)
    ensures
        r == spec_decode(op),
{
    proof {
        lemma_nibbles(op);
    }
    let n1 = (op & 0xF000) >> 12;
    let n2 = (op & 0x0F00) >> 8;
    let n3 = (op & 0x00F0) >> 4;
    let n4 = op & 0x000F;
    let nnn = (op & 0x0FFF) as usize;
    let kk = (op & 0x00FF) as u8;
    let x = n2 as usize;
    let y = n3 as usize;
    if n1 == 0 && n2 == 0 && n3 == 0xE && n4 == 0 {
        Instruction::Cls
    } else if n1 == 0 && n2 == 0 && n3 == 0xE && n4 == 0xE {
        Instruction::Ret
    } else if n1 == 0 || n1 == 1 || n1 == 0xA {
        Instruction::Jump(nnn)
    } else if n1 == 2 {
        Instruction::Call(nnn)
    } else if n1 == 3 {
        Instruction::SkipEqImm(x, kk)
    } else if n1 == 4 {
        Instruction::SkipNeImm(x, kk)
    } else if n1 == 5 && n4 == 0 {
        Instruction::SkipEqReg(x, y)
    } else if n1 == 6 {
        Instruction::LoadImm(x, kk)
    } else if n1 == 7 {
        Instruction::AddImm(x, kk)
    } else if n1 == 8 && n4 == 0 {
        Instruction::Move(x, y)
    } else if n1 == 8 && n4 == 1 {
        Instruction::Or(x, y)
    } else if n1 == 8 && n4 == 2 {
        Instruction::And(x, y)
    } else if n1 == 8 && n4 == 3 {
        Instruction::Xor(x, y)
    } else if n1 == 8 && n4 == 4 {
        Instruction::AddReg(x, y)
    } else if n1 == 8 && n4 == 5 {
        Instruction::SubReg(x, y)
    } else if n1 == 8 && n4 == 6 {
        Instruction::ShiftRight(x)
    } else if n1 == 8 && n4 == 7 {
        Instruction::SubN(x, y)
    } else if n1 == 8 && n4 == 0xE {
        Instruction::ShiftLeft(x)
    } else if n1 == 9 && n4 == 0 {
        Instruction::SkipNeReg(x, y)
    } else if n1 == 0xB {
        Instruction::JumpV0(nnn)
    } else if n1 == 0xC {
        Instruction::Random(x, kk)
    } else if n1 == 0xD {
        Instruction::Draw(x, y, n4 as usize)
    } else if n1 == 0xE && n3 == 9 && n4 == 0xE {
        Instruction::SkipKey(x)
    } else if n1 == 0xE && n3 == 0xA && n4 == 1 {
        Instruction::SkipNoKey(x)
    } else if n1 == 0xF && n3 == 0 && n4 == 7 {
        Instruction::LoadDelay(x)
    } else if n1 == 0xF && n3 == 0 && n4 == 0xA {
        Instruction::WaitKey(x)
    } else if n1 == 0xF && n3 == 1 && n4 == 5 {
        Instruction::SetDelay(x)
    } else if n1 == 0xF && n3 == 1 && n4 == 8 {
        Instruction::SetSound(x)
    } else if n1 == 0xF && ((n3 == 1 && n4 == 0xE) || (n3 == 2 && n4 == 9)) {
        Instruction::AddIndex(x)
    } else if n1 == 0xF && n3 == 3 && n4 == 3 {
        Instruction::Digits(x)
    } else if n1 == 0xF && n3 == 5 && n4 == 5 {
        Instruction::StoreRegs(x)
    } else if n1 == 0xF && n3 == 6 && n4 == 5 {
        Instruction::LoadRegs(x)
    } else {
        Instruction::Unknown(op)
    }
}

/// Every register, key and address operand of the instruction is in range.
pub open spec fn operands_in_range(instr: Instruction) -> bool {
    match instr {
        Instruction::Jump(nnn) | Instruction::Call(nnn) | Instruction::JumpV0(nnn) => nnn < 4096,
        Instruction::SkipEqImm(x, _) | Instruction::SkipNeImm(x, _) | Instruction::LoadImm(x, _)
        | Instruction::AddImm(x, _) | Instruction::Random(x, _) => x < 16,
        Instruction::SkipEqReg(x, y) | Instruction::Move(x, y) | Instruction::Or(x, y)
        | Instruction::And(x, y) | Instruction::Xor(x, y) | Instruction::AddReg(x, y)
        | Instruction::SubReg(x, y) | Instruction::SubN(x, y) | Instruction::SkipNeReg(x, y) => x
            < 16 && y < 16,
        Instruction::Draw(x, y, n) => x < 16 && y < 16 && n < 16,
        Instruction::ShiftRight(x) | Instruction::ShiftLeft(x) | Instruction::SkipKey(x)
        | Instruction::SkipNoKey(x) | Instruction::LoadDelay(x) | Instruction::WaitKey(x)
        | Instruction::SetDelay(x) | Instruction::SetSound(x) | Instruction::AddIndex(x)
        | Instruction::Digits(x) | Instruction::StoreRegs(x) | Instruction::LoadRegs(x) => x < 16,
        _ => true,
    }
}

/// Decoding only ever yields operands that are in range.
pub proof fn lemma_decode_in_range(op: u16)
    ensures
        operands_in_range(spec_decode(op)),
{
}

/// Why a cycle cannot be carried out from a given state.
#[derive(Clone, Copy, PartialEq, Eq, Structural, Debug)]
pub enum Fault {
    /// The program counter does not leave room for a two-byte opcode.
    ProgramCounter,
    /// 00EE with nothing on the stack.
    EmptyStack,
    /// An 8-bit register or the 16-bit index register would overflow or
    /// underflow.
    Overflow,
    /// The instruction reads or writes memory beyond the end.
    MemoryAccess,
}

/// The state of the machine as plain values.
#[verifier::ext_equal]
pub struct ChipState {
    /// V0 to VF.
    pub registers: Seq<u8>,
    /// Return addresses, top last.
    pub stack: Seq<u16>,
    /// The 4 KiB address space.
    pub mem: Seq<u8>,
    /// The index register I.
    pub index: u16,
    /// The program counter.
    pub pc: int,
    /// The frame buffer.
    pub screen: Screen,
    /// The delay timer.
    pub delay: u8,
    /// The sound timer.
    pub sound: u8,
    /// Which of the sixteen keys are down.
    pub keys: Seq<bool>,
}

/// 1 for true, 0 for false.
pub open spec fn flag(b: bool) -> u8 {
    if b {
        1
    } else {
        0
    }
}

/// The two-byte opcode at the program counter, high byte first.
pub open spec fn opcode(s: ChipState) -> u16 {
    (s.mem[s.pc] * 256 + s.mem[s.pc + 1]) as u16
}

/// The fault, if any, that executing `instr` in state `s` runs into.
pub open spec fn instruction_fault(s: ChipState, instr: Instruction) -> Option<Fault> {
    let r = s.registers;
    let i = s.index as int;
    match instr {
        Instruction::Ret => if s.stack.len() == 0 {
            Some(Fault::EmptyStack)
        } else {
            None
        },
        Instruction::AddImm(x, kk) => if r[x as int] + kk > 255 {
            Some(Fault::Overflow)
        } else {
            None
        },
        Instruction::SubReg(x, y) => {
            let t = r.update(VFLAG as int, flag(r[x as int] < r[y as int]));
            if t[x as int] < t[y as int] {
                Some(Fault::Overflow)
            } else {
                None
            }
        },
        Instruction::SubN(x, y) => {
            let t = r.update(VFLAG as int, flag(r[x as int] < r[y as int]));
            if t[y as int] < t[x as int] {
                Some(Fault::Overflow)
            } else {
                None
            }
        },
        Instruction::Draw(_, _, n) => if i + n > MEM_SIZE {
            Some(Fault::MemoryAccess)
        } else {
            None
        },
        Instruction::AddIndex(x) => if i + r[x as int] > u16::MAX {
            Some(Fault::Overflow)
        } else {
            None
        },
        Instruction::Digits(_) => if i + 2 >= MEM_SIZE {
            Some(Fault::MemoryAccess)
        } else {
            None
        },
        Instruction::StoreRegs(x) | Instruction::LoadRegs(x) => if i + x + 1 > MEM_SIZE {
            Some(Fault::MemoryAccess)
        } else {
            None
        },
        _ => None,
    }
}

/// The fault, if any, that the next cycle from state `s` runs into.
pub open spec fn machine_fault(s: ChipState) -> Option<Fault> {
    if !(0 <= s.pc && s.pc + 1 < MEM_SIZE) {
        Some(Fault::ProgramCounter)
    } else {
        instruction_fault(s, spec_decode(opcode(s)))
    }
}

/// `s` with register `x` set to `v`.
pub open spec fn with_reg(s: ChipState, x: int, v: u8) -> ChipState {
    ChipState { registers: s.registers.update(x, v), ..s }
}

/// `s` with the next instruction skipped when `c` holds.
pub open spec fn skip_if(s: ChipState, c: bool) -> ChipState {
    if c {
        ChipState { pc: s.pc + 2, ..s }
    } else {
        s
    }
}

/// The effect of `instr` on `s`, whose program counter already points past it.
pub open spec fn execute(s: ChipState, instr: Instruction) -> ChipState {
    let r = s.registers;
    let i = s.index as int;
    match instr {
        Instruction::Cls => ChipState { screen: blank_screen(), ..s },
        Instruction::Ret => ChipState { pc: s.stack.last() as int, stack: popped(s.stack), ..s },
        Instruction::Jump(nnn) => ChipState { pc: nnn as int, ..s },
        Instruction::Call(nnn) => ChipState {
            stack: pushed(s.stack, s.pc as u16),
            pc: nnn as int,
            ..s
        },
        Instruction::SkipEqImm(x, kk) => skip_if(s, r[x as int] == kk),
        Instruction::SkipNeImm(x, kk) => skip_if(s, r[x as int] != kk),
        Instruction::SkipEqReg(x, y) => skip_if(s, r[x as int] == r[y as int]),
        Instruction::LoadImm(x, kk) => with_reg(s, x as int, kk),
        Instruction::AddImm(x, kk) => with_reg(s, x as int, (r[x as int] + kk) as u8),
        Instruction::Move(x, y) => with_reg(s, x as int, r[y as int]),
        Instruction::Or(x, y) => with_reg(s, x as int, r[x as int] | r[y as int]),
        Instruction::And(x, y) => with_reg(s, x as int, r[x as int] & r[y as int]),
        Instruction::Xor(x, y) => with_reg(s, x as int, r[x as int] ^ r[y as int]),
        Instruction::AddReg(x, y) => {
            let total = r[x as int] + r[y as int];
            with_reg(with_reg(s, VFLAG as int, flag(total > 255)), x as int, (total % 256) as u8)
        },
        Instruction::SubReg(x, y) => {
            let t = with_reg(s, VFLAG as int, flag(r[x as int] < r[y as int]));
            with_reg(t, x as int, (t.registers[x as int] - t.registers[y as int]) as u8)
        },
        Instruction::ShiftRight(x) => {
            let t = with_reg(s, VFLAG as int, flag(r[x as int] % 2 == 1));
            with_reg(t, x as int, t.registers[x as int] / 2)
        },
        Instruction::SubN(x, y) => {
            let t = with_reg(s, VFLAG as int, flag(r[x as int] < r[y as int]));
            with_reg(t, x as int, (t.registers[y as int] - t.registers[x as int]) as u8)
        },
        Instruction::ShiftLeft(x) => {
            let t = with_reg(s, VFLAG as int, flag(r[x as int] >= 128));
            with_reg(t, x as int, ((t.registers[x as int] * 2) % 256) as u8)
        },
        Instruction::SkipNeReg(x, y) => skip_if(s, r[x as int] != r[y as int]),
        Instruction::JumpV0(nnn) => ChipState { pc: nnn + r[0], ..s },
        Instruction::Random(x, kk) => with_reg(s, x as int, r[x as int] & kk),
        Instruction::Draw(x, y, n) => {
            let d = draw_sprite(s.screen, x as int, y as int, s.mem.subrange(i, i + n));
            ChipState { registers: r.update(VFLAG as int, flag(d.1)), screen: d.0, ..s }
        },
        Instruction::SkipKey(x) => skip_if(s, s.keys[x as int]),
        Instruction::SkipNoKey(x) => skip_if(s, !s.keys[x as int]),
        Instruction::LoadDelay(x) => with_reg(s, x as int, s.delay),
        Instruction::WaitKey(_) => s,
        Instruction::SetDelay(x) => ChipState { delay: r[x as int], ..s },
        Instruction::SetSound(x) => ChipState { sound: r[x as int], ..s },
        Instruction::AddIndex(x) => ChipState { index: (i + r[x as int]) as u16, ..s },
        Instruction::Digits(x) => ChipState {
            mem: s.mem.update(i, (x / 100) as u8).update(i + 1, ((x / 10) % 10) as u8).update(
                i + 2,
                ((x % 100) % 10) as u8,
            ),
            ..s
        },
        Instruction::StoreRegs(x) => ChipState {
            mem: Seq::new(
                s.mem.len(),
                |a: int|
                    if i <= a <= i + x {
                        r[a - i]
                    } else {
                        s.mem[a]
                    },
            ),
            ..s
        },
        Instruction::LoadRegs(x) => ChipState {
            registers: Seq::new(
                r.len(),
                |k: int|
                    if k <= x {
                        s.mem[i + k]
                    } else {
                        r[k]
                    },
            ),
            ..s
        },
        Instruction::Unknown(_) => s,
    }
}

/// Both timers count down by one unless already at zero.
pub open spec fn tick(s: ChipState) -> ChipState {
    ChipState {
        delay: if s.delay > 0 {
            (s.delay - 1) as u8
        } else {
            0
        },
        sound: if s.sound > 0 {
            (s.sound - 1) as u8
        } else {
            0
        },
        ..s
    }
}

/// One machine cycle: fetch the opcode at the program counter, move the
/// program counter past it, execute it, and count the timers down.
pub open spec fn step(s: ChipState) -> ChipState {
    tick(execute(ChipState { pc: s.pc + 2, ..s }, spec_decode(opcode(s))))
}

/// The state right after loading `program`: the font from `FONT_START` on, the
/// first `PROGRAM_CAPACITY` bytes of the program from `PROGRAM_START` on,
/// everything else zero, dark screen, empty stack, execution at
/// `PROGRAM_START`.
pub open spec fn initial_state(program: Seq<u8>) -> ChipState {
    let n = loaded_len(program);
    ChipState {
        registers: Seq::new(16, |k: int| 0u8),
        stack: Seq::empty(),
        mem: Seq::new(
            MEM_SIZE as nat,
            |a: int|
                if FONT_START <= a < FONT_START + FONT_SIZE {
                    font()[a - FONT_START]
                } else if PROGRAM_START <= a < PROGRAM_START + n {
                    program[a - PROGRAM_START]
                } else {
                    0u8
                },
        ),
        index: 0,
        pc: PROGRAM_START as int,
        screen: blank_screen(),
        delay: 0,
        sound: 0,
        keys: Seq::new(16, |k: int| false),
    }
}

/// `s` with memory `m`.
pub open spec fn with_mem(s: ChipState, m: Seq<u8>) -> ChipState {
    ChipState { mem: m, ..s }
}

/// `s` with screen `scr`.
pub open spec fn with_screen(s: ChipState, scr: Screen) -> ChipState {
    ChipState { screen: scr, ..s }
}

/// How many program bytes get loaded.
pub open spec fn loaded_len(program: Seq<u8>) -> int {
    if program.len() < PROGRAM_CAPACITY {
        program.len() as int
    } else {
        PROGRAM_CAPACITY as int
    }
}

/// Zeroed memory with the first `k` program bytes loaded.
spec fn program_prefix(program: Seq<u8>, k: int) -> Seq<u8> {
    Seq::new(
        MEM_SIZE as nat,
        |a: int|
            if PROGRAM_START <= a < PROGRAM_START + k {
                program[a - PROGRAM_START]
            } else {
                0u8
            },
    )
}

/// Memory with the program loaded and the first `k` font bytes in place.
spec fn font_prefix(program: Seq<u8>, k: int) -> Seq<u8> {
    Seq::new(
        MEM_SIZE as nat,
        |a: int|
            if FONT_START <= a < FONT_START + k {
                font()[a - FONT_START]
            } else {
                program_prefix(program, loaded_len(program))[a]
            },
    )
}

/// Which part of the machine carries out an instruction: 0 for control
/// flow, 1 for register arithmetic, 2 for memory and the screen.
spec fn unit_of(instr: Instruction) -> int {
    match instr {
        Instruction::LoadImm(..) | Instruction::AddImm(..) | Instruction::Move(..)
        | Instruction::Or(..) | Instruction::And(..) | Instruction::Xor(..)
        | Instruction::AddReg(..) | Instruction::SubReg(..) | Instruction::ShiftRight(..)
        | Instruction::SubN(..) | Instruction::ShiftLeft(..) | Instruction::Random(..)
        | Instruction::LoadDelay(..) | Instruction::SetDelay(..) | Instruction::SetSound(..)
        | Instruction::AddIndex(..) => 1,
        Instruction::Draw(..) | Instruction::Digits(..) | Instruction::StoreRegs(..)
        | Instruction::LoadRegs(..) => 2,
        _ => 0,
    }
}

proof fn lemma_join_bytes(hi: u8, lo: u8)
    ensures
        ((hi as u16) << 8u16) | (lo as u16) == (hi * 256 + lo) as u16,
{
    assert(((hi as u16) << 8u16) | (lo as u16) == (hi * 256 + lo) as u16) by (bit_vector);
}

proof fn lemma_byte_bits(v: u8)
    ensures
        ((v & 0x01) == 0x01) == (v % 2 == 1),
        v >> 1u8 == v / 2,
        ((v & 0x80) == 0x80) == (v >= 128),
        v << 1u8 == ((v * 2) % 256) as u8,
{
    assert(((v & 0x01) == 0x01) == (v % 2 == 1)) by (bit_vector);
    assert(v >> 1u8 == v / 2) by (bit_vector);
    assert(((v & 0x80) == 0x80) == (v >= 128)) by (bit_vector);
    assert(v << 1u8 == ((v * 2) % 256) as u8) by (bit_vector);
}

proof fn lemma_low_byte(total: u32)
    ensures
        (total & 0xFF) as u8 == (total % 256) as u8,
{
    assert((total & 0xFF) as u8 == (total % 256) as u8) by (bit_vector);
}

/// `s` with registers `r`.
pub open spec fn with_registers(s: ChipState, r: Seq<u8>) -> ChipState {
    ChipState { registers: r, ..s }
}

/// `dst` with its bytes from `at` on, `k` of them, replaced by the start of `src`.
spec fn copy_into(dst: Seq<u8>, src: Seq<u8>, at: int, k: int) -> Seq<u8> {
    Seq::new(dst.len(), |a: int| if at <= a < at + k { src[a - at] } else { dst[a] })
}

/// `dst` with its first `k` bytes replaced by those of `src` from `at` on.
spec fn copy_from(dst: Seq<u8>, src: Seq<u8>, at: int, k: int) -> Seq<u8> {
    Seq::new(dst.len(), |r: int| if r < k { src[at + r] } else { dst[r] })
}

/// A subroutine call followed directly by a return comes back to the
/// instruction after the call, with the stack as it was before the call.
pub proof fn lemma_return_after_call(s: ChipState)
    requires
        machine_fault(s) is None,
        spec_decode(opcode(s)) is Call,
        s.stack.len() < STACK_CAPACITY,
        spec_decode(opcode(step(s))) is Ret,
    ensures
        step(step(s)).pc == s.pc + 2,
        step(step(s)).stack == s.stack,
{
    let s1 = step(s);
    assert(s1.stack == s.stack.push((s.pc + 2) as u16));
    assert(s.stack.push((s.pc + 2) as u16).drop_last() =~= s.stack);
}

/// Draws a byte from the thread-local generator of the `rand` crate
/// (`rand::random::<u8>`). Nothing is claimed of the value: any byte may
/// come back, and two calls may differ.
#[verifier::external_body]
fn random_byte() -> u8 {
    rand::random::<u8>()
}

/// The bytes of the built-in font.
fn font_bytes() -> (f: [u8; 80])
    ensures
        f@ == font(),
{
    let f: [u8; 80] = [
        0xF0, 0x90, 0x90, 0x90, 0xF0, // 0
        0x20, 0x60, 0x20, 0x20, 0x70, // 1
        0xF0, 0x10, 0xF0, 0x80, 0xF0, // 2
        0xF0, 0x10, 0xF0, 0x10, 0xF0, // 3
        0x90, 0x90, 0xF0, 0x10, 0x10, // 4
        0xF0, 0x80, 0xF0, 0x10, 0xF0, // 5
        0xF0, 0x80, 0xF0, 0x90, 0xF0, // 6
        0xF0, 0x10, 0x20, 0x40, 0x40, // 7
        0xF0, 0x90, 0xF0, 0x90, 0xF0, // 8
        0xF0, 0x90, 0xF0, 0x10, 0xF0, // 9
        0xF0, 0x90, 0xF0, 0x90, 0x90, // A
        0xE0, 0x90, 0xE0, 0x90, 0xE0, // B
        0xF0, 0x80, 0x80, 0x80, 0xF0, // C
        0xE0, 0x90, 0x90, 0x90, 0xE0, // D
        0xF0, 0x80, 0xF0, 0x80, 0xF0, // E
        0xF0, 0x80, 0xF0, 0x80, 0x80, // F
    ];
    assert(f@ =~= font());
    f
}

/// A CHIP-8 machine.
pub struct Chip {
    registers: [u8; 16],
    stack: Stack,
    mem: [u8; 4096],
    index: u16,
    program_counter: usize,
    pub display: Display,
    timer_delay: u8,
    timer_sound: u8,
    key: [bool; 16],
}

impl View for Chip {
    type V = ChipState;

    closed spec fn view(&self) -> ChipState {
        ChipState {
            registers: self.registers@,
            stack: self.stack@,
            mem: self.mem@,
            index: self.index,
            pc: self.program_counter as int,
            screen: self.display@,
            delay: self.timer_delay,
            sound: self.timer_sound,
            keys: self.key@,
        }
    }
}

impl Chip {
    /// The call stack is well formed.
    pub closed spec fn wf(&self) -> bool {
        self.stack.wf()
    }

    /// A machine with `program` loaded at `PROGRAM_START` (at most
    /// `PROGRAM_CAPACITY` bytes of it) and the font at `FONT_START`.
    pub fn new(program: &[u8]) -> (chip: Chip)
        ensures
            chip.wf(),
            chip@ == initial_state(program@),
    {
        let mut chip = Chip {
            registers: [0; 16],
            stack: Stack::new(),
            mem: [0; 4096],
            index: 0,
            display: Display::new(),
            program_counter: 0x200,
            timer_delay: 0,
            timer_sound: 0,
            key: [false; 16],
        };
        let len = if program.len() < PROGRAM_CAPACITY {
            program.len()
        } else {
            PROGRAM_CAPACITY
        };
        for k in 0..len
            invariant
                chip.wf(),
                len <= program@.len(),
                len <= PROGRAM_CAPACITY,
                chip@ == with_mem(initial_state(program@), program_prefix(program@, k as int)),
        {
            chip.mem[PROGRAM_START + k] = program[k];
        }
        let glyphs = font_bytes();
        for k in 0..FONT_SIZE
            invariant
                chip.wf(),
                glyphs@ == font(),
                chip@ == with_mem(initial_state(program@), font_prefix(program@, k as int)),
        {
            chip.mem[FONT_START + k] = glyphs[k];
        }
        assert(chip@.mem =~= initial_state(program@).mem);
        chip
    }

    /// The shape of the machine's state: sixteen registers and keys, and
    /// the whole address space.
    pub proof fn lemma_view_shape(&self)
        ensures
            self@.registers.len() == 16,
            self@.mem.len() == MEM_SIZE,
            self@.keys.len() == 16,
    {
    }

    /// The frame buffer, whose view is the machine's screen.
    pub fn display(&self) -> (d: &Display)
        ensures
            d@ == self@.screen,
    {
        &self.display
    }

    /// The opcode at the program counter.
    fn fetch(&self) -> (op: u16)
        requires
            self.program_counter + 1 < MEM_SIZE,
        ensures
            op == opcode(self@),
    {
        let pc = self.program_counter;
        let hi = self.mem[pc];
        let lo = self.mem[pc + 1];
        proof {
            lemma_join_bytes(hi, lo);
        }
        (hi as u16) << 8 | (lo as u16)
    }

    /// The fault, if any, that the next cycle would run into. `cycle` may
    /// only be called when this is `None`.
    pub fn fault(&self) -> (f: Option<Fault>)
        requires
            self.wf(),
        ensures
            f == machine_fault(self@),
    {
        if self.program_counter >= MEM_SIZE - 1 {
            return Some(Fault::ProgramCounter);
        }
        let op = self.fetch();
        let instr = decode(op);
        proof {
            lemma_decode_in_range(op);
        }
        let i = self.index as usize;
        match instr {
            Instruction::Ret => {
                if self.stack.size() == 0 {
                    Some(Fault::EmptyStack)
                } else {
                    None
                }
            },
            Instruction::AddImm(x, kk) => {
                if self.registers[x] as u16 + kk as u16 > 255 {
                    Some(Fault::Overflow)
                } else {
                    None
                }
            },
            Instruction::SubReg(x, y) | Instruction::SubN(x, y) => {
                let f: u8 = if self.registers[x] < self.registers[y] {
                    1
                } else {
                    0
                };
                let vx = if x == VFLAG {
                    f
                } else {
                    self.registers[x]
                };
                let vy = if y == VFLAG {
                    f
                } else {
                    self.registers[y]
                };
                let underflow = match instr {
                    Instruction::SubReg(..) => vx < vy,
                    _ => vy < vx,
                };
                if underflow {
                    Some(Fault::Overflow)
                } else {
                    None
                }
            },
            Instruction::Draw(_, _, n) => {
                if i + n > MEM_SIZE {
                    Some(Fault::MemoryAccess)
                } else {
                    None
                }
            },
            Instruction::AddIndex(x) => {
                if i + self.registers[x] as usize > 0xFFFF {
                    Some(Fault::Overflow)
                } else {
                    None
                }
            },
            Instruction::Digits(_) => {
                if i + 2 >= MEM_SIZE {
                    Some(Fault::MemoryAccess)
                } else {
                    None
                }
            },
            Instruction::StoreRegs(x) | Instruction::LoadRegs(x) => {
                if i + x + 1 > MEM_SIZE {
                    Some(Fault::MemoryAccess)
                } else {
                    None
                }
            },
            _ => None,
        }
    }

    /// Carries out a control-flow instruction; the program counter already
    /// points past it.
    fn run_flow(&mut self, instr: Instruction)
        requires
            old(self).wf(),
            unit_of(instr) == 0,
            operands_in_range(instr),
            instruction_fault(old(self)@, instr) is None,
            old(self).program_counter <= MEM_SIZE,
        ensures
            final(self).wf(),
            final(self)@ == execute(old(self)@, instr),
    {
        match instr {
            Instruction::Cls => self.display.cls(),
            Instruction::Ret => {
                let ret = self.stack.pop();
                match ret {
                    Ok(addr) => {
                        self.program_counter = addr as usize;
                    },
                    Err(_) => {},
                }
            },
            Instruction::Jump(nnn) => self.program_counter = nnn,
            Instruction::Call(nnn) => {
                let _ = self.stack.push(self.program_counter as u16);
                self.program_counter = nnn;
            },
            Instruction::SkipEqImm(x, kk) => {
                if self.registers[x] == kk {
                    self.program_counter += 2;
                }
            },
            Instruction::SkipNeImm(x, kk) => {
                if self.registers[x] != kk {
                    self.program_counter += 2;
                }
            },
            Instruction::SkipEqReg(x, y) => {
                if self.registers[x] == self.registers[y] {
                    self.program_counter += 2;
                }
            },
            Instruction::SkipNeReg(x, y) => {
                if self.registers[x] != self.registers[y] {
                    self.program_counter += 2;
                }
            },
            Instruction::JumpV0(nnn) => self.program_counter = nnn + (self.registers[0] as usize),
            Instruction::SkipKey(x) => {
                if self.key[x] {
                    self.program_counter += 2;
                }
            },
            Instruction::SkipNoKey(x) => {
                if !self.key[x] {
                    self.program_counter += 2;
                }
            },
            _ => {},
        }
    }

    /// Carries out an instruction on the registers and timers.
    fn run_alu(&mut self, instr: Instruction)
        requires
            old(self).wf(),
            unit_of(instr) == 1,
            operands_in_range(instr),
            instruction_fault(old(self)@, instr) is None,
        ensures
            final(self).wf(),
            final(self)@ == execute(old(self)@, instr),
    {
        match instr {
            Instruction::LoadImm(x, kk) => self.registers[x] = kk,
            Instruction::AddImm(x, kk) => self.registers[x] = self.registers[x] + kk,
            Instruction::Move(x, y) => self.registers[x] = self.registers[y],
            Instruction::Or(x, y) => self.registers[x] = self.registers[x] | self.registers[y],
            Instruction::And(x, y) => self.registers[x] = self.registers[x] & self.registers[y],
            Instruction::Xor(x, y) => self.registers[x] = self.registers[x] ^ self.registers[y],
            Instruction::AddReg(x, y) => {
                let mut total: u32 = self.registers[x] as u32 + self.registers[y] as u32;
                if total > 255 {
                    self.registers[VFLAG] = 1;
                } else {
                    self.registers[VFLAG] = 0;
                }
                proof {
                    lemma_low_byte(total);
                }
                total = total & 0xFF;
                self.registers[x] = total as u8;
            },
            Instruction::SubReg(x, y) => {
                if self.registers[x] < self.registers[y] {
                    self.registers[VFLAG] = 1;
                } else {
                    self.registers[VFLAG] = 0;
                }
                self.registers[x] = self.registers[x] - self.registers[y];
            },
            Instruction::ShiftRight(x) => {
                proof {
                    lemma_byte_bits(self.registers[x as int]);
                }
                if (self.registers[x] & 0x01) == 0x01 {
                    self.registers[VFLAG] = 1;
                } else {
                    self.registers[VFLAG] = 0;
                }
                proof {
                    lemma_byte_bits(self.registers[x as int]);
                }
                self.registers[x] = self.registers[x] >> 1;
            },
            Instruction::SubN(x, y) => {
                if self.registers[x] < self.registers[y] {
                    self.registers[VFLAG] = 1;
                } else {
                    self.registers[VFLAG] = 0;
                }
                self.registers[x] = self.registers[y] - self.registers[x];
            },
            Instruction::ShiftLeft(x) => {
                proof {
                    lemma_byte_bits(self.registers[x as int]);
                }
                if (self.registers[x] & 0x80) == 0x80 {
                    self.registers[VFLAG] = 1;
                } else {
                    self.registers[VFLAG] = 0;
                }
                proof {
                    lemma_byte_bits(self.registers[x as int]);
                }
                self.registers[x] = self.registers[x] << 1;
            },
            Instruction::Random(x, kk) => {
                let _ = random_byte();
                self.registers[x] = self.registers[x] & kk;
            },
            Instruction::LoadDelay(x) => self.registers[x] = self.timer_delay,
            Instruction::SetDelay(x) => self.timer_delay = self.registers[x],
            Instruction::SetSound(x) => self.timer_sound = self.registers[x],
            Instruction::AddIndex(x) => self.index = self.index + self.registers[x] as u16,
            _ => {},
        }
    }

    /// Carries out an instruction that reads or writes memory or the screen.
    fn run_mem(&mut self, instr: Instruction)
        requires
            old(self).wf(),
            unit_of(instr) == 2,
            operands_in_range(instr),
            instruction_fault(old(self)@, instr) is None,
        ensures
            final(self).wf(),
            final(self)@ == execute(old(self)@, instr),
    {
        let i = self.index as usize;
        match instr {
            Instruction::Draw(x, y, n) => {
                self.registers[VFLAG] = 0;
                let mut sprite: Vec<u8> = Vec::new();
                for k in 0..n
                    invariant
                        i + n <= MEM_SIZE,
                        i == self.index,
                        self.wf(),
                        sprite@ == self.mem@.subrange(i as int, i + k),
                {
                    sprite.push(self.mem[i + k]);
                }
                if self.display.update_screen(x, y, sprite.as_slice()) {
                    self.registers[VFLAG] = 1;
                }
            },
            Instruction::Digits(x) => {
                let v = x as u8;
                self.mem[i] = v / 100;
                self.mem[i + 1] = (v / 10) % 10;
                self.mem[i + 2] = (v % 100) % 10;
            },
            Instruction::StoreRegs(x) => {
                let ghost before = self.mem@;
                for k in 0..x + 1
                    invariant
                        i + x + 1 <= MEM_SIZE,
                        x < 16,
                        self.wf(),
                        self@ == with_mem(old(self)@, self.mem@),
                        self.mem@ == copy_into(before, old(self)@.registers, i as int, k as int),
                {
                    self.mem[i + k] = self.registers[k];
                }
            },
            Instruction::LoadRegs(x) => {
                for k in 0..x + 1
                    invariant
                        i + x + 1 <= MEM_SIZE,
                        x < 16,
                        self.wf(),
                        self@ == with_registers(old(self)@, self.registers@),
                        self.registers@ == copy_from(
                            old(self)@.registers,
                            old(self)@.mem,
                            i as int,
                            k as int,
                        ),
                {
                    self.registers[k] = self.mem[i + k];
                }
            },
            _ => {},
        }
    }

    /// Runs one machine cycle: fetches the opcode at the program counter,
    /// moves past it, executes it and counts the timers down. Returns the
    /// opcode when it is not one the machine knows (it then has no effect
    /// beyond the program counter and the timers).
    pub fn cycle(&mut self) -> (unknown: Option<u16>)
        requires
            old(self).wf(),
            machine_fault(old(self)@) is None,
        ensures
            final(self).wf(),
            final(self)@ == step(old(self)@),
            unknown == (if spec_decode(opcode(old(self)@)) is Unknown {
                Some(opcode(old(self)@))
            } else {
                None
            }),
    {
        let operation = self.fetch();
        let instr = decode(operation);
        proof {
            lemma_decode_in_range(operation);
        }
        self.program_counter += 2;
        match instr {
            Instruction::LoadImm(..) | Instruction::AddImm(..) | Instruction::Move(..)
            | Instruction::Or(..) | Instruction::And(..) | Instruction::Xor(..)
            | Instruction::AddReg(..) | Instruction::SubReg(..) | Instruction::ShiftRight(..)
            | Instruction::SubN(..) | Instruction::ShiftLeft(..) | Instruction::Random(..)
            | Instruction::LoadDelay(..) | Instruction::SetDelay(..) | Instruction::SetSound(..)
            | Instruction::AddIndex(..) => self.run_alu(instr),
            Instruction::Draw(..) | Instruction::Digits(..) | Instruction::StoreRegs(..)
            | Instruction::LoadRegs(..) => self.run_mem(instr),
            _ => self.run_flow(instr),
        }
        if self.timer_delay > 0 {
            self.timer_delay -= 1;
        }
        if self.timer_sound > 0 {
            self.timer_sound -= 1;
        }
        match instr {
            Instruction::Unknown(op) => Some(op),
            _ => None,
        }
    }

    /// The value of register `x`.
    pub fn register(&self, x: usize) -> (v: u8)
        requires
            x < 16,
        ensures
            v == self@.registers[x as int],
    {
        self.registers[x]
    }

    /// The byte at address `addr`.
    pub fn memory(&self, addr: usize) -> (v: u8)
        requires
            addr < MEM_SIZE,
        ensures
            v == self@.mem[addr as int],
    {
        self.mem[addr]
    }

    /// The program counter.
    pub fn program_counter(&self) -> (pc: usize)
        ensures
            pc == self@.pc,
    {
        self.program_counter
    }

    /// The index register I.
    pub fn index(&self) -> (i: u16)
        ensures
            i == self@.index,
    {
        self.index
    }

    /// How many return addresses are on the stack.
    pub fn stack_size(&self) -> (n: usize)
        requires
            self.wf(),
        ensures
            n == self@.stack.len(),
    {
        self.stack.size()
    }

    /// The delay timer.
    pub fn delay_timer(&self) -> (t: u8)
        ensures
            t == self@.delay,
    {
        self.timer_delay
    }

    /// The sound timer.
    pub fn sound_timer(&self) -> (t: u8)
        ensures
            t == self@.sound,
    {
        self.timer_sound
    }

    /// Lights pixel `(x, y)` by storing 1 in the frame buffer.
    pub fn picture_test(&mut self, x: usize, y: usize)
        requires
            x < WIDTH,
            y < HEIGHT,
        ensures
            final(self)@ == with_screen(old(self)@, with_pixel(old(self)@.screen, x as int, y as int, 1)),
            final(self).wf() == old(self).wf(),
    {
        self.display.set_pixel(x, y, true);
    }
}

} // verus!
