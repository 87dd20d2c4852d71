//! What each instruction does, stated directly over the opcode's bytes and
//! the machine state, and proved of `step`, the semantics that
//! `Chip::cycle` carries out.
//!
//! An opcode is read as the nibbles `O X Y N` of its high byte `OX` and its
//! low byte `YN`; `kk` is the low byte and `nnn` the last three nibbles.

use vstd::prelude::*;

use crate::chip8::{
    initial_state, machine_fault, opcode, spec_decode, step, ChipState, Fault, Instruction,
    FONT_START, MEM_SIZE, PROGRAM_START, VFLAG,
};
use crate::graphics::{
    blank_screen, lemma_draw_closed_form, lemma_draw_keeps_wf, lit, row_bit, screen_wf,
    sprite_covers, with_pixel, HEIGHT, WIDTH,
};

verus! {

/// The high byte of the opcode at the program counter.
pub open spec fn hi(s: ChipState) -> int {
    s.mem[s.pc] as int
}

/// The low byte of the opcode at the program counter.
pub open spec fn lo(s: ChipState) -> int {
    s.mem[s.pc + 1] as int
}

/// The first nibble O.
pub open spec fn nib_o(s: ChipState) -> int {
    hi(s) / 16
}

/// The second nibble X.
pub open spec fn nib_x(s: ChipState) -> int {
    hi(s) % 16
}

/// The third nibble Y.
pub open spec fn nib_y(s: ChipState) -> int {
    lo(s) / 16
}

/// The last nibble N.
pub open spec fn nib_n(s: ChipState) -> int {
    lo(s) % 16
}

/// The address operand nnn.
pub open spec fn nnn(s: ChipState) -> int {
    nib_x(s) * 256 + lo(s)
}

/// A timer after one tick.
pub open spec fn counted_down(t: u8) -> int {
    if t > 0 {
        t - 1
    } else {
        0
    }
}

/// Bit `b` of `v`, bit 0 being the least significant.
pub open spec fn bit(v: u8, b: u8) -> bool {
    (v >> b) & 1u8 == 1u8
}

/// A state of the machine's shape: sixteen registers and keys, 4 KiB of memory.
pub open spec fn shaped(s: ChipState) -> bool {
    &&& s.registers.len() == 16
    &&& s.mem.len() == MEM_SIZE
    &&& s.keys.len() == 16
}

/// `t` is `s` one ordinary step later, with only the registers possibly
/// changed: the program counter moved past the opcode, the timers counted
/// down, and the stack, memory, index, screen and keys as they were.
pub open spec fn only_registers_changed(s: ChipState, t: ChipState) -> bool {
    &&& t.pc == s.pc + 2
    &&& t.delay == counted_down(s.delay)
    &&& t.sound == counted_down(s.sound)
    &&& t.stack == s.stack
    &&& t.mem == s.mem
    &&& t.index == s.index
    &&& t.screen == s.screen
    &&& t.keys == s.keys
    &&& t.registers.len() == 16
}

/// Register `i` is untouched from `s` to `t`, for every `i` but the `changed` ones.
pub open spec fn other_registers_kept(s: ChipState, t: ChipState, changed: Set<int>) -> bool {
    forall|i: int| 0 <= i < 16 && !changed.contains(i) ==> t.registers[i] == s.registers[i]
}

/// How the opcode splits into nibbles.
proof fn lemma_opcode_parts(s: ChipState)
    requires
        shaped(s),
        machine_fault(s) is None,
    ensures
        0 <= s.pc,
        s.pc + 1 < MEM_SIZE,
        opcode(s) / 4096 == nib_o(s),
        (opcode(s) / 256) % 16 == nib_x(s),
        (opcode(s) / 16) % 16 == nib_y(s),
        opcode(s) % 16 == nib_n(s),
        opcode(s) % 4096 == nnn(s),
        opcode(s) % 256 == lo(s),
{
    let h = hi(s);
    let l = lo(s);
    assert(0 <= h < 256 && 0 <= l < 256);
    assert(opcode(s) == h * 256 + l);
}

/// 8xy3 sets Vx to the bitwise exclusive or of Vx and Vy: a bit of the
/// new Vx is set exactly when it is set in one of the two. So 8xx3 clears
/// Vx. Nothing else changes.
pub proof fn law_xor(s: ChipState)
    requires
        shaped(s),
        machine_fault(s) is None,
        nib_o(s) == 8,
        nib_n(s) == 3,
    ensures
        ({
            let t = step(s);
            let x = nib_x(s);
            let y = nib_y(s);
            &&& only_registers_changed(s, t)
            &&& other_registers_kept(s, t, set![x])
            &&& forall|b: u8|
                b < 8 ==> bit(t.registers[x], b) == (bit(s.registers[x], b) != bit(
                    s.registers[y],
                    b,
                ))
            &&& x == y ==> t.registers[x] == 0
        }),
{
    lemma_opcode_parts(s);
    let t = step(s);
    let x = nib_x(s);
    let y = nib_y(s);
    let a = s.registers[x];
    let c = s.registers[y];
    assert(t.registers[x] == a ^ c);
    assert forall|b: u8| b < 8 implies bit(a ^ c, b) == (bit(a, b) != bit(c, b)) by {
        assert(((a ^ c) >> b) & 1u8 == 1u8 <==> (((a >> b) & 1u8 == 1u8) != ((c >> b) & 1u8
            == 1u8))) by (bit_vector);
    }
    assert(a ^ a == 0) by (bit_vector);
}


/// 6xkk loads kk into Vx; nothing else changes.
pub proof fn law_load_imm(s: ChipState)
    requires
        shaped(s),
        machine_fault(s) is None,
        nib_o(s) == 6,
    ensures
        only_registers_changed(s, step(s)),
        other_registers_kept(s, step(s), set![nib_x(s)]),
        step(s).registers[nib_x(s)] == lo(s),
{
    lemma_opcode_parts(s);
}

/// 7xkk adds kk to Vx (a sum that does not fit is a fault); nothing else changes.
pub proof fn law_add_imm(s: ChipState)
    requires
        shaped(s),
        machine_fault(s) is None,
        nib_o(s) == 7,
    ensures
        only_registers_changed(s, step(s)),
        other_registers_kept(s, step(s), set![nib_x(s)]),
        step(s).registers[nib_x(s)] == s.registers[nib_x(s)] + lo(s),
{
    lemma_opcode_parts(s);
}

/// 8xy0 copies Vy into Vx; nothing else changes.
pub proof fn law_move(s: ChipState)
    requires
        shaped(s),
        machine_fault(s) is None,
        nib_o(s) == 8,
        nib_n(s) == 0,
    ensures
        only_registers_changed(s, step(s)),
        other_registers_kept(s, step(s), set![nib_x(s)]),
        step(s).registers[nib_x(s)] == s.registers[nib_y(s)],
{
    lemma_opcode_parts(s);
}

/// 8xy1 sets Vx to the bitwise or of Vx and Vy: a bit of the new Vx is set
/// exactly when it is set in either; nothing else changes.
pub proof fn law_or(s: ChipState)
    requires
        shaped(s),
        machine_fault(s) is None,
        nib_o(s) == 8,
        nib_n(s) == 1,
    ensures
        ({
            let t = step(s);
            let x = nib_x(s);
            let y = nib_y(s);
            &&& only_registers_changed(s, t)
            &&& other_registers_kept(s, t, set![x])
            &&& forall|b: u8|
                b < 8 ==> bit(t.registers[x], b) == (bit(s.registers[x], b) || bit(
                    s.registers[y],
                    b,
                ))
        }),
{
    lemma_opcode_parts(s);
    let a = s.registers[nib_x(s)];
    let c = s.registers[nib_y(s)];
    assert forall|b: u8| b < 8 implies bit(a | c, b) == (bit(a, b) || bit(c, b)) by {
        assert(((a | c) >> b) & 1u8 == 1u8 <==> (((a >> b) & 1u8 == 1u8) || ((c >> b) & 1u8
            == 1u8))) by (bit_vector);
    }
}

/// 8xy2 sets Vx to the bitwise and of Vx and Vy: a bit of the new Vx is set
/// exactly when it is set in both; nothing else changes.
pub proof fn law_and(s: ChipState)
    requires
        shaped(s),
        machine_fault(s) is None,
        nib_o(s) == 8,
        nib_n(s) == 2,
    ensures
        ({
            let t = step(s);
            let x = nib_x(s);
            let y = nib_y(s);
            &&& only_registers_changed(s, t)
            &&& other_registers_kept(s, t, set![x])
            &&& forall|b: u8|
                b < 8 ==> bit(t.registers[x], b) == (bit(s.registers[x], b) && bit(
                    s.registers[y],
                    b,
                ))
        }),
{
    lemma_opcode_parts(s);
    let a = s.registers[nib_x(s)];
    let c = s.registers[nib_y(s)];
    assert forall|b: u8| b < 8 implies bit(a & c, b) == (bit(a, b) && bit(c, b)) by {
        assert(((a & c) >> b) & 1u8 == 1u8 <==> (((a >> b) & 1u8 == 1u8) && ((c >> b) & 1u8
            == 1u8))) by (bit_vector);
    }
}

/// 8xy4 adds Vy to Vx modulo 256 and sets VF to the carry; when x is F the
/// sum overwrites the carry. No other register changes.
pub proof fn law_add_reg(s: ChipState)
    requires
        shaped(s),
        machine_fault(s) is None,
        nib_o(s) == 8,
        nib_n(s) == 4,
    ensures
        ({
            let t = step(s);
            let x = nib_x(s);
            let sum = s.registers[x] + s.registers[nib_y(s)];
            &&& only_registers_changed(s, t)
            &&& other_registers_kept(s, t, set![x, VFLAG as int])
            &&& t.registers[x] == sum % 256
            &&& x != VFLAG ==> t.registers[VFLAG as int] == (if sum > 255 {
                1int
            } else {
                0int
            })
        }),
{
    lemma_opcode_parts(s);
}

/// The carry or borrow flag of 8xy5 and 8xy7: whether Vx < Vy.
pub open spec fn borrow(s: ChipState) -> int {
    if s.registers[nib_x(s)] < s.registers[nib_y(s)] {
        1
    } else {
        0
    }
}

/// Register `i` after VF has been set to `f`.
pub open spec fn after_flag(s: ChipState, i: int, f: int) -> int {
    if i == VFLAG {
        f
    } else {
        s.registers[i] as int
    }
}

/// 8xy5 first sets VF to whether Vx < Vy, then subtracts Vy from Vx, both
/// read after that (so a register F operand reads the flag). A negative
/// difference is a fault. No other register changes.
pub proof fn law_sub_reg(s: ChipState)
    requires
        shaped(s),
        machine_fault(s) is None,
        nib_o(s) == 8,
        nib_n(s) == 5,
    ensures
        ({
            let t = step(s);
            let x = nib_x(s);
            let y = nib_y(s);
            let f = borrow(s);
            &&& only_registers_changed(s, t)
            &&& other_registers_kept(s, t, set![x, VFLAG as int])
            &&& t.registers[x] == after_flag(s, x, f) - after_flag(s, y, f)
            &&& x != VFLAG ==> t.registers[VFLAG as int] == f
        }),
{
    lemma_opcode_parts(s);
}

/// 8xy7 first sets VF to whether Vx < Vy, then sets Vx to Vy - Vx, both
/// read after that. A negative difference is a fault. No other register
/// changes.
pub proof fn law_sub_n(s: ChipState)
    requires
        shaped(s),
        machine_fault(s) is None,
        nib_o(s) == 8,
        nib_n(s) == 7,
    ensures
        ({
            let t = step(s);
            let x = nib_x(s);
            let y = nib_y(s);
            let f = borrow(s);
            &&& only_registers_changed(s, t)
            &&& other_registers_kept(s, t, set![x, VFLAG as int])
            &&& t.registers[x] == after_flag(s, y, f) - after_flag(s, x, f)
            &&& x != VFLAG ==> t.registers[VFLAG as int] == f
        }),
{
    lemma_opcode_parts(s);
}

/// 8xy6 sets VF to the lowest bit of Vx, then halves Vx (read after the
/// flag); Vy plays no part. No other register changes.
pub proof fn law_shift_right(s: ChipState)
    requires
        shaped(s),
        machine_fault(s) is None,
        nib_o(s) == 8,
        nib_n(s) == 6,
    ensures
        ({
            let t = step(s);
            let x = nib_x(s);
            let f = (s.registers[x] % 2) as int;
            &&& only_registers_changed(s, t)
            &&& other_registers_kept(s, t, set![x, VFLAG as int])
            &&& t.registers[x] == after_flag(s, x, f) / 2
            &&& x != VFLAG ==> t.registers[VFLAG as int] == f
        }),
{
    lemma_opcode_parts(s);
}

/// 8xyE sets VF to the highest bit of Vx, then doubles Vx modulo 256 (read
/// after the flag); Vy plays no part. No other register changes.
pub proof fn law_shift_left(s: ChipState)
    requires
        shaped(s),
        machine_fault(s) is None,
        nib_o(s) == 8,
        nib_n(s) == 0xE,
    ensures
        ({
            let t = step(s);
            let x = nib_x(s);
            let f = (s.registers[x] / 128) as int;
            &&& only_registers_changed(s, t)
            &&& other_registers_kept(s, t, set![x, VFLAG as int])
            &&& t.registers[x] == (after_flag(s, x, f) * 2) % 256
            &&& x != VFLAG ==> t.registers[VFLAG as int] == f
        }),
{
    lemma_opcode_parts(s);
}

/// Cxkk keeps in Vx only the bits that are also set in kk; nothing else
/// changes.
pub proof fn law_random(s: ChipState)
    requires
        shaped(s),
        machine_fault(s) is None,
        nib_o(s) == 0xC,
    ensures
        ({
            let t = step(s);
            let x = nib_x(s);
            let kk = s.mem[s.pc + 1];
            &&& only_registers_changed(s, t)
            &&& other_registers_kept(s, t, set![x])
            &&& forall|b: u8|
                b < 8 ==> bit(t.registers[x], b) == (bit(s.registers[x], b) && bit(kk, b))
        }),
{
    lemma_opcode_parts(s);
    let a = s.registers[nib_x(s)];
    let c = s.mem[s.pc + 1];
    assert forall|b: u8| b < 8 implies bit(a & c, b) == (bit(a, b) && bit(c, b)) by {
        assert(((a & c) >> b) & 1u8 == 1u8 <==> (((a >> b) & 1u8 == 1u8) && ((c >> b) & 1u8
            == 1u8))) by (bit_vector);
    }
}

/// Fx07 copies the delay timer, as it was before the tick, into Vx.
pub proof fn law_load_delay(s: ChipState)
    requires
        shaped(s),
        machine_fault(s) is None,
        nib_o(s) == 0xF,
        lo(s) == 0x07,
    ensures
        only_registers_changed(s, step(s)),
        other_registers_kept(s, step(s), set![nib_x(s)]),
        step(s).registers[nib_x(s)] == s.delay,
{
    lemma_opcode_parts(s);
}

/// Everything but the named timers and the program counter is as before.
pub open spec fn registers_and_memory_kept(s: ChipState, t: ChipState) -> bool {
    &&& t.registers == s.registers
    &&& t.stack == s.stack
    &&& t.mem == s.mem
    &&& t.screen == s.screen
    &&& t.keys == s.keys
}

/// Fx15 sets the delay timer to Vx (then the tick counts it down); Fx18
/// does the same for the sound timer.
pub proof fn law_set_timers(s: ChipState)
    requires
        shaped(s),
        machine_fault(s) is None,
        nib_o(s) == 0xF,
        lo(s) == 0x15 || lo(s) == 0x18,
    ensures
        ({
            let t = step(s);
            let v = s.registers[nib_x(s)];
            &&& registers_and_memory_kept(s, t)
            &&& t.pc == s.pc + 2
            &&& t.index == s.index
            &&& t.delay == counted_down(if lo(s) == 0x15 { v } else { s.delay })
            &&& t.sound == counted_down(if lo(s) == 0x18 { v } else { s.sound })
        }),
{
    lemma_opcode_parts(s);
}

/// Fx1E and Fx29 add Vx to I (a sum past 0xFFFF is a fault).
pub proof fn law_add_index(s: ChipState)
    requires
        shaped(s),
        machine_fault(s) is None,
        nib_o(s) == 0xF,
        lo(s) == 0x1E || lo(s) == 0x29,
    ensures
        ({
            let t = step(s);
            &&& registers_and_memory_kept(s, t)
            &&& t.pc == s.pc + 2
            &&& t.index == s.index + s.registers[nib_x(s)]
            &&& t.delay == counted_down(s.delay)
            &&& t.sound == counted_down(s.sound)
        }),
{
    lemma_opcode_parts(s);
}

/// Only memory may change, besides the program counter and timers.
pub open spec fn only_memory_changed(s: ChipState, t: ChipState) -> bool {
    &&& t.registers == s.registers
    &&& t.stack == s.stack
    &&& t.index == s.index
    &&& t.screen == s.screen
    &&& t.keys == s.keys
    &&& t.pc == s.pc + 2
    &&& t.delay == counted_down(s.delay)
    &&& t.sound == counted_down(s.sound)
    &&& t.mem.len() == MEM_SIZE
}

/// Fx33 writes the hundreds, tens and units digits of the number x of its
/// register operand to I, I + 1 and I + 2; no other byte changes.
pub proof fn law_digits(s: ChipState)
    requires
        shaped(s),
        machine_fault(s) is None,
        nib_o(s) == 0xF,
        lo(s) == 0x33,
    ensures
        ({
            let t = step(s);
            let i = s.index as int;
            let x = nib_x(s);
            &&& only_memory_changed(s, t)
            &&& t.mem[i] == x / 100
            &&& t.mem[i + 1] == (x / 10) % 10
            &&& t.mem[i + 2] == x % 10
            &&& forall|a: int| 0 <= a < MEM_SIZE && !(i <= a <= i + 2) ==> t.mem[a] == s.mem[a]
        }),
{
    lemma_opcode_parts(s);
}

/// Fx55 copies V0 to Vx into memory from I on; no other byte changes.
pub proof fn law_store_registers(s: ChipState)
    requires
        shaped(s),
        machine_fault(s) is None,
        nib_o(s) == 0xF,
        lo(s) == 0x55,
    ensures
        ({
            let t = step(s);
            let i = s.index as int;
            let x = nib_x(s);
            &&& only_memory_changed(s, t)
            &&& forall|a: int|
                0 <= a < MEM_SIZE ==> t.mem[a] == if i <= a <= i + x {
                    s.registers[a - i]
                } else {
                    s.mem[a]
                }
        }),
{
    lemma_opcode_parts(s);
}

/// Fx65 loads V0 to Vx from memory from I on; no other register changes.
pub proof fn law_load_registers(s: ChipState)
    requires
        shaped(s),
        machine_fault(s) is None,
        nib_o(s) == 0xF,
        lo(s) == 0x65,
    ensures
        ({
            let t = step(s);
            let i = s.index as int;
            let x = nib_x(s);
            &&& only_registers_changed(s, t)
            &&& forall|k: int|
                0 <= k < 16 ==> t.registers[k] == if k <= x {
                    s.mem[i + k]
                } else {
                    s.registers[k]
                }
        }),
{
    lemma_opcode_parts(s);
}

/// Dxyn draws the n bytes from I as a sprite with its corner at column x,
/// row y (the register numbers themselves): exactly the pixels under set
/// sprite bits are toggled, and VF becomes 1 when one of them was lit and 0
/// otherwise, whatever VF held before. No other register changes.
pub proof fn law_draw(s: ChipState)
    requires
        shaped(s),
        screen_wf(s.screen),
        machine_fault(s) is None,
        nib_o(s) == 0xD,
    ensures
        ({
            let t = step(s);
            let x = nib_x(s);
            let y = nib_y(s);
            let i = s.index as int;
            let sprite = s.mem.subrange(i, i + nib_n(s));
            &&& t.pc == s.pc + 2
            &&& t.delay == counted_down(s.delay)
            &&& t.sound == counted_down(s.sound)
            &&& t.stack == s.stack
            &&& t.mem == s.mem
            &&& t.index == s.index
            &&& t.keys == s.keys
            &&& t.registers.len() == 16
            &&& other_registers_kept(s, t, set![VFLAG as int])
            &&& t.registers[VFLAG as int] == (if exists|px: int, py: int|
                0 <= px < WIDTH && 0 <= py < HEIGHT && #[trigger] sprite_covers(
                    x,
                    y,
                    sprite,
                    px,
                    py,
                ) && lit(s.screen, px, py) {
                1int
            } else {
                0int
            })
            &&& screen_wf(t.screen)
            &&& forall|px: int, py: int|
                0 <= px < WIDTH && 0 <= py < HEIGHT ==> lit(t.screen, px, py) == (lit(
                    s.screen,
                    px,
                    py,
                ) != sprite_covers(x, y, sprite, px, py))
        }),
{
    lemma_opcode_parts(s);
    let i = s.index as int;
    let sprite = s.mem.subrange(i, i + nib_n(s));
    lemma_draw_closed_form(s.screen, nib_x(s), nib_y(s), sprite);
    lemma_draw_keeps_wf(s.screen, nib_x(s), nib_y(s), sprite);
}

/// 00E0 darkens every pixel; nothing else changes.
pub proof fn law_clear_screen(s: ChipState)
    requires
        shaped(s),
        machine_fault(s) is None,
        hi(s) == 0x00,
        lo(s) == 0xE0,
    ensures
        ({
            let t = step(s);
            &&& t.pc == s.pc + 2
            &&& t.delay == counted_down(s.delay)
            &&& t.sound == counted_down(s.sound)
            &&& t.registers == s.registers
            &&& t.stack == s.stack
            &&& t.mem == s.mem
            &&& t.index == s.index
            &&& t.keys == s.keys
            &&& t.screen.len() == WIDTH
            &&& forall|px: int| 0 <= px < WIDTH ==> (#[trigger] t.screen[px]).len() == HEIGHT
            &&& forall|px: int, py: int|
                0 <= px < WIDTH && 0 <= py < HEIGHT ==> #[trigger] t.screen[px][py] == 0
        }),
{
    lemma_opcode_parts(s);
}

/// Only the program counter and the stack may change, besides the timers.
pub open spec fn only_control_changed(s: ChipState, t: ChipState) -> bool {
    &&& t.registers == s.registers
    &&& t.mem == s.mem
    &&& t.index == s.index
    &&& t.screen == s.screen
    &&& t.keys == s.keys
    &&& t.delay == counted_down(s.delay)
    &&& t.sound == counted_down(s.sound)
}

/// 00EE continues at the address on top of the stack and removes it.
pub proof fn law_return(s: ChipState)
    requires
        shaped(s),
        machine_fault(s) is None,
        hi(s) == 0x00,
        lo(s) == 0xEE,
    ensures
        only_control_changed(s, step(s)),
        step(s).pc == s.stack.last(),
        step(s).stack == s.stack.drop_last(),
{
    lemma_opcode_parts(s);
}

/// 0nnn (other than 00E0 and 00EE), 1nnn and Annn continue at nnn.
pub proof fn law_jump(s: ChipState)
    requires
        shaped(s),
        machine_fault(s) is None,
        nib_o(s) == 1 || nib_o(s) == 0xA || (nib_o(s) == 0 && !(hi(s) == 0 && (lo(s) == 0xE0
            || lo(s) == 0xEE))),
    ensures
        only_control_changed(s, step(s)),
        step(s).pc == nnn(s),
        step(s).stack == s.stack,
{
    lemma_opcode_parts(s);
}

/// 2nnn pushes the address of the next instruction, unless fifteen are
/// already stored, and continues at nnn.
pub proof fn law_call(s: ChipState)
    requires
        shaped(s),
        machine_fault(s) is None,
        nib_o(s) == 2,
    ensures
        only_control_changed(s, step(s)),
        step(s).pc == nnn(s),
        step(s).stack == if s.stack.len() < 15 {
            s.stack.push((s.pc + 2) as u16)
        } else {
            s.stack
        },
{
    lemma_opcode_parts(s);
}

/// Bnnn continues at nnn + V0.
pub proof fn law_jump_v0(s: ChipState)
    requires
        shaped(s),
        machine_fault(s) is None,
        nib_o(s) == 0xB,
    ensures
        only_control_changed(s, step(s)),
        step(s).pc == nnn(s) + s.registers[0],
        step(s).stack == s.stack,
{
    lemma_opcode_parts(s);
}

/// The opcode is one of the conditional skips 3xkk, 4xkk, 5xy0, 9xy0,
/// Ex9E, ExA1.
pub open spec fn is_skip(s: ChipState) -> bool {
    ||| nib_o(s) == 3
    ||| nib_o(s) == 4
    ||| (nib_o(s) == 5 || nib_o(s) == 9) && nib_n(s) == 0
    ||| nib_o(s) == 0xE && (lo(s) == 0x9E || lo(s) == 0xA1)
}

/// Whether the skip is taken: Vx == kk, Vx != kk, Vx == Vy, Vx != Vy, key
/// x down, key x up.
pub open spec fn skip_taken(s: ChipState) -> bool {
    let vx = s.registers[nib_x(s)];
    if nib_o(s) == 3 {
        vx == lo(s)
    } else if nib_o(s) == 4 {
        vx != lo(s)
    } else if nib_o(s) == 5 {
        vx == s.registers[nib_y(s)]
    } else if nib_o(s) == 9 {
        vx != s.registers[nib_y(s)]
    } else if lo(s) == 0x9E {
        s.keys[nib_x(s)]
    } else {
        !s.keys[nib_x(s)]
    }
}

/// A skip moves past the next instruction when its condition holds and
/// only past itself otherwise.
pub proof fn law_skip(s: ChipState)
    requires
        shaped(s),
        machine_fault(s) is None,
        is_skip(s),
    ensures
        only_control_changed(s, step(s)),
        step(s).stack == s.stack,
        step(s).pc == s.pc + if skip_taken(s) {
            4int
        } else {
            2int
        },
{
    lemma_opcode_parts(s);
}

/// The opcode, split into nibbles `o x y n`, stands for no instruction.
pub open spec fn unknown_opcode(o: int, x: int, y: int, n: int) -> bool {
    let low = y * 16 + n;
    ||| (o == 5 || o == 9) && n != 0
    ||| o == 8 && 8 <= n <= 0xD
    ||| o == 8 && n == 0xF
    ||| o == 0xE && low != 0x9E && low != 0xA1
    ||| o == 0xF && low != 0x07 && low != 0x0A && low != 0x15 && low != 0x18 && low != 0x1E
        && low != 0x29 && low != 0x33 && low != 0x55 && low != 0x65
}

/// Exactly the opcodes that stand for no instruction decode as unknown.
pub proof fn law_unknown_opcodes(op: u16)
    ensures
        (spec_decode(op) is Unknown) == unknown_opcode(
            (op / 4096) as int,
            ((op / 256) % 16) as int,
            ((op / 16) % 16) as int,
            (op % 16) as int,
        ),
        spec_decode(op) is Unknown ==> spec_decode(op) == Instruction::Unknown(op),
{
}

/// An unknown opcode, and Fx0A, only move the program counter past
/// themselves and count the timers down.
pub proof fn law_no_effect(s: ChipState)
    requires
        shaped(s),
        machine_fault(s) is None,
        unknown_opcode(nib_o(s), nib_x(s), nib_y(s), nib_n(s)) || (nib_o(s) == 0xF && lo(s)
            == 0x0A),
    ensures
        only_control_changed(s, step(s)),
        step(s).stack == s.stack,
        step(s).pc == s.pc + 2,
{
    lemma_opcode_parts(s);
}

/// Decoded operands are the opcode's nibbles: x the second, y the third,
/// n the last, kk the low byte and nnn the last three nibbles.
pub proof fn law_decode_operands(op: u16)
    ensures
        ({
            let x = ((op / 256) % 16) as usize;
            let y = ((op / 16) % 16) as usize;
            let n = (op % 16) as usize;
            let kk = (op % 256) as u8;
            let nnn = (op % 4096) as usize;
            match spec_decode(op) {
                Instruction::Jump(a) | Instruction::Call(a) | Instruction::JumpV0(a) => a == nnn,
                Instruction::SkipEqImm(a, k) | Instruction::SkipNeImm(a, k)
                | Instruction::LoadImm(a, k) | Instruction::AddImm(a, k)
                | Instruction::Random(a, k) => a == x && k == kk,
                Instruction::SkipEqReg(a, b) | Instruction::Move(a, b) | Instruction::Or(a, b)
                | Instruction::And(a, b) | Instruction::Xor(a, b) | Instruction::AddReg(a, b)
                | Instruction::SubReg(a, b) | Instruction::SubN(a, b)
                | Instruction::SkipNeReg(a, b) => a == x && b == y,
                Instruction::Draw(a, b, c) => a == x && b == y && c == n,
                Instruction::ShiftRight(a) | Instruction::ShiftLeft(a) | Instruction::SkipKey(a)
                | Instruction::SkipNoKey(a) | Instruction::LoadDelay(a) | Instruction::WaitKey(a)
                | Instruction::SetDelay(a) | Instruction::SetSound(a) | Instruction::AddIndex(a)
                | Instruction::Digits(a) | Instruction::StoreRegs(a) | Instruction::LoadRegs(a) => a
                    == x,
                _ => true,
            }
        }),
{
}

/// The next cycle cannot be carried out from `s`: the program counter
/// leaves no room for an opcode, or the opcode returns with an empty stack,
/// overflows a register (7xkk, 8xy5, 8xy7, Fx1E, Fx29), or reaches past the
/// end of memory (Dxyn, Fx33, Fx55, Fx65).
pub open spec fn stuck(s: ChipState) -> bool {
    let pc_ok = 0 <= s.pc && s.pc + 1 < MEM_SIZE;
    let o = nib_o(s);
    let x = nib_x(s);
    let i = s.index as int;
    let vx = s.registers[x] as int;
    let f = borrow(s);
    ||| !pc_ok
    ||| pc_ok && hi(s) == 0 && lo(s) == 0xEE && s.stack.len() == 0
    ||| pc_ok && o == 7 && vx + lo(s) > 255
    ||| pc_ok && o == 8 && nib_n(s) == 5 && after_flag(s, x, f) < after_flag(s, nib_y(s), f)
    ||| pc_ok && o == 8 && nib_n(s) == 7 && after_flag(s, nib_y(s), f) < after_flag(s, x, f)
    ||| pc_ok && o == 0xD && i + nib_n(s) > MEM_SIZE
    ||| pc_ok && o == 0xF && (lo(s) == 0x1E || lo(s) == 0x29) && i + vx > 0xFFFF
    ||| pc_ok && o == 0xF && lo(s) == 0x33 && i + 2 >= MEM_SIZE
    ||| pc_ok && o == 0xF && (lo(s) == 0x55 || lo(s) == 0x65) && i + x + 1 > MEM_SIZE
}

/// A cycle faults exactly in the situations that `stuck` lists, and a bad
/// program counter is reported as such.
pub proof fn law_fault(s: ChipState)
    requires
        shaped(s),
    ensures
        (machine_fault(s) is Some) == stuck(s),
        !(0 <= s.pc && s.pc + 1 < MEM_SIZE) ==> machine_fault(s) == Some(Fault::ProgramCounter),
{
    if 0 <= s.pc && s.pc + 1 < MEM_SIZE {
        let h = hi(s);
        let l = lo(s);
        assert(0 <= h < 256 && 0 <= l < 256);
        assert(opcode(s) == h * 256 + l);
    }
}

/// After loading, the 80 bytes from `FONT_START` hold the glyphs 0 to F,
/// five rows each, top row first.
pub proof fn law_font(program: Seq<u8>)
    ensures
        initial_state(program).mem.subrange(FONT_START as int, FONT_START + 80) == seq![
            0xF0u8, 0x90, 0x90, 0x90, 0xF0, // 0
            0x20, 0x60, 0x20, 0x20, 0x70, // 1
            0xF0, 0x10, 0xF0, 0x80, 0xF0, // 2
            0xF0, 0x10, 0xF0, 0x10, 0xF0, // 3
            0x90, 0x90, 0xF0, 0x10, 0x10, // 4
            0xF0, 0x80, 0xF0, 0x10, 0xF0, // 5
            0xF0, 0x80, 0xF0, 0x90, 0xF0, // 6
            0xF0, 0x10, 0x20, 0x40, 0x40, // 7
            0xF0, 0x90, 0xF0, 0x90, 0xF0, // 8
            0xF0, 0x90, 0xF0, 0x10, 0xF0, // 9
            0xF0, 0x90, 0xF0, 0x90, 0x90, // A
            0xE0, 0x90, 0xE0, 0x90, 0xE0, // B
            0xF0, 0x80, 0x80, 0x80, 0xF0, // C
            0xE0, 0x90, 0x90, 0x90, 0xE0, // D
            0xF0, 0x80, 0xF0, 0x80, 0xF0, // E
            0xF0, 0x80, 0xF0, 0x80, 0x80, // F
        ],
{
    assert(initial_state(program).mem.subrange(FONT_START as int, FONT_START + 80) =~= seq![
        0xF0u8, 0x90, 0x90, 0x90, 0xF0, 0x20, 0x60, 0x20, 0x20, 0x70, 0xF0, 0x10, 0xF0, 0x80,
        0xF0, 0xF0, 0x10, 0xF0, 0x10, 0xF0, 0x90, 0x90, 0xF0, 0x10, 0x10, 0xF0, 0x80, 0xF0, 0x10,
        0xF0, 0xF0, 0x80, 0xF0, 0x90, 0xF0, 0xF0, 0x10, 0x20, 0x40, 0x40, 0xF0, 0x90, 0xF0, 0x90,
        0xF0, 0xF0, 0x90, 0xF0, 0x10, 0xF0, 0xF0, 0x90, 0xF0, 0x90, 0x90, 0xE0, 0x90, 0xE0, 0x90,
        0xE0, 0xF0, 0x80, 0x80, 0x80, 0xF0, 0xE0, 0x90, 0x90, 0x90, 0xE0, 0xF0, 0x80, 0xF0, 0x80,
        0xF0, 0xF0, 0x80, 0xF0, 0x80, 0x80,
    ]);
}

/// After loading, execution starts at 0x200, the program's bytes (up to
/// 0xE00 of them) sit from 0x200 on, every other byte outside the font is
/// zero, the registers, timers and index are zero, the stack is empty and
/// the screen is dark.
pub proof fn law_initial_state(program: Seq<u8>)
    ensures
        ({
            let s = initial_state(program);
            &&& shaped(s)
            &&& s.pc == 0x200
            &&& s.index == 0
            &&& s.delay == 0
            &&& s.sound == 0
            &&& s.stack.len() == 0
            &&& forall|k: int| 0 <= k < 16 ==> s.registers[k] == 0 && !s.keys[k]
            &&& forall|k: int| 0 <= k < program.len() && k < 0xE00 ==> s.mem[0x200 + k] == program[k]
            &&& forall|a: int|
                0 <= a < 0x1000 && !(0x50 <= a < 0xA0) && !(0x200 <= a < 0x200 + program.len()) ==> s.mem[a] == 0
            &&& s.screen.len() == WIDTH
            &&& forall|px: int| 0 <= px < WIDTH ==> (#[trigger] s.screen[px]).len() == HEIGHT
            &&& forall|px: int, py: int|
                0 <= px < WIDTH && 0 <= py < HEIGHT ==> #[trigger] s.screen[px][py] == 0
        }),
{
    assert(PROGRAM_START == 0x200 && FONT_START == 0x50);
}

/// A dark screen: every one of the 64 x 32 pixels is 0.
pub proof fn law_blank_screen()
    ensures
        screen_wf(blank_screen()),
        forall|px: int, py: int|
            0 <= px < WIDTH && 0 <= py < HEIGHT ==> #[trigger] blank_screen()[px][py] == 0,
{
}

/// Writing a pixel changes that pixel alone: reading it back gives the
/// written value, every other pixel is as before.
pub proof fn law_write_pixel(s: Seq<Seq<u8>>, x: int, y: int, v: u8)
    requires
        screen_wf(s),
        0 <= x < WIDTH,
        0 <= y < HEIGHT,
    ensures
        forall|px: int, py: int|
            0 <= px < WIDTH && 0 <= py < HEIGHT ==> #[trigger] with_pixel(s, x, y, v)[px][py] == if px
                == x && py == y {
                v
            } else {
                s[px][py]
            },
        lit(with_pixel(s, x, y, 1), x, y),
        !lit(with_pixel(s, x, y, 0), x, y),
{
}

/// The pixels of a sprite row are its bits from the most significant one:
/// pixel `i` shows the bit worth 2^(7 - i).
pub proof fn law_row_bit(row: u8)
    ensures
        row_bit(row, 0) == ((row / 128) % 2 == 1),
        row_bit(row, 1) == ((row / 64) % 2 == 1),
        row_bit(row, 2) == ((row / 32) % 2 == 1),
        row_bit(row, 3) == ((row / 16) % 2 == 1),
        row_bit(row, 4) == ((row / 8) % 2 == 1),
        row_bit(row, 5) == ((row / 4) % 2 == 1),
        row_bit(row, 6) == ((row / 2) % 2 == 1),
        row_bit(row, 7) == (row % 2 == 1),
{
    assert(((row >> 7usize) & 1u8 == 1u8) == ((row / 128) % 2 == 1)) by (bit_vector);
    assert(((row >> 6usize) & 1u8 == 1u8) == ((row / 64) % 2 == 1)) by (bit_vector);
    assert(((row >> 5usize) & 1u8 == 1u8) == ((row / 32) % 2 == 1)) by (bit_vector);
    assert(((row >> 4usize) & 1u8 == 1u8) == ((row / 16) % 2 == 1)) by (bit_vector);
    assert(((row >> 3usize) & 1u8 == 1u8) == ((row / 8) % 2 == 1)) by (bit_vector);
    assert(((row >> 2usize) & 1u8 == 1u8) == ((row / 4) % 2 == 1)) by (bit_vector);
    assert(((row >> 1usize) & 1u8 == 1u8) == ((row / 2) % 2 == 1)) by (bit_vector);
    assert(((row >> 0usize) & 1u8 == 1u8) == (row % 2 == 1)) by (bit_vector);
}

} // verus!
