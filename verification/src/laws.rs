//! General laws of the instruction set, proved once over the abstract
//! transition function: wrapping register arithmetic, the carry/borrow and
//! shift-flag conventions, the exact stride of the skip family, and the
//! call/return round trip.
use vstd::prelude::*;

use vstd::arithmetic::div_mod::{lemma_add_mod_noop, lemma_small_mod};

use crate::draw::{hits, lemma_draw_self_inverse};
use crate::font::font_seq;
use crate::state::{
    initial_state, op_group, op_n, op_nn, op_nnn, op_x, op_y, pc_plus, step, wf_state, wrap_add,
    wrap_sub, CpuState,
};

verus! {

/// The instruction word with the given four nibbles, high to low.
pub open spec fn mk_op(g: u16, x: u16, y: u16, n: u16) -> u16 {
    (g << 12) | (x << 8) | (y << 4) | n
}

/// The instruction word with the given group, register operand and 8-bit
/// literal.
pub open spec fn mk_op_nn(g: u16, x: u16, nn: u8) -> u16 {
    (g << 12) | (x << 8) | (nn as u16)
}

/// Decoding recovers the nibbles an instruction word was built from.
pub proof fn lemma_mk_op_fields(g: u16, x: u16, y: u16, n: u16)
    requires
        g < 16,
        x < 16,
        y < 16,
        n < 16,
    ensures
        op_group(mk_op(g, x, y, n)) == g,
        op_x(mk_op(g, x, y, n)) == x as int,
        op_y(mk_op(g, x, y, n)) == y as int,
        op_n(mk_op(g, x, y, n)) == n as u8,
        op_nnn(mk_op(g, x, y, n)) == ((x << 8) | (y << 4) | n),
{
    assert(((((g << 12) | (x << 8) | (y << 4) | n) & 0xF000) >> 12) == g) by (bit_vector)
        requires
            g < 16,
            x < 16,
            y < 16,
            n < 16,
    ;
    assert(((((g << 12) | (x << 8) | (y << 4) | n) & 0x0F00) >> 8) == x) by (bit_vector)
        requires
            g < 16,
            x < 16,
            y < 16,
            n < 16,
    ;
    assert(((((g << 12) | (x << 8) | (y << 4) | n) & 0x00F0) >> 4) == y) by (bit_vector)
        requires
            g < 16,
            x < 16,
            y < 16,
            n < 16,
    ;
    assert((((g << 12) | (x << 8) | (y << 4) | n) & 0x000F) == n) by (bit_vector)
        requires
            g < 16,
            x < 16,
            y < 16,
            n < 16,
    ;
    assert((((g << 12) | (x << 8) | (y << 4) | n) & 0x0FFF) == ((x << 8) | (y << 4) | n))
        by (bit_vector)
        requires
            g < 16,
            x < 16,
            y < 16,
            n < 16,
    ;
}

/// Decoding recovers the group, register operand and literal an
/// instruction word was built from.
pub proof fn lemma_mk_op_nn_fields(g: u16, x: u16, nn: u8)
    requires
        g < 16,
        x < 16,
    ensures
        op_group(mk_op_nn(g, x, nn)) == g,
        op_x(mk_op_nn(g, x, nn)) == x as int,
        op_y(mk_op_nn(g, x, nn)) == (nn >> 4) as int,
        op_n(mk_op_nn(g, x, nn)) == (nn & 0xF),
        op_nn(mk_op_nn(g, x, nn)) == nn,
        op_nnn(mk_op_nn(g, x, nn)) == ((x << 8) | (nn as u16)),
{
    assert(((((g << 12) | (x << 8) | (nn as u16)) & 0xF000) >> 12) == g) by (bit_vector)
        requires
            g < 16,
            x < 16,
    ;
    assert(((((g << 12) | (x << 8) | (nn as u16)) & 0x0F00) >> 8) == x) by (bit_vector)
        requires
            g < 16,
            x < 16,
    ;
    assert(((((g << 12) | (x << 8) | (nn as u16)) & 0x00F0) >> 4) == (nn >> 4) as u16)
        by (bit_vector)
        requires
            g < 16,
            x < 16,
    ;
    assert((((g << 12) | (x << 8) | (nn as u16)) & 0x000F) == (nn & 0xF) as u16) by (bit_vector)
        requires
            g < 16,
            x < 16,
    ;
    assert((((g << 12) | (x << 8) | (nn as u16)) & 0x00FF) == nn as u16) by (bit_vector)
        requires
            g < 16,
            x < 16,
    ;
    assert((((g << 12) | (x << 8) | (nn as u16)) & 0x0FFF) == ((x << 8) | (nn as u16)))
        by (bit_vector)
        requires
            g < 16,
            x < 16,
    ;
}

/// Setting a register to a literal and then adding the same literal twice
/// wraps modulo 256, and never touches the flag register (the add-literal
/// instruction sets no flag).
pub proof fn lemma_set_add_add_wraps(s: CpuState, x: u16, nn: u8)
    requires
        wf_state(s),
        x < 16,
    ensures
        ({
            let r1 = step(s, mk_op_nn(6, x, nn), 0);
            &&& r1 is Ok
            &&& {
                let r2 = step(r1->Ok_0, mk_op_nn(7, x, nn), 0);
                &&& r2 is Ok
                &&& {
                    let r3 = step(r2->Ok_0, mk_op_nn(7, x, nn), 0);
                    &&& r3 is Ok
                    &&& r3->Ok_0.v[x as int] == (3 * nn) % 256
                    &&& x != 15 ==> r3->Ok_0.v[15] == s.v[15]
                }
            }
        }),
{
    lemma_mk_op_nn_fields(6, x, nn);
    lemma_mk_op_nn_fields(7, x, nn);
    let v1 = wrap_add(nn, nn);
    let v2 = wrap_add(v1, nn);
    lemma_small_mod(nn as nat, 256);
    lemma_add_mod_noop(nn + nn, nn as int, 256);
    assert(v2 == (3 * nn) % 256);
}

/// Register-register addition reports a carry in the flag register exactly
/// when the unsigned sum exceeds 255 (stated away from the flag register
/// itself, which the result write would overwrite).
pub proof fn lemma_add_sets_carry(s: CpuState, x: u16, y: u16)
    requires
        wf_state(s),
        x < 16,
        y < 16,
        x != 15,
    ensures
        ({
            let r = step(s, mk_op(8, x, y, 4), 0);
            &&& r is Ok
            &&& r->Ok_0.v[15] == (if s.v[x as int] + s.v[y as int] > 255 {
                1u8
            } else {
                0u8
            })
            &&& r->Ok_0.v[x as int] == wrap_add(s.v[x as int], s.v[y as int])
        }),
{
    lemma_mk_op_fields(8, x, y, 4);
}

/// Register-register subtraction reports "no borrow" in the flag register
/// exactly when the minuend is at least the subtrahend.
pub proof fn lemma_sub_sets_no_borrow(s: CpuState, x: u16, y: u16)
    requires
        wf_state(s),
        x < 16,
        y < 16,
        x != 15,
    ensures
        ({
            let r = step(s, mk_op(8, x, y, 5), 0);
            &&& r is Ok
            &&& r->Ok_0.v[15] == (if s.v[x as int] >= s.v[y as int] {
                1u8
            } else {
                0u8
            })
            &&& r->Ok_0.v[x as int] == wrap_sub(s.v[x as int], s.v[y as int])
        }),
{
    lemma_mk_op_fields(8, x, y, 5);
}

/// A right shift captures the pre-shift low bit in the flag register.
pub proof fn lemma_shr_captures_low_bit(s: CpuState, x: u16, y: u16)
    requires
        wf_state(s),
        x < 16,
        y < 16,
        x != 15,
    ensures
        ({
            let r = step(s, mk_op(8, x, y, 6), 0);
            &&& r is Ok
            &&& r->Ok_0.v[15] == s.v[x as int] & 1
            &&& r->Ok_0.v[x as int] == s.v[x as int] >> 1
        }),
{
    lemma_mk_op_fields(8, x, y, 6);
}

/// A left shift captures the pre-shift high bit in the flag register.
pub proof fn lemma_shl_captures_high_bit(s: CpuState, x: u16, y: u16)
    requires
        wf_state(s),
        x < 16,
        y < 16,
        x != 15,
    ensures
        ({
            let r = step(s, mk_op(8, x, y, 0xE), 0);
            &&& r is Ok
            &&& r->Ok_0.v[15] == (s.v[x as int] & 0x80) >> 7
            &&& r->Ok_0.v[x as int] == s.v[x as int] << 1
        }),
{
    lemma_mk_op_fields(8, x, y, 0xE);
}

/// The skip-on-literal instructions advance the counter by exactly 4 when
/// the comparison asks for a skip and exactly 2 otherwise.
pub proof fn lemma_skip_literal_stride(s: CpuState, x: u16, nn: u8)
    requires
        wf_state(s),
        x < 16,
        s.pc + 4 <= 0xFFFF,
    ensures
        ({
            let r = step(s, mk_op_nn(3, x, nn), 0);
            &&& r is Ok
            &&& r->Ok_0.pc == s.pc + (if s.v[x as int] == nn {
                4int
            } else {
                2int
            })
        }),
        ({
            let r = step(s, mk_op_nn(4, x, nn), 0);
            &&& r is Ok
            &&& r->Ok_0.pc == s.pc + (if s.v[x as int] != nn {
                4int
            } else {
                2int
            })
        }),
{
    lemma_mk_op_nn_fields(3, x, nn);
    lemma_mk_op_nn_fields(4, x, nn);
}

/// The skip-on-register instructions advance the counter by exactly 4 when
/// the comparison asks for a skip and exactly 2 otherwise.
pub proof fn lemma_skip_register_stride(s: CpuState, x: u16, y: u16)
    requires
        wf_state(s),
        x < 16,
        y < 16,
        s.pc + 4 <= 0xFFFF,
    ensures
        ({
            let r = step(s, mk_op(5, x, y, 0), 0);
            &&& r is Ok
            &&& r->Ok_0.pc == s.pc + (if s.v[x as int] == s.v[y as int] {
                4int
            } else {
                2int
            })
        }),
        ({
            let r = step(s, mk_op(9, x, y, 0), 0);
            &&& r is Ok
            &&& r->Ok_0.pc == s.pc + (if s.v[x as int] != s.v[y as int] {
                4int
            } else {
                2int
            })
        }),
{
    lemma_mk_op_fields(5, x, y, 0);
    lemma_mk_op_fields(9, x, y, 0);
}

/// The skip-on-key instructions advance the counter by exactly 4 when the
/// key test asks for a skip and exactly 2 otherwise.
pub proof fn lemma_skip_key_stride(s: CpuState, x: u16)
    requires
        wf_state(s),
        x < 16,
        s.v[x as int] < 16,
        s.pc + 4 <= 0xFFFF,
    ensures
        ({
            let r = step(s, mk_op_nn(0xE, x, 0x9E), 0);
            &&& r is Ok
            &&& r->Ok_0.pc == s.pc + (if s.keys[s.v[x as int] as int] {
                4int
            } else {
                2int
            })
        }),
        ({
            let r = step(s, mk_op_nn(0xE, x, 0xA1), 0);
            &&& r is Ok
            &&& r->Ok_0.pc == s.pc + (if !s.keys[s.v[x as int] as int] {
                4int
            } else {
                2int
            })
        }),
{
    lemma_mk_op_nn_fields(0xE, x, 0x9E);
    lemma_mk_op_nn_fields(0xE, x, 0xA1);
    assert(0x9Eu8 >> 4 == 9) by (bit_vector);
    assert(0x9Eu8 & 0xF == 0xE) by (bit_vector);
    assert(0xA1u8 >> 4 == 0xA) by (bit_vector);
    assert(0xA1u8 & 0xF == 1) by (bit_vector);
}

/// A call followed by a return brings the counter to the instruction just
/// after the call, and leaves the stack pointer where it started.
pub proof fn lemma_call_return_roundtrip(s: CpuState, x: u16, y: u16, n: u16)
    requires
        wf_state(s),
        x < 16,
        y < 16,
        n < 16,
        s.sp < 16,
    ensures
        ({
            let r1 = step(s, mk_op(2, x, y, n), 0);
            &&& r1 is Ok
            &&& {
                let r2 = step(r1->Ok_0, 0x00EE, 0);
                &&& r2 is Ok
                &&& r2->Ok_0.pc == pc_plus(s.pc, 2)
                &&& r2->Ok_0.sp == s.sp
            }
        }),
{
    lemma_mk_op_fields(2, x, y, n);
    assert(((0x00EEu16 & 0xF000) >> 12) == 0) by (bit_vector);
    assert(((0x00EEu16 & 0x0F00) >> 8) == 0) by (bit_vector);
    assert(((0x00EEu16 & 0x00F0) >> 4) == 0xE) by (bit_vector);
    assert((0x00EEu16 & 0x000F) == 0xE) by (bit_vector);
}

/// Executing the same draw instruction twice in a row fully erases the
/// sprite again (XOR plotting is self-inverse), and the second draw reports
/// a collision exactly when the first draw lit some cell. The sprite origin
/// registers stay away from the flag register, which the first draw
/// overwrites.
pub proof fn lemma_draw_twice_erases(s: CpuState, x: u16, y: u16, n: u16)
    requires
        wf_state(s),
        x < 16,
        y < 16,
        n < 16,
        x != 15,
        y != 15,
        n > 0 ==> s.i + n <= 4096,
    ensures
        ({
            let r1 = step(s, mk_op(0xD, x, y, n), 0);
            &&& r1 is Ok
            &&& {
                let r2 = step(r1->Ok_0, mk_op(0xD, x, y, n), 0);
                &&& r2 is Ok
                &&& r2->Ok_0.screen == s.screen
                &&& (r2->Ok_0.v[15] == 1 <==> exists|idx: int|
                    0 <= idx < 2048 && hits(
                        s.memory,
                        s.i as int,
                        s.v[x as int],
                        s.v[y as int],
                        n as int,
                        idx,
                    ) && !s.screen[idx])
            }
        }),
{
    lemma_mk_op_fields(0xD, x, y, n);
    lemma_draw_self_inverse(
        s.screen,
        s.memory,
        s.i as int,
        s.v[x as int],
        s.v[y as int],
        n as int,
    );
}

/// A freshly constructed or reset machine holds exactly the font bytes in
/// its low eighty memory cells, and nothing but zeros from the program
/// origin to the end of memory.
pub proof fn lemma_initial_memory()
    ensures
        forall|j: int| 0 <= j < 80 ==> initial_state().memory[j] == font_seq()[j],
        forall|j: int| 0x200 <= j < 4096 ==> initial_state().memory[j] == 0u8,
{
}

} // verus!
