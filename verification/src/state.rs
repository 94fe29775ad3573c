//! The mathematical model of the processor core: its abstract state, the
//! fault taxonomy, instruction decoding, and the one-instruction transition
//! function `step` that every executable dispatch is proved against.
use vstd::prelude::*;

use crate::draw::{draw_collides, draw_screen};
use crate::font::font_seq;
use crate::keyboard::{blank_keys, lowest_pressed_from};
use crate::screen::blank_screen;

verus! {

/// Address where loaded programs begin; memory below it holds the font.
pub const START_ADDR: u16 = 0x200;

/// Size of the addressable memory in bytes.
pub const MEM_SIZE: usize = 4096;

/// Number of return addresses the call stack can hold.
pub const STACK_SIZE: usize = 16;

/// Conditions that abort a single instruction step (or a program load)
/// instead of silently corrupting unrelated state. None of them mutates the
/// machine: the step that reports a fault leaves every register, memory cell
/// and peripheral exactly as it found it.
#[derive(Clone, Copy, PartialEq, Eq, Structural, Debug)]
pub enum Fault {
    /// A call instruction arrived with all sixteen stack slots in use.
    StackOverflow,
    /// A return instruction arrived with nothing on the stack.
    StackUnderflow,
    /// An instruction would read or write past the end of memory.
    MemoryOutOfBounds,
    /// A key-conditional instruction named a key above the sixteenth.
    KeyOutOfRange,
    /// A program would not fit between the origin and the end of memory.
    ProgramTooLarge,
}

/// The abstract machine state: registers, memory, call stack, timers and the
/// two peripheral models. Register 15 doubles as the carry/borrow/collision
/// flag and several instructions write it by that role.
#[verifier::ext_equal]
pub ghost struct CpuState {
    pub pc: u16,
    pub v: Seq<u8>,
    pub i: u16,
    pub stack: Seq<u16>,
    pub memory: Seq<u8>,
    pub sp: u8,
    pub delay_timer: u8,
    pub sound_timer: u8,
    pub screen: Seq<bool>,
    pub keys: Seq<bool>,
}

/// Shape of a well-formed state: fixed sizes, stack pointer in range.
pub open spec fn wf_state(s: CpuState) -> bool {
    &&& s.v.len() == 16
    &&& s.stack.len() == 16
    &&& s.memory.len() == 4096
    &&& s.sp <= 16
    &&& s.screen.len() == 2048
    &&& s.keys.len() == 16
}

/// The state of a freshly constructed machine: everything zeroed except the
/// font bytes at the bottom of memory.
pub open spec fn initial_state() -> CpuState {
    CpuState {
        pc: 0x200,
        v: Seq::new(16, |j: int| 0u8),
        i: 0,
        stack: Seq::new(16, |j: int| 0u16),
        memory: Seq::new(
            4096,
            |j: int|
                if 0 <= j < 80 {
                    font_seq()[j]
                } else {
                    0u8
                },
        ),
        sp: 0,
        delay_timer: 0,
        sound_timer: 0,
        screen: blank_screen(),
        keys: blank_keys(),
    }
}

/// The opcode's high nibble, selecting the instruction family.
pub open spec fn op_group(op: u16) -> u16 {
    (op & 0xF000) >> 12
}

/// The first register operand, from the second nibble.
pub open spec fn op_x(op: u16) -> int {
    ((op & 0x0F00) >> 8) as int
}

/// The second register operand, from the third nibble.
pub open spec fn op_y(op: u16) -> int {
    ((op & 0x00F0) >> 4) as int
}

/// The 4-bit literal in the low nibble.
pub open spec fn op_n(op: u16) -> u8 {
    (op & 0x000F) as u8
}

/// The 8-bit literal in the low byte.
pub open spec fn op_nn(op: u16) -> u8 {
    (op & 0x00FF) as u8
}

/// The 12-bit address/literal in the low three nibbles.
pub open spec fn op_nnn(op: u16) -> u16 {
    op & 0x0FFF
}

/// The decoded fields always fit their ranges.
pub proof fn lemma_decode_bounds(op: u16)
    ensures
        op_group(op) < 16,
        0 <= op_x(op) < 16,
        0 <= op_y(op) < 16,
        op_n(op) < 16,
        op_nnn(op) < 0x1000,
{
    assert((op & 0xF000) >> 12 < 16) by (bit_vector);
    assert((op & 0x0F00) >> 8 < 16) by (bit_vector);
    assert((op & 0x00F0) >> 4 < 16) by (bit_vector);
    assert(op & 0x000F < 16) by (bit_vector);
    assert(op & 0x0FFF < 0x1000) by (bit_vector);
}

/// The program counter after advancing by `k` bytes, wrapping as the 16-bit
/// register does.
pub open spec fn pc_plus(pc: u16, k: u16) -> u16 {
    ((pc + k) % 0x10000) as u16
}

/// The 16-bit big-endian instruction word at the program counter.
pub open spec fn fetch(s: CpuState) -> u16 {
    (s.memory[s.pc as int] * 256 + s.memory[s.pc as int + 1]) as u16
}

/// Addition on a byte register: the value wraps modulo 256.
pub open spec fn wrap_add(a: u8, b: u8) -> u8 {
    ((a + b) % 256) as u8
}

/// Subtraction on a byte register: the value wraps modulo 256.
pub open spec fn wrap_sub(a: u8, b: u8) -> u8 {
    ((a - b) % 256) as u8
}

/// The three decimal digits of a byte, hundreds first.
pub open spec fn bcd_digits(val: u8) -> (u8, u8, u8) {
    (val / 100, (val % 100) / 10, val % 10)
}

/// `dst` with `count` leading elements of `src` copied in at `at`; all other
/// elements keep their value.
pub open spec fn copy_into<T>(dst: Seq<T>, at: int, src: Seq<T>, count: int) -> Seq<T> {
    Seq::new(
        dst.len(),
        |j: int|
            if at <= j < at + count {
                src[j - at]
            } else {
                dst[j]
            },
    )
}

/// The arithmetic/logic family (high nibble 8), distinguished by the low
/// nibble. The flag writes go first, exactly as the machine performs them,
/// so an operation that targets register 15 itself overwrites the flag.
pub open spec fn step_alu(s: CpuState, t: CpuState, x: int, y: int, n: u8) -> CpuState {
    if n == 0 {
        CpuState { v: s.v.update(x, s.v[y]), ..t }
    } else if n == 1 {
        CpuState { v: s.v.update(x, s.v[x] | s.v[y]), ..t }
    } else if n == 2 {
        CpuState { v: s.v.update(x, s.v[x] & s.v[y]), ..t }
    } else if n == 3 {
        CpuState { v: s.v.update(x, s.v[x] ^ s.v[y]), ..t }
    } else if n == 4 {
        let flag: u8 = if s.v[x] + s.v[y] > 255 {
            1
        } else {
            0
        };
        CpuState { v: s.v.update(15, flag).update(x, wrap_add(s.v[x], s.v[y])), ..t }
    } else if n == 5 {
        let flag: u8 = if s.v[x] >= s.v[y] {
            1
        } else {
            0
        };
        CpuState { v: s.v.update(15, flag).update(x, wrap_sub(s.v[x], s.v[y])), ..t }
    } else if n == 6 {
        let v1 = s.v.update(15, s.v[x] & 1);
        CpuState { v: v1.update(x, v1[x] >> 1), ..t }
    } else if n == 7 {
        let flag: u8 = if s.v[y] >= s.v[x] {
            1
        } else {
            0
        };
        CpuState { v: s.v.update(15, flag).update(x, wrap_sub(s.v[y], s.v[x])), ..t }
    } else if n == 0xE {
        let v1 = s.v.update(15, (s.v[x] & 0x80) >> 7);
        CpuState { v: v1.update(x, v1[x] << 1), ..t }
    } else {
        t
    }
}

/// The miscellaneous family (high nibble F), distinguished by the low byte.
pub open spec fn step_misc(s: CpuState, t: CpuState, x: int, y: int, n: u8) -> Result<
    CpuState,
    Fault,
> {
    if y == 0 && n == 7 {
        Ok(CpuState { v: s.v.update(x, s.delay_timer), ..t })
    } else if y == 0 && n == 0xA {
        // Wait for a key: the counter is rolled back so the same instruction
        // is fetched again; when a key is down, the lowest pressed key index
        // is stored as well.
        let low = lowest_pressed_from(s.keys, 0);
        Ok(
            CpuState {
                pc: s.pc,
                v: if low < 16 {
                    s.v.update(x, low as u8)
                } else {
                    s.v
                },
                ..t
            },
        )
    } else if y == 1 && n == 5 {
        Ok(CpuState { delay_timer: s.v[x], ..t })
    } else if y == 1 && n == 8 {
        Ok(CpuState { sound_timer: s.v[x], ..t })
    } else if y == 1 && n == 0xE {
        let flag: u8 = if s.i + s.v[x] > 0xFFFF {
            1
        } else {
            0
        };
        Ok(
            CpuState {
                v: s.v.update(15, flag),
                i: ((s.i + s.v[x]) % 0x10000) as u16,
                ..t
            },
        )
    } else if y == 2 && n == 9 {
        Ok(CpuState { i: (s.v[x] * 5) as u16, ..t })
    } else if y == 3 && n == 3 {
        if s.i + 3 > 4096 {
            Err(Fault::MemoryOutOfBounds)
        } else {
            let (hundreds, tens, units) = bcd_digits(s.v[x]);
            Ok(
                CpuState {
                    memory: s.memory.update(s.i as int, hundreds).update(
                        s.i as int + 1,
                        tens,
                    ).update(s.i as int + 2, units),
                    ..t
                },
            )
        }
    } else if y == 5 && n == 5 {
        if s.i + x + 1 > 4096 {
            Err(Fault::MemoryOutOfBounds)
        } else {
            Ok(CpuState { memory: copy_into(s.memory, s.i as int, s.v, x + 1), ..t })
        }
    } else if y == 6 && n == 5 {
        if s.i + x + 1 > 4096 {
            Err(Fault::MemoryOutOfBounds)
        } else {
            Ok(
                CpuState {
                    v: copy_into(s.v, 0, s.memory.subrange(s.i as int, 4096), x + 1),
                    ..t
                },
            )
        }
    } else {
        Ok(t)
    }
}

/// One complete instruction: the counter first advances past the 2-byte
/// word, then the instruction body runs, possibly overwriting or further
/// adjusting it. An unrecognized bit pattern is a deliberate no-op that
/// still advances the counter. `rand` is the byte an external randomness
/// source supplied; only the random-masking family reads it. A fault leaves
/// the state untouched.
pub open spec fn step(s: CpuState, op: u16, rand: u8) -> Result<CpuState, Fault> {
    let g = op_group(op);
    let x = op_x(op);
    let y = op_y(op);
    let n = op_n(op);
    let nn = op_nn(op);
    let nnn = op_nnn(op);
    let pc2 = pc_plus(s.pc, 2);
    let t = CpuState { pc: pc2, ..s };
    if g == 0 {
        if x == 0 && y == 0xE && n == 0 {
            Ok(CpuState { screen: blank_screen(), ..t })
        } else if x == 0 && y == 0xE && n == 0xE {
            if s.sp == 0 {
                Err(Fault::StackUnderflow)
            } else {
                Ok(CpuState { pc: s.stack[s.sp - 1], sp: (s.sp - 1) as u8, ..t })
            }
        } else {
            Ok(t)
        }
    } else if g == 1 {
        Ok(CpuState { pc: nnn, ..t })
    } else if g == 2 {
        if s.sp >= 16 {
            Err(Fault::StackOverflow)
        } else {
            Ok(
                CpuState {
                    stack: s.stack.update(s.sp as int, pc2),
                    sp: (s.sp + 1) as u8,
                    pc: nnn,
                    ..t
                },
            )
        }
    } else if g == 3 {
        Ok(
            CpuState {
                pc: if s.v[x] == nn {
                    pc_plus(pc2, 2)
                } else {
                    pc2
                },
                ..t
            },
        )
    } else if g == 4 {
        Ok(
            CpuState {
                pc: if s.v[x] != nn {
                    pc_plus(pc2, 2)
                } else {
                    pc2
                },
                ..t
            },
        )
    } else if g == 5 {
        if n == 0 {
            Ok(
                CpuState {
                    pc: if s.v[x] == s.v[y] {
                        pc_plus(pc2, 2)
                    } else {
                        pc2
                    },
                    ..t
                },
            )
        } else {
            Ok(t)
        }
    } else if g == 6 {
        Ok(CpuState { v: s.v.update(x, nn), ..t })
    } else if g == 7 {
        Ok(CpuState { v: s.v.update(x, wrap_add(s.v[x], nn)), ..t })
    } else if g == 8 {
        Ok(step_alu(s, t, x, y, n))
    } else if g == 9 {
        if n == 0 {
            Ok(
                CpuState {
                    pc: if s.v[x] != s.v[y] {
                        pc_plus(pc2, 2)
                    } else {
                        pc2
                    },
                    ..t
                },
            )
        } else {
            Ok(t)
        }
    } else if g == 0xA {
        Ok(CpuState { i: nnn, ..t })
    } else if g == 0xB {
        Ok(CpuState { pc: (s.v[0] + nnn) as u16, ..t })
    } else if g == 0xC {
        Ok(CpuState { v: s.v.update(x, rand & nn), ..t })
    } else if g == 0xD {
        if n > 0 && s.i + n > 4096 {
            Err(Fault::MemoryOutOfBounds)
        } else {
            let collided = draw_collides(s.screen, s.memory, s.i as int, s.v[x], s.v[y], n as int);
            Ok(
                CpuState {
                    v: s.v.update(
                        15,
                        if collided {
                            1u8
                        } else {
                            0u8
                        },
                    ),
                    screen: draw_screen(s.screen, s.memory, s.i as int, s.v[x], s.v[y], n as int),
                    ..t
                },
            )
        }
    } else if g == 0xE {
        if y == 9 && n == 0xE {
            if s.v[x] >= 16 {
                Err(Fault::KeyOutOfRange)
            } else {
                Ok(
                    CpuState {
                        pc: if s.keys[s.v[x] as int] {
                            pc_plus(pc2, 2)
                        } else {
                            pc2
                        },
                        ..t
                    },
                )
            }
        } else if y == 0xA && n == 1 {
            if s.v[x] >= 16 {
                Err(Fault::KeyOutOfRange)
            } else {
                Ok(
                    CpuState {
                        pc: if !s.keys[s.v[x] as int] {
                            pc_plus(pc2, 2)
                        } else {
                            pc2
                        },
                        ..t
                    },
                )
            }
        } else {
            Ok(t)
        }
    } else if g == 0xF {
        step_misc(s, t, x, y, n)
    } else {
        Ok(t)
    }
}

/// A step preserves well-formedness.
pub proof fn lemma_step_wf(s: CpuState, op: u16, rand: u8)
    requires
        wf_state(s),
        step(s, op, rand) is Ok,
    ensures
        wf_state(step(s, op, rand)->Ok_0),
{
    lemma_decode_bounds(op);
}

/// Only the random-masking family reads the random byte: for every other
/// opcode the transition is one and the same whatever byte was drawn.
pub proof fn lemma_step_rand_irrelevant(s: CpuState, op: u16, rand1: u8, rand2: u8)
    requires
        op_group(op) != 0xC,
    ensures
        step(s, op, rand1) == step(s, op, rand2),
{
}

} // verus!
