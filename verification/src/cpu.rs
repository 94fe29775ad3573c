//! The processor core: registers, memory, call stack, timers and the two
//! peripherals, with the fetch/decode/execute cycle proved against the
//! abstract transition function in `state`.
use vstd::prelude::*;

use crate::draw::{
    cell_index, collides_upto, draw_collides, draw_screen, hits_upto, lemma_cell_index_bounds,
    lemma_upto_col_advance, lemma_upto_full, lemma_upto_row_advance, lemma_upto_zero,
    partial_screen, sprite_bit,
};
use crate::font::font_bytes;
use crate::font::font_seq;
use crate::keyboard::Keyboard;
use crate::screen::Screen;
use crate::state::{
    copy_into, fetch, initial_state, lemma_decode_bounds, lemma_step_rand_irrelevant, op_group,
    op_n, op_nn, op_nnn, op_x, op_y, pc_plus, step, step_alu, step_misc, wf_state, wrap_add,
    wrap_sub, CpuState, Fault,
};

verus! {

/// A vector of `n` zero bytes.
fn zero_bytes(n: usize) -> (r: Vec<u8>)
    ensures
        r@ == Seq::new(n as nat, |j: int| 0u8),
{
    let mut v: Vec<u8> = Vec::new();
    let mut k: usize = 0;
    while k < n
        invariant
            k <= n,
            v@ == Seq::new(k as nat, |j: int| 0u8),
        decreases n - k,
    {
        v.push(0);
        k = k + 1;
        proof {
            assert(v@ =~= Seq::new(k as nat, |j: int| 0u8));
        }
    }
    v
}

/// A vector of `n` zero words.
fn zero_words(n: usize) -> (r: Vec<u16>)
    ensures
        r@ == Seq::new(n as nat, |j: int| 0u16),
{
    let mut v: Vec<u16> = Vec::new();
    let mut k: usize = 0;
    while k < n
        invariant
            k <= n,
            v@ == Seq::new(k as nat, |j: int| 0u16),
        decreases n - k,
    {
        v.push(0);
        k = k + 1;
        proof {
            assert(v@ =~= Seq::new(k as nat, |j: int| 0u16));
        }
    }
    v
}

/// The program counter advanced by `k` bytes, wrapping as the register does.
fn pc_add(pc: u16, k: u16) -> (r: u16)
    ensures
        r == pc_plus(pc, k),
{
    let s: u32 = pc as u32 + k as u32;
    (s % 0x10000) as u16
}

/// Relies on getrandom::getrandom to fill a one-byte buffer from the
/// platform's randomness source; nothing is promised of the byte drawn. A
/// failure of the platform source aborts inside the call.
#[verifier::external_body]
fn random_byte() -> u8 {
    let mut buf = [0u8; 1];
    getrandom::getrandom(&mut buf).unwrap();
    buf[0]
}

/// XOR-blit an 8-pixel-wide, `n`-row sprite read from `memory[i..]` onto the
/// screen at (`vx`, `vy`), wrapping at the screen edges, and report whether
/// any plotted pixel landed on an already-lit cell.
fn draw_sprite(screen: &mut Screen, memory: &Vec<u8>, i: usize, vx: u8, vy: u8, n: u8) -> (collided:
    bool)
    requires
        old(screen).wf(),
        memory@.len() == 4096,
        n < 16,
        n > 0 ==> i + n <= 4096,
    ensures
        final(screen).wf(),
        final(screen)@ == draw_screen(old(screen)@, memory@, i as int, vx, vy, n as int),
        collided == draw_collides(old(screen)@, memory@, i as int, vx, vy, n as int),
{
    let ghost scr0 = screen@;
    let ghost mem = memory@;
    proof {
        lemma_upto_zero(scr0, mem, i as int, vx, vy);
    }
    let mut collided = false;
    let mut row: usize = 0;
    while row < n as usize
        invariant
            screen.wf(),
            scr0.len() == 2048,
            mem == memory@,
            mem.len() == 4096,
            n < 16,
            n > 0 ==> i + n <= 4096,
            row <= n as int,
            screen@ == partial_screen(scr0, mem, i as int, vx, vy, row as int, 0),
            collided == collides_upto(scr0, mem, i as int, vx, vy, row as int, 0),
        decreases n as int - row,
    {
        let byte = memory[i + row];
        let mut c: usize = 0;
        while c < 8
            invariant
                screen.wf(),
                scr0.len() == 2048,
                mem == memory@,
                mem.len() == 4096,
                n < 16,
                i + n <= 4096,
                row < n as int,
                byte == mem[i + row],
                c <= 8,
                screen@ == partial_screen(scr0, mem, i as int, vx, vy, row as int, c as int),
                collided == collides_upto(scr0, mem, i as int, vx, vy, row as int, c as int),
            decreases 8 - c,
        {
            proof {
                lemma_upto_col_advance(scr0, mem, i as int, vx, vy, n as int, row as int, c as int);
            }
            let bit = (byte >> ((7 - c) as u8)) & 1 == 1;
            proof {
                assert(bit == sprite_bit(mem[i + row], c as int));
            }
            if bit {
                let rr = (vy as usize + row) % 32;
                let cc = (vx as usize + c) % 64;
                proof {
                    lemma_cell_index_bounds(vx, vy, row as int, c as int);
                    assert(rr * 64 + cc == cell_index(vx, vy, row as int, c as int));
                    assert(!hits_upto(
                        mem,
                        i as int,
                        vx,
                        vy,
                        row as int,
                        c as int,
                        cell_index(vx, vy, row as int, c as int),
                    ));
                }
                let prior = screen.get_pixel(rr, cc);
                proof {
                    assert(prior == scr0[cell_index(vx, vy, row as int, c as int)]);
                }
                if prior {
                    collided = true;
                }
                screen.set_pixel(rr, cc);
                proof {
                    assert(screen@ =~= partial_screen(
                        scr0,
                        mem,
                        i as int,
                        vx,
                        vy,
                        row as int,
                        c as int + 1,
                    ));
                }
            }
            c = c + 1;
        }
        proof {
            lemma_upto_row_advance(scr0, mem, i as int, vx, vy, row as int);
        }
        row = row + 1;
    }
    proof {
        lemma_upto_full(scr0, mem, i as int, vx, vy, n as int);
    }
    collided
}

/// The processor core. Its view is the abstract `CpuState`.
pub struct CPU {
    pc: u16,
    v: Vec<u8>,
    i: u16,
    stack: Vec<u16>,
    memory: Vec<u8>,
    sp: u8,
    delay_timer: u8,
    sound_timer: u8,
    screen: Screen,
    keyboard: Keyboard,
}

impl View for CPU {
    type V = CpuState;

    closed spec fn view(&self) -> CpuState {
        CpuState {
            pc: self.pc,
            v: self.v@,
            i: self.i,
            stack: self.stack@,
            memory: self.memory@,
            sp: self.sp,
            delay_timer: self.delay_timer,
            sound_timer: self.sound_timer,
            screen: self.screen@,
            keys: self.keyboard@,
        }
    }
}

impl CPU {
    /// Fixed sizes of all the machine's parts, and a stack pointer in range.
    pub open spec fn wf(&self) -> bool {
        wf_state(self@)
    }

    /// A fresh machine: everything zeroed, the font resident in low memory,
    /// the counter at the program origin.
    pub fn new() -> (c: CPU)
        ensures
            c.wf(),
            c@ == initial_state(),
    {
        let mut cpu = CPU {
            pc: 0x200,
            v: zero_bytes(16),
            i: 0,
            stack: zero_words(16),
            memory: zero_bytes(4096),
            sp: 0,
            delay_timer: 0,
            sound_timer: 0,
            screen: Screen::new(),
            keyboard: Keyboard::new(),
        };
        cpu.load_fonts();
        proof {
            assert(cpu@.memory =~= initial_state().memory);
            assert(cpu@ =~= initial_state());
        }
        cpu
    }

    /// The display buffer, for the external renderer and for draw
    /// instructions' effects to be observed.
    pub fn get_screen(&mut self) -> (r: &mut Screen)
        ensures
            r@ == old(self)@.screen,
            final(self)@ == (CpuState { screen: final(r)@, ..old(self)@ }),
    {
        &mut self.screen
    }

    /// The key-state latch, for the external driver's input events.
    pub fn get_keyboard(&mut self) -> (r: &mut Keyboard)
        ensures
            r@ == old(self)@.keys,
            final(self)@ == (CpuState { keys: final(r)@, ..old(self)@ }),
    {
        &mut self.keyboard
    }

    /// Restore the machine to the just-constructed state without
    /// reallocating it: registers, memory, stack, timers and both
    /// peripherals are cleared and the font is reloaded.
    pub fn reset(&mut self)
        requires
            old(self).wf(),
        ensures
            final(self).wf(),
            final(self)@ == initial_state(),
    {
        self.pc = 0x200;
        self.v = zero_bytes(16);
        self.i = 0;
        self.stack = zero_words(16);
        self.memory = zero_bytes(4096);
        self.sp = 0;
        self.delay_timer = 0;
        self.sound_timer = 0;
        self.screen.clear();
        self.keyboard.clear();
        self.load_fonts();
        proof {
            assert(self@.memory =~= initial_state().memory);
            assert(self@ =~= initial_state());
        }
    }

    /// Copy the font bytes into the bottom of memory.
    fn load_fonts(&mut self)
        requires
            old(self)@.memory.len() == 4096,
        ensures
            *final(self) == (CPU {
                memory: final(self).memory,
                ..*old(self)
            }),
            final(self)@.memory == copy_into(old(self)@.memory, 0, font_seq(), 80),
    {
        let font = font_bytes();
        let ghost mem0 = self.memory@;
        let mut idx: usize = 0;
        while idx < 80
            invariant
                idx <= 80,
                font@ == font_seq(),
                self.memory@.len() == 4096,
                self.memory@ == copy_into(mem0, 0, font_seq(), idx as int),
                self.pc == old(self).pc,
                self.v == old(self).v,
                self.i == old(self).i,
                self.stack == old(self).stack,
                self.sp == old(self).sp,
                self.delay_timer == old(self).delay_timer,
                self.sound_timer == old(self).sound_timer,
                self.screen == old(self).screen,
                self.keyboard == old(self).keyboard,
                mem0 == old(self)@.memory,
            decreases 80 - idx,
        {
            self.memory[idx] = font[idx];
            idx = idx + 1;
            proof {
                assert(self.memory@ =~= copy_into(mem0, 0, font_seq(), idx as int));
            }
        }
    }

    /// Copy a program into program space at the fixed origin. A program
    /// that would not fit between the origin and the end of memory is
    /// rejected whole.
    pub fn load_program(&mut self, program: &[u8]) -> (r: Result<(), Fault>)
        requires
            old(self).wf(),
        ensures
            final(self).wf(),
            program@.len() > 4096 - 0x200 ==> r == Err::<(), Fault>(Fault::ProgramTooLarge)
                && final(self)@ == old(self)@,
            program@.len() <= 4096 - 0x200 ==> r == Ok::<(), Fault>(()) && final(self)@ == (
            CpuState {
                memory: copy_into(old(self)@.memory, 0x200, program@, program@.len() as int),
                ..old(self)@
            }),
    {
        if program.len() > 4096 - 0x200 {
            return Err(Fault::ProgramTooLarge);
        }
        let ghost mem0 = self.memory@;
        let mut idx: usize = 0;
        while idx < program.len()
            invariant
                old(self).wf(),
                idx <= program@.len(),
                program@.len() <= 4096 - 0x200,
                self.memory@.len() == 4096,
                self.memory@ == copy_into(mem0, 0x200, program@, idx as int),
                self.pc == old(self).pc,
                self.v == old(self).v,
                self.i == old(self).i,
                self.stack == old(self).stack,
                self.sp == old(self).sp,
                self.delay_timer == old(self).delay_timer,
                self.sound_timer == old(self).sound_timer,
                self.screen == old(self).screen,
                self.keyboard == old(self).keyboard,
                mem0 == old(self)@.memory,
            decreases program@.len() - idx,
        {
            self.memory[0x200 + idx] = program[idx];
            idx = idx + 1;
            proof {
                assert(self.memory@ =~= copy_into(mem0, 0x200, program@, idx as int));
            }
        }
        proof {
            assert(final(self)@ =~= (CpuState {
                memory: copy_into(old(self)@.memory, 0x200, program@, program@.len() as int),
                ..old(self)@
            }));
        }
        Ok(())
    }

    /// One timer tick: each countdown value decrements by exactly one when
    /// nonzero and stays at zero otherwise; nothing else changes.
    pub fn update_timer(&mut self)
        requires
            old(self).wf(),
        ensures
            final(self).wf(),
            final(self)@ == (CpuState {
                delay_timer: if old(self)@.delay_timer > 0 {
                    (old(self)@.delay_timer - 1) as u8
                } else {
                    0
                },
                sound_timer: if old(self)@.sound_timer > 0 {
                    (old(self)@.sound_timer - 1) as u8
                } else {
                    0
                },
                ..old(self)@
            }),
    {
        if self.delay_timer > 0 {
            self.delay_timer = self.delay_timer - 1;
        }
        if self.sound_timer > 0 {
            self.sound_timer = self.sound_timer - 1;
        }
    }

    /// Dispatch one already-fetched instruction word, with the random byte
    /// supplied by the caller; the transition is exactly `step` on that
    /// byte. A fault leaves the machine untouched.
    pub fn execute_with_random(&mut self, opcode: u16, rand: u8) -> (r: Result<(), Fault>)
        requires
            old(self).wf(),
        ensures
            final(self).wf(),
            r is Ok ==> step(old(self)@, opcode, rand) == Ok::<CpuState, Fault>(final(self)@),
            r is Err ==> step(old(self)@, opcode, rand) == Err::<CpuState, Fault>(r->Err_0)
                && final(self)@ == old(self)@,
    {
        let ghost s0 = self@;
        proof {
            lemma_decode_bounds(opcode);
        }
        let g: u16 = (opcode & 0xF000) >> 12;
        let x: usize = ((opcode & 0x0F00) >> 8) as usize;
        let y: usize = ((opcode & 0x00F0) >> 4) as usize;
        let n: u8 = (opcode & 0x000F) as u8;
        let nn: u8 = (opcode & 0x00FF) as u8;
        let nnn: u16 = opcode & 0x0FFF;
        proof {
            assert(g == op_group(opcode));
            assert(x as int == op_x(opcode));
            assert(y as int == op_y(opcode));
            assert(n == op_n(opcode));
            assert(nn == op_nn(opcode));
            assert(nnn == op_nnn(opcode));
        }
        let pc2: u16 = pc_add(self.pc, 2);
        if g == 0 {
            if x == 0 && y == 0xE && n == 0 {
                self.pc = pc2;
                self.screen.clear();
            } else if x == 0 && y == 0xE && n == 0xE {
                if self.sp == 0 {
                    return Err(Fault::StackUnderflow);
                }
                self.sp = self.sp - 1;
                self.pc = self.stack[self.sp as usize];
            } else {
                self.pc = pc2;
            }
        } else if g == 1 {
            self.pc = nnn;
        } else if g == 2 {
            if self.sp >= 16 {
                return Err(Fault::StackOverflow);
            }
            self.stack[self.sp as usize] = pc2;
            self.sp = self.sp + 1;
            self.pc = nnn;
        } else if g == 3 {
            self.pc = if self.v[x] == nn {
                pc_add(pc2, 2)
            } else {
                pc2
            };
        } else if g == 4 {
            self.pc = if self.v[x] != nn {
                pc_add(pc2, 2)
            } else {
                pc2
            };
        } else if g == 5 {
            if n == 0 {
                self.pc = if self.v[x] == self.v[y] {
                    pc_add(pc2, 2)
                } else {
                    pc2
                };
            } else {
                self.pc = pc2;
            }
        } else if g == 6 {
            self.pc = pc2;
            self.v[x] = nn;
        } else if g == 7 {
            self.pc = pc2;
            let vx = self.v[x];
            let sum: u16 = vx as u16 + nn as u16;
            let res: u8 = (sum % 256) as u8;
            proof {
                assert(res == wrap_add(vx, nn));
            }
            self.v[x] = res;
        } else if g == 8 {
            self.pc = pc2;
            self.alu(x, y, n);
            proof {
                assert(self@ =~= step_alu(s0, (CpuState { pc: pc_plus(s0.pc, 2), ..s0 }), x as int, y as int, n));
            }
        } else if g == 9 {
            if n == 0 {
                self.pc = if self.v[x] != self.v[y] {
                    pc_add(pc2, 2)
                } else {
                    pc2
                };
            } else {
                self.pc = pc2;
            }
        } else if g == 0xA {
            self.pc = pc2;
            self.i = nnn;
        } else if g == 0xB {
            self.pc = self.v[0] as u16 + nnn;
        } else if g == 0xC {
            self.pc = pc2;
            self.v[x] = rand & nn;
        } else if g == 0xD {
            let i_us = self.i as usize;
            if n > 0 && i_us + n as usize > 4096 {
                return Err(Fault::MemoryOutOfBounds);
            }
            self.pc = pc2;
            let vx = self.v[x];
            let vy = self.v[y];
            let collided = draw_sprite(&mut self.screen, &self.memory, i_us, vx, vy, n);
            self.v[15] = if collided {
                1
            } else {
                0
            };
        } else if g == 0xE {
            if (y == 9 && n == 0xE) || (y == 0xA && n == 1) {
                let vx = self.v[x];
                if vx >= 16 {
                    return Err(Fault::KeyOutOfRange);
                }
                let pressed = self.keyboard.is_key_pressed(vx);
                let skip = if y == 9 {
                    pressed
                } else {
                    !pressed
                };
                self.pc = if skip {
                    pc_add(pc2, 2)
                } else {
                    pc2
                };
            } else {
                self.pc = pc2;
            }
        } else if g == 0xF {
            let r = self.misc(x, y, n, pc2);
            if let Err(f) = r {
                return Err(f);
            }
            proof {
                assert(Ok::<CpuState, Fault>(self@) =~= step_misc(
                    s0,
                    (CpuState { pc: pc_plus(s0.pc, 2), ..s0 }),
                    x as int,
                    y as int,
                    n,
                ));
            }
        } else {
            self.pc = pc2;
        }
        proof {
            assert(step(s0, opcode, rand) == Ok::<CpuState, Fault>(self@));
        }
        Ok(())
    }

    /// The arithmetic/logic family: the operands are read, the flag write
    /// lands first, then the result, exactly as `step_alu` states.
    fn alu(&mut self, x: usize, y: usize, n: u8)
        requires
            old(self).wf(),
            x < 16,
            y < 16,
        ensures
            final(self).wf(),
            final(self)@ == step_alu(old(self)@, old(self)@, x as int, y as int, n),
    {
        let ghost s0 = self@;
        if n == 0 {
            let vy = self.v[y];
            self.v[x] = vy;
        } else if n == 1 {
            let res = self.v[x] | self.v[y];
            self.v[x] = res;
        } else if n == 2 {
            let res = self.v[x] & self.v[y];
            self.v[x] = res;
        } else if n == 3 {
            let res = self.v[x] ^ self.v[y];
            self.v[x] = res;
        } else if n == 4 {
            let vx = self.v[x];
            let vy = self.v[y];
            let sum: u16 = vx as u16 + vy as u16;
            let flag: u8 = if sum > 255 {
                1
            } else {
                0
            };
            let res: u8 = (sum % 256) as u8;
            proof {
                assert(res == wrap_add(vx, vy));
            }
            self.v[15] = flag;
            self.v[x] = res;
        } else if n == 5 {
            let vx = self.v[x];
            let vy = self.v[y];
            let flag: u8 = if vx >= vy {
                1
            } else {
                0
            };
            let res: u8 = if vx >= vy {
                vx - vy
            } else {
                (vx as u16 + 256 - vy as u16) as u8
            };
            proof {
                assert(res == wrap_sub(vx, vy));
            }
            self.v[15] = flag;
            self.v[x] = res;
        } else if n == 6 {
            let low = self.v[x] & 1;
            self.v[15] = low;
            let cur = self.v[x];
            self.v[x] = cur >> 1;
        } else if n == 7 {
            let vx = self.v[x];
            let vy = self.v[y];
            let flag: u8 = if vy >= vx {
                1
            } else {
                0
            };
            let res: u8 = if vy >= vx {
                vy - vx
            } else {
                (vy as u16 + 256 - vx as u16) as u8
            };
            proof {
                assert(res == wrap_sub(vy, vx));
            }
            self.v[15] = flag;
            self.v[x] = res;
        } else if n == 0xE {
            let high = (self.v[x] & 0x80) >> 7;
            self.v[15] = high;
            let cur = self.v[x];
            self.v[x] = cur << 1;
        }
        proof {
            assert(self@ =~= step_alu(s0, s0, x as int, y as int, n));
        }
    }

    /// The miscellaneous family: timers, the key wait, index arithmetic,
    /// the font table, decimal conversion and the register/memory block
    /// moves, exactly as `step_misc` states. `pc2` is the already-advanced
    /// counter; a fault leaves the machine untouched.
    fn misc(&mut self, x: usize, y: usize, n: u8, pc2: u16) -> (r: Result<(), Fault>)
        requires
            old(self).wf(),
            x < 16,
            y < 16,
            pc2 == pc_plus(old(self)@.pc, 2),
        ensures
            final(self).wf(),
            r is Ok ==> Ok::<CpuState, Fault>(final(self)@) == step_misc(
                old(self)@,
                (CpuState { pc: pc_plus(old(self)@.pc, 2), ..old(self)@ }),
                x as int,
                y as int,
                n,
            ),
            r is Err ==> Err::<CpuState, Fault>(r->Err_0) == step_misc(
                old(self)@,
                (CpuState { pc: pc_plus(old(self)@.pc, 2), ..old(self)@ }),
                x as int,
                y as int,
                n,
            ) && final(self)@ == old(self)@,
    {
        let ghost s0 = self@;
        if y == 0 && n == 7 {
            self.pc = pc2;
            let d = self.delay_timer;
            self.v[x] = d;
        } else if y == 0 && n == 0xA {
            // The counter is rolled back, so the same instruction is fetched
            // again; when a key is down, the lowest pressed key is stored.
            match self.keyboard.lowest_pressed() {
                Some(k) => {
                    self.v[x] = k;
                },
                None => {},
            }
        } else if y == 1 && n == 5 {
            self.pc = pc2;
            self.delay_timer = self.v[x];
        } else if y == 1 && n == 8 {
            self.pc = pc2;
            self.sound_timer = self.v[x];
        } else if y == 1 && n == 0xE {
            self.pc = pc2;
            let vx = self.v[x];
            let sum: u32 = self.i as u32 + vx as u32;
            let flag: u8 = if sum > 0xFFFF {
                1
            } else {
                0
            };
            self.v[15] = flag;
            self.i = (sum % 0x10000) as u16;
        } else if y == 2 && n == 9 {
            self.pc = pc2;
            self.i = self.v[x] as u16 * 5;
        } else if y == 3 && n == 3 {
            let i_us = self.i as usize;
            if i_us + 3 > 4096 {
                return Err(Fault::MemoryOutOfBounds);
            }
            self.pc = pc2;
            let vx = self.v[x];
            self.memory[i_us] = vx / 100;
            self.memory[i_us + 1] = (vx % 100) / 10;
            self.memory[i_us + 2] = vx % 10;
        } else if y == 5 && n == 5 {
            let i_us = self.i as usize;
            if i_us + x + 1 > 4096 {
                return Err(Fault::MemoryOutOfBounds);
            }
            self.pc = pc2;
            let mut idx: usize = 0;
            while idx < x + 1
                invariant
                    wf_state(s0),
                    x < 16,
                    i_us + x + 1 <= 4096,
                    idx <= x + 1,
                    self@ == (CpuState {
                        pc: pc_plus(s0.pc, 2),
                        memory: copy_into(s0.memory, i_us as int, s0.v, idx as int),
                        ..s0
                    }),
                decreases x + 1 - idx,
            {
                let val = self.v[idx];
                self.memory[i_us + idx] = val;
                idx = idx + 1;
                proof {
                    assert(self.memory@ =~= copy_into(s0.memory, i_us as int, s0.v, idx as int));
                }
            }
        } else if y == 6 && n == 5 {
            let i_us = self.i as usize;
            if i_us + x + 1 > 4096 {
                return Err(Fault::MemoryOutOfBounds);
            }
            self.pc = pc2;
            let mut idx: usize = 0;
            while idx < x + 1
                invariant
                    wf_state(s0),
                    x < 16,
                    i_us + x + 1 <= 4096,
                    i_us == s0.i,
                    idx <= x + 1,
                    self@ == (CpuState {
                        pc: pc_plus(s0.pc, 2),
                        v: copy_into(s0.v, 0, s0.memory.subrange(i_us as int, 4096), idx as int),
                        ..s0
                    }),
                decreases x + 1 - idx,
            {
                let val = self.memory[i_us + idx];
                self.v[idx] = val;
                idx = idx + 1;
                proof {
                    assert(self.v@ =~= copy_into(
                        s0.v,
                        0,
                        s0.memory.subrange(i_us as int, 4096),
                        idx as int,
                    ));
                }
            }
        } else {
            self.pc = pc2;
        }
        proof {
            assert(Ok::<CpuState, Fault>(self@) =~= step_misc(
                s0,
                (CpuState { pc: pc_plus(s0.pc, 2), ..s0 }),
                x as int,
                y as int,
                n,
            ));
        }
        Ok(())
    }

    /// Dispatch one already-fetched instruction word: the transition is
    /// `step` on some byte drawn from the platform's randomness source, and
    /// on every byte whenever the word is not in the random-masking family.
    /// A fault leaves the machine untouched.
    pub fn execute(&mut self, opcode: u16) -> (r: Result<(), Fault>)
        requires
            old(self).wf(),
        ensures
            final(self).wf(),
            r is Ok ==> exists|b: u8|
                step(old(self)@, opcode, b) == Ok::<CpuState, Fault>(final(self)@),
            r is Ok && op_group(opcode) != 0xC ==> step(old(self)@, opcode, 0) == Ok::<
                CpuState,
                Fault,
            >(final(self)@),
            r is Err ==> step(old(self)@, opcode, 0) == Err::<CpuState, Fault>(r->Err_0)
                && final(self)@ == old(self)@,
    {
        let ghost s0 = self@;
        let b = random_byte();
        let r = self.execute_with_random(opcode, b);
        proof {
            if r is Ok {
                assert(step(s0, opcode, b) == Ok::<CpuState, Fault>(self@));
                if op_group(opcode) != 0xC {
                    lemma_step_rand_irrelevant(s0, opcode, b, 0);
                }
            } else {
                lemma_decode_bounds(opcode);
                assert(op_group(opcode) != 0xC);
                lemma_step_rand_irrelevant(s0, opcode, b, 0);
            }
        }
        r
    }

    /// Fetch the big-endian instruction word at the program counter and
    /// execute it; a counter too close to the end of memory to hold a whole
    /// word is a fault that leaves the machine untouched.
    pub fn execute_next(&mut self) -> (r: Result<(), Fault>)
        requires
            old(self).wf(),
        ensures
            final(self).wf(),
            old(self)@.pc + 2 > 4096 ==> r == Err::<(), Fault>(Fault::MemoryOutOfBounds)
                && final(self)@ == old(self)@,
            old(self)@.pc + 2 <= 4096 ==> {
                &&& r is Ok ==> exists|b: u8|
                    step(old(self)@, fetch(old(self)@), b) == Ok::<CpuState, Fault>(final(self)@)
                &&& r is Ok && op_group(fetch(old(self)@)) != 0xC ==> step(
                    old(self)@,
                    fetch(old(self)@),
                    0,
                ) == Ok::<CpuState, Fault>(final(self)@)
                &&& r is Err ==> step(old(self)@, fetch(old(self)@), 0) == Err::<CpuState, Fault>(
                    r->Err_0,
                ) && final(self)@ == old(self)@
            },
    {
        if self.pc as usize + 2 > 4096 {
            return Err(Fault::MemoryOutOfBounds);
        }
        let hi = self.memory[self.pc as usize];
        let lo = self.memory[self.pc as usize + 1];
        let w: u16 = (hi as u16) * 256 + (lo as u16);
        proof {
            assert(w == fetch(self@));
        }
        self.execute(w)
    }

    /// The program counter.
    pub fn pc(&self) -> (r: u16)
        ensures
            r == self@.pc,
    {
        self.pc
    }

    /// Place the program counter, for a driver or a test that arranges a
    /// precise starting point.
    pub fn set_pc(&mut self, pc: u16)
        requires
            old(self).wf(),
        ensures
            final(self).wf(),
            final(self)@ == (CpuState { pc, ..old(self)@ }),
    {
        self.pc = pc;
    }

    /// The value of general-purpose register `x`.
    pub fn v_reg(&self, x: u8) -> (r: u8)
        requires
            self.wf(),
            x < 16,
        ensures
            r == self@.v[x as int],
    {
        self.v[x as usize]
    }

    /// Place a value in general-purpose register `x`.
    pub fn set_v_reg(&mut self, x: u8, val: u8)
        requires
            old(self).wf(),
            x < 16,
        ensures
            final(self).wf(),
            final(self)@ == (CpuState { v: old(self)@.v.update(x as int, val), ..old(self)@ }),
    {
        self.v[x as usize] = val;
    }

    /// The index register.
    pub fn index_reg(&self) -> (r: u16)
        ensures
            r == self@.i,
    {
        self.i
    }

    /// Place the index register.
    pub fn set_index_reg(&mut self, i: u16)
        requires
            old(self).wf(),
        ensures
            final(self).wf(),
            final(self)@ == (CpuState { i, ..old(self)@ }),
    {
        self.i = i;
    }

    /// The memory byte at `addr`.
    pub fn memory_byte(&self, addr: usize) -> (r: u8)
        requires
            self.wf(),
            addr < 4096,
        ensures
            r == self@.memory[addr as int],
    {
        self.memory[addr]
    }

    /// Place a byte in memory, for a test or a loader that arranges sprite
    /// data directly.
    pub fn set_memory_byte(&mut self, addr: usize, val: u8)
        requires
            old(self).wf(),
            addr < 4096,
        ensures
            final(self).wf(),
            final(self)@ == (CpuState {
                memory: old(self)@.memory.update(addr as int, val),
                ..old(self)@
            }),
    {
        self.memory[addr] = val;
    }

    /// The delay timer's current value.
    pub fn delay_timer(&self) -> (r: u8)
        ensures
            r == self@.delay_timer,
    {
        self.delay_timer
    }

    /// Place the delay timer.
    pub fn set_delay_timer(&mut self, val: u8)
        requires
            old(self).wf(),
        ensures
            final(self).wf(),
            final(self)@ == (CpuState { delay_timer: val, ..old(self)@ }),
    {
        self.delay_timer = val;
    }

    /// The sound timer's current value.
    pub fn sound_timer(&self) -> (r: u8)
        ensures
            r == self@.sound_timer,
    {
        self.sound_timer
    }

    /// Place the sound timer.
    pub fn set_sound_timer(&mut self, val: u8)
        requires
            old(self).wf(),
        ensures
            final(self).wf(),
            final(self)@ == (CpuState { sound_timer: val, ..old(self)@ }),
    {
        self.sound_timer = val;
    }

    /// The stack pointer: the number of call frames in use.
    pub fn stack_pointer(&self) -> (r: u8)
        ensures
            r == self@.sp,
    {
        self.sp
    }

    /// The return address stored in stack slot `idx`.
    pub fn stack_entry(&self, idx: usize) -> (r: u16)
        requires
            self.wf(),
            idx < 16,
        ensures
            r == self@.stack[idx as int],
    {
        self.stack[idx]
    }
}

} // verus!
