//! The engine facade: one processor core behind the lifecycle and
//! peripheral-access surface a host driver consumes.
use vstd::prelude::*;

use crate::cpu::CPU;
use crate::state::{fetch, initial_state, op_group, step, CpuState, Fault};

verus! {

/// The whole machine, for a host that drives execution, forwards input
/// events and reads the pixel grid. Its view is the abstract `CpuState`.
pub struct Chip8 {
    cpu: CPU,
}

impl View for Chip8 {
    type V = CpuState;

    closed spec fn view(&self) -> CpuState {
        self.cpu@
    }
}

impl Chip8 {
    /// Fixed sizes of all the machine's parts, and a stack pointer in range.
    pub open spec fn wf(&self) -> bool {
        crate::state::wf_state(self@)
    }

    /// A fresh machine: everything zeroed, the font resident in low memory.
    pub fn new() -> (c: Chip8)
        ensures
            c.wf(),
            c@ == initial_state(),
    {
        Chip8 { cpu: CPU::new() }
    }

    /// Restore the machine to the just-constructed state.
    pub fn reset(&mut self)
        requires
            old(self).wf(),
        ensures
            final(self).wf(),
            final(self)@ == initial_state(),
    {
        self.cpu.reset();
    }

    /// Copy a program into program space at the fixed origin; a program
    /// that would not fit is rejected whole.
    pub fn load_program(&mut self, program: &[u8]) -> (r: Result<(), Fault>)
        requires
            old(self).wf(),
        ensures
            final(self).wf(),
            program@.len() > 4096 - 0x200 ==> r == Err::<(), Fault>(Fault::ProgramTooLarge)
                && final(self)@ == old(self)@,
            program@.len() <= 4096 - 0x200 ==> r == Ok::<(), Fault>(()) && final(self)@ == (
            CpuState {
                memory: crate::state::copy_into(
                    old(self)@.memory,
                    0x200,
                    program@,
                    program@.len() as int,
                ),
                ..old(self)@
            }),
    {
        self.cpu.load_program(program)
    }

    /// Execute exactly one instruction at the program counter.
    pub fn execute_next(&mut self) -> (r: Result<(), Fault>)
        requires
            old(self).wf(),
        ensures
            final(self).wf(),
            old(self)@.pc + 2 > 4096 ==> r == Err::<(), Fault>(Fault::MemoryOutOfBounds)
                && final(self)@ == old(self)@,
            old(self)@.pc + 2 <= 4096 ==> {
                &&& r is Ok ==> exists|b: u8|
                    step(old(self)@, fetch(old(self)@), b) == Ok::<CpuState, Fault>(final(self)@)
                &&& r is Ok && op_group(fetch(old(self)@)) != 0xC ==> step(
                    old(self)@,
                    fetch(old(self)@),
                    0,
                ) == Ok::<CpuState, Fault>(final(self)@)
                &&& r is Err ==> step(old(self)@, fetch(old(self)@), 0) == Err::<CpuState, Fault>(
                    r->Err_0,
                ) && final(self)@ == old(self)@
            },
    {
        self.cpu.execute_next()
    }

    /// One timer tick: each countdown value decrements by exactly one when
    /// nonzero and stays at zero otherwise.
    pub fn update_timer(&mut self)
        requires
            old(self).wf(),
        ensures
            final(self).wf(),
            final(self)@ == (CpuState {
                delay_timer: if old(self)@.delay_timer > 0 {
                    (old(self)@.delay_timer - 1) as u8
                } else {
                    0
                },
                sound_timer: if old(self)@.sound_timer > 0 {
                    (old(self)@.sound_timer - 1) as u8
                } else {
                    0
                },
                ..old(self)@
            }),
    {
        self.cpu.update_timer();
    }

    /// Display width in pixels.
    pub fn width(&mut self) -> (r: usize)
        requires
            old(self).wf(),
        ensures
            final(self)@ == old(self)@,
            r == 64,
    {
        let screen = self.cpu.get_screen();
        screen.width()
    }

    /// Display height in pixels.
    pub fn height(&mut self) -> (r: usize)
        requires
            old(self).wf(),
        ensures
            final(self)@ == old(self)@,
            r == 32,
    {
        let screen = self.cpu.get_screen();
        screen.height()
    }

    /// The whole pixel grid, row-major, as a read-only view.
    pub fn get_screen_memory(&mut self) -> (r: &Vec<bool>)
        requires
            old(self).wf(),
        ensures
            final(self)@ == old(self)@,
            r@ == old(self)@.screen,
    {
        let screen = self.cpu.get_screen();
        screen.get_screen_memory()
    }

    /// Forward a key-press event into the key-state latch.
    pub fn key_down(&mut self, key: u8)
        requires
            old(self).wf(),
            key < 16,
        ensures
            final(self).wf(),
            final(self)@ == (CpuState {
                keys: old(self)@.keys.update(key as int, true),
                ..old(self)@
            }),
    {
        let keyboard = self.cpu.get_keyboard();
        keyboard.key_down(key);
    }

    /// Forward a key-release event into the key-state latch.
    pub fn key_up(&mut self, key: u8)
        requires
            old(self).wf(),
            key < 16,
        ensures
            final(self).wf(),
            final(self)@ == (CpuState {
                keys: old(self)@.keys.update(key as int, false),
                ..old(self)@
            }),
    {
        let keyboard = self.cpu.get_keyboard();
        keyboard.key_up(key);
    }
}

} // verus!
