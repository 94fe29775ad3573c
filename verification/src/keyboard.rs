//! The key-state latch: one pressed/released flag per key of the sixteen-key
//! input device. The external driver pushes press and release events in; the
//! processor core only reads.
use vstd::prelude::*;

verus! {

/// Number of keys on the input device.
pub const KEY_COUNT: usize = 16;

/// A latch with every key released.
pub open spec fn blank_keys() -> Seq<bool> {
    Seq::new(16, |j: int| false)
}

/// Index of the lowest pressed key at or above position `k`, or the length
/// of the sequence when no key at or above `k` is pressed.
pub open spec fn lowest_pressed_from(keys: Seq<bool>, k: int) -> int
    decreases keys.len() - k,
{
    if k < 0 || k >= keys.len() {
        keys.len() as int
    } else if keys[k] {
        k
    } else {
        lowest_pressed_from(keys, k + 1)
    }
}

/// The key-state latch. Its view is the sequence of pressed flags.
pub struct Keyboard {
    pressed_keys: Vec<bool>,
}

impl View for Keyboard {
    type V = Seq<bool>;

    closed spec fn view(&self) -> Seq<bool> {
        self.pressed_keys@
    }
}

impl Keyboard {
    /// The latch always holds exactly one flag per key.
    pub open spec fn wf(&self) -> bool {
        self@.len() == 16
    }

    /// A fresh latch: every key released.
    pub fn new() -> (k: Keyboard)
        ensures
            k.wf(),
            k@ == blank_keys(),
    {
        let mut pressed_keys: Vec<bool> = Vec::new();
        let mut j: usize = 0;
        while j < 16
            invariant
                j <= 16,
                pressed_keys@ == Seq::new(j as nat, |q: int| false),
            decreases 16 - j,
        {
            pressed_keys.push(false);
            j = j + 1;
            proof {
                assert(pressed_keys@ =~= Seq::new(j as nat, |q: int| false));
            }
        }
        proof {
            assert(pressed_keys@ =~= blank_keys());
        }
        Keyboard { pressed_keys }
    }

    /// Record that `key` is held down.
    pub fn key_down(&mut self, key: u8)
        requires
            old(self).wf(),
            key < 16,
        ensures
            final(self).wf(),
            final(self)@ == old(self)@.update(key as int, true),
    {
        self.pressed_keys[key as usize] = true;
    }

    /// Record that `key` has been released.
    pub fn key_up(&mut self, key: u8)
        requires
            old(self).wf(),
            key < 16,
        ensures
            final(self).wf(),
            final(self)@ == old(self)@.update(key as int, false),
    {
        self.pressed_keys[key as usize] = false;
    }

    /// Whether `key` is currently held down.
    pub fn is_key_pressed(&self, key: u8) -> (r: bool)
        requires
            self.wf(),
            key < 16,
        ensures
            r == self@[key as int],
    {
        self.pressed_keys[key as usize]
    }

    /// Release every key.
    pub fn clear(&mut self)
        requires
            old(self).wf(),
        ensures
            final(self).wf(),
            final(self)@ == blank_keys(),
    {
        let mut j: usize = 0;
        while j < 16
            invariant
                self.wf(),
                j <= 16,
                forall|q: int| 0 <= q < j ==> !self@[q],
            decreases 16 - j,
        {
            self.pressed_keys[j] = false;
            j = j + 1;
        }
        proof {
            assert(self@ =~= blank_keys());
        }
    }

    /// Index of the lowest pressed key, or `None` when no key is down.
    pub fn lowest_pressed(&self) -> (r: Option<u8>)
        requires
            self.wf(),
        ensures
            match r {
                Some(k) => k < 16 && lowest_pressed_from(self@, 0) == k as int,
                None => lowest_pressed_from(self@, 0) == 16,
            },
    {
        let mut j: usize = 0;
        while j < 16
            invariant
                self.wf(),
                j <= 16,
                lowest_pressed_from(self@, 0) == lowest_pressed_from(self@, j as int),
            decreases 16 - j,
        {
            if self.pressed_keys[j] {
                return Some(j as u8);
            }
            j = j + 1;
        }
        None
    }
}

} // verus!
