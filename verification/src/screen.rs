//! The monochrome display buffer: a fixed 64x32 grid of pixels stored
//! row-major, written only through XOR-style toggling.
use vstd::prelude::*;

verus! {

/// Display width in pixels.
pub const SCREEN_WIDTH: usize = 64;

/// Display height in pixels.
pub const SCREEN_HEIGHT: usize = 32;

/// Number of cells of the pixel grid.
pub const SCREEN_CELLS: usize = 2048;

/// A screen with every pixel off.
pub open spec fn blank_screen() -> Seq<bool> {
    Seq::new(2048, |j: int| false)
}

/// The display buffer. Its view is the row-major sequence of pixel states.
pub struct Screen {
    bit_map: Vec<bool>,
}

impl View for Screen {
    type V = Seq<bool>;

    closed spec fn view(&self) -> Seq<bool> {
        self.bit_map@
    }
}

impl Screen {
    /// The grid always holds exactly `SCREEN_CELLS` cells.
    pub open spec fn wf(&self) -> bool {
        self@.len() == 2048
    }

    /// A fresh screen: every pixel off.
    pub fn new() -> (s: Screen)
        ensures
            s.wf(),
            s@ == blank_screen(),
    {
        let mut bit_map: Vec<bool> = Vec::new();
        let mut k: usize = 0;
        while k < 2048
            invariant
                k <= 2048,
                bit_map@ == Seq::new(k as nat, |j: int| false),
            decreases 2048 - k,
        {
            bit_map.push(false);
            k = k + 1;
            proof {
                assert(bit_map@ =~= Seq::new(k as nat, |j: int| false));
            }
        }
        proof {
            assert(bit_map@ =~= blank_screen());
        }
        Screen { bit_map }
    }

    /// Toggle the pixel at (`row`, `col`); callers pre-wrap coordinates into
    /// the grid.
    pub fn set_pixel(&mut self, row: usize, col: usize)
        requires
            old(self).wf(),
            row < 32,
            col < 64,
        ensures
            final(self).wf(),
            final(self)@ == old(self)@.update(
                row * 64 + col,
                !old(self)@[row * 64 + col],
            ),
    {
        proof {
            assert(row * 64 + col < 2048) by (nonlinear_arith)
                requires
                    row < 32,
                    col < 64,
            ;
        }
        let idx: usize = row * 64 + col;
        let cur: bool = self.bit_map[idx];
        self.bit_map[idx] = !cur;
    }

    /// Read the pixel at (`row`, `col`).
    pub fn get_pixel(&self, row: usize, col: usize) -> (r: bool)
        requires
            self.wf(),
            row < 32,
            col < 64,
        ensures
            r == self@[row * 64 + col],
    {
        proof {
            assert(row * 64 + col < 2048) by (nonlinear_arith)
                requires
                    row < 32,
                    col < 64,
            ;
        }
        let idx: usize = row * 64 + col;
        self.bit_map[idx]
    }

    /// Switch every pixel off.
    pub fn clear(&mut self)
        requires
            old(self).wf(),
        ensures
            final(self).wf(),
            final(self)@ == blank_screen(),
    {
        let mut k: usize = 0;
        while k < 2048
            invariant
                old(self).wf(),
                self.wf(),
                k <= 2048,
                forall|j: int| 0 <= j < k ==> !self@[j],
            decreases 2048 - k,
        {
            self.bit_map[k] = false;
            k = k + 1;
        }
        proof {
            assert(self@ =~= blank_screen());
        }
    }

    /// The whole pixel grid, row-major, as a read-only view.
    pub fn get_screen_memory(&self) -> (r: &Vec<bool>)
        ensures
            r@ == self@,
    {
        &self.bit_map
    }

    /// Display width in pixels.
    pub fn width(&self) -> (r: usize)
        ensures
            r == 64,
    {
        SCREEN_WIDTH
    }

    /// Display height in pixels.
    pub fn height(&self) -> (r: usize)
        ensures
            r == 32,
    {
        SCREEN_HEIGHT
    }
}

} // verus!
