//! The mathematical model of sprite drawing: an 8-pixel-wide, `n`-row sprite
//! read from memory is XOR-blitted onto the screen, with coordinates wrapped
//! toroidally at the screen edges, and a collision flag that records whether
//! any plotted pixel landed on an already-lit cell.
use vstd::prelude::*;

verus! {

/// Whether bit `col` (counted from the left, 0 through 7) of sprite byte `b`
/// is set.
pub open spec fn sprite_bit(b: u8, col: int) -> bool {
    (b >> ((7 - col) as u8)) & 1 == 1
}

/// The row-major cell a sprite pixel at offset (`row`, `col`) from origin
/// (`vx`, `vy`) lands on; coordinates wrap around the screen edges.
pub open spec fn cell_index(vx: u8, vy: u8, row: int, col: int) -> int {
    ((vy + row) % 32) * 64 + ((vx + col) % 64)
}

/// Whether some set sprite pixel of the `nrows`-row sprite at `mem[i..]`
/// drawn at (`vx`, `vy`) lands on cell `idx`.
pub open spec fn hits(mem: Seq<u8>, i: int, vx: u8, vy: u8, nrows: int, idx: int) -> bool {
    exists|row: int, col: int|
        0 <= row < nrows && 0 <= col < 8 && sprite_bit(mem[i + row], col) && cell_index(
            vx,
            vy,
            row,
            col,
        ) == idx
}

/// The screen after XOR-blitting the sprite: exactly the hit cells toggle.
pub open spec fn draw_screen(
    scr: Seq<bool>,
    mem: Seq<u8>,
    i: int,
    vx: u8,
    vy: u8,
    nrows: int,
) -> Seq<bool> {
    Seq::new(
        2048,
        |idx: int|
            if hits(mem, i, vx, vy, nrows, idx) {
                !scr[idx]
            } else {
                scr[idx]
            },
    )
}

/// Whether any plotted sprite pixel lands on a cell that was already lit.
pub open spec fn draw_collides(
    scr: Seq<bool>,
    mem: Seq<u8>,
    i: int,
    vx: u8,
    vy: u8,
    nrows: int,
) -> bool {
    exists|row: int, col: int|
        0 <= row < nrows && 0 <= col < 8 && sprite_bit(mem[i + row], col) && scr[cell_index(
            vx,
            vy,
            row,
            col,
        )]
}

/// Every cell a sprite pixel can land on is on the screen.
pub proof fn lemma_cell_index_bounds(vx: u8, vy: u8, row: int, col: int)
    requires
        0 <= row,
        0 <= col,
    ensures
        0 <= cell_index(vx, vy, row, col) < 2048,
{
    let a = (vy + row) % 32;
    let b = (vx + col) % 64;
    assert(0 <= a < 32);
    assert(0 <= b < 64);
    assert(a * 64 <= 31 * 64) by (nonlinear_arith)
        requires
            a <= 31,
    ;
    assert(0 <= a * 64) by (nonlinear_arith)
        requires
            0 <= a,
    ;
}

/// Distinct pixels of one sprite land on distinct cells: with at most 16
/// rows and 8 columns, wrapped rows stay distinct modulo 32 and wrapped
/// columns distinct modulo 64.
pub proof fn lemma_cell_index_injective(
    vx: u8,
    vy: u8,
    row1: int,
    col1: int,
    row2: int,
    col2: int,
)
    requires
        0 <= row1 < 16,
        0 <= col1 < 8,
        0 <= row2 < 16,
        0 <= col2 < 8,
        cell_index(vx, vy, row1, col1) == cell_index(vx, vy, row2, col2),
    ensures
        row1 == row2,
        col1 == col2,
{
    let a1 = (vy + row1) % 32;
    let b1 = (vx + col1) % 64;
    let a2 = (vy + row2) % 32;
    let b2 = (vx + col2) % 64;
    assert(0 <= a1 < 32 && 0 <= a2 < 32 && 0 <= b1 < 64 && 0 <= b2 < 64);
    assert(a1 == a2 && b1 == b2) by (nonlinear_arith)
        requires
            0 <= a1 < 32,
            0 <= a2 < 32,
            0 <= b1 < 64,
            0 <= b2 < 64,
            a1 * 64 + b1 == a2 * 64 + b2,
    ;
    // Rows within 16 of each other that agree modulo 32 are equal.
    if row1 != row2 {
        assert((vy + row1) % 32 != (vy + row2) % 32) by (nonlinear_arith)
            requires
                0 <= row1 < 16,
                0 <= row2 < 16,
                row1 != row2,
                0 <= vy,
        ;
    }
    if col1 != col2 {
        assert((vx + col1) % 64 != (vx + col2) % 64) by (nonlinear_arith)
            requires
                0 <= col1 < 8,
                0 <= col2 < 8,
                col1 != col2,
                0 <= vx,
        ;
    }
}

/// Whether the sprite pixel at (`row`, `col`) is blitted strictly before the
/// one at (`r`, `c`) when the sprite is walked row by row, left to right.
pub open spec fn before(row: int, col: int, r: int, c: int) -> bool {
    row < r || (row == r && col < c)
}

/// Like `hits`, but over the sprite pixels blitted strictly before (`r`,
/// `c`).
pub open spec fn hits_upto(
    mem: Seq<u8>,
    i: int,
    vx: u8,
    vy: u8,
    r: int,
    c: int,
    idx: int,
) -> bool {
    exists|row: int, col: int|
        0 <= row && 0 <= col < 8 && before(row, col, r, c) && sprite_bit(mem[i + row], col)
            && cell_index(vx, vy, row, col) == idx
}

/// The screen after blitting the sprite pixels strictly before (`r`, `c`).
pub open spec fn partial_screen(
    scr: Seq<bool>,
    mem: Seq<u8>,
    i: int,
    vx: u8,
    vy: u8,
    r: int,
    c: int,
) -> Seq<bool> {
    Seq::new(
        2048,
        |idx: int|
            if hits_upto(mem, i, vx, vy, r, c, idx) {
                !scr[idx]
            } else {
                scr[idx]
            },
    )
}

/// Whether a collision was observed among the sprite pixels blitted strictly
/// before (`r`, `c`).
pub open spec fn collides_upto(
    scr: Seq<bool>,
    mem: Seq<u8>,
    i: int,
    vx: u8,
    vy: u8,
    r: int,
    c: int,
) -> bool {
    exists|row: int, col: int|
        0 <= row && 0 <= col < 8 && before(row, col, r, c) && sprite_bit(mem[i + row], col)
            && scr[cell_index(vx, vy, row, col)]
}

/// Before anything is blitted, the screen is untouched and no collision has
/// been observed.
pub proof fn lemma_upto_zero(scr: Seq<bool>, mem: Seq<u8>, i: int, vx: u8, vy: u8)
    requires
        scr.len() == 2048,
    ensures
        partial_screen(scr, mem, i, vx, vy, 0, 0) == scr,
        !collides_upto(scr, mem, i, vx, vy, 0, 0),
{
    assert(partial_screen(scr, mem, i, vx, vy, 0, 0) =~= scr);
}

/// Finishing a row is the same point in the walk as starting the next one.
pub proof fn lemma_upto_row_advance(
    scr: Seq<bool>,
    mem: Seq<u8>,
    i: int,
    vx: u8,
    vy: u8,
    r: int,
)
    ensures
        partial_screen(scr, mem, i, vx, vy, r, 8) == partial_screen(scr, mem, i, vx, vy, r + 1, 0),
        collides_upto(scr, mem, i, vx, vy, r, 8) == collides_upto(scr, mem, i, vx, vy, r + 1, 0),
{
    assert forall|idx: int|
        hits_upto(mem, i, vx, vy, r, 8, idx) == hits_upto(mem, i, vx, vy, r + 1, 0, idx) by {
        if hits_upto(mem, i, vx, vy, r, 8, idx) {
            let (row, col) = choose|row: int, col: int|
                0 <= row && 0 <= col < 8 && before(row, col, r, 8) && sprite_bit(mem[i + row], col)
                    && cell_index(vx, vy, row, col) == idx;
            assert(before(row, col, r + 1, 0));
            assert(hits_upto(mem, i, vx, vy, r + 1, 0, idx));
        }
        if hits_upto(mem, i, vx, vy, r + 1, 0, idx) {
            let (row, col) = choose|row: int, col: int|
                0 <= row && 0 <= col < 8 && before(row, col, r + 1, 0) && sprite_bit(
                    mem[i + row],
                    col,
                ) && cell_index(vx, vy, row, col) == idx;
            assert(before(row, col, r, 8));
            assert(hits_upto(mem, i, vx, vy, r, 8, idx));
        }
    }
    assert(partial_screen(scr, mem, i, vx, vy, r, 8) =~= partial_screen(
        scr,
        mem,
        i,
        vx,
        vy,
        r + 1,
        0,
    ));
    if collides_upto(scr, mem, i, vx, vy, r, 8) {
        let (row, col) = choose|row: int, col: int|
            0 <= row && 0 <= col < 8 && before(row, col, r, 8) && sprite_bit(mem[i + row], col)
                && scr[cell_index(vx, vy, row, col)];
        assert(before(row, col, r + 1, 0));
        assert(collides_upto(scr, mem, i, vx, vy, r + 1, 0));
    }
    if collides_upto(scr, mem, i, vx, vy, r + 1, 0) {
        let (row, col) = choose|row: int, col: int|
            0 <= row && 0 <= col < 8 && before(row, col, r + 1, 0) && sprite_bit(mem[i + row], col)
                && scr[cell_index(vx, vy, row, col)];
        assert(before(row, col, r, 8));
        assert(collides_upto(scr, mem, i, vx, vy, r, 8));
    }
}

/// Having walked all `nrows` rows is the full draw.
pub proof fn lemma_upto_full(
    scr: Seq<bool>,
    mem: Seq<u8>,
    i: int,
    vx: u8,
    vy: u8,
    nrows: int,
)
    requires
        0 <= nrows,
    ensures
        partial_screen(scr, mem, i, vx, vy, nrows, 0) == draw_screen(scr, mem, i, vx, vy, nrows),
        collides_upto(scr, mem, i, vx, vy, nrows, 0) == draw_collides(
            scr,
            mem,
            i,
            vx,
            vy,
            nrows,
        ),
{
    assert forall|idx: int|
        hits_upto(mem, i, vx, vy, nrows, 0, idx) == hits(mem, i, vx, vy, nrows, idx) by {
        if hits_upto(mem, i, vx, vy, nrows, 0, idx) {
            let (row, col) = choose|row: int, col: int|
                0 <= row && 0 <= col < 8 && before(row, col, nrows, 0) && sprite_bit(
                    mem[i + row],
                    col,
                ) && cell_index(vx, vy, row, col) == idx;
            assert(0 <= row < nrows);
            assert(hits(mem, i, vx, vy, nrows, idx));
        }
        if hits(mem, i, vx, vy, nrows, idx) {
            let (row, col) = choose|row: int, col: int|
                0 <= row < nrows && 0 <= col < 8 && sprite_bit(mem[i + row], col) && cell_index(
                    vx,
                    vy,
                    row,
                    col,
                ) == idx;
            assert(before(row, col, nrows, 0));
            assert(hits_upto(mem, i, vx, vy, nrows, 0, idx));
        }
    }
    assert(partial_screen(scr, mem, i, vx, vy, nrows, 0) =~= draw_screen(
        scr,
        mem,
        i,
        vx,
        vy,
        nrows,
    ));
    if collides_upto(scr, mem, i, vx, vy, nrows, 0) {
        let (row, col) = choose|row: int, col: int|
            0 <= row && 0 <= col < 8 && before(row, col, nrows, 0) && sprite_bit(mem[i + row], col)
                && scr[cell_index(vx, vy, row, col)];
        assert(0 <= row < nrows);
        assert(draw_collides(scr, mem, i, vx, vy, nrows));
    }
    if draw_collides(scr, mem, i, vx, vy, nrows) {
        let (row, col) = choose|row: int, col: int|
            0 <= row < nrows && 0 <= col < 8 && sprite_bit(mem[i + row], col) && scr[cell_index(
                vx,
                vy,
                row,
                col,
            )];
        assert(before(row, col, nrows, 0));
        assert(collides_upto(scr, mem, i, vx, vy, nrows, 0));
    }
}

/// One step of the walk: blitting the pixel at (`r`, `c`). A set sprite bit
/// toggles a cell that no earlier pixel touched, so the prior state read
/// from the partially drawn screen is the pre-draw one; a clear bit changes
/// nothing.
pub proof fn lemma_upto_col_advance(
    scr: Seq<bool>,
    mem: Seq<u8>,
    i: int,
    vx: u8,
    vy: u8,
    nrows: int,
    r: int,
    c: int,
)
    requires
        scr.len() == 2048,
        0 <= r < nrows,
        nrows < 16,
        0 <= c < 8,
    ensures
        sprite_bit(mem[i + r], c) ==> !hits_upto(mem, i, vx, vy, r, c, cell_index(vx, vy, r, c)),
        sprite_bit(mem[i + r], c) ==> partial_screen(scr, mem, i, vx, vy, r, c + 1)
            == partial_screen(scr, mem, i, vx, vy, r, c).update(
            cell_index(vx, vy, r, c),
            !scr[cell_index(vx, vy, r, c)],
        ),
        sprite_bit(mem[i + r], c) ==> collides_upto(scr, mem, i, vx, vy, r, c + 1) == (
        collides_upto(scr, mem, i, vx, vy, r, c) || scr[cell_index(vx, vy, r, c)]),
        !sprite_bit(mem[i + r], c) ==> partial_screen(scr, mem, i, vx, vy, r, c + 1)
            == partial_screen(scr, mem, i, vx, vy, r, c),
        !sprite_bit(mem[i + r], c) ==> collides_upto(scr, mem, i, vx, vy, r, c + 1)
            == collides_upto(scr, mem, i, vx, vy, r, c),
{
    let cell = cell_index(vx, vy, r, c);
    lemma_cell_index_bounds(vx, vy, r, c);
    if sprite_bit(mem[i + r], c) {
        // No earlier pixel lands on this cell.
        if hits_upto(mem, i, vx, vy, r, c, cell) {
            let (row, col) = choose|row: int, col: int|
                0 <= row && 0 <= col < 8 && before(row, col, r, c) && sprite_bit(mem[i + row], col)
                    && cell_index(vx, vy, row, col) == cell;
            lemma_cell_index_injective(vx, vy, row, col, r, c);
            assert(false);
        }
        // Cells other than the toggled one are unaffected by this pixel.
        assert forall|idx: int| idx != cell implies hits_upto(mem, i, vx, vy, r, c + 1, idx)
            == hits_upto(mem, i, vx, vy, r, c, idx) by {
            if hits_upto(mem, i, vx, vy, r, c + 1, idx) {
                let (row, col) = choose|row: int, col: int|
                    0 <= row && 0 <= col < 8 && before(row, col, r, c + 1) && sprite_bit(
                        mem[i + row],
                        col,
                    ) && cell_index(vx, vy, row, col) == idx;
                if row == r && col == c {
                    assert(false);
                } else {
                    assert(before(row, col, r, c));
                    assert(hits_upto(mem, i, vx, vy, r, c, idx));
                }
            }
            if hits_upto(mem, i, vx, vy, r, c, idx) {
                let (row, col) = choose|row: int, col: int|
                    0 <= row && 0 <= col < 8 && before(row, col, r, c) && sprite_bit(
                        mem[i + row],
                        col,
                    ) && cell_index(vx, vy, row, col) == idx;
                assert(before(row, col, r, c + 1));
                assert(hits_upto(mem, i, vx, vy, r, c + 1, idx));
            }
        }
        assert(before(r, c, r, c + 1));
        assert(hits_upto(mem, i, vx, vy, r, c + 1, cell));
        assert(partial_screen(scr, mem, i, vx, vy, r, c + 1) =~= partial_screen(
            scr,
            mem,
            i,
            vx,
            vy,
            r,
            c,
        ).update(cell, !scr[cell]));
        // Collision: the one new pixel contributes exactly `scr[cell]`.
        if collides_upto(scr, mem, i, vx, vy, r, c + 1) {
            let (row, col) = choose|row: int, col: int|
                0 <= row && 0 <= col < 8 && before(row, col, r, c + 1) && sprite_bit(
                    mem[i + row],
                    col,
                ) && scr[cell_index(vx, vy, row, col)];
            if row == r && col == c {
                assert(scr[cell]);
            } else {
                assert(before(row, col, r, c));
                assert(collides_upto(scr, mem, i, vx, vy, r, c));
            }
        }
        if collides_upto(scr, mem, i, vx, vy, r, c) {
            let (row, col) = choose|row: int, col: int|
                0 <= row && 0 <= col < 8 && before(row, col, r, c) && sprite_bit(mem[i + row], col)
                    && scr[cell_index(vx, vy, row, col)];
            assert(before(row, col, r, c + 1));
            assert(collides_upto(scr, mem, i, vx, vy, r, c + 1));
        }
        if scr[cell] {
            assert(collides_upto(scr, mem, i, vx, vy, r, c + 1));
        }
    } else {
        assert forall|idx: int|
            hits_upto(mem, i, vx, vy, r, c + 1, idx) == hits_upto(mem, i, vx, vy, r, c, idx) by {
            if hits_upto(mem, i, vx, vy, r, c + 1, idx) {
                let (row, col) = choose|row: int, col: int|
                    0 <= row && 0 <= col < 8 && before(row, col, r, c + 1) && sprite_bit(
                        mem[i + row],
                        col,
                    ) && cell_index(vx, vy, row, col) == idx;
                if row == r && col == c {
                    assert(false);
                } else {
                    assert(before(row, col, r, c));
                    assert(hits_upto(mem, i, vx, vy, r, c, idx));
                }
            }
            if hits_upto(mem, i, vx, vy, r, c, idx) {
                let (row, col) = choose|row: int, col: int|
                    0 <= row && 0 <= col < 8 && before(row, col, r, c) && sprite_bit(
                        mem[i + row],
                        col,
                    ) && cell_index(vx, vy, row, col) == idx;
                assert(before(row, col, r, c + 1));
                assert(hits_upto(mem, i, vx, vy, r, c + 1, idx));
            }
        }
        assert(partial_screen(scr, mem, i, vx, vy, r, c + 1) =~= partial_screen(
            scr,
            mem,
            i,
            vx,
            vy,
            r,
            c,
        ));
        if collides_upto(scr, mem, i, vx, vy, r, c + 1) {
            let (row, col) = choose|row: int, col: int|
                0 <= row && 0 <= col < 8 && before(row, col, r, c + 1) && sprite_bit(
                    mem[i + row],
                    col,
                ) && scr[cell_index(vx, vy, row, col)];
            if row == r && col == c {
                assert(false);
            } else {
                assert(before(row, col, r, c));
                assert(collides_upto(scr, mem, i, vx, vy, r, c));
            }
        }
        if collides_upto(scr, mem, i, vx, vy, r, c) {
            let (row, col) = choose|row: int, col: int|
                0 <= row && 0 <= col < 8 && before(row, col, r, c) && sprite_bit(mem[i + row], col)
                    && scr[cell_index(vx, vy, row, col)];
            assert(before(row, col, r, c + 1));
            assert(collides_upto(scr, mem, i, vx, vy, r, c + 1));
        }
    }
}

/// Drawing the same sprite twice at the same spot restores the screen
/// exactly (XOR is self-inverse), and the second draw reports a collision
/// precisely when the first draw lit some cell.
pub proof fn lemma_draw_self_inverse(
    scr: Seq<bool>,
    mem: Seq<u8>,
    i: int,
    vx: u8,
    vy: u8,
    nrows: int,
)
    requires
        scr.len() == 2048,
        0 <= nrows < 16,
    ensures
        draw_screen(draw_screen(scr, mem, i, vx, vy, nrows), mem, i, vx, vy, nrows) == scr,
        draw_collides(draw_screen(scr, mem, i, vx, vy, nrows), mem, i, vx, vy, nrows)
            <==> (exists|idx: int|
            0 <= idx < 2048 && hits(mem, i, vx, vy, nrows, idx) && !scr[idx]),
{
    let scr1 = draw_screen(scr, mem, i, vx, vy, nrows);
    assert forall|idx: int| 0 <= idx < 2048 implies draw_screen(scr1, mem, i, vx, vy, nrows)[idx]
        == scr[idx] by {}
    assert(draw_screen(scr1, mem, i, vx, vy, nrows) =~= scr);
    if draw_collides(scr1, mem, i, vx, vy, nrows) {
        let (row, col) = choose|row: int, col: int|
            0 <= row < nrows && 0 <= col < 8 && sprite_bit(mem[i + row], col) && scr1[cell_index(
                vx,
                vy,
                row,
                col,
            )];
        let idx = cell_index(vx, vy, row, col);
        lemma_cell_index_bounds(vx, vy, row, col);
        assert(hits(mem, i, vx, vy, nrows, idx));
        assert(scr1[idx] == !scr[idx]);
        assert(0 <= idx < 2048 && hits(mem, i, vx, vy, nrows, idx) && !scr[idx]);
    }
    if exists|idx: int| 0 <= idx < 2048 && hits(mem, i, vx, vy, nrows, idx) && !scr[idx] {
        let idx = choose|idx: int| 0 <= idx < 2048 && hits(mem, i, vx, vy, nrows, idx) && !scr[idx];
        let (row, col) = choose|row: int, col: int|
            0 <= row < nrows && 0 <= col < 8 && sprite_bit(mem[i + row], col) && cell_index(
                vx,
                vy,
                row,
                col,
            ) == idx;
        assert(scr1[idx] == !scr[idx]);
        assert(scr1[cell_index(vx, vy, row, col)]);
        assert(draw_collides(scr1, mem, i, vx, vy, nrows));
    }
}

} // verus!
