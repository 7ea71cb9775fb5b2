//! The mathematical model of a grid: its cells as a sequence in row-major
//! order, the neighbourhood count, Conway's rule and the sub-pixel colour.
use vstd::prelude::*;

verus! {

/// The cell at `(x, y)` is on the grid and alive. Everything off the grid
/// counts as dead: the edges are hard, nothing wraps.
pub open spec fn is_live(cells: Seq<bool>, w: int, h: int, x: int, y: int) -> bool {
    0 <= x < w && 0 <= y < h && cells[x + y * w]
}

pub open spec fn live_as_int(cells: Seq<bool>, w: int, h: int, x: int, y: int) -> int {
    if is_live(cells, w, h, x, y) {
        1
    } else {
        0
    }
}

/// The number of live cells among the eight that touch `(x, y)`.
pub open spec fn live_neighbors(cells: Seq<bool>, w: int, h: int, x: int, y: int) -> int {
    live_as_int(cells, w, h, x - 1, y - 1) + live_as_int(cells, w, h, x, y - 1)
        + live_as_int(cells, w, h, x + 1, y - 1) + live_as_int(cells, w, h, x - 1, y)
        + live_as_int(cells, w, h, x + 1, y) + live_as_int(cells, w, h, x - 1, y + 1)
        + live_as_int(cells, w, h, x, y + 1) + live_as_int(cells, w, h, x + 1, y + 1)
}

/// Conway's rule: a live cell with two or three live neighbours stays alive,
/// a dead cell with exactly three comes alive, every other cell is dead.
pub open spec fn next_state(alive: bool, neighbors: int) -> bool {
    if alive {
        neighbors == 2 || neighbors == 3
    } else {
        neighbors == 3
    }
}

/// The generation that follows `cells`, every cell computed from `cells` alone.
pub open spec fn next_generation(cells: Seq<bool>, w: int, h: int) -> Seq<bool> {
    Seq::new(
        cells.len(),
        |i: int| next_state(cells[i], live_neighbors(cells, w, h, i % w, i / w)),
    )
}

/// The grid after `n` generations.
pub open spec fn generation(cells: Seq<bool>, w: int, h: int, n: nat) -> Seq<bool>
    decreases n,
{
    if n == 0 {
        cells
    } else {
        next_generation(generation(cells, w, h, (n - 1) as nat), w, h)
    }
}

pub const OPAQUE_BLACK: u32 = 0xFF00_0000;

pub const FULL_RED: u32 = 0x00FF_0000;

pub const FULL_GREEN: u32 = 0x0000_FF00;

pub const FULL_BLUE: u32 = 0x0000_00FF;

/// The packed colour of screen pixel `p`: opaque black, plus full red, green
/// and blue for each of the three cells starting at grid position `3 * p`
/// that is alive.
pub open spec fn pixel_color(cells: Seq<bool>, w: int, h: int, p: int) -> int {
    let x = (p * 3) % w;
    let y = (p * 3) / w;
    OPAQUE_BLACK + (if is_live(cells, w, h, x, y) { FULL_RED as int } else { 0 })
        + (if is_live(cells, w, h, x + 1, y) { FULL_GREEN as int } else { 0 })
        + (if is_live(cells, w, h, x + 2, y) { FULL_BLUE as int } else { 0 })
}

/// The three cells of screen pixel `p` lie in one row of the grid: they
/// start at `(x, y)` with `3 * p == x + y * w`, and `x + 2` is still on the
/// row, since the width is a multiple of three.
pub proof fn lemma_pixel_cells(w: int, h: int, p: int)
    requires
        w > 0,
        w % 3 == 0,
        0 <= p,
        p * 3 + 3 <= w * h,
    ensures
        0 <= (p * 3) % w,
        (p * 3) % w + 3 <= w,
        0 <= (p * 3) / w < h,
        p * 3 == (p * 3) % w + ((p * 3) / w) * w,
{
    let k = w / 3;
    let q = (p * 3) / w;
    let rem = (p * 3) % w;
    assert(p * 3 == q * w + rem && 0 <= rem < w) by (nonlinear_arith)
        requires
            w > 0,
            p >= 0,
            q == (p * 3) / w,
            rem == (p * 3) % w,
    ;
    assert(rem == 3 * (p - q * k)) by (nonlinear_arith)
        requires
            p * 3 == q * w + rem,
            w == 3 * k,
    ;
    assert(0 <= q < h) by (nonlinear_arith)
        requires
            p * 3 == q * w + rem,
            0 <= rem < w,
            p >= 0,
            p * 3 < w * h,
            w > 0,
    ;
}

} // verus!
