//! Properties of the rule that hold on every grid size, proved over the
//! model in `rules`.
use vstd::prelude::*;
use crate::rules::{
    FULL_GREEN, generation, is_live, lemma_pixel_cells, live_neighbors, next_generation, next_state,
    pixel_color,
};

verus! {

/// The `w` by `h` grid whose cell `(x, y)` is alive exactly when `alive(x, y)`.
pub open spec fn pattern(w: int, h: int, alive: spec_fn(int, int) -> bool) -> Seq<bool> {
    Seq::new((w * h) as nat, |i: int| alive(i % w, i / w))
}

/// Only cell `(cx, cy)` is alive.
pub open spec fn only_cell(cx: int, cy: int) -> spec_fn(int, int) -> bool {
    |x: int, y: int| x == cx && y == cy
}

pub open spec fn single_cell(w: int, h: int, cx: int, cy: int) -> Seq<bool> {
    pattern(w, h, only_cell(cx, cy))
}

/// The 2x2 block with top-left corner `(bx, by)` is alive, nothing else.
pub open spec fn block_at(bx: int, by: int) -> spec_fn(int, int) -> bool {
    |x: int, y: int| bx <= x <= bx + 1 && by <= y <= by + 1
}

pub open spec fn block(w: int, h: int, bx: int, by: int) -> Seq<bool> {
    pattern(w, h, block_at(bx, by))
}

/// Three cells in column `cx`, centred on row `cy`, are alive, nothing else.
pub open spec fn column_of_three(cx: int, cy: int) -> spec_fn(int, int) -> bool {
    |x: int, y: int| x == cx && cy - 1 <= y <= cy + 1
}

pub open spec fn vertical_blinker(w: int, h: int, cx: int, cy: int) -> Seq<bool> {
    pattern(w, h, column_of_three(cx, cy))
}

/// Three cells in row `cy`, centred on column `cx`, are alive, nothing else.
pub open spec fn row_of_three(cx: int, cy: int) -> spec_fn(int, int) -> bool {
    |x: int, y: int| y == cy && cx - 1 <= x <= cx + 1
}

pub open spec fn horizontal_blinker(w: int, h: int, cx: int, cy: int) -> Seq<bool> {
    pattern(w, h, row_of_three(cx, cy))
}

/// Position `x + y * w` of a grid of width `w` holds cell `(x, y)`.
proof fn lemma_coordinates(w: int, h: int, x: int, y: int)
    requires
        0 <= x < w,
        0 <= y < h,
    ensures
        0 <= x + y * w < w * h,
        (x + y * w) % w == x,
        (x + y * w) / w == y,
{
    assert(0 <= x + y * w < w * h) by (nonlinear_arith)
        requires
            0 <= x < w,
            0 <= y < h,
    ;
    vstd::arithmetic::div_mod::lemma_fundamental_div_mod_converse(x + y * w, w, y, x);
}

proof fn lemma_pattern_live(w: int, h: int, alive: spec_fn(int, int) -> bool)
    requires
        w > 0,
        h > 0,
    ensures
        forall|x: int, y: int|
            #[trigger] is_live(pattern(w, h, alive), w, h, x, y) == (0 <= x < w && 0 <= y < h
                && alive(x, y)),
{
    assert forall|x: int, y: int|
        #[trigger] is_live(pattern(w, h, alive), w, h, x, y) == (0 <= x < w && 0 <= y < h
            && alive(x, y)) by {
        if 0 <= x < w && 0 <= y < h {
            lemma_coordinates(w, h, x, y);
        }
    }
}

/// Every cell of the grid is at `(i % w, i / w)` for its position `i`.
proof fn lemma_position(w: int, h: int, i: int)
    requires
        w > 0,
        0 <= i < w * h,
    ensures
        0 <= i % w < w,
        0 <= i / w < h,
        i == i % w + (i / w) * w,
{
    assert(0 <= i % w < w && 0 <= i / w < h && i == i % w + (i / w) * w) by (nonlinear_arith)
        requires
            w > 0,
            0 <= i < w * h,
    ;
}

/// A single live cell adds one to the count of each of the cells that touch
/// it, and nothing to any other cell.
pub proof fn lemma_single_cell_counts(w: int, h: int, cx: int, cy: int)
    requires
        w > 0,
        h > 0,
        0 <= cx < w,
        0 <= cy < h,
    ensures
        forall|x: int, y: int|
            0 <= x < w && 0 <= y < h ==> #[trigger] live_neighbors(
                single_cell(w, h, cx, cy),
                w,
                h,
                x,
                y,
            ) == if (x != cx || y != cy) && cx - 1 <= x <= cx + 1 && cy - 1 <= y <= cy + 1 {
                1int
            } else {
                0int
            },
{
    lemma_pattern_live(w, h, only_cell(cx, cy));
}

/// A live cell in the corner `(0, 0)` of an `n` by `n` grid counts for
/// exactly its three neighbours `(1, 0)`, `(0, 1)` and `(1, 1)`: the count of
/// every other cell, the far corner included, stays zero.
pub proof fn lemma_corner_cell_counts(n: int)
    requires
        n >= 2,
    ensures
        forall|x: int, y: int|
            0 <= x < n && 0 <= y < n ==> #[trigger] live_neighbors(
                single_cell(n, n, 0, 0),
                n,
                n,
                x,
                y,
            ) == if (x == 1 && y == 0) || (x == 0 && y == 1) || (x == 1 && y == 1) {
                1int
            } else {
                0int
            },
{
    lemma_single_cell_counts(n, n, 0, 0);
}

/// Two grids of the same length that agree on every cell are equal.
proof fn lemma_grid_ext(a: Seq<bool>, b: Seq<bool>, w: int, h: int)
    requires
        w > 0,
        a.len() == w * h,
        b.len() == w * h,
        forall|x: int, y: int| 0 <= x < w && 0 <= y < h ==> a[x + y * w] == #[trigger] b[x + y * w],
    ensures
        a == b,
{
    assert forall|i: int| 0 <= i < a.len() implies a[i] == b[i] by {
        lemma_position(w, h, i);
        let (x, y) = (i % w, i / w);
        assert(a[x + y * w] == b[x + y * w]);
    }
    assert(a =~= b);
}

/// The next generation, cell by cell.
proof fn lemma_next_cell(cells: Seq<bool>, w: int, h: int, x: int, y: int)
    requires
        cells.len() == w * h,
        0 <= x < w,
        0 <= y < h,
    ensures
        next_generation(cells, w, h)[x + y * w] == next_state(
            cells[x + y * w],
            live_neighbors(cells, w, h, x, y),
        ),
{
    lemma_coordinates(w, h, x, y);
}

/// A 2x2 block with nothing else alive is a still life: one step leaves it
/// as it is.
pub proof fn lemma_block_step(w: int, h: int, bx: int, by: int)
    requires
        0 <= bx,
        bx + 1 < w,
        0 <= by,
        by + 1 < h,
    ensures
        next_generation(block(w, h, bx, by), w, h) == block(w, h, bx, by),
{
    let cells = block(w, h, bx, by);
    lemma_pattern_live(w, h, block_at(bx, by));
    assert forall|x: int, y: int| 0 <= x < w && 0 <= y < h implies next_generation(cells, w, h)[x
        + y * w] == #[trigger] cells[x + y * w] by {
        lemma_next_cell(cells, w, h, x, y);
        assert(is_live(cells, w, h, x, y) == cells[x + y * w]);
    }
    lemma_grid_ext(next_generation(cells, w, h), cells, w, h);
}

/// A 2x2 block with nothing else alive stays as it is for any number of
/// generations.
pub proof fn lemma_block_still_life(w: int, h: int, bx: int, by: int, n: nat)
    requires
        0 <= bx,
        bx + 1 < w,
        0 <= by,
        by + 1 < h,
    ensures
        generation(block(w, h, bx, by), w, h, n) == block(w, h, bx, by),
    decreases n,
{
    if n > 0 {
        lemma_block_still_life(w, h, bx, by, (n - 1) as nat);
        lemma_block_step(w, h, bx, by);
    }
}

/// One step turns a vertical blinker into the horizontal one with the same
/// centre, and the horizontal one back into the vertical one.
pub proof fn lemma_blinker_step(w: int, h: int, cx: int, cy: int)
    requires
        1 <= cx,
        cx + 1 < w,
        1 <= cy,
        cy + 1 < h,
    ensures
        next_generation(vertical_blinker(w, h, cx, cy), w, h) == horizontal_blinker(w, h, cx, cy),
        next_generation(horizontal_blinker(w, h, cx, cy), w, h) == vertical_blinker(w, h, cx, cy),
{
    let v = vertical_blinker(w, h, cx, cy);
    let hz = horizontal_blinker(w, h, cx, cy);
    lemma_pattern_live(w, h, column_of_three(cx, cy));
    lemma_pattern_live(w, h, row_of_three(cx, cy));
    assert forall|x: int, y: int| 0 <= x < w && 0 <= y < h implies next_generation(v, w, h)[x + y
        * w] == #[trigger] hz[x + y * w] by {
        lemma_next_cell(v, w, h, x, y);
        assert(is_live(v, w, h, x, y) == v[x + y * w]);
        assert(is_live(hz, w, h, x, y) == hz[x + y * w]);
    }
    lemma_grid_ext(next_generation(v, w, h), hz, w, h);
    assert forall|x: int, y: int| 0 <= x < w && 0 <= y < h implies next_generation(hz, w, h)[x + y
        * w] == #[trigger] v[x + y * w] by {
        lemma_next_cell(hz, w, h, x, y);
        assert(is_live(v, w, h, x, y) == v[x + y * w]);
        assert(is_live(hz, w, h, x, y) == hz[x + y * w]);
    }
    lemma_grid_ext(next_generation(hz, w, h), v, w, h);
}

/// A blinker is an oscillator of period two: the vertical and horizontal
/// phases differ, and after `n` generations the vertical phase is back
/// exactly when `n` is even.
pub proof fn lemma_blinker_period(w: int, h: int, cx: int, cy: int, n: nat)
    requires
        1 <= cx,
        cx + 1 < w,
        1 <= cy,
        cy + 1 < h,
    ensures
        vertical_blinker(w, h, cx, cy) != horizontal_blinker(w, h, cx, cy),
        generation(vertical_blinker(w, h, cx, cy), w, h, n) == if n % 2 == 0 {
            vertical_blinker(w, h, cx, cy)
        } else {
            horizontal_blinker(w, h, cx, cy)
        },
    decreases n,
{
    lemma_blinker_step(w, h, cx, cy);
    lemma_pattern_live(w, h, column_of_three(cx, cy));
    lemma_pattern_live(w, h, row_of_three(cx, cy));
    assert(!is_live(vertical_blinker(w, h, cx, cy), w, h, cx - 1, cy));
    assert(is_live(horizontal_blinker(w, h, cx, cy), w, h, cx - 1, cy));
    if n > 0 {
        lemma_blinker_period(w, h, cx, cy, (n - 1) as nat);
    }
}

/// Bringing the middle one of the three cells behind screen pixel `p` to
/// life adds full green to the pixel and leaves every other channel as it
/// was.
pub proof fn lemma_middle_cell_is_green(cells: Seq<bool>, w: int, h: int, p: int)
    requires
        w > 0,
        w % 3 == 0,
        cells.len() == w * h,
        0 <= p,
        p * 3 + 3 <= w * h,
        !cells[p * 3 + 1],
    ensures
        pixel_color(cells.update(p * 3 + 1, true), w, h, p) == pixel_color(cells, w, h, p)
            + FULL_GREEN,
{
    lemma_pixel_cells(w, h, p);
}

} // verus!
