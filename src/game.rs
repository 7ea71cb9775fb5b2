//! The double-buffered grid and the two operations that drive it: one
//! generation step and one sub-pixel render.
use vstd::prelude::*;
use crate::parallel::par_fill;
use crate::rules::{
    FULL_BLUE, FULL_GREEN, FULL_RED, OPAQUE_BLACK, is_live, lemma_pixel_cells, live_as_int,
    live_neighbors, next_generation, pixel_color,
};

verus! {

/// A `width` by `height` grid of cells, stored row-major in two buffers of
/// equal size: `cells_current` is the generation that is read and drawn,
/// `cells_next` is scratch space that a step writes before the two swap.
pub struct GameOfLife {
    cells_current: Vec<bool>,
    cells_next: Vec<bool>,
    width: u32,
    height: u32,
}

impl View for GameOfLife {
    type V = Seq<bool>;

    /// The current generation, cell `(x, y)` at position `x + y * width`.
    closed spec fn view(&self) -> Seq<bool> {
        self.cells_current@
    }
}

/// The term that neighbour offset `(dx, dy)` adds to the count of `(x, y)`;
/// the cell itself adds nothing.
spec fn offset_term(cells: Seq<bool>, w: int, h: int, x: int, y: int, dx: int, dy: int) -> int {
    if dx == 0 && dy == 0 {
        0
    } else {
        live_as_int(cells, w, h, x + dx, y + dy)
    }
}

/// The first `k` terms of row `dy` of the 3x3 window, from `dx = -1` on.
spec fn row_prefix(cells: Seq<bool>, w: int, h: int, x: int, y: int, dy: int, k: int) -> int {
    (if k > 0 { offset_term(cells, w, h, x, y, -1, dy) } else { 0 })
        + (if k > 1 { offset_term(cells, w, h, x, y, 0, dy) } else { 0 })
        + (if k > 2 { offset_term(cells, w, h, x, y, 1, dy) } else { 0 })
}

/// The terms of the first `k` rows of the 3x3 window.
spec fn rows_prefix(cells: Seq<bool>, w: int, h: int, x: int, y: int, k: int) -> int {
    (if k > 0 { row_prefix(cells, w, h, x, y, -1, 3) } else { 0 })
        + (if k > 1 { row_prefix(cells, w, h, x, y, 0, 3) } else { 0 })
        + (if k > 2 { row_prefix(cells, w, h, x, y, 1, 3) } else { 0 })
}

impl GameOfLife {
    pub closed spec fn spec_width(&self) -> u32 {
        self.width
    }

    pub closed spec fn spec_height(&self) -> u32 {
        self.height
    }

    /// The scratch buffer: the generation before the current one after a
    /// step, all dead after construction.
    pub closed spec fn scratch(&self) -> Seq<bool> {
        self.cells_next@
    }

    pub open spec fn scratch_fits(&self) -> bool {
        self.scratch().len() == self@.len()
    }

    /// The sizes that a grid may have: neither side zero, the width a
    /// multiple of three so that a row splits into whole pixels, and every
    /// cell index representable as a `u32`.
    pub open spec fn valid_size(width: u32, height: u32) -> bool {
        &&& width > 0
        &&& height > 0
        &&& width % 3 == 0
        &&& width * height <= u32::MAX
    }

    /// The current generation fills a grid of a valid size.
    pub open spec fn current_fits(&self) -> bool {
        &&& Self::valid_size(self.width(), self.height())
        &&& self@.len() == self.width() * self.height()
    }

    /// Both buffers fill a grid of a valid size.
    pub open spec fn wf(&self) -> bool {
        &&& self.current_fits()
        &&& self.scratch_fits()
    }

    #[verifier::when_used_as_spec(spec_width)]
    pub fn width(&self) -> (r: u32)
        ensures
            r == self.spec_width(),
    {
        self.width
    }

    #[verifier::when_used_as_spec(spec_height)]
    pub fn height(&self) -> (r: u32)
        ensures
            r == self.spec_height(),
    {
        self.height
    }

    /// A grid of the given size with every cell dead.
    pub fn new(width: u32, height: u32) -> (r: Self)
        requires
            Self::valid_size(width, height),
        ensures
            r.wf(),
            r.width() == width,
            r.height() == height,
            r@ == Seq::new((width * height) as nat, |i: int| false),
            r.scratch() == Seq::new((width * height) as nat, |i: int| false),
    {
        let n = (width * height) as usize;
        let r = GameOfLife {
            cells_current: vec![false; n],
            cells_next: vec![false; n],
            width,
            height,
        };
        assert(r@ =~= Seq::new((width * height) as nat, |i: int| false));
        assert(r.scratch() =~= Seq::new((width * height) as nat, |i: int| false));
        r
    }

    /// The position of cell `(x, y)` in a buffer.
    pub fn index(&self, x: u32, y: u32) -> (r: usize)
        requires
            self.current_fits(),
            x < self.width(),
            y < self.height(),
        ensures
            r == x + y * self.width(),
            r < self@.len(),
    {
        proof {
            assert(y * self.width() + x < self.width() * self.height()) by (nonlinear_arith)
                requires
                    x < self.width(),
                    y < self.height(),
            ;
        }
        (x + y * self.width) as usize
    }

    /// Sets cell `(x, y)` of the current generation.
    pub fn set_cell(&mut self, x: u32, y: u32, value: bool)
        requires
            old(self).wf(),
            x < old(self).width(),
            y < old(self).height(),
        ensures
            final(self).wf(),
            final(self).width() == old(self).width(),
            final(self).height() == old(self).height(),
            final(self)@ == old(self)@.update(x + y * old(self).width(), value),
            final(self).scratch() == old(self).scratch(),
    {
        let i = self.index(x, y);
        self.cells_current.set(i, value);
    }

    /// The number of live cells among the eight neighbours of `(x, y)`.
    /// Offsets are taken in a signed domain, so a neighbour off an edge is
    /// never wrapped around to the other side.
    pub fn count_alive_neighbors(&self, x: u32, y: u32) -> (r: u8)
        requires
            self.current_fits(),
            x < self.width(),
            y < self.height(),
        ensures
            r == live_neighbors(self@, self.width() as int, self.height() as int, x as int, y as int),
    {
        let ghost cells = self@;
        let ghost w = self.width() as int;
        let ghost h = self.height() as int;
        let mut count: u8 = 0;
        let mut dy: i32 = -1;
        while dy <= 1
            invariant
                self.current_fits(),
                cells == self@,
                w == self.width(),
                h == self.height(),
                -1 <= dy <= 2,
                count == rows_prefix(cells, w, h, x as int, y as int, dy + 1),
                count <= 3 * (dy + 1),
            decreases 2 - dy,
        {
            let mut dx: i32 = -1;
            while dx <= 1
                invariant
                    self.current_fits(),
                    cells == self@,
                    w == self.width(),
                    h == self.height(),
                    -1 <= dy <= 1,
                    -1 <= dx <= 2,
                    count == rows_prefix(cells, w, h, x as int, y as int, dy + 1)
                        + row_prefix(cells, w, h, x as int, y as int, dy as int, dx + 1),
                    count <= 3 * (dy + 1) + (dx + 1),
                decreases 2 - dx,
            {
                if !(dx == 0 && dy == 0) {
                    let nx: i64 = x as i64 + dx as i64;
                    let ny: i64 = y as i64 + dy as i64;
                    if 0 <= nx && nx < self.width as i64 && 0 <= ny && ny < self.height as i64 {
                        if self.cells_current[self.index(nx as u32, ny as u32)] {
                            count = count + 1;
                        }
                    }
                }
                dx = dx + 1;
            }
            dy = dy + 1;
        }
        count
    }

    /// The next state of the cell at buffer position `i`, from the current
    /// generation alone.
    fn successor(&self, i: usize) -> (r: bool)
        requires
            self.current_fits(),
            i < self@.len(),
        ensures
            r == next_generation(self@, self.width() as int, self.height() as int)[i as int],
    {
        let w = self.width;
        proof {
            let (iw, wi, hi) = (i as int, w as int, self.height() as int);
            assert(iw / wi < hi && iw % wi < wi) by (nonlinear_arith)
                requires
                    0 <= iw < wi * hi,
                    wi > 0,
            ;
        }
        let x = (i as u32) % w;
        let y = (i as u32) / w;
        let neighbors = self.count_alive_neighbors(x, y);
        let alive = self.cells_current[i];
        match (alive, neighbors) {
            (true, 2) | (true, 3) => true,
            (false, 3) => true,
            _ => false,
        }
    }

    /// Writes the next generation into `next`, one independent task per cell.
    fn compute_next(&self, next: &mut [bool])
        requires
            self.current_fits(),
            old(next)@.len() == self@.len(),
        ensures
            final(next)@ == next_generation(self@, self.width() as int, self.height() as int),
    {
        let cell_successor = |i: usize| -> (r: bool)
            requires
                i < self@.len(),
            ensures
                r == next_generation(self@, self.width() as int, self.height() as int).index(
                    i as int,
                ),
        { self.successor(i) };
        par_fill(next, cell_successor);
        assert(next@ =~= next_generation(self@, self.width() as int, self.height() as int));
    }

    /// Advances the grid by one generation. Every new cell is computed from
    /// the generation as it stood when the call began; the freshly written
    /// buffer then becomes current and the old one becomes scratch.
    pub fn tick(&mut self)
        requires
            old(self).wf(),
        ensures
            final(self).wf(),
            final(self).width() == old(self).width(),
            final(self).height() == old(self).height(),
            final(self)@ == next_generation(
                old(self)@,
                old(self).width() as int,
                old(self).height() as int,
            ),
            final(self).scratch() == old(self)@,
    {
        let mut next: Vec<bool> = Vec::new();
        std::mem::swap(&mut next, &mut self.cells_next);
        self.compute_next(next.as_mut_slice());
        std::mem::swap(&mut self.cells_current, &mut next);
        self.cells_next = next;
    }

    /// The colour of screen pixel `p`, from the three cells that start at
    /// grid position `3 * p`.
    fn pixel(&self, p: usize) -> (r: u32)
        requires
            self.current_fits(),
            p * 3 + 3 <= self@.len(),
        ensures
            r == pixel_color(self@, self.width() as int, self.height() as int, p as int),
    {
        let w = self.width;
        proof {
            lemma_pixel_cells(w as int, self.height() as int, p as int);
        }
        let x = ((p * 3) as u32) % w;
        let y = ((p * 3) as u32) / w;
        let mut color: u32 = OPAQUE_BLACK;
        if self.cells_current[self.index(x, y)] {
            color = color + FULL_RED;
        }
        if self.cells_current[self.index(x + 1, y)] {
            color = color + FULL_GREEN;
        }
        if self.cells_current[self.index(x + 2, y)] {
            color = color + FULL_BLUE;
        }
        color
    }

    /// Draws the current generation into `pixels`, a row-major screen of
    /// `width / 3` by `height` pixels (or a prefix of one). Pixel `p` shows
    /// the three cells from grid position `3 * p` on as its red, green and
    /// blue channels. Each pixel is written by a task of its own; nothing
    /// else is touched.
    pub fn draw(&self, pixels: &mut [u32])
        requires
            self.wf(),
            old(pixels)@.len() * 3 <= self@.len(),
        ensures
            final(pixels)@.len() == old(pixels)@.len(),
            forall|p: int|
                0 <= p < final(pixels)@.len() ==> #[trigger] final(pixels)@[p] as int
                    == pixel_color(self@, self.width() as int, self.height() as int, p),
    {
        let ghost n = pixels@.len();
        let pixel_of = |p: usize| -> (r: u32)
            requires
                p < n,
            ensures
                r == pixel_color(self@, self.width() as int, self.height() as int, p as int),
        { self.pixel(p) };
        par_fill(pixels, pixel_of);
    }

    /// Whether cell `(x, y)` of the current generation is alive.
    pub fn cell(&self, x: u32, y: u32) -> (r: bool)
        requires
            self.wf(),
            x < self.width(),
            y < self.height(),
        ensures
            r == self@[x + y * self.width()],
            r == is_live(self@, self.width() as int, self.height() as int, x as int, y as int),
    {
        let i = self.index(x, y);
        self.cells_current[i]
    }
}

} // verus!
