//! The frame buffer: one screen's worth of glyphs, built afresh every tick.

use vstd::prelude::*;
use crate::{NUM_COLS, NUM_ROWS};

verus! {

/// The glyph of an empty cell.
pub const BLANK: char = ' ';

/// A grid has the playfield's dimensions: `NUM_ROWS` rows of `NUM_COLS` glyphs.
pub open spec fn grid_wf(grid: Seq<Seq<char>>) -> bool {
    &&& grid.len() == NUM_ROWS
    &&& forall|y: int| 0 <= y < NUM_ROWS ==> (#[trigger] grid[y]).len() == NUM_COLS
}

/// The grid in which every cell is blank.
pub open spec fn blank_grid() -> Seq<Seq<char>> {
    Seq::new(NUM_ROWS as nat, |y: int| Seq::new(NUM_COLS as nat, |x: int| BLANK))
}

/// The glyph at place `i` of `glyphs`.
pub open spec fn glyph_at(glyphs: Seq<char>, i: int) -> char {
    glyphs[i]
}

/// The glyph at column `x` of row `y` of `grid`.
pub open spec fn grid_glyph(grid: Seq<Seq<char>>, x: int, y: int) -> char {
    glyph_at(grid[y], x)
}

/// The grid `grid` with the glyph at column `x` of row `y` replaced.
pub open spec fn grid_put(grid: Seq<Seq<char>>, x: int, y: int, glyph: char) -> Seq<Seq<char>> {
    grid.update(y, grid[y].update(x, glyph))
}

/// One screen's worth of glyphs, addressed by column `x` and row `y`.
pub struct Frame {
    rows: Vec<Vec<char>>,
}

impl View for Frame {
    type V = Seq<Seq<char>>;

    closed spec fn view(&self) -> Seq<Seq<char>> {
        Seq::new(self.rows@.len(), |y: int| self.rows@[y]@)
    }
}

impl Frame {
    /// The frame has the playfield's dimensions.
    pub open spec fn wf(&self) -> bool {
        grid_wf(self@)
    }

    /// The glyph at column `x` of row `y`.
    pub fn get(&self, x: usize, y: usize) -> (glyph: char)
        requires
            self.wf(),
            x < NUM_COLS,
            y < NUM_ROWS,
        ensures
            glyph == grid_glyph(self@, x as int, y as int),
    {
        assert(self@[y as int] == self.rows@[y as int]@);
        self.rows[y][x]
    }

    /// Writes `glyph` at column `x` of row `y`.
    pub fn set(&mut self, x: usize, y: usize, glyph: char)
        requires
            old(self).wf(),
            x < NUM_COLS,
            y < NUM_ROWS,
        ensures
            final(self).wf(),
            final(self)@ == grid_put(old(self)@, x as int, y as int, glyph),
    {
        assert(self@[y as int] == self.rows@[y as int]@);
        self.rows[y][x] = glyph;
        assert(self@ =~= grid_put(old(self)@, x as int, y as int, glyph));
    }
}

/// Something that can paint itself onto a frame.
pub trait Drawable {
    /// The entity lies inside the playfield, so that it can be drawn.
    spec fn drawable(&self) -> bool;

    /// The grid `grid` with the entity painted over it.
    spec fn painted(&self, grid: Seq<Seq<char>>) -> Seq<Seq<char>>;

    /// Paints the entity over what `frame` already shows.
    fn draw(&self, frame: &mut Frame)
        requires
            self.drawable(),
            old(frame).wf(),
        ensures
            final(frame).wf(),
            final(frame)@ == self.painted(old(frame)@),
    ;
}

/// A frame in which every cell is blank.
pub fn new_frame() -> (frame: Frame)
    ensures
        frame.wf(),
        frame@ == blank_grid(),
{
    let mut rows: Vec<Vec<char>> = Vec::with_capacity(NUM_ROWS);
    let mut y: usize = 0;
    while y < NUM_ROWS
        invariant
            y <= NUM_ROWS,
            rows@.len() == y,
            forall|j: int|
                0 <= j < y ==> (#[trigger] rows@[j])@ == Seq::new(NUM_COLS as nat, |x: int| BLANK),
        decreases NUM_ROWS - y,
    {
        let mut cols: Vec<char> = Vec::with_capacity(NUM_COLS);
        let mut x: usize = 0;
        while x < NUM_COLS
            invariant
                x <= NUM_COLS,
                cols@.len() == x,
                forall|i: int| 0 <= i < x ==> cols@[i] == BLANK,
            decreases NUM_COLS - x,
        {
            cols.push(BLANK);
            x += 1;
        }
        assert(cols@ =~= Seq::new(NUM_COLS as nat, |x: int| BLANK));
        rows.push(cols);
        y += 1;
    }
    let frame = Frame { rows };
    assert(frame@ =~= blank_grid());
    frame
}

} // verus!
