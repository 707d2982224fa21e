//! The diffing renderer: it compares the frame that the screen shows with
//! the new one and says which cells to paint again.
//!
//! The renderer computes paint operations and leaves it to its caller to
//! carry them out on a terminal.

use vstd::prelude::*;
use crate::frame::{
    blank_grid, glyph_at, grid_glyph, grid_put, grid_wf, new_frame, Frame, BLANK,
};
use crate::player::MAX_AMMO;
use crate::{NUM_COLS, NUM_ROWS};

verus! {

/// Column of the screen in which the ammo line begins, to the right of the
/// playfield.
pub const HUD_X: u16 = 45;

/// Row of the screen that holds the ammo line.
pub const HUD_Y: u16 = 4;

/// One operation on the terminal.
#[derive(Clone, Copy, Debug, PartialEq, Eq, Structural)]
pub enum PaintOp {
    /// Clear the whole screen.
    ClearAll,
    /// Clear row `y` from column `x` to the end of the line.
    ClearLine { x: u16, y: u16 },
    /// Write `glyph` at column `x` of row `y`.
    Put { x: u16, y: u16, glyph: char },
}

/// The glyph of the decimal digit `digit`.
pub open spec fn digit_glyph(digit: nat) -> char {
    ('0' as nat + digit) as char
}

/// The decimal numeral of `n`, without leading zeros.
pub open spec fn decimal(n: nat) -> Seq<char>
    decreases n,
{
    if n < 10 {
        seq![digit_glyph(n)]
    } else {
        decimal(n / 10).push(digit_glyph(n % 10))
    }
}

/// The text of the ammo line: `ammo: `, the rounds that remain, ` / `, and
/// the most that the magazine holds.
pub open spec fn hud_glyphs(remaining: nat) -> Seq<char> {
    seq!['a', 'm', 'm', 'o', ':', ' '] + decimal(remaining) + seq![' ', '/', ' '] + decimal(
        MAX_AMMO as nat,
    )
}

/// The operations that write `text` from column `x` of row `y` on.
pub open spec fn text_ops(text: Seq<char>, x: int, y: int) -> Seq<PaintOp> {
    Seq::new(
        text.len(),
        |i: int| PaintOp::Put { x: (x + i) as u16, y: y as u16, glyph: glyph_at(text, i) },
    )
}

/// The operations that paint the ammo line again: the line is cleared
/// first, so that no glyph of a longer, earlier text stays behind.
pub open spec fn hud_ops(remaining: nat) -> Seq<PaintOp> {
    seq![PaintOp::ClearLine { x: HUD_X, y: HUD_Y }] + text_ops(
        hud_glyphs(remaining),
        HUD_X as int,
        HUD_Y as int,
    )
}

/// The operations for the first `n` cells of row `y`, from left to right:
/// one for each cell whose glyph has changed, or for each cell if `force`.
pub open spec fn row_diff(
    previous: Seq<Seq<char>>,
    current: Seq<Seq<char>>,
    y: int,
    force: bool,
    n: nat,
) -> Seq<PaintOp>
    decreases n,
{
    if n == 0 {
        Seq::empty()
    } else {
        let x = n - 1;
        let glyph = grid_glyph(current, x, y);
        let before = row_diff(previous, current, y, force, (n - 1) as nat);
        if force || glyph != grid_glyph(previous, x, y) {
            before.push(PaintOp::Put { x: x as u16, y: y as u16, glyph })
        } else {
            before
        }
    }
}

/// The operations for the first `n` rows, from the top down.
pub open spec fn rows_diff(
    previous: Seq<Seq<char>>,
    current: Seq<Seq<char>>,
    force: bool,
    n: nat,
) -> Seq<PaintOp>
    decreases n,
{
    if n == 0 {
        Seq::empty()
    } else {
        rows_diff(previous, current, force, (n - 1) as nat) + row_diff(
            previous,
            current,
            n - 1,
            force,
            NUM_COLS as nat,
        )
    }
}

/// The operations that turn a screen showing `previous` into one showing
/// `current`: row by row, one write for each cell whose glyph has changed,
/// or for every cell if `force`.
pub open spec fn diff_ops(previous: Seq<Seq<char>>, current: Seq<Seq<char>>, force: bool) -> Seq<
    PaintOp,
> {
    rows_diff(previous, current, force, NUM_ROWS as nat)
}

/// The operations of one rendering pass: on a forced repaint the screen is
/// cleared first; then come the cells, then the ammo line.
pub open spec fn render_ops(
    previous: Seq<Seq<char>>,
    current: Seq<Seq<char>>,
    remaining: nat,
    force: bool,
) -> Seq<PaintOp> {
    (if force {
        seq![PaintOp::ClearAll]
    } else {
        Seq::empty()
    }) + diff_ops(previous, current, force) + hud_ops(remaining)
}

/// What a playfield that shows `grid` shows after `op`. A write outside the
/// playfield leaves it as it is; clearing leaves blanks.
pub open spec fn grid_after(grid: Seq<Seq<char>>, op: PaintOp) -> Seq<Seq<char>> {
    match op {
        PaintOp::ClearAll => blank_grid(),
        PaintOp::ClearLine { x, y } => if y < NUM_ROWS {
            grid.update(
                y as int,
                Seq::new(
                    NUM_COLS as nat,
                    |i: int|
                        if i >= x {
                            BLANK
                        } else {
                            grid_glyph(grid, i, y as int)
                        },
                ),
            )
        } else {
            grid
        },
        PaintOp::Put { x, y, glyph } => if x < NUM_COLS && y < NUM_ROWS {
            grid_put(grid, x as int, y as int, glyph)
        } else {
            grid
        },
    }
}

/// What a playfield that shows `grid` shows after all of `ops`, carried
/// out in their order.
pub open spec fn grid_after_all(grid: Seq<Seq<char>>, ops: Seq<PaintOp>) -> Seq<Seq<char>>
    decreases ops.len(),
{
    if ops.len() == 0 {
        grid
    } else {
        grid_after(grid_after_all(grid, ops.drop_last()), ops.last())
    }
}

/// Carrying out two runs of operations one after the other is carrying out
/// the first and then, on what it leaves, the second.
proof fn lemma_after_all_of_both(grid: Seq<Seq<char>>, first: Seq<PaintOp>, second: Seq<PaintOp>)
    ensures
        grid_after_all(grid, first + second) == grid_after_all(grid_after_all(grid, first), second),
    decreases second.len(),
{
    if second.len() == 0 {
        assert(first + second =~= first);
    } else {
        assert((first + second).drop_last() =~= first + second.drop_last());
        assert((first + second).last() == second.last());
        lemma_after_all_of_both(grid, first, second.drop_last());
    }
}

/// After the operations for the first `n` cells of row `y`, those cells
/// show `current`, and every other cell shows what it showed before.
proof fn lemma_row_painted(
    screen: Seq<Seq<char>>,
    previous: Seq<Seq<char>>,
    current: Seq<Seq<char>>,
    y: int,
    force: bool,
    n: nat,
)
    requires
        grid_wf(screen),
        grid_wf(previous),
        grid_wf(current),
        0 <= y < NUM_ROWS,
        n <= NUM_COLS,
        force || screen[y] == previous[y],
    ensures
        grid_wf(grid_after_all(screen, row_diff(previous, current, y, force, n))),
        forall|j: int|
            0 <= j < NUM_ROWS && j != y ==> #[trigger] grid_after_all(
                screen,
                row_diff(previous, current, y, force, n),
            )[j] == screen[j],
        forall|i: int|
            0 <= i < NUM_COLS ==> #[trigger] grid_after_all(
                screen,
                row_diff(previous, current, y, force, n),
            )[y][i] == (if i < n {
                current[y][i]
            } else {
                screen[y][i]
            }),
    decreases n,
{
    if n > 0 {
        lemma_row_painted(screen, previous, current, y, force, (n - 1) as nat);
        let before = row_diff(previous, current, y, force, (n - 1) as nat);
        let x = n - 1;
        let glyph = grid_glyph(current, x, y);
        if force || glyph != grid_glyph(previous, x, y) {
            let op = PaintOp::Put { x: x as u16, y: y as u16, glyph };
            assert(before.push(op).drop_last() =~= before);
        }
    }
}

/// After the operations for the first `n` rows, those rows show `current`,
/// and the rows below show what they showed before.
proof fn lemma_rows_painted(
    screen: Seq<Seq<char>>,
    previous: Seq<Seq<char>>,
    current: Seq<Seq<char>>,
    force: bool,
    n: nat,
)
    requires
        grid_wf(screen),
        grid_wf(previous),
        grid_wf(current),
        n <= NUM_ROWS,
        force || screen == previous,
    ensures
        grid_wf(grid_after_all(screen, rows_diff(previous, current, force, n))),
        forall|j: int|
            0 <= j < NUM_ROWS ==> #[trigger] grid_after_all(
                screen,
                rows_diff(previous, current, force, n),
            )[j] =~= (if j < n {
                current[j]
            } else {
                screen[j]
            }),
    decreases n,
{
    if n > 0 {
        lemma_rows_painted(screen, previous, current, force, (n - 1) as nat);
        let above = rows_diff(previous, current, force, (n - 1) as nat);
        let row = row_diff(previous, current, n - 1, force, NUM_COLS as nat);
        let so_far = grid_after_all(screen, above);
        lemma_after_all_of_both(screen, above, row);
        lemma_row_painted(so_far, previous, current, n - 1, force, NUM_COLS as nat);
    }
}

/// The ammo line lies outside the playfield: painting it changes no cell
/// of the playfield.
proof fn lemma_ammo_line_is_outside(grid: Seq<Seq<char>>, remaining: nat, n: nat)
    requires
        grid_wf(grid),
        remaining <= u32::MAX,
        n <= hud_ops(remaining).len(),
    ensures
        grid_after_all(grid, hud_ops(remaining).take(n as int)) == grid,
    decreases n,
{
    let ops = hud_ops(remaining);
    if n > 0 {
        lemma_ammo_line_is_outside(grid, remaining, (n - 1) as nat);
        assert(ops.take(n as int).drop_last() =~= ops.take(n - 1));
        let op = ops[n - 1];
        if n == 1 {
            assert(grid_after(grid, op) =~= grid) by {
                assert(grid_after(grid, op)[HUD_Y as int] =~= grid[HUD_Y as int]);
            }
        } else {
            assert(op == text_ops(hud_glyphs(remaining), HUD_X as int, HUD_Y as int)[n - 2]);
            lemma_decimal_is_short(remaining);
            lemma_decimal_is_short(MAX_AMMO as nat);
        }
    }
}

/// Painting only what has changed is enough: the operations of a rendering
/// pass, carried out on a screen that shows `previous`, leave it showing
/// `current`. A forced pass does so whatever the screen showed before.
pub proof fn lemma_render_shows_current(
    screen: Seq<Seq<char>>,
    previous: Seq<Seq<char>>,
    current: Seq<Seq<char>>,
    remaining: nat,
    force: bool,
)
    requires
        grid_wf(screen),
        grid_wf(previous),
        grid_wf(current),
        remaining <= u32::MAX,
        force || screen == previous,
    ensures
        grid_after_all(screen, diff_ops(previous, current, force)) == current,
        grid_after_all(screen, render_ops(previous, current, remaining, force)) == current,
{
    let cells = diff_ops(previous, current, force);
    let cleared = if force {
        seq![PaintOp::ClearAll]
    } else {
        Seq::empty()
    };
    let start = grid_after_all(screen, cleared);
    assert(grid_wf(start) && (force || start == previous)) by {
        if force {
            assert(cleared.drop_last() =~= Seq::<PaintOp>::empty());
        }
    }
    lemma_rows_painted(screen, previous, current, force, NUM_ROWS as nat);
    assert(grid_after_all(screen, cells) =~= current);
    lemma_rows_painted(start, previous, current, force, NUM_ROWS as nat);
    assert(grid_after_all(start, cells) =~= current);
    lemma_after_all_of_both(screen, cleared, cells);
    lemma_after_all_of_both(screen, cleared + cells, hud_ops(remaining));
    lemma_ammo_line_is_outside(current, remaining, hud_ops(remaining).len());
    assert(hud_ops(remaining).take(hud_ops(remaining).len() as int) =~= hud_ops(remaining));
}

/// A frame compared with itself needs no cell painted.
pub proof fn lemma_same_frame_paints_nothing(grid: Seq<Seq<char>>)
    ensures
        diff_ops(grid, grid, false) == Seq::<PaintOp>::empty(),
{
    lemma_same_rows_paint_nothing(grid, NUM_ROWS as nat);
}

/// The first `n` rows of a frame compared with itself need no cell painted.
proof fn lemma_same_rows_paint_nothing(grid: Seq<Seq<char>>, n: nat)
    ensures
        rows_diff(grid, grid, false, n) == Seq::<PaintOp>::empty(),
    decreases n,
{
    if n > 0 {
        lemma_same_rows_paint_nothing(grid, (n - 1) as nat);
        lemma_same_row_paints_nothing(grid, n - 1, NUM_COLS as nat);
    }
}

/// The first `n` cells of a row compared with itself need not be painted.
proof fn lemma_same_row_paints_nothing(grid: Seq<Seq<char>>, y: int, n: nat)
    ensures
        row_diff(grid, grid, y, false, n) == Seq::<PaintOp>::empty(),
    decreases n,
{
    if n > 0 {
        lemma_same_row_paints_nothing(grid, y, (n - 1) as nat);
    }
}

/// A forced repaint paints every cell of the playfield, whatever the two
/// frames hold: `NUM_ROWS * NUM_COLS` operations, the one for column `x` of
/// row `y` at place `y * NUM_COLS + x`.
pub proof fn lemma_forced_repaint_paints_every_cell(
    previous: Seq<Seq<char>>,
    current: Seq<Seq<char>>,
)
    ensures
        diff_ops(previous, current, true).len() == NUM_ROWS * NUM_COLS,
        forall|x: int, y: int|
            0 <= x < NUM_COLS && 0 <= y < NUM_ROWS ==> #[trigger] diff_ops(
                previous,
                current,
                true,
            )[y * NUM_COLS + x] == (PaintOp::Put {
                x: x as u16,
                y: y as u16,
                glyph: grid_glyph(current, x, y),
            }),
{
    lemma_forced_rows(previous, current, NUM_ROWS as nat);
}

/// A forced repaint of the first `n` rows paints each of their cells, in
/// their order.
proof fn lemma_forced_rows(previous: Seq<Seq<char>>, current: Seq<Seq<char>>, n: nat)
    ensures
        rows_diff(previous, current, true, n).len() == n * NUM_COLS,
        forall|x: int, y: int|
            0 <= x < NUM_COLS && 0 <= y < n ==> #[trigger] rows_diff(previous, current, true, n)[y
                * NUM_COLS + x] == (PaintOp::Put {
                x: x as u16,
                y: y as u16,
                glyph: grid_glyph(current, x, y),
            }),
    decreases n,
{
    if n > 0 {
        lemma_forced_rows(previous, current, (n - 1) as nat);
        lemma_forced_row(previous, current, n - 1, NUM_COLS as nat);
    }
}

/// A forced repaint of the first `n` cells of a row paints each of them, in
/// their order.
proof fn lemma_forced_row(previous: Seq<Seq<char>>, current: Seq<Seq<char>>, y: int, n: nat)
    ensures
        row_diff(previous, current, y, true, n).len() == n,
        forall|x: int|
            0 <= x < n ==> #[trigger] row_diff(previous, current, y, true, n)[x] == (PaintOp::Put {
                x: x as u16,
                y: y as u16,
                glyph: grid_glyph(current, x, y),
            }),
    decreases n,
{
    if n > 0 {
        lemma_forced_row(previous, current, y, (n - 1) as nat);
    }
}

/// The numeral of a number below 2^32 has at most ten digits.
proof fn lemma_decimal_is_short(n: nat)
    requires
        n <= u32::MAX,
    ensures
        1 <= decimal(n).len() <= 10,
{
    reveal_with_fuel(decimal, 11);
}

/// The glyph of the decimal digit `digit`.
fn digit(value: u32) -> (glyph: char)
    requires
        value < 10,
    ensures
        glyph == digit_glyph(value as nat),
{
    match value {
        0 => '0',
        1 => '1',
        2 => '2',
        3 => '3',
        4 => '4',
        5 => '5',
        6 => '6',
        7 => '7',
        8 => '8',
        _ => '9',
    }
}

/// Appends the decimal numeral of `n` to `text`.
fn push_decimal(text: &mut Vec<char>, n: u32)
    ensures
        final(text)@ == old(text)@ + decimal(n as nat),
    decreases n,
{
    if n >= 10 {
        push_decimal(text, n / 10);
    }
    text.push(digit(n % 10));
    assert(text@ =~= old(text)@ + decimal(n as nat));
}

/// The text of the ammo line for a magazine with `remaining` rounds.
pub fn hud_text(remaining: u32) -> (text: Vec<char>)
    ensures
        text@ == hud_glyphs(remaining as nat),
{
    let mut text: Vec<char> = Vec::new();
    text.push('a');
    text.push('m');
    text.push('m');
    text.push('o');
    text.push(':');
    text.push(' ');
    assert(text@ =~= seq!['a', 'm', 'm', 'o', ':', ' ']);
    push_decimal(&mut text, remaining);
    let ghost counted = text@;
    text.push(' ');
    text.push('/');
    text.push(' ');
    assert(text@ =~= counted + seq![' ', '/', ' ']);
    push_decimal(&mut text, MAX_AMMO);
    text
}

/// The cells to paint so that a screen showing `previous` shows `current`:
/// those whose glyph has changed, or all of them if `force`.
pub fn diff(previous: &Frame, current: &Frame, force: bool) -> (ops: Vec<PaintOp>)
    requires
        previous.wf(),
        current.wf(),
    ensures
        ops@ == diff_ops(previous@, current@, force),
{
    let mut ops: Vec<PaintOp> = Vec::new();
    let mut y: usize = 0;
    while y < NUM_ROWS
        invariant
            y <= NUM_ROWS,
            previous.wf(),
            current.wf(),
            ops@ == rows_diff(previous@, current@, force, y as nat),
        decreases NUM_ROWS - y,
    {
        let ghost above = ops@;
        let mut x: usize = 0;
        while x < NUM_COLS
            invariant
                x <= NUM_COLS,
                y < NUM_ROWS,
                previous.wf(),
                current.wf(),
                ops@ == above + row_diff(previous@, current@, y as int, force, x as nat),
            decreases NUM_COLS - x,
        {
            let glyph = current.get(x, y);
            if force || glyph != previous.get(x, y) {
                ops.push(PaintOp::Put { x: x as u16, y: y as u16, glyph });
            }
            x += 1;
        }
        y += 1;
    }
    ops
}

/// One rendering pass: the operations that bring a screen showing
/// `previous` up to `current`, and the ammo line up to `remaining` rounds.
/// With `force` the screen is cleared and every cell painted.
pub fn render(previous: &Frame, current: &Frame, remaining: u32, force: bool) -> (ops: Vec<PaintOp>)
    requires
        previous.wf(),
        current.wf(),
    ensures
        ops@ == render_ops(previous@, current@, remaining as nat, force),
{
    let mut ops: Vec<PaintOp> = Vec::new();
    if force {
        ops.push(PaintOp::ClearAll);
    }
    let mut cells = diff(previous, current, force);
    ops.append(&mut cells);
    let ghost painted = ops@;
    ops.push(PaintOp::ClearLine { x: HUD_X, y: HUD_Y });
    let text = hud_text(remaining);
    proof {
        lemma_decimal_is_short(remaining as nat);
        lemma_decimal_is_short(MAX_AMMO as nat);
    }
    let ghost line = text_ops(text@, HUD_X as int, HUD_Y as int);
    let mut i: usize = 0;
    while i < text.len()
        invariant
            i <= text.len(),
            text@.len() <= 64,
            line == text_ops(text@, HUD_X as int, HUD_Y as int),
            ops@ == painted + seq![PaintOp::ClearLine { x: HUD_X, y: HUD_Y }] + line.take(i as int),
        decreases text.len() - i,
    {
        assert(line.take(i + 1) =~= line.take(i as int).push(line[i as int]));
        ops.push(PaintOp::Put { x: HUD_X + i as u16, y: HUD_Y, glyph: text[i] });
        i += 1;
    }
    assert(line.take(i as int) =~= line);
    ops
}

/// The renderer's memory: the frame that it painted last, against which
/// the next one is compared.
pub struct Screen {
    shown: Frame,
}

impl View for Screen {
    type V = Seq<Seq<char>>;

    closed spec fn view(&self) -> Seq<Seq<char>> {
        self.shown@
    }
}

impl Screen {
    /// The remembered frame has the playfield's dimensions.
    pub open spec fn wf(&self) -> bool {
        grid_wf(self@)
    }

    /// A screen that shows nothing yet, and the operations of its first
    /// paint: a forced repaint of the blank frame, with a full magazine on
    /// the ammo line.
    pub fn new() -> (opened: (Screen, Vec<PaintOp>))
        ensures
            opened.0.wf(),
            opened.0@ == blank_grid(),
            opened.1@ == render_ops(blank_grid(), blank_grid(), MAX_AMMO as nat, true),
    {
        let shown = new_frame();
        let ops = render(&shown, &shown, MAX_AMMO, true);
        (Screen { shown }, ops)
    }

    /// Takes the next frame: hands back the operations that bring the
    /// terminal from the frame painted last up to `frame`, and remembers
    /// `frame` as the one now shown.
    pub fn show(&mut self, frame: Frame, remaining: u32) -> (ops: Vec<PaintOp>)
        requires
            old(self).wf(),
            frame.wf(),
        ensures
            ops@ == render_ops(old(self)@, frame@, remaining as nat, false),
            final(self)@ == frame@,
            final(self).wf(),
    {
        let ops = render(&self.shown, &frame, remaining, false);
        self.shown = frame;
        ops
    }
}

} // verus!
