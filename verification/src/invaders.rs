//! The swarm of invaders: a formation that sweeps across the playfield and
//! comes down one row each time it meets a side.

use vstd::prelude::*;
use crate::frame::{grid_glyph, Drawable, Frame};
use crate::timer::{Countdown, CountdownView};
use crate::{NUM_COLS, NUM_ROWS};

verus! {

/// Rows of the formation.
pub const SWARM_ROWS: usize = 4;

/// Columns of the formation.
pub const SWARM_COLS: usize = 18;

/// Distance between neighbours in the formation, in rows and in columns
/// of the playfield.
pub const SPACING: usize = 2;

/// Number of invaders in a fresh swarm.
pub const SWARM_SIZE: u32 = 72;

/// Column of the playfield in which a fresh formation begins.
pub const SWARM_LEFT: i32 = 2;

/// Row of the playfield in which a fresh formation begins.
pub const SWARM_TOP: usize = 2;

/// The least that the formation's first column can lie left of the
/// playfield while its last column still lies in it.
pub const SWARM_LEFT_MIN: i32 = -34;

/// Milliseconds between two moves of a whole swarm.
pub const MOVE_MILLIS_MAX: u32 = 2000;

/// Milliseconds between two moves when no invader is left.
pub const MOVE_MILLIS_MIN: u32 = 250;

/// The glyph of an invader.
pub const INVADER_GLYPH: char = 'x';

/// The way in which the swarm sweeps.
#[derive(Clone, Copy, Debug, PartialEq, Eq, Structural)]
pub enum Direction {
    /// Towards column 0.
    Left,
    /// Towards the last column.
    Right,
}

/// Milliseconds between two moves of a swarm of `alive` invaders: the fewer
/// are left, the faster they move. The period falls in equal parts from
/// `MOVE_MILLIS_MAX` for a whole swarm to `MOVE_MILLIS_MIN` for none.
pub open spec fn move_period_millis(alive: nat) -> nat {
    let counted = if alive <= SWARM_SIZE { alive } else { SWARM_SIZE as nat };
    (MOVE_MILLIS_MIN + (MOVE_MILLIS_MAX - MOVE_MILLIS_MIN) * counted / SWARM_SIZE as int) as nat
}

/// Milliseconds between two moves of a swarm of `alive` invaders.
pub fn move_period(alive: u32) -> (millis: u32)
    ensures
        millis == move_period_millis(alive as nat),
        MOVE_MILLIS_MIN <= millis <= MOVE_MILLIS_MAX,
{
    let counted: u32 = if alive <= SWARM_SIZE { alive } else { SWARM_SIZE };
    let range: u32 = MOVE_MILLIS_MAX - MOVE_MILLIS_MIN;
    assert(range * counted <= range * SWARM_SIZE) by (nonlinear_arith)
        requires
            counted <= SWARM_SIZE,
    ;
    MOVE_MILLIS_MIN + range * counted / SWARM_SIZE
}

/// Number of living invaders in one row of the formation.
pub open spec fn count_row(row: Seq<bool>) -> nat
    decreases row.len(),
{
    if row.len() == 0 {
        0
    } else {
        count_row(row.drop_last()) + if row.last() { 1nat } else { 0nat }
    }
}

/// Number of living invaders in the formation.
pub open spec fn count_cells(cells: Seq<Seq<bool>>) -> nat
    decreases cells.len(),
{
    if cells.len() == 0 {
        0
    } else {
        count_cells(cells.drop_last()) + count_row(cells.last())
    }
}

/// The mathematical state of the swarm.
pub struct InvadersView {
    /// Which members of the formation are alive, row by row.
    pub cells: Seq<Seq<bool>>,
    /// Column of the playfield under the formation's first column. It is
    /// negative when that column, all dead, has left the playfield.
    pub left: int,
    /// Row of the playfield under the formation's first row.
    pub top: int,
    /// The way in which the swarm is sweeping.
    pub direction: Direction,
    /// The time to the swarm's next move.
    pub timer: CountdownView,
}

impl InvadersView {
    /// Whether a living invader stands at column `x` of row `y` of the
    /// playfield.
    pub open spec fn alive_at(self, x: int, y: int) -> bool {
        let dx = x - self.left;
        let dy = y - self.top;
        &&& 0 <= dx && dx % (SPACING as int) == 0 && dx / (SPACING as int) < SWARM_COLS
        &&& 0 <= dy && dy % (SPACING as int) == 0 && dy / (SPACING as int) < SWARM_ROWS
        &&& self.cells[dy / (SPACING as int)][dx / (SPACING as int)]
    }

    /// The formation has its shape, and every living invader stands inside
    /// the playfield.
    pub open spec fn wf(self) -> bool {
        &&& self.cells.len() == SWARM_ROWS
        &&& forall|r: int| 0 <= r < SWARM_ROWS ==> (#[trigger] self.cells[r]).len() == SWARM_COLS
        &&& SWARM_LEFT_MIN <= self.left < NUM_COLS
        &&& 0 <= self.top < NUM_ROWS
        &&& forall|x: int, y: int| #[trigger]
            self.alive_at(x, y) ==> 0 <= x < NUM_COLS && 0 <= y < NUM_ROWS
        &&& self.timer.wf()
    }

    /// A fresh swarm: every member alive, sweeping right.
    pub open spec fn fresh() -> InvadersView {
        InvadersView {
            cells: Seq::new(SWARM_ROWS as nat, |r: int| Seq::new(SWARM_COLS as nat, |c: int| true)),
            left: SWARM_LEFT as int,
            top: SWARM_TOP as int,
            direction: Direction::Right,
            timer: CountdownView::started(MOVE_MILLIS_MAX as nat),
        }
    }

    /// Number of living invaders.
    pub open spec fn count(self) -> nat {
        count_cells(self.cells)
    }

    /// No invader is alive.
    pub open spec fn all_killed(self) -> bool {
        forall|x: int, y: int| !#[trigger] self.alive_at(x, y)
    }

    /// A living invader stands in the playfield's first column.
    pub open spec fn at_left_edge(self) -> bool {
        exists|y: int| #[trigger] self.alive_at(0, y)
    }

    /// A living invader stands in the playfield's last column.
    pub open spec fn at_right_edge(self) -> bool {
        exists|y: int| #[trigger] self.alive_at(NUM_COLS - 1, y)
    }

    /// A living invader stands in the player's row, the last of the
    /// playfield, or below it.
    pub open spec fn reached_bottom(self) -> bool {
        exists|x: int, y: int| #[trigger] self.alive_at(x, y) && y >= NUM_ROWS - 1
    }

    /// The swarm after the shot at column `x` of row `y` has been resolved:
    /// an invader that stood there is dead, and nothing else has changed.
    pub open spec fn after_kill(self, x: int, y: int) -> InvadersView {
        if self.alive_at(x, y) {
            let r = (y - self.top) / (SPACING as int);
            let c = (x - self.left) / (SPACING as int);
            InvadersView { cells: self.cells.update(r, self.cells[r].update(c, false)), ..self }
        } else {
            self
        }
    }

    /// The swarm turned to sweep in `direction` and, unless it stands in
    /// the last row already, come down one row.
    pub open spec fn turned(self, direction: Direction) -> InvadersView {
        InvadersView {
            direction,
            top: if self.reached_bottom() { self.top } else { self.top + 1 },
            ..self
        }
    }

    /// The swarm after one move. It shifts one column the way it sweeps;
    /// where that would take a living invader out of the playfield it turns
    /// and comes down instead. A swarm without a living invader stays.
    pub open spec fn after_step(self) -> InvadersView {
        if self.all_killed() {
            self
        } else {
            match self.direction {
                Direction::Right => if self.at_right_edge() {
                    self.turned(Direction::Left)
                } else {
                    InvadersView { left: self.left + 1, ..self }
                },
                Direction::Left => if self.at_left_edge() {
                    self.turned(Direction::Right)
                } else {
                    InvadersView { left: self.left - 1, ..self }
                },
            }
        }
    }

    /// The grid `grid` with every living invader painted over it.
    pub open spec fn painted(self, grid: Seq<Seq<char>>) -> Seq<Seq<char>> {
        Seq::new(
            NUM_ROWS as nat,
            |y: int|
                Seq::new(
                    NUM_COLS as nat,
                    |x: int|
                        if self.alive_at(x, y) {
                            INVADER_GLYPH
                        } else {
                            grid_glyph(grid, x, y)
                        },
                ),
        )
    }

    /// The swarm after `moves` moves.
    pub open spec fn after_steps(self, moves: nat) -> InvadersView
        decreases moves,
    {
        if moves == 0 {
            self
        } else {
            self.after_steps((moves - 1) as nat).after_step()
        }
    }

    /// The swarm moved one column the way it sweeps, wherever that takes it.
    pub open spec fn shifted(self) -> InvadersView {
        match self.direction {
            Direction::Right => InvadersView { left: self.left + 1, ..self },
            Direction::Left => InvadersView { left: self.left - 1, ..self },
        }
    }

    /// Every living invader stands in a column of the playfield.
    pub open spec fn inside_columns(self) -> bool {
        forall|x: int, y: int| #[trigger] self.alive_at(x, y) ==> 0 <= x < NUM_COLS
    }

    /// The swarm after `delta` nanoseconds: when its timer elapses it
    /// moves, and the timer starts again with the period that goes with
    /// the number of invaders left.
    pub open spec fn after_update(self, delta: nat) -> InvadersView {
        let timer = self.timer.after_update(delta);
        if timer.ready {
            InvadersView {
                timer: CountdownView::started(move_period_millis(self.count())),
                ..self.after_step()
            }
        } else {
            InvadersView { timer, ..self }
        }
    }
}

/// Where the invaders stand depends on the formation and its place alone,
/// not on the timer or the way the swarm sweeps.
proof fn lemma_same_formation(a: InvadersView, b: InvadersView)
    requires
        a.cells == b.cells,
        a.left == b.left,
        a.top == b.top,
    ensures
        forall|x: int, y: int|
            #![trigger a.alive_at(x, y)]
            #![trigger b.alive_at(x, y)]
            a.alive_at(x, y) == b.alive_at(x, y),
        a.all_killed() == b.all_killed(),
        a.at_left_edge() == b.at_left_edge(),
        a.at_right_edge() == b.at_right_edge(),
        a.reached_bottom() == b.reached_bottom(),
{
    assert forall|x: int, y: int|
        #![trigger a.alive_at(x, y)]
        #![trigger b.alive_at(x, y)]
        a.alive_at(x, y) == b.alive_at(x, y) by {}
    if a.at_left_edge() {
        let y = choose|y: int| #[trigger] a.alive_at(0, y);
        assert(b.alive_at(0, y));
    }
    if b.at_left_edge() {
        let y = choose|y: int| #[trigger] b.alive_at(0, y);
        assert(a.alive_at(0, y));
    }
    if a.at_right_edge() {
        let y = choose|y: int| #[trigger] a.alive_at(NUM_COLS - 1, y);
        assert(b.alive_at(NUM_COLS - 1, y));
    }
    if b.at_right_edge() {
        let y = choose|y: int| #[trigger] b.alive_at(NUM_COLS - 1, y);
        assert(a.alive_at(NUM_COLS - 1, y));
    }
    if a.reached_bottom() {
        let (x, y) = choose|x: int, y: int| #[trigger] a.alive_at(x, y) && y >= NUM_ROWS - 1;
        assert(b.alive_at(x, y));
    }
    if b.reached_bottom() {
        let (x, y) = choose|x: int, y: int| #[trigger] b.alive_at(x, y) && y >= NUM_ROWS - 1;
        assert(a.alive_at(x, y));
    }
}

/// A move keeps the swarm well formed: in particular every living invader
/// still stands inside the playfield. No invader comes or goes by a move.
pub proof fn lemma_step_keeps_swarm_inside(swarm: InvadersView)
    requires
        swarm.wf(),
    ensures
        swarm.after_step().wf(),
        forall|x: int, y: int| #[trigger]
            swarm.after_step().alive_at(x, y) ==> 0 <= x <= NUM_COLS - 1,
        swarm.after_step().cells == swarm.cells,
{
    let next = swarm.after_step();
    if !swarm.all_killed() {
        let (x0, y0) = choose|x: int, y: int| #[trigger] swarm.alive_at(x, y);
        assert(swarm.alive_at(x0, y0));
        if next.left == swarm.left + 1 {
            assert forall|x: int, y: int| #[trigger] next.alive_at(x, y) implies 0 <= x < NUM_COLS
                && 0 <= y < NUM_ROWS by {
                assert(swarm.alive_at(x - 1, y));
            }
        } else if next.left == swarm.left - 1 {
            assert forall|x: int, y: int| #[trigger] next.alive_at(x, y) implies 0 <= x < NUM_COLS
                && 0 <= y < NUM_ROWS by {
                assert(swarm.alive_at(x + 1, y));
            }
        } else if next.top == swarm.top + 1 {
            assert forall|x: int, y: int| #[trigger] next.alive_at(x, y) implies 0 <= x < NUM_COLS
                && 0 <= y < NUM_ROWS by {
                assert(swarm.alive_at(x, y - 1));
            }
        } else {
            assert forall|x: int, y: int| #[trigger] next.alive_at(x, y) implies 0 <= x < NUM_COLS
                && 0 <= y < NUM_ROWS by {
                assert(swarm.alive_at(x, y));
            }
        }
    }
}

/// However many moves the swarm makes, every living invader stays inside
/// the playfield's columns.
pub proof fn lemma_swarm_stays_inside(swarm: InvadersView, moves: nat)
    requires
        swarm.wf(),
    ensures
        swarm.after_steps(moves).wf(),
        forall|x: int, y: int| #[trigger]
            swarm.after_steps(moves).alive_at(x, y) ==> 0 <= x <= NUM_COLS - 1,
    decreases moves,
{
    if moves > 0 {
        lemma_swarm_stays_inside(swarm, (moves - 1) as nat);
        lemma_step_keeps_swarm_inside(swarm.after_steps((moves - 1) as nat));
    }
}

/// A move is the shift of one column wherever the shift keeps the swarm
/// inside the playfield. Where it does not, the swarm keeps its columns,
/// turns, and comes down one row unless it stands in the last row already.
pub proof fn lemma_step_shifts_or_turns(swarm: InvadersView)
    requires
        swarm.wf(),
        !swarm.all_killed(),
    ensures
        swarm.shifted().inside_columns() ==> swarm.after_step() == swarm.shifted(),
        !swarm.shifted().inside_columns() ==> {
            &&& swarm.after_step().direction != swarm.direction
            &&& swarm.after_step().left == swarm.left
            &&& swarm.after_step().cells == swarm.cells
            &&& !swarm.reached_bottom() ==> swarm.after_step().top == swarm.top + 1
        },
{
    let shifted = swarm.shifted();
    match swarm.direction {
        Direction::Right => {
            if swarm.at_right_edge() {
                let y = choose|y: int| #[trigger] swarm.alive_at(NUM_COLS - 1, y);
                assert(shifted.alive_at(NUM_COLS as int, y));
            } else {
                assert forall|x: int, y: int| #[trigger] shifted.alive_at(x, y) implies 0 <= x
                    < NUM_COLS by {
                    assert(swarm.alive_at(x - 1, y));
                }
            }
        },
        Direction::Left => {
            if swarm.at_left_edge() {
                let y = choose|y: int| #[trigger] swarm.alive_at(0, y);
                assert(shifted.alive_at(-1, y));
            } else {
                assert forall|x: int, y: int| #[trigger] shifted.alive_at(x, y) implies 0 <= x
                    < NUM_COLS by {
                    assert(swarm.alive_at(x + 1, y));
                }
            }
        },
    }
}

/// Time keeps the swarm well formed: whether or not it moves, every living
/// invader still stands inside the playfield, and none comes or goes.
pub proof fn lemma_update_keeps_swarm(swarm: InvadersView, delta: nat)
    requires
        swarm.wf(),
    ensures
        swarm.after_update(delta).wf(),
        swarm.after_update(delta).cells == swarm.cells,
{
    let next = swarm.after_update(delta);
    if swarm.timer.after_update(delta).ready {
        lemma_step_keeps_swarm_inside(swarm);
        lemma_same_formation(next, swarm.after_step());
    } else {
        lemma_same_formation(next, swarm);
    }
}

/// The fewer invaders are left, the shorter the time between two moves.
pub proof fn lemma_fewer_invaders_move_faster(fewer: nat, more: nat)
    requires
        fewer <= more,
    ensures
        move_period_millis(fewer) <= move_period_millis(more),
        MOVE_MILLIS_MIN <= move_period_millis(fewer),
        move_period_millis(more) <= MOVE_MILLIS_MAX,
{
}

/// A row of the formation in which one living invader dies counts one less.
proof fn lemma_count_row_kill(row: Seq<bool>, c: int)
    requires
        0 <= c < row.len(),
        row[c],
    ensures
        count_row(row.update(c, false)) + 1 == count_row(row),
    decreases row.len(),
{
    if c == row.len() - 1 {
        assert(row.update(c, false).drop_last() =~= row.drop_last());
    } else {
        assert(row.update(c, false).drop_last() =~= row.drop_last().update(c, false));
        lemma_count_row_kill(row.drop_last(), c);
    }
}

/// A formation in which one living invader dies counts one less.
proof fn lemma_count_cells_kill(cells: Seq<Seq<bool>>, r: int, c: int)
    requires
        0 <= r < cells.len(),
        0 <= c < cells[r].len(),
        cells[r][c],
    ensures
        count_cells(cells.update(r, cells[r].update(c, false))) + 1 == count_cells(cells),
    decreases cells.len(),
{
    let killed = cells.update(r, cells[r].update(c, false));
    if r == cells.len() - 1 {
        assert(killed.drop_last() =~= cells.drop_last());
        lemma_count_row_kill(cells[r], c);
    } else {
        assert(killed.drop_last() =~= cells.drop_last().update(r, cells[r].update(c, false)));
        lemma_count_cells_kill(cells.drop_last(), r, c);
    }
}

/// A shot that hits takes exactly one invader from the swarm, and leaves
/// the others where they stand; one that misses takes none.
pub proof fn lemma_kill_takes_one(swarm: InvadersView, x: int, y: int)
    requires
        swarm.wf(),
    ensures
        swarm.after_kill(x, y).wf(),
        swarm.alive_at(x, y) ==> swarm.after_kill(x, y).count() + 1 == swarm.count(),
        !swarm.alive_at(x, y) ==> swarm.after_kill(x, y) == swarm,
        forall|x2: int, y2: int| #[trigger]
            swarm.after_kill(x, y).alive_at(x2, y2) == (swarm.alive_at(x2, y2) && !(x2 == x && y2
                == y)),
{
    let after = swarm.after_kill(x, y);
    if swarm.alive_at(x, y) {
        let r = (y - swarm.top) / (SPACING as int);
        let c = (x - swarm.left) / (SPACING as int);
        lemma_count_cells_kill(swarm.cells, r, c);
    }
    assert forall|x2: int, y2: int| #[trigger]
        after.alive_at(x2, y2) == (swarm.alive_at(x2, y2) && !(x2 == x && y2 == y)) by {}
    assert forall|x2: int, y2: int| #[trigger] after.alive_at(x2, y2) implies 0 <= x2 < NUM_COLS
        && 0 <= y2 < NUM_ROWS by {
        assert(swarm.alive_at(x2, y2));
    }
}

/// A cell of the swarm dies once: a second shot at the place of a dead
/// invader hits nothing and changes nothing.
pub proof fn lemma_kill_only_once(swarm: InvadersView, x: int, y: int)
    requires
        swarm.wf(),
    ensures
        !swarm.after_kill(x, y).alive_at(x, y),
        swarm.after_kill(x, y).after_kill(x, y) == swarm.after_kill(x, y),
{
}

/// The swarm of invaders.
pub struct Invaders {
    cells: Vec<Vec<bool>>,
    left: i32,
    top: usize,
    direction: Direction,
    move_timer: Countdown,
}

impl View for Invaders {
    type V = InvadersView;

    closed spec fn view(&self) -> InvadersView {
        InvadersView {
            cells: Seq::new(self.cells@.len(), |r: int| self.cells@[r]@),
            left: self.left as int,
            top: self.top as int,
            direction: self.direction,
            timer: self.move_timer@,
        }
    }
}

impl Invaders {
    /// A fresh swarm.
    pub fn new() -> (invaders: Invaders)
        ensures
            invaders@ == InvadersView::fresh(),
            invaders@.wf(),
    {
        let mut cells: Vec<Vec<bool>> = Vec::with_capacity(SWARM_ROWS);
        let mut r: usize = 0;
        while r < SWARM_ROWS
            invariant
                r <= SWARM_ROWS,
                cells@.len() == r,
                forall|i: int|
                    0 <= i < r ==> (#[trigger] cells@[i])@ == Seq::new(
                        SWARM_COLS as nat,
                        |c: int| true,
                    ),
            decreases SWARM_ROWS - r,
        {
            let mut row: Vec<bool> = Vec::with_capacity(SWARM_COLS);
            let mut c: usize = 0;
            while c < SWARM_COLS
                invariant
                    c <= SWARM_COLS,
                    row@.len() == c,
                    forall|j: int| 0 <= j < c ==> row@[j],
                decreases SWARM_COLS - c,
            {
                row.push(true);
                c += 1;
            }
            assert(row@ =~= Seq::new(SWARM_COLS as nat, |c: int| true));
            cells.push(row);
            r += 1;
        }
        let invaders = Invaders {
            cells,
            left: SWARM_LEFT,
            top: SWARM_TOP,
            direction: Direction::Right,
            move_timer: Countdown::from_millis(MOVE_MILLIS_MAX),
        };
        assert(invaders@.cells =~= InvadersView::fresh().cells);
        invaders
    }

    /// Whether a living invader stands at column `x` of row `y`.
    pub fn is_alive_at(&self, x: usize, y: usize) -> (alive: bool)
        requires
            self@.wf(),
        ensures
            alive == self@.alive_at(x as int, y as int),
    {
        if x >= NUM_COLS || y >= NUM_ROWS || y < self.top {
            return false;
        }
        let dx: i32 = x as i32 - self.left;
        if dx < 0 {
            return false;
        }
        let dx: usize = dx as usize;
        let dy: usize = y - self.top;
        if dx % SPACING != 0 || dy % SPACING != 0 {
            return false;
        }
        let c: usize = dx / SPACING;
        let r: usize = dy / SPACING;
        if c >= SWARM_COLS || r >= SWARM_ROWS {
            return false;
        }
        assert(self@.cells[r as int] == self.cells@[r as int]@);
        self.cells[r][c]
    }

    /// Resolves a shot at column `x` of row `y`: an invader that stands
    /// there dies. Says whether one did.
    pub fn kill_invader_at(&mut self, x: usize, y: usize) -> (hit: bool)
        requires
            old(self)@.wf(),
        ensures
            hit == old(self)@.alive_at(x as int, y as int),
            final(self)@ == old(self)@.after_kill(x as int, y as int),
            final(self)@.wf(),
    {
        proof {
            lemma_kill_takes_one(self@, x as int, y as int);
        }
        if self.is_alive_at(x, y) {
            let c: usize = ((x as i32 - self.left) as usize) / SPACING;
            let r: usize = (y - self.top) / SPACING;
            assert(self@.cells[r as int] == self.cells@[r as int]@);
            self.cells[r][c] = false;
            assert(self@.cells =~= old(self)@.after_kill(x as int, y as int).cells);
            true
        } else {
            false
        }
    }

    /// Whether a living invader stands in column `x` of the playfield.
    fn column_alive(&self, x: usize) -> (alive: bool)
        requires
            self@.wf(),
        ensures
            alive == exists|y: int| #[trigger] self@.alive_at(x as int, y),
    {
        let mut y: usize = 0;
        while y < NUM_ROWS
            invariant
                y <= NUM_ROWS,
                self@.wf(),
                forall|j: int| 0 <= j < y ==> !#[trigger] self@.alive_at(x as int, j),
            decreases NUM_ROWS - y,
        {
            if self.is_alive_at(x, y) {
                return true;
            }
            y += 1;
        }
        false
    }

    /// Whether a living invader stands in row `y` of the playfield.
    fn row_alive(&self, y: usize) -> (alive: bool)
        requires
            self@.wf(),
        ensures
            alive == exists|x: int| #[trigger] self@.alive_at(x, y as int),
    {
        let mut x: usize = 0;
        while x < NUM_COLS
            invariant
                x <= NUM_COLS,
                self@.wf(),
                forall|i: int| 0 <= i < x ==> !#[trigger] self@.alive_at(i, y as int),
            decreases NUM_COLS - x,
        {
            if self.is_alive_at(x, y) {
                return true;
            }
            x += 1;
        }
        false
    }

    /// Whether no invader is left: the player has won.
    pub fn all_killed(&self) -> (none: bool)
        requires
            self@.wf(),
        ensures
            none == self@.all_killed(),
    {
        let mut y: usize = 0;
        while y < NUM_ROWS
            invariant
                y <= NUM_ROWS,
                self@.wf(),
                forall|i: int, j: int| 0 <= j < y ==> !#[trigger] self@.alive_at(i, j),
            decreases NUM_ROWS - y,
        {
            if self.row_alive(y) {
                return false;
            }
            y += 1;
        }
        true
    }

    /// Whether a living invader has come down to the player's row: the
    /// player has lost.
    pub fn reached_bottom(&self) -> (reached: bool)
        requires
            self@.wf(),
        ensures
            reached == self@.reached_bottom(),
    {
        self.row_alive(NUM_ROWS - 1)
    }

    /// Number of living invaders.
    pub fn count(&self) -> (alive: u32)
        requires
            self@.wf(),
        ensures
            alive == self@.count(),
            alive <= SWARM_SIZE,
    {
        let mut alive: u32 = 0;
        let mut r: usize = 0;
        while r < SWARM_ROWS
            invariant
                r <= SWARM_ROWS,
                self@.wf(),
                alive == count_cells(self@.cells.take(r as int)),
                alive <= r * SWARM_COLS,
            decreases SWARM_ROWS - r,
        {
            let mut in_row: u32 = 0;
            let mut c: usize = 0;
            assert(self@.cells[r as int] == self.cells@[r as int]@);
            while c < SWARM_COLS
                invariant
                    c <= SWARM_COLS,
                    r < SWARM_ROWS,
                    self.cells@.len() == SWARM_ROWS,
                    self.cells@[r as int]@.len() == SWARM_COLS,
                    in_row == count_row(self.cells@[r as int]@.take(c as int)),
                    in_row <= c,
                decreases SWARM_COLS - c,
            {
                let ghost row = self.cells@[r as int]@;
                assert(row.take(c + 1).drop_last() == row.take(c as int));
                if self.cells[r][c] {
                    in_row += 1;
                }
                c += 1;
            }
            assert(self.cells@[r as int]@.take(SWARM_COLS as int) == self.cells@[r as int]@);
            assert(self@.cells.take(r + 1).drop_last() == self@.cells.take(r as int));
            alive += in_row;
            r += 1;
        }
        assert(self@.cells.take(SWARM_ROWS as int) == self@.cells);
        alive
    }

    /// Moves the swarm once: one column the way it sweeps, or, where that
    /// would take a living invader out of the playfield, a turn and one row
    /// down.
    pub fn step(&mut self)
        requires
            old(self)@.wf(),
        ensures
            final(self)@ == old(self)@.after_step(),
            final(self)@.wf(),
    {
        proof {
            lemma_step_keeps_swarm_inside(self@);
        }
        if self.all_killed() {
            return;
        }
        match self.direction {
            Direction::Right => {
                if self.column_alive(NUM_COLS - 1) {
                    self.turn(Direction::Left);
                } else {
                    self.left += 1;
                }
            },
            Direction::Left => {
                if self.column_alive(0) {
                    self.turn(Direction::Right);
                } else {
                    self.left -= 1;
                }
            },
        }
    }

    /// Turns the swarm to sweep in `direction` and brings it down one row,
    /// unless it stands in the last row already.
    fn turn(&mut self, direction: Direction)
        requires
            old(self)@.wf(),
        ensures
            final(self)@ == old(self)@.turned(direction),
    {
        if !self.reached_bottom() {
            self.top += 1;
        }
        self.direction = direction;
    }

    /// Lets `delta` nanoseconds pass, and says whether the swarm moved.
    pub fn update(&mut self, delta: u64) -> (stepped: bool)
        requires
            old(self)@.wf(),
        ensures
            stepped == old(self)@.timer.after_update(delta as nat).ready,
            final(self)@ == old(self)@.after_update(delta as nat),
            final(self)@.wf(),
    {
        self.move_timer.update(delta);
        proof {
            lemma_same_formation(self@, old(self)@);
        }
        if self.move_timer.ready() {
            let alive = self.count();
            self.step();
            let ghost moved = self@;
            self.move_timer = Countdown::from_millis(move_period(alive));
            proof {
                lemma_same_formation(self@, moved);
            }
            true
        } else {
            false
        }
    }

    /// The way in which the swarm is sweeping.
    pub fn direction(&self) -> (direction: Direction)
        ensures
            direction == self@.direction,
    {
        self.direction
    }

    /// The time to the swarm's next move.
    pub fn move_timer(&self) -> (timer: Countdown)
        ensures
            timer@ == self@.timer,
    {
        self.move_timer
    }
}

impl Drawable for Invaders {
    open spec fn drawable(&self) -> bool {
        self@.wf()
    }

    open spec fn painted(&self, grid: Seq<Seq<char>>) -> Seq<Seq<char>> {
        self@.painted(grid)
    }

    fn draw(&self, frame: &mut Frame) {
        let mut y: usize = 0;
        while y < NUM_ROWS
            invariant
                y <= NUM_ROWS,
                self@.wf(),
                old(frame).wf(),
                frame.wf(),
                forall|i: int, j: int|
                    0 <= i < NUM_COLS && 0 <= j < NUM_ROWS ==> #[trigger] frame@[j][i] == (if j < y
                        && self@.alive_at(i, j) {
                        INVADER_GLYPH
                    } else {
                        old(frame)@[j][i]
                    }),
            decreases NUM_ROWS - y,
        {
            let mut x: usize = 0;
            while x < NUM_COLS
                invariant
                    x <= NUM_COLS,
                    y < NUM_ROWS,
                    self@.wf(),
                    old(frame).wf(),
                    frame.wf(),
                    forall|i: int, j: int|
                        0 <= i < NUM_COLS && 0 <= j < NUM_ROWS ==> #[trigger] frame@[j][i] == (if (j
                            < y || (j == y && i < x)) && self@.alive_at(i, j) {
                            INVADER_GLYPH
                        } else {
                            old(frame)@[j][i]
                        }),
                decreases NUM_COLS - x,
            {
                if self.is_alive_at(x, y) {
                    frame.set(x, y, INVADER_GLYPH);
                }
                x += 1;
            }
            y += 1;
        }
        assert forall|j: int| 0 <= j < NUM_ROWS implies #[trigger] frame@[j] =~= self.painted(
            old(frame)@,
        )[j] by {}
        assert(frame@ =~= self.painted(old(frame)@));
    }
}

} // verus!
