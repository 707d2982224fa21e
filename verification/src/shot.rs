//! A projectile fired by the player.

use vstd::prelude::*;
use crate::frame::{grid_put, Drawable, Frame};
use crate::timer::{Countdown, CountdownView};
use crate::{NUM_COLS, NUM_ROWS};

verus! {

/// Milliseconds from one climb of a travelling shot to the next.
pub const SHOT_STEP_MILLIS: u32 = 50;

/// Rows that a travelling shot climbs at a time: its speed.
pub const SHOT_CLIMB: usize = 1;

/// Milliseconds for which an exploding shot stays on the screen.
pub const EXPLOSION_MILLIS: u32 = 250;

/// The glyph of a travelling shot.
pub const SHOT_GLYPH: char = '|';

/// The glyph of an exploding shot.
pub const EXPLOSION_GLYPH: char = '*';

/// The mathematical state of a shot.
pub struct ShotView {
    /// Column of the shot.
    pub x: int,
    /// Row of the shot; row 0 is the top of the playfield.
    pub y: int,
    /// Whether the shot has hit an invader and is exploding.
    pub exploding: bool,
    /// While travelling, the time to the next climb; while exploding, the
    /// time for which the explosion still shows.
    pub timer: CountdownView,
}

impl ShotView {
    /// The shot lies inside the playfield.
    pub open spec fn wf(self) -> bool {
        &&& 0 <= self.x < NUM_COLS
        &&& 0 <= self.y < NUM_ROWS
        &&& self.timer.wf()
    }

    /// A shot that has just been fired at column `x` of row `y`.
    pub open spec fn fired(x: int, y: int) -> ShotView {
        ShotView {
            x,
            y,
            exploding: false,
            timer: CountdownView::started(SHOT_STEP_MILLIS as nat),
        }
    }

    /// The shot after `delta` nanoseconds. A travelling shot whose timer
    /// elapses climbs `SHOT_CLIMB` rows, but not beyond the top row, and
    /// its timer starts again. An exploding shot only runs its timer down.
    pub open spec fn after_update(self, delta: nat) -> ShotView {
        let timer = self.timer.after_update(delta);
        if timer.ready && !self.exploding {
            ShotView {
                y: if self.y >= SHOT_CLIMB { self.y - SHOT_CLIMB } else { 0 },
                timer: timer.after_reset(),
                ..self
            }
        } else {
            ShotView { timer, ..self }
        }
    }

    /// The shot once it has hit an invader: exploding, with the time of an
    /// explosion ahead of it.
    pub open spec fn after_explode(self) -> ShotView {
        ShotView {
            exploding: true,
            timer: CountdownView::started(EXPLOSION_MILLIS as nat),
            ..self
        }
    }

    /// The shot is spent: its explosion is over, or it has reached the top
    /// row.
    pub open spec fn dead(self) -> bool {
        (self.exploding && self.timer.ready) || self.y == 0
    }

    /// The glyph that shows the shot.
    pub open spec fn glyph(self) -> char {
        if self.exploding {
            EXPLOSION_GLYPH
        } else {
            SHOT_GLYPH
        }
    }

    /// The grid `grid` with the shot painted over it.
    pub open spec fn painted(self, grid: Seq<Seq<char>>) -> Seq<Seq<char>> {
        grid_put(grid, self.x, self.y, self.glyph())
    }
}

/// A projectile: it climbs the column in which it was fired, `SHOT_CLIMB`
/// rows per step of its timer, until it reaches the top row or hits an
/// invader. One timer serves both states: while the shot travels it paces
/// the climb, and once the shot explodes it counts the explosion down. A
/// flight from the player's row takes eighteen steps of `SHOT_STEP_MILLIS`;
/// an explosion is over after `EXPLOSION_MILLIS`, well before that.
#[derive(Clone, Copy, Debug)]
pub struct Shot {
    x: usize,
    y: usize,
    exploding: bool,
    timer: Countdown,
}

impl View for Shot {
    type V = ShotView;

    closed spec fn view(&self) -> ShotView {
        ShotView {
            x: self.x as int,
            y: self.y as int,
            exploding: self.exploding,
            timer: self.timer@,
        }
    }
}

impl Shot {
    /// A travelling shot at column `x` of row `y`.
    pub fn new(x: usize, y: usize) -> (shot: Shot)
        requires
            x < NUM_COLS,
            y < NUM_ROWS,
        ensures
            shot@ == ShotView::fired(x as int, y as int),
            shot@.wf(),
    {
        Shot { x, y, exploding: false, timer: Countdown::from_millis(SHOT_STEP_MILLIS) }
    }

    /// Lets `delta` nanoseconds pass.
    pub fn update(&mut self, delta: u64)
        requires
            old(self)@.wf(),
        ensures
            final(self)@ == old(self)@.after_update(delta as nat),
            final(self)@.wf(),
    {
        self.timer.update(delta);
        if self.timer.ready() && !self.exploding {
            self.y = if self.y >= SHOT_CLIMB { self.y - SHOT_CLIMB } else { 0 };
            self.timer.reset();
        }
    }

    /// Turns the shot into an explosion.
    pub fn explode(&mut self)
        requires
            old(self)@.wf(),
        ensures
            final(self)@ == old(self)@.after_explode(),
            final(self)@.wf(),
    {
        self.exploding = true;
        self.timer = Countdown::from_millis(EXPLOSION_MILLIS);
    }

    /// Whether the shot is spent and is to be removed.
    pub fn dead(&self) -> (dead: bool)
        ensures
            dead == self@.dead(),
    {
        (self.exploding && self.timer.ready()) || self.y == 0
    }

    /// Column of the shot.
    pub fn x(&self) -> (x: usize)
        ensures
            x == self@.x,
    {
        self.x
    }

    /// Row of the shot.
    pub fn y(&self) -> (y: usize)
        ensures
            y == self@.y,
    {
        self.y
    }

    /// Whether the shot is exploding.
    pub fn exploding(&self) -> (exploding: bool)
        ensures
            exploding == self@.exploding,
    {
        self.exploding
    }
}

impl Drawable for Shot {
    open spec fn drawable(&self) -> bool {
        self@.wf()
    }

    open spec fn painted(&self, grid: Seq<Seq<char>>) -> Seq<Seq<char>> {
        self@.painted(grid)
    }

    fn draw(&self, frame: &mut Frame) {
        let glyph = if self.exploding { EXPLOSION_GLYPH } else { SHOT_GLYPH };
        frame.set(self.x, self.y, glyph);
    }
}

} // verus!
