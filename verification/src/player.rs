//! The player: a cannon on the bottom row with a small magazine that fills
//! up again with time and with every invader shot.

use vstd::prelude::*;
use crate::frame::{grid_put, Drawable, Frame};
use crate::invaders::{lemma_kill_takes_one, Invaders, InvadersView};
use crate::shot::{Shot, ShotView};
use crate::timer::{Countdown, CountdownView};
use crate::{NUM_COLS, NUM_ROWS};

verus! {

/// The most shots that can be in flight at once.
pub const MAX_SHOTS: usize = 3;

/// The most rounds that the magazine holds.
pub const MAX_AMMO: u32 = 5;

/// Rounds gained for every invader shot.
pub const AMMO_RELOAD: u32 = 2;

/// Rounds gained each time the reload timer elapses.
pub const AUTO_AMMO_RELOAD: u32 = 1;

/// Milliseconds from one timed reload to the next.
pub const AUTO_AMMO_RELOAD_DURATION: u32 = 3500;

/// The glyph of the player.
pub const PLAYER_GLYPH: char = 'A';

/// The magazine after `gained` rounds have come in: it never holds more
/// than `MAX_AMMO`.
pub open spec fn ammo_after_reload(ammo: nat, gained: nat) -> nat {
    if ammo + gained <= MAX_AMMO {
        ammo + gained
    } else {
        MAX_AMMO as nat
    }
}

/// The shots of `shots` after `delta` nanoseconds, spent ones included.
pub open spec fn shots_advanced(shots: Seq<ShotView>, delta: nat) -> Seq<ShotView> {
    shots.map_values(|shot: ShotView| shot.after_update(delta))
}

/// The shots of `shots` that are not spent, in their order.
pub open spec fn shots_alive(shots: Seq<ShotView>) -> Seq<ShotView> {
    shots.filter(|shot: ShotView| !shot.dead())
}

/// The grid `grid` with the first `n` shots of `shots` painted over it, one
/// after the other.
pub open spec fn shots_painted(grid: Seq<Seq<char>>, shots: Seq<ShotView>, n: nat) -> Seq<Seq<char>>
    decreases n,
{
    if n == 0 {
        grid
    } else {
        shots[n - 1].painted(shots_painted(grid, shots, (n - 1) as nat))
    }
}

/// The mathematical state of the player.
pub struct PlayerView {
    /// Column of the player.
    pub x: int,
    /// Row of the player.
    pub y: int,
    /// The shots in flight, oldest first.
    pub shots: Seq<ShotView>,
    /// Rounds in the magazine.
    pub ammo: nat,
    /// Shots fired so far.
    pub fired: nat,
    /// The time to the next timed reload.
    pub reload: CountdownView,
}

impl PlayerView {
    /// The player stands on the bottom row, with at most `MAX_SHOTS` shots
    /// in flight, none of them spent, and at most `MAX_AMMO` rounds.
    pub open spec fn wf(self) -> bool {
        &&& 0 <= self.x < NUM_COLS
        &&& self.y == NUM_ROWS - 1
        &&& self.shots.len() <= MAX_SHOTS
        &&& forall|i: int| 0 <= i < self.shots.len() ==> (#[trigger] self.shots[i]).wf()
        &&& forall|i: int| 0 <= i < self.shots.len() ==> !(#[trigger] self.shots[i]).dead()
        &&& self.ammo <= MAX_AMMO
        &&& self.fired <= u32::MAX
        &&& self.reload.wf()
    }

    /// The player at the start of a game: in the middle of the bottom row,
    /// with a full magazine.
    pub open spec fn fresh() -> PlayerView {
        PlayerView {
            x: (NUM_COLS / 2) as int,
            y: NUM_ROWS - 1,
            shots: Seq::empty(),
            ammo: MAX_AMMO as nat,
            fired: 0,
            reload: CountdownView::started(AUTO_AMMO_RELOAD_DURATION as nat),
        }
    }

    /// The player one column to the left, or in place at the left edge.
    pub open spec fn after_move_left(self) -> PlayerView {
        PlayerView { x: if self.x > 0 { self.x - 1 } else { self.x }, ..self }
    }

    /// The player one column to the right, or in place at the right edge.
    pub open spec fn after_move_right(self) -> PlayerView {
        PlayerView { x: if self.x < NUM_COLS - 1 { self.x + 1 } else { self.x }, ..self }
    }

    /// A shot can be fired: there is a round in the magazine, and fewer
    /// than `MAX_SHOTS` shots are in flight.
    pub open spec fn can_shoot(self) -> bool {
        self.shots.len() < MAX_SHOTS && self.ammo > 0
    }

    /// The player after pulling the trigger. Where a shot can be fired it
    /// starts in the row above the player and costs one round. Where none
    /// can, nothing changes.
    pub open spec fn after_shoot(self) -> PlayerView {
        if self.can_shoot() {
            PlayerView {
                shots: self.shots.push(ShotView::fired(self.x, self.y - 1)),
                ammo: (self.ammo - 1) as nat,
                fired: if self.fired < u32::MAX { self.fired + 1 } else { self.fired },
                ..self
            }
        } else {
            self
        }
    }

    /// The grid `grid` with the player painted over it, and then the shots
    /// in flight, oldest first.
    pub open spec fn painted(self, grid: Seq<Seq<char>>) -> Seq<Seq<char>> {
        shots_painted(grid_put(grid, self.x, self.y, PLAYER_GLYPH), self.shots, self.shots.len())
    }

    /// The player after `delta` nanoseconds: every shot has advanced, the
    /// spent ones are gone, and the magazine has gained `AUTO_AMMO_RELOAD`
    /// rounds if the reload timer elapsed.
    pub open spec fn after_update(self, delta: nat) -> PlayerView {
        PlayerView {
            shots: shots_alive(shots_advanced(self.shots, delta)),
            ammo: if self.reload.after_update(delta).ready {
                ammo_after_reload(self.ammo, AUTO_AMMO_RELOAD as nat)
            } else {
                self.ammo
            },
            reload: self.reload.after_tick(delta),
            ..self
        }
    }
}

/// What collision resolution leaves behind.
pub struct Clash {
    /// The player, with the shots that hit turned into explosions and the
    /// magazine refilled for each of them.
    pub player: PlayerView,
    /// The swarm without the invaders that were hit.
    pub invaders: InvadersView,
    /// Whether at least one shot hit an invader.
    pub hit: bool,
}

/// The outcome of resolving the first `n` shots of `player` against
/// `invaders`, oldest shot first. A travelling shot that stands where a
/// living invader stands kills it: the shot explodes and the magazine gains
/// `AMMO_RELOAD` rounds. An exploding shot, or one that meets no living
/// invader, changes nothing.
pub open spec fn resolve_hits(player: PlayerView, invaders: InvadersView, n: nat) -> Clash
    decreases n,
{
    if n == 0 {
        Clash { player, invaders, hit: false }
    } else {
        let before = resolve_hits(player, invaders, (n - 1) as nat);
        let shot = before.player.shots[n - 1];
        if !shot.exploding && before.invaders.alive_at(shot.x, shot.y) {
            Clash {
                player: PlayerView {
                    shots: before.player.shots.update(n - 1, shot.after_explode()),
                    ammo: ammo_after_reload(before.player.ammo, AMMO_RELOAD as nat),
                    ..before.player
                },
                invaders: before.invaders.after_kill(shot.x, shot.y),
                hit: true,
            }
        } else {
            before
        }
    }
}

/// Something that happens to the player.
pub enum PlayerEvent {
    /// The command to move left.
    MoveLeft,
    /// The command to move right.
    MoveRight,
    /// The trigger is pulled.
    Shoot,
    /// `delta` nanoseconds pass: shots advance, and the magazine is
    /// reloaded if the reload timer elapses.
    Tick { delta: nat },
    /// The shots are resolved against `invaders`: each kill reloads.
    Hits { invaders: InvadersView },
}

impl PlayerView {
    /// The player after `event`.
    pub open spec fn after_event(self, event: PlayerEvent) -> PlayerView {
        match event {
            PlayerEvent::MoveLeft => self.after_move_left(),
            PlayerEvent::MoveRight => self.after_move_right(),
            PlayerEvent::Shoot => self.after_shoot(),
            PlayerEvent::Tick { delta } => self.after_update(delta),
            PlayerEvent::Hits { invaders } => resolve_hits(self, invaders, self.shots.len()).player,
        }
    }

    /// The player after all of `events`, in their order.
    pub open spec fn after_events(self, events: Seq<PlayerEvent>) -> PlayerView
        decreases events.len(),
    {
        if events.len() == 0 {
            self
        } else {
            self.after_events(events.drop_last()).after_event(events.last())
        }
    }
}

/// Time keeps the player well formed: the shots that stay are inside the
/// playfield and not spent, so that no shot outlives the tick in which it
/// is spent, and the magazine holds no more than `MAX_AMMO`.
pub proof fn lemma_update_keeps_player(player: PlayerView, delta: nat)
    requires
        player.wf(),
    ensures
        player.after_update(delta).wf(),
{
    let advanced = shots_advanced(player.shots, delta);
    let kept = shots_alive(advanced);
    let alive = |shot: ShotView| !shot.dead();
    advanced.lemma_filter_len(alive);
    assert forall|i: int| 0 <= i < kept.len() implies (#[trigger] kept[i]).wf() by {
        assert(kept.contains(kept[i]));
        advanced.lemma_filter_contains_rev(alive, kept[i]);
        let j = choose|j: int| 0 <= j < advanced.len() && advanced[j] == kept[i];
        assert(player.shots[j].wf());
    }
    assert forall|i: int| 0 <= i < kept.len() implies !(#[trigger] kept[i]).dead() by {
        advanced.lemma_filter_pred(alive, i);
    }
}

/// Whether one of the first `n` shots of `shots` travels at column `x` of
/// row `y`.
pub open spec fn shot_travels_at(shots: Seq<ShotView>, n: nat, x: int, y: int) -> bool {
    exists|i: int|
        0 <= i < n && !(#[trigger] shots[i]).exploding && shots[i].x == x && shots[i].y == y
}

/// What collision resolution comes to, whatever the order of the shots.
/// The invaders that die are those at whose place a shot travels. The
/// magazine gains `AMMO_RELOAD` rounds for each invader that has left the
/// swarm, up to `MAX_AMMO`: no invader is paid for twice. A hit is
/// reported if and only if an invader died. Nothing of the player changes
/// but the magazine and the shots, of which none comes or goes; player and
/// swarm stay well formed.
pub proof fn lemma_hits_pay_once(player: PlayerView, invaders: InvadersView, n: nat)
    requires
        player.wf(),
        invaders.wf(),
        n <= player.shots.len(),
    ensures
        resolve_hits(player, invaders, n).player.wf(),
        resolve_hits(player, invaders, n).invaders.wf(),
        forall|x: int, y: int| #[trigger]
            resolve_hits(player, invaders, n).invaders.alive_at(x, y) == (invaders.alive_at(x, y)
                && !shot_travels_at(player.shots, n, x, y)),
        resolve_hits(player, invaders, n).invaders.count() <= invaders.count(),
        resolve_hits(player, invaders, n).player.ammo == ammo_after_reload(
            player.ammo,
            (AMMO_RELOAD * (invaders.count() - resolve_hits(player, invaders, n).invaders.count()))
                as nat,
        ),
        resolve_hits(player, invaders, n).hit == (resolve_hits(player, invaders, n).invaders.count()
            < invaders.count()),
        resolve_hits(player, invaders, n).player.shots.len() == player.shots.len(),
        forall|i: int|
            0 <= i < player.shots.len() ==> {
                let after = #[trigger] resolve_hits(player, invaders, n).player.shots[i];
                &&& after.x == player.shots[i].x
                &&& after.y == player.shots[i].y
                &&& i >= n ==> after == player.shots[i]
            },
        resolve_hits(player, invaders, n).player.x == player.x,
        resolve_hits(player, invaders, n).player.y == player.y,
        resolve_hits(player, invaders, n).player.fired == player.fired,
        resolve_hits(player, invaders, n).player.reload == player.reload,
    decreases n,
{
    let after = resolve_hits(player, invaders, n);
    if n > 0 {
        lemma_hits_pay_once(player, invaders, (n - 1) as nat);
        let before = resolve_hits(player, invaders, (n - 1) as nat);
        let shot = before.player.shots[n - 1];
        assert(shot == player.shots[n - 1]);
        lemma_kill_takes_one(before.invaders, shot.x, shot.y);
        assert forall|x: int, y: int| #[trigger]
            after.invaders.alive_at(x, y) == (invaders.alive_at(x, y) && !shot_travels_at(
                player.shots,
                n,
                x,
                y,
            )) by {
            assert(before.invaders.alive_at(x, y) == (invaders.alive_at(x, y) && !shot_travels_at(
                player.shots,
                (n - 1) as nat,
                x,
                y,
            )));
            if shot_travels_at(player.shots, (n - 1) as nat, x, y) {
                let i = choose|i: int|
                    0 <= i < n - 1 && !(#[trigger] player.shots[i]).exploding && player.shots[i].x
                        == x && player.shots[i].y == y;
                assert(shot_travels_at(player.shots, n, x, y));
            }
            if shot_travels_at(player.shots, n, x, y) && !shot_travels_at(
                player.shots,
                (n - 1) as nat,
                x,
                y,
            ) {
                let i = choose|i: int|
                    0 <= i < n && !(#[trigger] player.shots[i]).exploding && player.shots[i].x == x
                        && player.shots[i].y == y;
                assert(i == n - 1);
            }
            if !shot.exploding && shot.x == x && shot.y == y {
                assert(shot_travels_at(player.shots, n, x, y));
            }
        }
    } else {
        assert forall|x: int, y: int| #[trigger]
            after.invaders.alive_at(x, y) == (invaders.alive_at(x, y) && !shot_travels_at(
                player.shots,
                n,
                x,
                y,
            )) by {}
    }
}

/// A shot at a place where no invader lives hits nothing: neither the
/// swarm nor the magazine changes, and no hit is reported. So a second
/// shot at a dead invader's place earns no second reload.
pub proof fn lemma_no_target_no_reload(player: PlayerView, invaders: InvadersView, n: nat)
    requires
        n <= player.shots.len(),
        forall|i: int|
            0 <= i < n ==> (#[trigger] player.shots[i]).exploding || !invaders.alive_at(
                player.shots[i].x,
                player.shots[i].y,
            ),
    ensures
        resolve_hits(player, invaders, n) == (Clash { player, invaders, hit: false }),
    decreases n,
{
    if n > 0 {
        lemma_no_target_no_reload(player, invaders, (n - 1) as nat);
        assert(player.shots[n - 1].exploding || !invaders.alive_at(
            player.shots[n - 1].x,
            player.shots[n - 1].y,
        ));
    }
}

/// Whatever happens to the player, the player stays well formed.
pub proof fn lemma_event_keeps_player(player: PlayerView, event: PlayerEvent)
    requires
        player.wf(),
        event matches PlayerEvent::Hits { invaders } ==> invaders.wf(),
    ensures
        player.after_event(event).wf(),
{
    match event {
        PlayerEvent::Tick { delta } => lemma_update_keeps_player(player, delta),
        PlayerEvent::Hits { invaders } => lemma_hits_pay_once(player, invaders, player.shots.len()),
        _ => {},
    }
}

/// Through any sequence of moves, shots, reloads and kills the magazine
/// holds between 0 and `MAX_AMMO` rounds after each of them.
pub proof fn lemma_ammo_stays_in_range(player: PlayerView, events: Seq<PlayerEvent>)
    requires
        player.wf(),
        forall|i: int|
            0 <= i < events.len() ==> (#[trigger] events[i] matches PlayerEvent::Hits { invaders }
                ==> invaders.wf()),
    ensures
        forall|k: int|
            0 <= k <= events.len() ==> 0 <= (#[trigger] player.after_events(events.take(k))).ammo
                <= MAX_AMMO,
        player.after_events(events).wf(),
    decreases events.len(),
{
    if events.len() > 0 {
        let earlier = events.drop_last();
        lemma_ammo_stays_in_range(player, earlier);
        lemma_event_keeps_player(player.after_events(earlier), events.last());
        assert forall|k: int| 0 <= k <= events.len() implies 0 <= (#[trigger] player.after_events(
            events.take(k),
        )).ammo <= MAX_AMMO by {
            if k < events.len() {
                assert(events.take(k) =~= earlier.take(k));
            } else {
                assert(events.take(k) =~= events);
            }
        }
    } else {
        assert forall|k: int| 0 <= k <= events.len() implies 0 <= (#[trigger] player.after_events(
            events.take(k),
        )).ammo <= MAX_AMMO by {
            assert(events.take(k) =~= events);
        }
    }
}

/// The player.
pub struct Player {
    x: usize,
    y: usize,
    shots: Vec<Shot>,
    count_ammo: u32,
    count_shot: u32,
    reload_ammo_timer: Countdown,
}

impl View for Player {
    type V = PlayerView;

    closed spec fn view(&self) -> PlayerView {
        PlayerView {
            x: self.x as int,
            y: self.y as int,
            shots: self.shots@.map_values(|shot: Shot| shot@),
            ammo: self.count_ammo as nat,
            fired: self.count_shot as nat,
            reload: self.reload_ammo_timer@,
        }
    }
}

impl Player {
    /// The player at the start of a game.
    pub fn new() -> (player: Player)
        ensures
            player@ == PlayerView::fresh(),
            player@.wf(),
    {
        let player = Player {
            x: NUM_COLS / 2,
            y: NUM_ROWS - 1,
            shots: Vec::new(),
            count_ammo: MAX_AMMO,
            count_shot: 0,
            reload_ammo_timer: Countdown::from_millis(AUTO_AMMO_RELOAD_DURATION),
        };
        assert(player@.shots =~= Seq::empty());
        player
    }

    /// Moves one column to the left; at the left edge the player stays.
    pub fn move_left(&mut self)
        requires
            old(self)@.wf(),
        ensures
            final(self)@ == old(self)@.after_move_left(),
            final(self)@.wf(),
    {
        if self.x > 0 {
            self.x -= 1;
        }
    }

    /// Moves one column to the right; at the right edge the player stays.
    pub fn move_right(&mut self)
        requires
            old(self)@.wf(),
        ensures
            final(self)@ == old(self)@.after_move_right(),
            final(self)@.wf(),
    {
        if self.x < NUM_COLS - 1 {
            self.x += 1;
        }
    }

    /// Pulls the trigger, and says whether a shot was fired. None is fired
    /// from an empty magazine, nor while `MAX_SHOTS` shots are in flight:
    /// then nothing changes.
    pub fn shoot(&mut self) -> (fired: bool)
        requires
            old(self)@.wf(),
        ensures
            fired == old(self)@.can_shoot(),
            final(self)@ == old(self)@.after_shoot(),
            !fired ==> final(self)@ == old(self)@,
            final(self)@.wf(),
    {
        if self.shots.len() < MAX_SHOTS && self.count_ammo > 0 {
            self.shots.push(Shot::new(self.x, self.y - 1));
            self.count_ammo -= 1;
            if self.count_shot < u32::MAX {
                self.count_shot += 1;
            }
            assert(self@.shots =~= old(self)@.after_shoot().shots);
            true
        } else {
            false
        }
    }

    /// Lets `delta` nanoseconds pass: advances the shots, drops the spent
    /// ones, and reloads when the reload timer elapses.
    pub fn update(&mut self, delta: u64)
        requires
            old(self)@.wf(),
        ensures
            final(self)@ == old(self)@.after_update(delta as nat),
            final(self)@.wf(),
    {
        let ghost advanced = shots_advanced(old(self)@.shots, delta as nat);
        let mut kept: Vec<Shot> = Vec::new();
        let mut i: usize = 0;
        assert(advanced.take(0) =~= Seq::empty());
        proof {
            reveal(Seq::filter);
        }
        while i < self.shots.len()
            invariant
                i <= self.shots.len(),
                *self == *old(self),
                self@.wf(),
                advanced == shots_advanced(self@.shots, delta as nat),
                kept@.map_values(|shot: Shot| shot@) == shots_alive(advanced.take(i as int)),
                kept@.len() <= i,
                forall|k: int| 0 <= k < kept@.len() ==> (#[trigger] kept@[k])@.wf(),
                forall|k: int| 0 <= k < kept@.len() ==> !(#[trigger] kept@[k])@.dead(),
            decreases self.shots.len() - i,
        {
            let mut shot = self.shots[i];
            assert(shot@ == self@.shots[i as int]);
            shot.update(delta);
            proof {
                reveal(Seq::filter);
                assert(advanced.take(i + 1).drop_last() =~= advanced.take(i as int));
                assert(advanced.take(i + 1).last() == shot@);
            }
            if !shot.dead() {
                kept.push(shot);
                assert(kept@.map_values(|shot: Shot| shot@) =~= shots_alive(
                    advanced.take(i as int),
                ).push(shot@));
            }
            i += 1;
        }
        assert(advanced.take(i as int) =~= advanced);
        self.shots = kept;
        if self.reload_ammo_timer.tick(delta) {
            self.count_ammo = Self::reload_ammo(self.count_ammo + AUTO_AMMO_RELOAD);
        }
    }

    /// Resolves the shots in flight against the swarm, oldest shot first,
    /// and says whether any of them hit an invader. Each hit kills the
    /// invader, makes the shot explode and brings `AMMO_RELOAD` rounds.
    pub fn detect_hits(&mut self, invaders: &mut Invaders) -> (hit: bool)
        requires
            old(self)@.wf(),
            old(invaders)@.wf(),
        ensures
            final(self)@ == resolve_hits(
                old(self)@,
                old(invaders)@,
                old(self)@.shots.len(),
            ).player,
            final(invaders)@ == resolve_hits(
                old(self)@,
                old(invaders)@,
                old(self)@.shots.len(),
            ).invaders,
            hit == resolve_hits(old(self)@, old(invaders)@, old(self)@.shots.len()).hit,
            final(self)@.wf(),
            final(invaders)@.wf(),
    {
        let mut hit = false;
        let mut i: usize = 0;
        while i < self.shots.len()
            invariant
                i <= self.shots.len(),
                self.shots.len() == old(self).shots.len(),
                self@.wf(),
                invaders@.wf(),
                self@ == resolve_hits(old(self)@, old(invaders)@, i as nat).player,
                invaders@ == resolve_hits(old(self)@, old(invaders)@, i as nat).invaders,
                hit == resolve_hits(old(self)@, old(invaders)@, i as nat).hit,
            decreases self.shots.len() - i,
        {
            let ghost before = self@;
            let mut shot = self.shots[i];
            assert(shot@ == self@.shots[i as int]);
            if !shot.exploding() && invaders.kill_invader_at(shot.x(), shot.y()) {
                hit = true;
                self.count_ammo = Self::reload_ammo(self.count_ammo + AMMO_RELOAD);
                shot.explode();
                self.shots[i] = shot;
                assert(self@.shots =~= before.shots.update(i as int, shot@));
            }
            i += 1;
        }
        hit
    }

    /// The number of rounds that the magazine holds when `count` rounds
    /// would be in it: no more than `MAX_AMMO`.
    fn reload_ammo(count: u32) -> (ammo: u32)
        ensures
            ammo == if count <= MAX_AMMO { count } else { MAX_AMMO },
    {
        if count <= MAX_AMMO {
            count
        } else {
            MAX_AMMO
        }
    }

    /// Column of the player.
    pub fn x(&self) -> (x: usize)
        ensures
            x == self@.x,
    {
        self.x
    }

    /// Row of the player.
    pub fn y(&self) -> (y: usize)
        ensures
            y == self@.y,
    {
        self.y
    }

    /// Rounds in the magazine.
    pub fn count_ammo(&self) -> (ammo: u32)
        ensures
            ammo == self@.ammo,
    {
        self.count_ammo
    }

    /// Shots fired so far; the count stops at `u32::MAX`.
    pub fn count_shot(&self) -> (fired: u32)
        ensures
            fired == self@.fired,
    {
        self.count_shot
    }

    /// Number of shots in flight.
    pub fn shots_in_flight(&self) -> (n: usize)
        ensures
            n == self@.shots.len(),
    {
        self.shots.len()
    }

    /// The `i`-th shot in flight, oldest first.
    pub fn shot(&self, i: usize) -> (shot: Shot)
        requires
            i < self@.shots.len(),
        ensures
            shot@ == self@.shots[i as int],
    {
        self.shots[i]
    }
}

impl Default for Player {
    /// The player at the start of a game.
    fn default() -> (player: Player)
        ensures
            player@ == PlayerView::fresh(),
            player@.wf(),
    {
        Player::new()
    }
}

impl Drawable for Player {
    open spec fn drawable(&self) -> bool {
        self@.wf()
    }

    open spec fn painted(&self, grid: Seq<Seq<char>>) -> Seq<Seq<char>> {
        self@.painted(grid)
    }

    fn draw(&self, frame: &mut Frame) {
        frame.set(self.x, self.y, PLAYER_GLYPH);
        let mut i: usize = 0;
        while i < self.shots.len()
            invariant
                i <= self.shots.len(),
                self@.wf(),
                frame.wf(),
                frame@ == shots_painted(
                    grid_put(old(frame)@, self@.x, self@.y, PLAYER_GLYPH),
                    self@.shots,
                    i as nat,
                ),
            decreases self.shots.len() - i,
        {
            assert(self.shots[i as int]@ == self@.shots[i as int]);
            self.shots[i].draw(frame);
            i += 1;
        }
    }
}

} // verus!
