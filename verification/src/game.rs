//! The simulation step: what one tick makes of the game, given the time
//! that has passed and the commands that have come in.
//!
//! The step decides; it performs nothing. Its caller polls the keyboard,
//! hands the commands over, and carries out what the step reports: the
//! frame to show and the sounds to play.

use vstd::prelude::*;
use crate::frame::{blank_grid, new_frame, Drawable, Frame};
use crate::invaders::{lemma_update_keeps_swarm, Invaders, InvadersView};
use crate::player::{
    lemma_hits_pay_once, lemma_update_keeps_player, resolve_hits, Clash, Player, PlayerView,
    MAX_AMMO,
};
use crate::NUM_COLS;

verus! {

/// A command of the player.
#[derive(Clone, Copy, Debug, PartialEq, Eq, Structural)]
pub enum Command {
    /// Move one column to the left.
    MoveLeft,
    /// Move one column to the right.
    MoveRight,
    /// Fire a shot.
    Shoot,
    /// Give the game up.
    Quit,
}

/// A sound that the game asks for.
#[derive(Clone, Copy, Debug, PartialEq, Eq, Structural)]
pub enum Cue {
    /// The game begins.
    Startup,
    /// The swarm has moved.
    Move,
    /// A shot was fired.
    Pew,
    /// The trigger was pulled on an empty magazine.
    Meow,
    /// A shot has hit an invader.
    Explode,
    /// The player has won.
    Win,
    /// The player has lost, or has given up.
    Lose,
}

/// The name under which the sound `cue` is known to whoever plays it.
pub open spec fn cue_name(cue: Cue) -> Seq<char> {
    match cue {
        Cue::Startup => "startup"@,
        Cue::Move => "move"@,
        Cue::Pew => "pew"@,
        Cue::Meow => "meow"@,
        Cue::Explode => "explode"@,
        Cue::Win => "win"@,
        Cue::Lose => "lose"@,
    }
}

impl Cue {
    /// The name under which the sound is known to whoever plays it.
    pub fn name(self) -> (name: &'static str)
        ensures
            name@ == cue_name(self),
    {
        match self {
            Cue::Startup => "startup",
            Cue::Move => "move",
            Cue::Pew => "pew",
            Cue::Meow => "meow",
            Cue::Explode => "explode",
            Cue::Win => "win",
            Cue::Lose => "lose",
        }
    }
}

/// How the game stands.
#[derive(Clone, Copy, Debug, PartialEq, Eq, Structural)]
pub enum Outcome {
    /// The game goes on.
    Running,
    /// No invader is left: the player has won.
    Won,
    /// An invader has reached the player's row: the player has lost.
    Lost,
    /// The player has given up.
    Quit,
}

/// What the commands of one tick have made of the player.
pub struct Input {
    /// The player after the commands.
    pub player: PlayerView,
    /// The sounds that the commands ask for, in their order.
    pub cues: Seq<Cue>,
    /// Whether the player has given up.
    pub quit: bool,
}

/// The outcome of the first `n` commands of `commands` on `player`, taken
/// in their order. A shot that is fired asks for `Pew`; the trigger pulled
/// on an empty magazine asks for `Meow`; pulled while the most shots are in
/// flight it asks for nothing. After `Quit` no command counts.
pub open spec fn apply_commands(player: PlayerView, commands: Seq<Command>, n: nat) -> Input
    decreases n,
{
    if n == 0 {
        Input { player, cues: Seq::empty(), quit: false }
    } else {
        let before = apply_commands(player, commands, (n - 1) as nat);
        if before.quit {
            before
        } else {
            match commands[n - 1] {
                Command::MoveLeft => Input { player: before.player.after_move_left(), ..before },
                Command::MoveRight => Input { player: before.player.after_move_right(), ..before },
                Command::Shoot => if before.player.can_shoot() {
                    Input {
                        player: before.player.after_shoot(),
                        cues: before.cues.push(Cue::Pew),
                        ..before
                    }
                } else if before.player.ammo == 0 {
                    Input { cues: before.cues.push(Cue::Meow), ..before }
                } else {
                    before
                },
                Command::Quit => Input { quit: true, ..before },
            }
        }
    }
}

/// How the game stands at the end of a tick: won once no invader is left;
/// else lost once an invader stands in the player's row; else given up if
/// the player asked for that; else running.
pub open spec fn judge(invaders: InvadersView, quit: bool) -> Outcome {
    if invaders.all_killed() {
        Outcome::Won
    } else if invaders.reached_bottom() {
        Outcome::Lost
    } else if quit {
        Outcome::Quit
    } else {
        Outcome::Running
    }
}

/// The sound that goes with the end of a game, if the game has ended.
pub open spec fn outcome_cues(outcome: Outcome) -> Seq<Cue> {
    match outcome {
        Outcome::Running => Seq::empty(),
        Outcome::Won => seq![Cue::Win],
        Outcome::Lost => seq![Cue::Lose],
        Outcome::Quit => seq![Cue::Lose],
    }
}

/// The mathematical state of the game.
pub struct GameView {
    /// The player.
    pub player: PlayerView,
    /// The swarm.
    pub invaders: InvadersView,
    /// How the game stands.
    pub outcome: Outcome,
}

/// What one tick hands to the outside, as mathematical values.
pub struct Report {
    /// The screen after the tick.
    pub frame: Seq<Seq<char>>,
    /// Rounds in the magazine after the tick.
    pub ammo: nat,
    /// The sounds to play, in their order.
    pub cues: Seq<Cue>,
    /// How the game stands after the tick.
    pub outcome: Outcome,
}

impl GameView {
    /// Player and swarm are well formed, and the game stands as the swarm
    /// says: it is won only with no invader left, and lost only with one in
    /// the player's row.
    pub open spec fn wf(self) -> bool {
        &&& self.player.wf()
        &&& self.invaders.wf()
        &&& self.outcome == Outcome::Won ==> self.invaders.all_killed()
        &&& self.outcome == Outcome::Lost ==> self.invaders.reached_bottom()
            && !self.invaders.all_killed()
    }

    /// A game that is about to begin.
    pub open spec fn fresh() -> GameView {
        GameView {
            player: PlayerView::fresh(),
            invaders: InvadersView::fresh(),
            outcome: Outcome::Running,
        }
    }

    /// The screen that shows the game: the player and the shots on a blank
    /// frame, and the invaders over them.
    pub open spec fn frame(self) -> Seq<Seq<char>> {
        self.invaders.painted(self.player.painted(blank_grid()))
    }

    /// The player after this tick's commands.
    pub open spec fn input(self, commands: Seq<Command>) -> Input {
        apply_commands(self.player, commands, commands.len())
    }

    /// Player and swarm after the commands, `delta` nanoseconds and the
    /// resolution of the shots against the swarm.
    pub open spec fn clash(self, delta: nat, commands: Seq<Command>) -> Clash {
        let player = self.input(commands).player.after_update(delta);
        resolve_hits(player, self.invaders.after_update(delta), player.shots.len())
    }

    /// The game after one tick. A game that has ended stays as it is. In a
    /// running game the commands are applied, the player's shots and
    /// magazine and then the swarm are advanced by `delta` nanoseconds, the
    /// shots are resolved against the swarm, and the outcome is judged.
    pub open spec fn after_step(self, delta: nat, commands: Seq<Command>) -> GameView {
        if self.outcome != Outcome::Running {
            self
        } else {
            let clash = self.clash(delta, commands);
            GameView {
                player: clash.player,
                invaders: clash.invaders,
                outcome: judge(clash.invaders, self.input(commands).quit),
            }
        }
    }

    /// The sounds of one tick, in their order: those of the commands,
    /// `Move` if the swarm moved, `Explode` if a shot hit, and the sound of
    /// the end if the game ended. A game that has ended is silent.
    pub open spec fn cues(self, delta: nat, commands: Seq<Command>) -> Seq<Cue> {
        if self.outcome != Outcome::Running {
            Seq::empty()
        } else {
            self.input(commands).cues + (if self.invaders.timer.after_update(delta).ready {
                seq![Cue::Move]
            } else {
                Seq::empty()
            }) + (if self.clash(delta, commands).hit {
                seq![Cue::Explode]
            } else {
                Seq::empty()
            }) + outcome_cues(self.after_step(delta, commands).outcome)
        }
    }

    /// What one tick hands to the outside.
    pub open spec fn report(self, delta: nat, commands: Seq<Command>) -> Report {
        let next = self.after_step(delta, commands);
        Report {
            frame: next.frame(),
            ammo: next.player.ammo,
            cues: self.cues(delta, commands),
            outcome: next.outcome,
        }
    }
}

/// One tick of the game as its caller sees it: the time that has passed,
/// in nanoseconds, and the commands that have come in.
pub struct Turn {
    /// Nanoseconds since the tick before.
    pub delta: nat,
    /// The commands that have come in since the tick before.
    pub commands: Seq<Command>,
}

impl GameView {
    /// The game after all of `turns`, in their order.
    pub open spec fn after_turns(self, turns: Seq<Turn>) -> GameView
        decreases turns.len(),
    {
        if turns.len() == 0 {
            self
        } else {
            self.after_turns(turns.drop_last()).after_step(turns.last().delta, turns.last().commands)
        }
    }
}

/// Commands keep the player well formed.
pub proof fn lemma_commands_keep_player(player: PlayerView, commands: Seq<Command>, n: nat)
    requires
        player.wf(),
        n <= commands.len(),
    ensures
        apply_commands(player, commands, n).player.wf(),
    decreases n,
{
    if n > 0 {
        lemma_commands_keep_player(player, commands, (n - 1) as nat);
    }
}

/// A tick keeps the game well formed, and a game that has ended stays as it
/// is, without a sound.
pub proof fn lemma_step_keeps_game(game: GameView, delta: nat, commands: Seq<Command>)
    requires
        game.wf(),
    ensures
        game.after_step(delta, commands).wf(),
        game.outcome != Outcome::Running ==> game.after_step(delta, commands) == game
            && game.cues(delta, commands) == Seq::<Cue>::empty(),
{
    if game.outcome == Outcome::Running {
        lemma_commands_keep_player(game.player, commands, commands.len());
        let player = game.input(commands).player.after_update(delta);
        lemma_update_keeps_player(game.input(commands).player, delta);
        lemma_update_keeps_swarm(game.invaders, delta);
        lemma_hits_pay_once(player, game.invaders.after_update(delta), player.shots.len());
    }
}

/// Whatever the ticks of a game bring, after each of them the magazine
/// holds between 0 and `MAX_AMMO` rounds and every living invader stands in
/// a column of the playfield.
pub proof fn lemma_game_stays_in_bounds(game: GameView, turns: Seq<Turn>)
    requires
        game.wf(),
    ensures
        game.after_turns(turns).wf(),
        forall|k: int|
            0 <= k <= turns.len() ==> {
                let then = #[trigger] game.after_turns(turns.take(k));
                &&& 0 <= then.player.ammo <= MAX_AMMO
                &&& forall|x: int, y: int| #[trigger]
                    then.invaders.alive_at(x, y) ==> 0 <= x <= NUM_COLS - 1
            },
    decreases turns.len(),
{
    if turns.len() > 0 {
        let earlier = turns.drop_last();
        lemma_game_stays_in_bounds(game, earlier);
        lemma_step_keeps_game(game.after_turns(earlier), turns.last().delta, turns.last().commands);
        assert forall|k: int| 0 <= k <= turns.len() implies {
            let then = #[trigger] game.after_turns(turns.take(k));
            &&& 0 <= then.player.ammo <= MAX_AMMO
            &&& forall|x: int, y: int| #[trigger]
                then.invaders.alive_at(x, y) ==> 0 <= x <= NUM_COLS - 1
        } by {
            if k < turns.len() {
                assert(turns.take(k) =~= earlier.take(k));
            } else {
                assert(turns.take(k) =~= turns);
            }
        }
    } else {
        assert forall|k: int| 0 <= k <= turns.len() implies {
            let then = #[trigger] game.after_turns(turns.take(k));
            &&& 0 <= then.player.ammo <= MAX_AMMO
            &&& forall|x: int, y: int| #[trigger]
                then.invaders.alive_at(x, y) ==> 0 <= x <= NUM_COLS - 1
        } by {
            assert(turns.take(k) =~= turns);
        }
    }
}

/// What one tick hands to the outside.
pub struct Tick {
    /// The screen after the tick.
    pub frame: Frame,
    /// Rounds in the magazine after the tick.
    pub ammo: u32,
    /// The sounds to play, in their order.
    pub cues: Vec<Cue>,
    /// How the game stands after the tick.
    pub outcome: Outcome,
}

impl View for Tick {
    type V = Report;

    open spec fn view(&self) -> Report {
        Report {
            frame: self.frame@,
            ammo: self.ammo as nat,
            cues: self.cues@,
            outcome: self.outcome,
        }
    }
}

/// The game: the player, the swarm, and how the game stands.
pub struct Game {
    player: Player,
    invaders: Invaders,
    outcome: Outcome,
}

impl View for Game {
    type V = GameView;

    closed spec fn view(&self) -> GameView {
        GameView { player: self.player@, invaders: self.invaders@, outcome: self.outcome }
    }
}

impl Game {
    /// A game that is about to begin.
    pub fn new() -> (game: Game)
        ensures
            game@ == GameView::fresh(),
            game@.wf(),
    {
        Game { player: Player::new(), invaders: Invaders::new(), outcome: Outcome::Running }
    }

    /// A running game with the given player and swarm.
    pub fn from_parts(player: Player, invaders: Invaders) -> (game: Game)
        requires
            player@.wf(),
            invaders@.wf(),
        ensures
            game@ == (GameView { player: player@, invaders: invaders@, outcome: Outcome::Running }),
            game@.wf(),
    {
        Game { player, invaders, outcome: Outcome::Running }
    }

    /// Applies the commands of one tick to the player, in their order and
    /// up to the first `Quit`. Adds the sounds they ask for to `cues`, and
    /// says whether the player has given up.
    fn apply(&mut self, commands: &Vec<Command>, cues: &mut Vec<Cue>) -> (quit: bool)
        requires
            old(self)@.wf(),
            old(cues)@ == Seq::<Cue>::empty(),
        ensures
            final(self)@.player == old(self)@.input(commands@).player,
            final(self)@.invaders == old(self)@.invaders,
            final(self)@.outcome == old(self)@.outcome,
            final(cues)@ == old(self)@.input(commands@).cues,
            quit == old(self)@.input(commands@).quit,
            final(self)@.wf(),
    {
        let mut quit = false;
        let mut i: usize = 0;
        while i < commands.len()
            invariant
                i <= commands.len(),
                self@.wf(),
                self@.invaders == old(self)@.invaders,
                self@.outcome == old(self)@.outcome,
                self@.player == apply_commands(old(self)@.player, commands@, i as nat).player,
                cues@ == apply_commands(old(self)@.player, commands@, i as nat).cues,
                quit == apply_commands(old(self)@.player, commands@, i as nat).quit,
            decreases commands.len() - i,
        {
            if !quit {
                match commands[i] {
                    Command::MoveLeft => self.player.move_left(),
                    Command::MoveRight => self.player.move_right(),
                    Command::Shoot => {
                        if self.player.shoot() {
                            cues.push(Cue::Pew);
                        } else if self.player.count_ammo() == 0 {
                            cues.push(Cue::Meow);
                        }
                    },
                    Command::Quit => {
                        quit = true;
                    },
                }
            }
            i += 1;
        }
        quit
    }

    /// Paints the game on a fresh frame.
    pub fn draw(&self) -> (frame: Frame)
        requires
            self@.wf(),
        ensures
            frame.wf(),
            frame@ == self@.frame(),
    {
        let mut frame = new_frame();
        self.player.draw(&mut frame);
        self.invaders.draw(&mut frame);
        frame
    }

    /// Simulates one tick: `delta` nanoseconds have passed since the last
    /// one, and `commands` have come in meanwhile. Hands back the frame to
    /// show, the rounds left, the sounds to play, and how the game stands.
    /// Once the game has ended a step changes nothing.
    pub fn step(&mut self, delta: u64, commands: &Vec<Command>) -> (tick: Tick)
        requires
            old(self)@.wf(),
        ensures
            final(self)@ == old(self)@.after_step(delta as nat, commands@),
            tick@ == old(self)@.report(delta as nat, commands@),
            old(self)@.outcome != Outcome::Running ==> final(self)@ == old(self)@ && tick.cues@
                == Seq::<Cue>::empty(),
            tick.frame.wf(),
            final(self)@.wf(),
    {
        let mut cues: Vec<Cue> = Vec::new();
        if !matches!(self.outcome, Outcome::Running) {
            return Tick {
                frame: self.draw(),
                ammo: self.player.count_ammo(),
                cues,
                outcome: self.outcome,
            };
        }
        let quit = self.apply(commands, &mut cues);
        self.player.update(delta);
        if self.invaders.update(delta) {
            cues.push(Cue::Move);
        }
        if self.player.detect_hits(&mut self.invaders) {
            cues.push(Cue::Explode);
        }
        let frame = self.draw();
        if self.invaders.all_killed() {
            self.outcome = Outcome::Won;
            cues.push(Cue::Win);
        } else if self.invaders.reached_bottom() {
            self.outcome = Outcome::Lost;
            cues.push(Cue::Lose);
        } else if quit {
            self.outcome = Outcome::Quit;
            cues.push(Cue::Lose);
        }
        assert(cues@ =~= old(self)@.cues(delta as nat, commands@));
        Tick { frame, ammo: self.player.count_ammo(), cues, outcome: self.outcome }
    }

    /// How the game stands.
    pub fn outcome(&self) -> (outcome: Outcome)
        ensures
            outcome == self@.outcome,
    {
        self.outcome
    }

    /// The player.
    pub fn player(&self) -> (player: &Player)
        ensures
            player@ == self@.player,
    {
        &self.player
    }

    /// The swarm.
    pub fn invaders(&self) -> (invaders: &Invaders)
        ensures
            invaders@ == self@.invaders,
    {
        &self.invaders
    }
}

} // verus!
