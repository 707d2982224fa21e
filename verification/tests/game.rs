use invaders::game::{Command, Cue, Game, Outcome};
use invaders::invaders::Invaders;
use invaders::player::Player;
use invaders::{NUM_COLS, NUM_ROWS};

const MS: u64 = 1_000_000;

/// A swarm of which only the invader at column 20 of row 8 is left.
fn lone_invader() -> Invaders {
    let mut invaders = Invaders::new();
    for y in [2, 4, 6, 8] {
        for c in 0..18 {
            let x = 2 + 2 * c;
            if !(x == 20 && y == 8) {
                assert!(invaders.kill_invader_at(x, y));
            }
        }
    }
    invaders
}

#[test]
fn cue_names() {
    assert_eq!(Cue::Startup.name(), "startup");
    assert_eq!(Cue::Move.name(), "move");
    assert_eq!(Cue::Pew.name(), "pew");
    assert_eq!(Cue::Meow.name(), "meow");
    assert_eq!(Cue::Explode.name(), "explode");
    assert_eq!(Cue::Win.name(), "win");
    assert_eq!(Cue::Lose.name(), "lose");
}

#[test]
fn new_game_is_running() {
    let game = Game::new();
    assert_eq!(game.outcome(), Outcome::Running);
    assert_eq!(game.player().x(), 20);
    assert_eq!(game.player().count_ammo(), 5);
    assert_eq!(game.invaders().count(), 72);
}

#[test]
fn quiet_tick_shows_player_and_swarm() {
    let mut game = Game::new();
    let tick = game.step(0, &vec![]);
    assert_eq!(tick.outcome, Outcome::Running);
    assert_eq!(tick.cues, vec![]);
    assert_eq!(tick.ammo, 5);
    for y in 0..NUM_ROWS {
        for x in 0..NUM_COLS {
            let invader = x >= 2 && x <= 36 && x % 2 == 0 && y >= 2 && y <= 8 && y % 2 == 0;
            let expected = if invader {
                'x'
            } else if (x, y) == (20, 19) {
                'A'
            } else {
                ' '
            };
            assert_eq!(tick.frame.get(x, y), expected);
        }
    }
}

#[test]
fn draw_shows_the_game_as_it_stands() {
    let mut game = Game::new();
    let tick = game.step(0, &vec![Command::MoveLeft, Command::Shoot]);
    let frame = game.draw();
    for y in 0..NUM_ROWS {
        for x in 0..NUM_COLS {
            assert_eq!(frame.get(x, y), tick.frame.get(x, y));
        }
    }
    assert_eq!(frame.get(19, 19), 'A');
    assert_eq!(frame.get(19, 18), '|');
    assert_eq!(frame.get(20, 19), ' ');
}

#[test]
fn commands_move_the_player() {
    let mut game = Game::new();
    game.step(0, &vec![Command::MoveLeft, Command::MoveLeft, Command::MoveRight]);
    assert_eq!(game.player().x(), 19);
    let many: Vec<Command> = (0..100).map(|_| Command::MoveRight).collect();
    let tick = game.step(0, &many);
    assert_eq!(game.player().x(), 39);
    assert_eq!(tick.frame.get(39, 19), 'A');
    assert_eq!(tick.cues, vec![]);
}

#[test]
fn shot_fired_asks_for_pew() {
    let mut game = Game::new();
    let tick = game.step(0, &vec![Command::Shoot]);
    assert_eq!(tick.cues, vec![Cue::Pew]);
    assert_eq!(tick.ammo, 4);
    assert_eq!(tick.frame.get(20, 18), '|');
    assert_eq!(game.player().shots_in_flight(), 1);
}

#[test]
fn shot_advances_in_the_tick_in_which_it_is_fired() {
    let mut game = Game::new();
    let tick = game.step(51 * MS, &vec![Command::Shoot]);
    assert_eq!(tick.frame.get(20, 18), ' ');
    assert_eq!(tick.frame.get(20, 17), '|');
}

#[test]
fn shot_refused_for_shots_in_flight_is_silent() {
    let mut game = Game::new();
    let tick = game.step(
        0,
        &vec![Command::MoveRight, Command::Shoot, Command::Shoot, Command::Shoot, Command::Shoot],
    );
    assert_eq!(tick.cues, vec![Cue::Pew, Cue::Pew, Cue::Pew]);
    assert_eq!(tick.ammo, 2);
    let tick = game.step(0, &vec![Command::Shoot]);
    assert_eq!(tick.cues, vec![]);
    assert_eq!(tick.ammo, 2);
}

#[test]
fn shot_refused_for_an_empty_magazine_asks_for_meow() {
    let mut game = Game::new();
    game.step(0, &vec![Command::MoveRight, Command::Shoot, Command::Shoot, Command::Shoot]);
    for _ in 0..18 {
        let tick = game.step(51 * MS, &vec![]);
        assert_eq!(tick.cues, vec![]);
    }
    assert_eq!(game.player().shots_in_flight(), 0);
    let tick = game.step(0, &vec![Command::Shoot, Command::Shoot, Command::Shoot]);
    assert_eq!(tick.cues, vec![Cue::Pew, Cue::Pew, Cue::Meow]);
    assert_eq!(tick.ammo, 0);
    assert_eq!(game.player().count_shot(), 5);
    let tick = game.step(0, &vec![Command::Shoot]);
    assert_eq!(tick.cues, vec![Cue::Meow]);
    assert_eq!(tick.ammo, 0);
    assert_eq!(game.player().shots_in_flight(), 2);
}

#[test]
fn swarm_move_asks_for_move() {
    let mut game = Game::new();
    let tick = game.step(2000 * MS, &vec![]);
    assert_eq!(tick.cues, vec![]);
    assert_eq!(tick.frame.get(2, 2), 'x');
    let tick = game.step(1, &vec![]);
    assert_eq!(tick.cues, vec![Cue::Move]);
    assert_eq!(tick.frame.get(2, 2), ' ');
    assert_eq!(tick.frame.get(3, 2), 'x');
    assert_eq!(tick.outcome, Outcome::Running);
}

#[test]
fn hit_kills_reloads_and_asks_for_explode() {
    let mut game = Game::new();
    let tick = game.step(51 * MS, &vec![Command::Shoot]);
    assert_eq!(tick.cues, vec![Cue::Pew]);
    assert_eq!(tick.ammo, 4);
    for _ in 0..8 {
        let tick = game.step(51 * MS, &vec![]);
        assert_eq!(tick.cues, vec![]);
        assert_eq!(tick.ammo, 4);
    }
    assert_eq!(game.player().shot(0).y(), 9);
    let tick = game.step(51 * MS, &vec![]);
    assert_eq!(tick.cues, vec![Cue::Explode]);
    assert_eq!(tick.ammo, 5);
    assert_eq!(tick.outcome, Outcome::Running);
    assert_eq!(tick.frame.get(20, 8), '*');
    assert!(!game.invaders().is_alive_at(20, 8));
    assert!(game.player().shot(0).exploding());
    assert_eq!(game.invaders().count(), 71);
    let tick = game.step(250 * MS, &vec![]);
    assert_eq!(tick.frame.get(20, 8), '*');
    let tick = game.step(1, &vec![]);
    assert_eq!(tick.frame.get(20, 8), ' ');
    assert_eq!(tick.cues, vec![]);
    assert_eq!(game.player().shots_in_flight(), 0);
}

#[test]
fn swarm_that_moves_into_a_shot_is_hit() {
    let mut game = Game::from_parts(Player::new(), Invaders::new());
    game.step(51 * MS, &vec![Command::MoveRight, Command::Shoot]);
    for _ in 0..8 {
        game.step(51 * MS, &vec![]);
    }
    assert_eq!(game.player().shot(0).y(), 9);
    assert_eq!(game.player().shot(0).x(), 21);
    assert!(!game.invaders().is_alive_at(21, 8));
    let tick = game.step(1950 * MS, &vec![]);
    assert_eq!(tick.cues, vec![Cue::Move, Cue::Explode]);
    assert_eq!(tick.frame.get(21, 8), '*');
    assert_eq!(tick.frame.get(19, 8), 'x');
    assert_eq!(tick.frame.get(23, 8), 'x');
    assert_eq!(game.invaders().count(), 71);
    assert!(!game.invaders().is_alive_at(21, 8));
    assert_eq!(tick.ammo, 5);
}

#[test]
fn killing_the_last_invader_ends_the_game_in_a_win() {
    let mut game = Game::from_parts(Player::new(), lone_invader());
    let tick = game.step(51 * MS, &vec![Command::Shoot]);
    assert_eq!(tick.outcome, Outcome::Running);
    for _ in 0..8 {
        let tick = game.step(51 * MS, &vec![]);
        assert_eq!(tick.outcome, Outcome::Running);
    }
    let tick = game.step(51 * MS, &vec![]);
    assert_eq!(tick.outcome, Outcome::Won);
    assert_eq!(tick.cues, vec![Cue::Explode, Cue::Win]);
    assert_eq!(tick.frame.get(20, 8), '*');
    assert_eq!(tick.frame.get(20, 19), 'A');
    assert!(game.invaders().all_killed());
    assert_eq!(game.outcome(), Outcome::Won);
}

#[test]
fn game_that_is_won_is_simulated_no_further() {
    let mut game = Game::from_parts(Player::new(), lone_invader());
    game.step(51 * MS, &vec![Command::Shoot]);
    for _ in 0..9 {
        game.step(51 * MS, &vec![]);
    }
    assert_eq!(game.outcome(), Outcome::Won);
    let ammo = game.player().count_ammo();
    let tick = game.step(10_000 * MS, &vec![Command::MoveLeft, Command::Shoot, Command::Quit]);
    assert_eq!(tick.outcome, Outcome::Won);
    assert_eq!(tick.cues, vec![]);
    assert_eq!(tick.ammo, ammo);
    assert_eq!(tick.frame.get(20, 8), '*');
    assert_eq!(tick.frame.get(20, 19), 'A');
    assert_eq!(game.player().x(), 20);
    assert_eq!(game.player().shots_in_flight(), 1);
    assert_eq!(game.player().count_shot(), 1);
}

#[test]
fn swarm_in_the_players_row_ends_the_game_in_a_loss() {
    let mut game = Game::new();
    game.step(0, &vec![Command::MoveRight]);
    let mut ticks: u32 = 0;
    loop {
        let tick = game.step(2001 * MS, &vec![]);
        ticks += 1;
        if tick.outcome != Outcome::Running {
            assert_eq!(tick.outcome, Outcome::Lost);
            assert_eq!(tick.cues, vec![Cue::Move, Cue::Lose]);
            assert_eq!(game.player().x(), 21);
            assert_eq!(tick.frame.get(21, 19), 'x');
            assert_eq!(tick.frame.get(20, 19), ' ');
            assert_eq!(tick.frame.get(39, 19), 'x');
            break;
        }
        assert_eq!(tick.cues, vec![Cue::Move]);
        assert!(ticks < 1000);
    }
    assert_eq!(ticks, 64);
    assert!(game.invaders().reached_bottom());
    assert!(!game.invaders().all_killed());
    assert_eq!(game.outcome(), Outcome::Lost);
    let tick = game.step(2001 * MS, &vec![Command::Shoot]);
    assert_eq!(tick.outcome, Outcome::Lost);
    assert_eq!(tick.cues, vec![]);
}

#[test]
fn quit_ends_the_game_after_the_tick() {
    let mut game = Game::new();
    let tick =
        game.step(0, &vec![Command::MoveLeft, Command::Quit, Command::Shoot, Command::MoveLeft]);
    assert_eq!(tick.outcome, Outcome::Quit);
    assert_eq!(tick.cues, vec![Cue::Lose]);
    assert_eq!(tick.ammo, 5);
    assert_eq!(tick.frame.get(19, 19), 'A');
    assert_eq!(game.player().x(), 19);
    assert_eq!(game.player().shots_in_flight(), 0);
    let tick = game.step(0, &vec![Command::MoveLeft]);
    assert_eq!(tick.outcome, Outcome::Quit);
    assert_eq!(tick.cues, vec![]);
    assert_eq!(game.player().x(), 19);
}

#[test]
fn win_goes_before_quit() {
    let mut game = Game::from_parts(Player::new(), lone_invader());
    game.step(51 * MS, &vec![Command::Shoot]);
    for _ in 0..8 {
        game.step(51 * MS, &vec![]);
    }
    let tick = game.step(51 * MS, &vec![Command::Quit]);
    assert_eq!(tick.outcome, Outcome::Won);
    assert_eq!(tick.cues, vec![Cue::Explode, Cue::Win]);
}
