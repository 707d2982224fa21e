use invaders::frame::{new_frame, Drawable};
use invaders::shot::{
    Shot, EXPLOSION_GLYPH, EXPLOSION_MILLIS, SHOT_CLIMB, SHOT_GLYPH, SHOT_STEP_MILLIS,
};

const MS: u64 = 1_000_000;

#[test]
fn shot_constants() {
    assert_eq!(SHOT_STEP_MILLIS, 50);
    assert_eq!(SHOT_CLIMB, 1);
    assert_eq!(EXPLOSION_MILLIS, 250);
    assert_eq!(SHOT_GLYPH, '|');
    assert_eq!(EXPLOSION_GLYPH, '*');
}

#[test]
fn new_shot_travels() {
    let shot = Shot::new(7, 18);
    assert_eq!(shot.x(), 7);
    assert_eq!(shot.y(), 18);
    assert!(!shot.exploding());
    assert!(!shot.dead());
}

#[test]
fn shot_climbs_one_row_per_step() {
    let mut shot = Shot::new(7, 18);
    shot.update(50 * MS);
    assert_eq!(shot.y(), 18);
    shot.update(1);
    assert_eq!(shot.y(), 17);
    shot.update(51 * MS);
    assert_eq!(shot.y(), 16);
    assert_eq!(shot.x(), 7);
}

#[test]
fn long_delta_is_one_step() {
    let mut shot = Shot::new(7, 18);
    shot.update(1000 * MS);
    assert_eq!(shot.y(), 17);
}

#[test]
fn shot_dies_at_the_top_row() {
    let mut shot = Shot::new(3, 2);
    shot.update(51 * MS);
    assert_eq!(shot.y(), 1);
    assert!(!shot.dead());
    shot.update(51 * MS);
    assert_eq!(shot.y(), 0);
    assert!(shot.dead());
    shot.update(51 * MS);
    assert_eq!(shot.y(), 0);
    assert!(shot.dead());
}

#[test]
fn shot_fired_in_the_top_row_is_dead() {
    let shot = Shot::new(0, 0);
    assert!(shot.dead());
}

#[test]
fn exploding_shot_stays_in_place_and_then_dies() {
    let mut shot = Shot::new(4, 9);
    shot.update(30 * MS);
    shot.explode();
    assert!(shot.exploding());
    assert!(!shot.dead());
    shot.update(250 * MS);
    assert_eq!(shot.y(), 9);
    assert!(!shot.dead());
    shot.update(1);
    assert_eq!(shot.y(), 9);
    assert!(shot.dead());
}

#[test]
fn explosion_outlasts_a_travel_step() {
    let mut shot = Shot::new(4, 9);
    shot.explode();
    shot.update(51 * MS);
    assert_eq!(shot.y(), 9);
    assert!(!shot.dead());
}

#[test]
fn shot_glyphs() {
    let mut frame = new_frame();
    let mut shot = Shot::new(10, 10);
    shot.draw(&mut frame);
    assert_eq!(frame.get(10, 10), '|');
    shot.explode();
    shot.draw(&mut frame);
    assert_eq!(frame.get(10, 10), '*');
}
