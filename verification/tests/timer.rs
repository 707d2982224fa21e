use invaders::timer::Countdown;
use rusty_time::timer::Timer;
use std::time::Duration;

const MS: u64 = 1_000_000;

#[test]
fn countdown_starts_with_its_whole_period() {
    let timer = Countdown::from_millis(500);
    assert_eq!(timer.period(), 500 * MS);
    assert_eq!(timer.time_left(), 500 * MS);
    assert!(!timer.ready());
}

#[test]
fn countdown_elapses_when_more_than_the_time_left_passes() {
    let mut timer = Countdown::from_millis(500);
    timer.update(300 * MS);
    assert!(!timer.ready());
    assert_eq!(timer.time_left(), 200 * MS);
    timer.update(300 * MS);
    assert!(timer.ready());
    assert_eq!(timer.time_left(), 0);
    timer.reset();
    assert!(!timer.ready());
    assert_eq!(timer.time_left(), 500 * MS);
}

#[test]
fn countdown_at_zero_is_not_yet_elapsed() {
    let mut timer = Countdown::from_millis(500);
    timer.update(500 * MS);
    assert_eq!(timer.time_left(), 0);
    assert!(!timer.ready());
    timer.update(1);
    assert!(timer.ready());
}

#[test]
fn elapsed_countdown_stays_ready_until_reset() {
    let mut timer = Countdown::from_millis(10);
    timer.update(11 * MS);
    assert!(timer.ready());
    timer.update(1000 * MS);
    assert!(timer.ready());
    assert_eq!(timer.time_left(), 0);
    assert_eq!(timer.period(), 10 * MS);
    timer.reset();
    assert!(!timer.ready());
}

#[test]
fn zero_delta_changes_nothing() {
    let mut timer = Countdown::from_millis(7);
    timer.update(0);
    assert_eq!(timer.time_left(), 7 * MS);
    assert!(!timer.ready());
}

#[test]
fn tick_reports_each_elapse_once_and_restarts() {
    let mut timer = Countdown::from_millis(100);
    assert!(!timer.tick(60 * MS));
    assert_eq!(timer.time_left(), 40 * MS);
    assert!(timer.tick(60 * MS));
    assert!(!timer.ready());
    assert_eq!(timer.time_left(), 100 * MS);
    assert!(!timer.tick(100 * MS));
    assert!(timer.tick(1));
    assert_eq!(timer.time_left(), 100 * MS);
}

#[test]
fn longest_countdown_fits() {
    let mut timer = Countdown::from_millis(u32::MAX);
    assert_eq!(timer.period(), 4_294_967_295 * MS);
    timer.update(u64::MAX);
    assert!(timer.ready());
    assert_eq!(timer.time_left(), 0);
}

#[test]
fn countdown_keeps_step_with_the_outside_timer() {
    let deltas: [u64; 12] = [0, 1, 299_999_999, 1, 200_000_000, 1, 5, 0, 999_999_999, 1, 1, 7];
    let mut countdown = Countdown::from_millis(500);
    let mut timer = Timer::from_millis(500);
    for (round, delta) in deltas.iter().enumerate() {
        countdown.update(*delta);
        timer.update(Duration::from_nanos(*delta));
        assert_eq!(u128::from(countdown.time_left()), timer.time_left.as_nanos());
        assert_eq!(countdown.ready(), timer.ready);
        assert_eq!(u128::from(countdown.period()), timer.duration.as_nanos());
        if round % 5 == 4 {
            countdown.reset();
            timer.reset();
            assert_eq!(u128::from(countdown.time_left()), timer.time_left.as_nanos());
            assert_eq!(countdown.ready(), timer.ready);
        }
    }
}
