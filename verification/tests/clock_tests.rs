use wave_pacing::clock::{Countdown, Millis, Stopwatch};

#[test]
fn stopwatch_accumulates_and_resets() {
    let mut sw = Stopwatch::new();
    assert_eq!(sw.elapsed(), Millis(0));
    sw.tick(Millis(100));
    sw.tick(Millis(250));
    assert_eq!(sw.elapsed(), Millis(350));
    sw.reset();
    assert_eq!(sw.elapsed(), Millis(0));
}

#[test]
fn stopwatch_saturates_at_max() {
    let mut sw = Stopwatch::new();
    sw.tick(Millis(u64::MAX - 5));
    sw.tick(Millis(100));
    assert_eq!(sw.elapsed(), Millis(u64::MAX));
}

#[test]
fn countdown_runs_out_and_stops_at_zero() {
    let mut cd = Countdown::new(Millis(500));
    assert!(!cd.finished());
    assert_eq!(cd.remaining(), Millis(500));
    cd.tick(Millis(200));
    assert_eq!(cd.remaining(), Millis(300));
    cd.tick(Millis(400));
    assert_eq!(cd.remaining(), Millis(0));
    assert!(cd.finished());
    cd.tick(Millis(100));
    assert_eq!(cd.remaining(), Millis(0));
}

#[test]
fn zero_countdown_is_finished_from_the_start() {
    let cd = Countdown::new(Millis(0));
    assert!(cd.finished());
}

#[test]
fn millis_from_u128_is_exact_below_the_limit() {
    assert_eq!(Millis::from(1234u128), Millis(1234));
    assert_eq!(Millis::from(u64::MAX as u128), Millis(u64::MAX));
}

#[test]
fn millis_from_u128_saturates_above_the_limit() {
    assert_eq!(Millis::from(u64::MAX as u128 + 1), Millis(u64::MAX));
    assert_eq!(Millis::from(u128::MAX), Millis(u64::MAX));
}
