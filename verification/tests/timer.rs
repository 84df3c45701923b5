use tavern_core::timer::Timer;

#[test]
fn timer_fires_exactly_once() {
    let mut timer = Timer::new(1000);
    assert!(!timer.tick(400));
    assert!(!timer.tick(599));
    assert_eq!(timer.elapsed, 999);
    assert!(timer.tick(1));
    assert!(timer.finished);
    assert!(timer.just_finished);
    assert!(!timer.tick(1));
    assert!(!timer.tick(5000));
    assert!(timer.finished);
    assert!(!timer.just_finished);
    assert_eq!(timer.elapsed, 1000);
}

#[test]
fn timer_fires_again_after_reset() {
    let mut timer = Timer::new(10);
    assert!(timer.tick(25));
    assert_eq!(timer.elapsed, 10);
    timer.reset();
    assert_eq!(timer, Timer { elapsed: 0, duration: 10, finished: false, just_finished: false });
    assert!(!timer.tick(9));
    assert!(timer.tick(1));
}

#[test]
fn timer_of_no_duration_fires_on_first_tick() {
    let mut timer = Timer::new(0);
    assert!(!timer.finished);
    assert!(timer.tick(0));
    assert!(!timer.tick(0));
}

#[test]
fn timer_takes_the_largest_tick() {
    let mut timer = Timer::new(u64::MAX);
    assert!(!timer.tick(u64::MAX - 1));
    assert!(timer.tick(u64::MAX));
    assert_eq!(timer.elapsed, u64::MAX);
}

#[test]
fn set_duration_changes_only_the_duration() {
    let mut timer = Timer::new(10);
    timer.tick(4);
    timer.set_duration(3000);
    assert_eq!(timer, Timer { elapsed: 4, duration: 3000, finished: false, just_finished: false });
    assert_eq!(timer.remaining(), 2996);
}

#[test]
fn scaled_left_rounds_down() {
    let mut timer = Timer::new(3000);
    assert_eq!(timer.scaled_left(1000), 1000);
    assert_eq!(timer.scaled_left(1300), 1300);
    timer.tick(1000);
    assert_eq!(timer.scaled_left(1000), 666);
    assert_eq!(timer.scaled_left(1300), 866);
    timer.tick(2000);
    assert_eq!(timer.scaled_left(1000), 0);
    assert_eq!(Timer::new(0).scaled_left(1000), 0);
}

fn compare_with_engine_timer(duration: u64, ticks: &[u64]) {
    let mut ours = Timer::new(duration);
    let mut engine =
        bevy::time::Timer::new(std::time::Duration::from_millis(duration), bevy::time::TimerMode::Once);
    for dt in ticks {
        let left = engine.percent_left();
        let scaled = ours.scaled_left(1000) as f32;
        assert!((left * 1000.0 - scaled).abs() <= 1.0, "{} of 1000 left, engine says {}", scaled, left);
        let fired = ours.tick(*dt);
        engine.tick(std::time::Duration::from_millis(*dt));
        assert_eq!(fired, engine.just_finished());
        assert_eq!(ours.just_finished, engine.just_finished());
        assert_eq!(ours.finished, engine.finished());
        assert_eq!(ours.elapsed as u128, engine.elapsed().as_millis());
        assert_eq!(ours.remaining() as u128, engine.remaining().as_millis());
    }
    ours.reset();
    engine.reset();
    ours.set_duration(duration / 2);
    engine.set_duration(std::time::Duration::from_millis(duration / 2));
    for dt in ticks {
        assert_eq!(ours.tick(*dt), engine.tick(std::time::Duration::from_millis(*dt)).just_finished());
        assert_eq!(ours.finished, engine.finished());
        assert_eq!(ours.elapsed as u128, engine.elapsed().as_millis());
    }
}

#[test]
fn timer_agrees_with_the_engine_timer() {
    compare_with_engine_timer(3000, &[16, 17, 16, 1000, 1950, 0, 1, 1, 16, 5000]);
    compare_with_engine_timer(1000, &[0, 0, 999, 0, 1, 0, 1]);
    compare_with_engine_timer(1000, &[1000, 1000]);
    compare_with_engine_timer(1, &[5, 5]);
    compare_with_engine_timer(0, &[0, 0, 7]);
    compare_with_engine_timer(0, &[7, 0]);
    let mut seed: u64 = 0x2545_f491_4f6c_dd1d;
    for _ in 0..200 {
        let mut ticks = Vec::new();
        for _ in 0..12 {
            seed ^= seed << 13;
            seed ^= seed >> 7;
            seed ^= seed << 17;
            ticks.push(seed % 700);
        }
        compare_with_engine_timer(seed % 4000, &ticks);
    }
}
