use espy::pacing::{redraw_interval_millis, FramePacer, FPS};

#[test]
fn new_pacer_period_is_one_fifth_second() {
    let p = FramePacer::new(FPS);
    assert_eq!(p.period(), 200_000_000);
    assert_eq!(p.accumulator(), 0);
}

#[test]
fn tick_below_period_accumulates() {
    let mut p = FramePacer::new(FPS);
    assert!(!p.tick(150_000_000));
    assert_eq!(p.accumulator(), 150_000_000);
}

#[test]
fn tick_at_exact_period_is_not_due() {
    let mut p = FramePacer::new(FPS);
    assert!(!p.tick(200_000_000));
    assert_eq!(p.accumulator(), 200_000_000);
    assert!(p.tick(1));
    assert_eq!(p.accumulator(), 1);
}

#[test]
fn tick_above_period_takes_one_period_off() {
    let mut p = FramePacer::new(FPS);
    assert!(p.tick(250_000_000));
    assert_eq!(p.accumulator(), 50_000_000);
}

#[test]
fn long_pause_yields_one_frame_per_poll() {
    let mut p = FramePacer::new(FPS);
    assert!(p.tick(1_000_000_000));
    assert_eq!(p.accumulator(), 800_000_000);
    assert!(p.tick(0));
    assert!(p.tick(0));
    assert!(p.tick(0));
    assert_eq!(p.accumulator(), 200_000_000);
    assert!(!p.tick(0));
}

#[test]
fn run_conserves_time() {
    let ticks = [30_000_000u128, 250_000_000, 1, 199_999_999, 420_000_000, 0, 7];
    let mut p = FramePacer::new(FPS);
    let mut frames: u128 = 0;
    for t in ticks {
        if p.tick(t) {
            frames += 1;
        }
    }
    let total: u128 = ticks.iter().sum();
    assert_eq!(frames * p.period() + p.accumulator(), total);
    assert!(frames <= ticks.len() as u128);
}

#[test]
fn small_polls_stay_within_one_period() {
    let mut p = FramePacer::new(FPS);
    for i in 0..1000u128 {
        p.tick((i * 7_919_003) % 200_000_001);
        assert!(p.accumulator() <= p.period());
    }
}

#[test]
fn huge_fps_gives_zero_period() {
    let mut p = FramePacer::new(2_000_000_000);
    assert_eq!(p.period(), 0);
    assert!(!p.tick(0));
    assert!(p.tick(1));
}

#[test]
fn redraw_interval_is_200_ms_at_5_fps() {
    assert_eq!(redraw_interval_millis(5), 200);
    assert_eq!(redraw_interval_millis(3), 333);
    assert_eq!(redraw_interval_millis(2000), 0);
}
