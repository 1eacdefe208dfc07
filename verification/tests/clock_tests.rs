use particles::clock::Clock;
use particles::rng::Lcg;

#[test]
fn first_step_only_sets_the_baseline() {
    let mut c = Clock::new();
    let dt = c.advance(1_000_000);
    assert_eq!(dt, 0);
    assert_eq!(c.total_frames, 0);
    assert_eq!(c.total_time, 0);
    assert_eq!(c.prev_time, 1_000_000);
}

#[test]
fn later_steps_yield_the_elapsed_delta() {
    let mut c = Clock::new();
    c.advance(1_000_000);
    let dt = c.advance(1_250_000);
    assert_eq!(dt, 250_000);
    assert_eq!(c.total_frames, 1);
    assert_eq!(c.total_time, 250_000);
    let dt2 = c.advance(1_750_000);
    assert_eq!(dt2, 500_000);
    assert_eq!(c.total_frames, 2);
    assert_eq!(c.total_time, 750_000);
}

#[test]
fn a_zero_timestamp_keeps_the_sentinel() {
    // a previous timestamp of zero means "no previous frame", so a
    // step at time zero establishes no baseline
    let mut c = Clock::new();
    assert_eq!(c.advance(0), 0);
    assert_eq!(c.advance(0), 0);
    assert_eq!(c.total_frames, 0);
    assert_eq!(c.prev_time, 0);
}

#[test]
fn reset_clears_the_accumulators() {
    let mut c = Clock::new();
    c.advance(1_000_000);
    c.advance(2_000_000);
    c.reset();
    assert_eq!(c.prev_time, 0);
    assert_eq!(c.total_time, 0);
    assert_eq!(c.total_frames, 0);
}

#[test]
fn equal_seeds_draw_equal_fractions() {
    let mut a = Lcg::new(123);
    let mut b = Lcg::new(123);
    for _ in 0..32 {
        let x = a.next_unit();
        let y = b.next_unit();
        assert_eq!(x, y);
        assert!(0 <= x && x < 1_000_000);
    }
}

#[test]
fn different_seeds_diverge() {
    let mut a = Lcg::new(1);
    let mut b = Lcg::new(2);
    let mut same = true;
    for _ in 0..8 {
        if a.next_unit() != b.next_unit() {
            same = false;
        }
    }
    assert!(!same);
}

#[test]
fn rand_range_stays_inside_the_range() {
    let mut rng = Lcg::new(5);
    for _ in 0..32 {
        let v = particles::particle::rand_range(100_000, 500_000, &mut rng);
        assert!(100_000 <= v && v <= 500_000);
    }
}
