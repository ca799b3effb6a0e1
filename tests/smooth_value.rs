use voxel_engine::smooth_value::{SmoothValue, SmoothValueBounded};

#[test]
fn new_channel_rests_at_its_value() {
    let mut v = SmoothValue::new(5, 10, 16384);
    assert_eq!(v.get(), 5);
    assert_eq!(v.get(), 5);
}

#[test]
fn value_follows_target_by_rounded_up_fraction() {
    let mut v = SmoothValue::new(0, 10, 16384);
    v.change(4);
    assert_eq!(v.get(), 10);
    assert_eq!(v.get(), 18);
    assert_eq!(v.get(), 24);
}

#[test]
fn negative_input_moves_down() {
    let mut v = SmoothValue::new(0, 10, 16384);
    v.change(-4);
    assert_eq!(v.get(), -10);
}

#[test]
fn constant_input_approaches_target_monotonically() {
    let mut v = SmoothValue::new(0, 3, 13107);
    let mut prev = 0i64;
    let mut target = 0i64;
    for _ in 0..50 {
        v.change(7);
        target += 21;
        let now = v.get();
        assert!(now > prev);
        assert!(now <= target);
        assert!((target - now) < (target - prev));
        prev = now;
    }
}

#[test]
fn try_change_refuses_overflow() {
    let mut v = SmoothValue::new(i64::MAX - 5, 1, 16384);
    assert!(!v.try_change(10));
    assert_eq!(v.get(), i64::MAX - 5);
    assert!(v.try_change(5));
    assert!(v.get() > i64::MAX - 5);
}

#[test]
fn bounded_clamps_target_and_value() {
    let mut v = SmoothValueBounded::new(100, 1000, 32768, 0, 1000);
    v.change(5);
    assert_eq!(v.get(), 550);
    assert_eq!(v.get(), 775);
    assert_eq!(v.get(), 888);
}

#[test]
fn bounded_never_exceeds_max() {
    let mut v = SmoothValueBounded::new(100, 1000, 32768, 0, 1000);
    for _ in 0..100 {
        v.change(1_000_000);
        let now = v.get();
        assert!(now <= 1000);
        assert!(now >= 0);
    }
    assert_eq!(v.get(), 1000);
}

#[test]
fn bounded_reaches_target_in_finite_steps() {
    let mut v = SmoothValueBounded::new(100, 1000, 32768, 0, 1000);
    v.change(5);
    let mut n = 0;
    while v.get() != 1000 {
        n += 1;
    }
    assert_eq!(n, 9);
}

#[test]
fn bounded_never_goes_below_min() {
    let mut v = SmoothValueBounded::new(500, 7, 40000, -20, 900);
    for _ in 0..200 {
        v.change(i64::MIN);
        assert!(v.get() >= -20);
    }
    assert_eq!(v.get(), -20);
}

#[test]
fn bounded_new_clamps_start() {
    let mut v = SmoothValueBounded::new(5000, 1, 16384, 0, 1000);
    assert_eq!(v.get(), 1000);
}
