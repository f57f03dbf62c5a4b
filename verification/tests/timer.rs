use petri::timing::timer::{time_to_readable, Timer};

#[test]
fn readable_nanoseconds() {
    assert_eq!(time_to_readable(0), (0, String::from("ns")));
    assert_eq!(time_to_readable(999), (999, String::from("ns")));
}

#[test]
fn readable_microseconds() {
    assert_eq!(time_to_readable(1_000), (1, String::from("us")));
    assert_eq!(time_to_readable(999_999), (999, String::from("us")));
}

#[test]
fn readable_milliseconds() {
    assert_eq!(time_to_readable(1_000_000), (1, String::from("ms")));
    assert_eq!(time_to_readable(1_500_000), (1, String::from("ms")));
}

#[test]
fn readable_seconds() {
    assert_eq!(time_to_readable(1_000_000_000), (1, String::from("s")));
    assert_eq!(time_to_readable(12_345_678_901), (12, String::from("s")));
}

#[test]
fn empty_timer_reports_zero() {
    let t = Timer::new();
    assert_eq!(t.min(), (0, String::from("ns")));
    assert_eq!(t.max(), (0, String::from("ns")));
    assert_eq!(t.mean(), (0, String::from("ns")));
    assert_eq!(t.raw_imean(), 0);
}

#[test]
fn timer_bounds_its_samples() {
    let mut t = Timer::default();
    t.update(2_000);
    t.update(5_000);
    t.update(3_000);
    let (min, unit) = t.min();
    assert_eq!(unit, "us");
    assert!(min <= 2);
    let (max, unit) = t.max();
    assert_eq!(unit, "us");
    assert!(max >= 5);
    let mean = t.raw_imean();
    assert!(mean >= 2_900 && mean <= 3_500);
}

#[test]
fn timer_reset_forgets_samples() {
    let mut t = Timer::new();
    t.update(7_000_000);
    assert!(t.raw_imean() > 0);
    t.reset();
    assert_eq!(t.raw_imean(), 0);
    assert_eq!(t.max(), (0, String::from("ns")));
}

#[test]
fn small_durations_reported_exactly() {
    let mut t = Timer::new();
    t.update(100);
    t.update(200);
    assert_eq!(t.min(), (100, String::from("ns")));
    assert_eq!(t.max(), (200, String::from("ns")));
    assert_eq!(t.raw_imean(), 150);
    assert_eq!(t.mean(), (150, String::from("ns")));
}

#[test]
fn zero_sample_gives_zero_min() {
    let mut t = Timer::new();
    t.update(0);
    t.update(50);
    assert_eq!(t.min(), (0, String::from("ns")));
    assert_eq!(t.max(), (50, String::from("ns")));
}

#[test]
fn durations_above_exact_range_report_bucket_edges() {
    let mut t = Timer::new();
    t.update(301);
    assert_eq!(t.min(), (300, "ns".to_string()));
    assert_eq!(t.max(), (301, "ns".to_string()));
    t.update(997);
    assert_eq!(t.min(), (300, "ns".to_string()));
    assert_eq!(t.max(), (999, "ns".to_string()));
}

#[test]
fn a_zero_sample_makes_min_zero_and_max_its_bucket_top() {
    let mut t = Timer::new();
    t.update(500);
    t.update(0);
    assert_eq!(t.min(), (0, "ns".to_string()));
    assert_eq!(t.max(), (501, "ns".to_string()));
}
