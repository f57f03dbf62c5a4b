use petri::rendering::gui_renderer::stat_app::count_label;
use petri::simulation::simulation::should_continue;

#[test]
fn counts_grouped_in_thousands() {
    assert_eq!(count_label(0), "0");
    assert_eq!(count_label(999), "999");
    assert_eq!(count_label(1000), "1,000");
    assert_eq!(count_label(1_234_567), "1,234,567");
    assert_eq!(count_label(600_000), "600,000");
    assert_eq!(count_label(u64::MAX), "18,446,744,073,709,551,615");
}

#[test]
fn zero_max_ticks_never_stops() {
    assert!(should_continue(0, 0));
    assert!(should_continue(u128::MAX, 0));
}

#[test]
fn stops_at_max_ticks() {
    assert!(should_continue(9, 10));
    assert!(!should_continue(10, 10));
    assert!(!should_continue(11, 10));
}
