use petri::simulation::time::Ticker;

#[test]
fn ticks_count_up_and_start_stays() {
    let mut t = Ticker::default();
    let start = t.start_time;
    assert_eq!(t.tick, 0);
    assert_eq!(t.tick_rate, 0);
    t.tick();
    t.tick();
    t.tick();
    assert_eq!(t.tick, 3);
    assert!(t.tick_rate >= 1);
    assert_eq!(t.start_time, start);
    assert!(t.last_tick_time >= start);
}

#[test]
fn record_tick_stores_the_given_reading() {
    let mut t = Ticker::default();
    let start = t.start_time;
    let now = Ticker::now();
    t.record_tick(42, now, 7);
    assert_eq!(t.tick, 42);
    assert_eq!(t.tick_rate, 7);
    assert_eq!(t.last_tick_time, now);
    assert_eq!(t.start_time, start);
}
