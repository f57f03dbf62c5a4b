use petri::driver::driver::{LoopAction, LoopEvent, LoopState};
use petri::driver::stats::Stats;
use petri::glass::sim_renderer::{camera_step, KeyCode};
use petri::rendering::render_driver::handle_window_event;
use petri::rendering::sim_renderer::vertex::needs_realloc;
use petri::simulation::time::Ticker;

#[test]
fn frame_rate_reported_every_hundredth_frame() {
    let mut s = LoopState::new();
    let mut reports = 0;
    for _ in 0..250 {
        match s.step(LoopEvent::RedrawRequested) {
            LoopAction::Render { report_fps } => {
                if report_fps {
                    reports += 1;
                    assert_eq!(s.tick % 100, 0);
                }
            }
            other => panic!("unexpected {:?}", other),
        }
    }
    assert_eq!(reports, 2);
    assert_eq!(s.tick, 250);
}

#[test]
fn loop_actions() {
    let mut s = LoopState::new();
    assert_eq!(s.step(LoopEvent::MainEventsCleared), LoopAction::UpdateAndRequestRedraw);
    assert_eq!(s.step(LoopEvent::CloseRequested), LoopAction::Exit);
    assert_eq!(s.step(LoopEvent::Resized { width: 800, height: 600 }), LoopAction::Resize { width: 800, height: 600 });
    assert_eq!(
        s.step(LoopEvent::ScaleFactorChanged { width: 10, height: 20 }),
        LoopAction::Resize { width: 10, height: 20 }
    );
    assert_eq!(s.step(LoopEvent::Other), LoopAction::Nothing);
    assert_eq!(s.tick, 0);
}

#[test]
fn consumed_window_events_do_nothing() {
    assert_eq!(handle_window_event(true, LoopEvent::CloseRequested), LoopAction::Nothing);
    assert_eq!(handle_window_event(false, LoopEvent::CloseRequested), LoopAction::Exit);
    assert_eq!(
        handle_window_event(false, LoopEvent::Resized { width: 3, height: 4 }),
        LoopAction::Resize { width: 3, height: 4 }
    );
    assert_eq!(handle_window_event(false, LoopEvent::RedrawRequested), LoopAction::Nothing);
}

#[test]
fn arrow_keys_move_camera() {
    assert_eq!(camera_step(KeyCode::Up), Some((0, 10)));
    assert_eq!(camera_step(KeyCode::Left), Some((-10, 0)));
    assert_eq!(camera_step(KeyCode::Down), Some((0, -10)));
    assert_eq!(camera_step(KeyCode::Right), Some((10, 0)));
    assert_eq!(camera_step(KeyCode::Other), None);
}

#[test]
fn vertex_buffer_grows_only_when_too_small() {
    assert!(!needs_realloc(100, 28, 2800));
    assert!(needs_realloc(101, 28, 2800));
    assert!(!needs_realloc(0, 28, 0));
    assert!(!needs_realloc(1000, 28, u64::MAX));
}

#[test]
fn ticker_counts_ticks() {
    let mut t = Ticker::default();
    assert_eq!(t.tick, 0);
    t.tick();
    t.tick();
    assert_eq!(t.tick, 2);
    assert!(t.tick_rate >= 1 && t.tick_rate <= 2);
    let _ = t.delta_time();
    let _ = t.time_since_start();
}

#[test]
fn stats_count_frames() {
    let mut s = Stats::default();
    s.tick();
    assert_eq!(s.tick, 1);
    assert_eq!(s.fps, 1);
    let _ = s.since_start();
}
