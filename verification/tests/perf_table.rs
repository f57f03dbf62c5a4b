use petri::rendering::gui_renderer::perf_app::{group_timers, split_name, str_less, PerfApp};

fn entries(v: &[(&str, u64)]) -> Vec<(String, u64)> {
    v.iter().map(|(n, m)| (n.to_string(), *m)).collect()
}

#[test]
fn split_system_and_stage() {
    assert_eq!(split_name("physics.step"), ("physics".to_string(), "step".to_string()));
    assert_eq!(split_name("render.vertex_update.extra"), ("render".to_string(), "vertex_update".to_string()));
    assert_eq!(split_name("gui."), ("gui".to_string(), "".to_string()));
}

#[test]
fn text_order_is_str_order() {
    assert!(str_less("physics", "render"));
    assert!(!str_less("render", "physics"));
    assert!(str_less("phys", "physics"));
    assert!(!str_less("same", "same"));
    assert_eq!(str_less("Zeta", "alpha"), "Zeta" < "alpha");
}

#[test]
fn groups_by_system_sorted_by_name_and_mean() {
    let e = entries(&[
        ("render.step", 50),
        ("physics.pos_update", 10),
        ("physics.step", 300),
        ("physics.col_detect", 200),
        ("render.vertex_update", 80),
    ]);
    let out = group_timers(&e);
    assert_eq!(out.len(), 2);
    assert_eq!(out[0].system, "physics");
    let stages: Vec<(String, usize)> = out[0].stages.iter().map(|s| (s.stage.clone(), s.entry)).collect();
    assert_eq!(
        stages,
        vec![("step".to_string(), 2), ("col_detect".to_string(), 3), ("pos_update".to_string(), 1)]
    );
    assert_eq!(out[1].system, "render");
    let stages: Vec<(String, usize)> = out[1].stages.iter().map(|s| (s.stage.clone(), s.entry)).collect();
    assert_eq!(stages, vec![("vertex_update".to_string(), 4), ("step".to_string(), 0)]);
}

#[test]
fn every_timer_listed_once() {
    let e = entries(&[("a.x", 1), ("b.y", 1), ("a.z", 1), ("c.w", 9), ("a.x", 1)]);
    let out = group_timers(&e);
    let mut seen: Vec<usize> = out.iter().flat_map(|g| g.stages.iter().map(|s| s.entry)).collect();
    seen.sort();
    assert_eq!(seen, vec![0, 1, 2, 3, 4]);
    let systems: Vec<&str> = out.iter().map(|g| g.system.as_str()).collect();
    assert_eq!(systems, vec!["a", "b", "c"]);
}

#[test]
fn no_timers_no_tables() {
    assert!(group_timers(&Vec::new()).is_empty());
}

#[test]
fn timers_reset_at_hundredth_tick() {
    assert!(PerfApp::should_reset(100));
    assert!(!PerfApp::should_reset(99));
    assert!(!PerfApp::should_reset(101));
}
