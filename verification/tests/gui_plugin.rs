use petri::rendering::gui_renderer::{texture_actions, update_scale_toggle};

#[test]
fn toggle_starts_false_on_first_frame() {
    let mut t = None;
    assert!(update_scale_toggle(false, &mut t));
    assert_eq!(t, Some(false));
    assert!(!update_scale_toggle(false, &mut t));
    assert_eq!(t, Some(false));
}

#[test]
fn toggle_flips_on_key_and_back() {
    let mut t = Some(false);
    assert!(update_scale_toggle(true, &mut t));
    assert_eq!(t, Some(true));
    assert!(update_scale_toggle(true, &mut t));
    assert_eq!(t, Some(false));
}

#[test]
fn invert_flips_and_loads_inverted_icon() {
    let mut inverted = false;
    let (tex, remove) = texture_actions(false, true, false, &mut inverted);
    assert!(inverted);
    assert_eq!(tex, Some(String::from("icon_inverted.png")));
    assert!(!remove);
}

#[test]
fn load_keeps_state() {
    let mut inverted = false;
    let (tex, _) = texture_actions(true, false, false, &mut inverted);
    assert!(!inverted);
    assert_eq!(tex, Some(String::from("icon.png")));
}

#[test]
fn remove_alone_loads_nothing() {
    let mut inverted = true;
    let (tex, remove) = texture_actions(false, false, true, &mut inverted);
    assert!(inverted);
    assert_eq!(tex, None);
    assert!(remove);
}
