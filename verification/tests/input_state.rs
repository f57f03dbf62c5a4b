use petri::rendering::display::{button_index, ButtonAction, InputState, Mouse, MouseButtonKind, MouseEvent};

fn fresh_mouse() -> Mouse {
    Mouse {
        pos: glam::Vec2::new(0.0, 0.0),
        delta: glam::Vec2::new(0.0, 0.0),
        buttons: [InputState::default(); 3],
    }
}

#[test]
fn press_sets_pressed_and_held() {
    let s = InputState::default().press();
    assert_eq!(s, InputState { pressed: true, released: false, held: true });
}

#[test]
fn second_press_clears_pressed() {
    let s = InputState::default().press().press();
    assert_eq!(s, InputState { pressed: false, released: false, held: true });
}

#[test]
fn release_clears_everything() {
    let s = InputState { pressed: true, released: true, held: true }.release();
    assert_eq!(s, InputState::default());
}

#[test]
fn release_then_press_is_fresh_press() {
    let s = InputState::default().press().press().release().press();
    assert_eq!(s, InputState { pressed: true, released: false, held: true });
}

#[test]
fn released_never_set_by_events() {
    let mut s = InputState::default();
    for i in 0..10 {
        s = if i % 3 == 0 { s.release() } else { s.press() };
        assert!(!s.released);
        assert!(!s.pressed || s.held);
    }
}

#[test]
fn button_slots() {
    assert_eq!(button_index(MouseButtonKind::Left), Some(0));
    assert_eq!(button_index(MouseButtonKind::Middle), Some(1));
    assert_eq!(button_index(MouseButtonKind::Right), Some(2));
    assert_eq!(button_index(MouseButtonKind::Other(7)), None);
}

#[test]
fn mouse_button_event_updates_one_slot() {
    let mut m = fresh_mouse();
    m.handle_event(MouseEvent::Button { button: MouseButtonKind::Right, action: ButtonAction::Pressed });
    assert_eq!(m.buttons[2], InputState { pressed: true, released: false, held: true });
    assert_eq!(m.buttons[0], InputState::default());
    assert_eq!(m.buttons[1], InputState::default());
    m.handle_event(MouseEvent::Button { button: MouseButtonKind::Middle, action: ButtonAction::Pressed });
    assert!(m.buttons[1].held);
    m.handle_event(MouseEvent::Button { button: MouseButtonKind::Right, action: ButtonAction::Released });
    assert_eq!(m.buttons[2], InputState::default());
}

#[test]
fn other_button_changes_no_slot() {
    let mut m = fresh_mouse();
    m.handle_event(MouseEvent::Button { button: MouseButtonKind::Other(4), action: ButtonAction::Pressed });
    assert_eq!(m.buttons, [InputState::default(); 3]);
}

#[test]
fn cursor_move_sets_position_and_delta() {
    let mut m = fresh_mouse();
    m.handle_event(MouseEvent::CursorMoved(glam::Vec2::new(3.0, 4.0)));
    m.handle_event(MouseEvent::CursorMoved(glam::Vec2::new(5.0, 1.0)));
    assert_eq!(m.pos, glam::Vec2::new(5.0, 1.0));
    assert_eq!(m.delta, glam::Vec2::new(2.0, -3.0));
}

#[test]
fn other_event_changes_nothing() {
    let mut m = fresh_mouse();
    m.handle_event(MouseEvent::Button { button: MouseButtonKind::Left, action: ButtonAction::Pressed });
    m.handle_event(MouseEvent::Other);
    assert!(m.buttons[0].pressed);
    assert_eq!(m.pos, glam::Vec2::new(0.0, 0.0));
}
