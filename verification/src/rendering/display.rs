//! Mouse input state, as the display tracks it from window events.
use vstd::prelude::*;

verus! {

/// State of one mouse button.
#[derive(PartialEq, Eq, Structural, Clone, Copy, Debug)]
pub struct InputState {
    pub pressed: bool,
    pub released: bool,
    pub held: bool,
}

impl Default for InputState {
    fn default() -> (s: Self)
        ensures
            s == InputState::default_state(),
    {
        InputState { pressed: false, released: false, held: false }
    }
}

/// The state after a press event arrives in state `s`.
pub open spec fn pressed_state(s: InputState) -> InputState {
    if s.held {
        InputState { pressed: false, ..s }
    } else {
        InputState { pressed: true, held: true, ..s }
    }
}

/// The state after a release event arrives in state `s`.
pub open spec fn released_state(s: InputState) -> InputState {
    InputState { pressed: false, held: false, released: false }
}

impl InputState {
    /// Applies a press of the button.
    pub fn press(self) -> (s: Self)
        ensures
            s == pressed_state(self),
    {
        let mut b = self;
        if b.held {
            b.pressed = false;
        } else {
            b.pressed = true;
            b.held = true;
        }
        b
    }

    /// Applies a release of the button.
    pub fn release(self) -> (s: Self)
        ensures
            s == released_state(self),
    {
        let mut b = self;
        b.pressed = false;
        b.held = false;
        if b.released {
            b.released = false;
        }
        b
    }
}


/// A two-component vector of the `glam` crate, carried through unchanged.
#[verifier::external_type_specification]
#[verifier::external_body]
pub struct ExVec2(glam::Vec2);

/// Which mouse button an event is about.
#[derive(PartialEq, Eq, Structural, Clone, Copy, Debug)]
pub enum MouseButtonKind {
    Left,
    Right,
    Middle,
    Other(u16),
}

/// Whether a button went down or up.
#[derive(PartialEq, Eq, Structural, Clone, Copy, Debug)]
pub enum ButtonAction {
    Pressed,
    Released,
}

/// The part of a window event that the mouse tracker reads.
pub enum MouseEvent {
    Button { button: MouseButtonKind, action: ButtonAction },
    CursorMoved(glam::Vec2),
    Other,
}

/// Slot of `buttons` that holds the state of button `b`: left, middle,
/// right; no slot for any other button.
pub open spec fn button_slot(b: MouseButtonKind) -> Option<int> {
    match b {
        MouseButtonKind::Left => Some(0),
        MouseButtonKind::Middle => Some(1),
        MouseButtonKind::Right => Some(2),
        MouseButtonKind::Other(_) => None,
    }
}

/// The state of a button after `action`.
pub open spec fn after_action(s: InputState, action: ButtonAction) -> InputState {
    match action {
        ButtonAction::Pressed => pressed_state(s),
        ButtonAction::Released => released_state(s),
    }
}

/// Slot in the button array that holds the state of `button`, if any.
pub fn button_index(button: MouseButtonKind) -> (i: Option<usize>)
    ensures
        match i {
            Some(k) => button_slot(button) == Some(k as int) && k < 3,
            None => button_slot(button) is None,
        },
{
    match button {
        MouseButtonKind::Left => Some(0),
        MouseButtonKind::Middle => Some(1),
        MouseButtonKind::Right => Some(2),
        MouseButtonKind::Other(_) => None,
    }
}

/// `glam`'s `Vec2 - Vec2`, a component-wise `f32` subtraction. Nothing is
/// stated of the result: it is a pair of floats.
#[verifier::external_body]
fn vec2_sub(a: glam::Vec2, b: glam::Vec2) -> glam::Vec2 {
    a - b
}

/// Mouse position, last movement and the state of the left, right and middle
/// buttons.
pub struct Mouse {
    pub pos: glam::Vec2,
    pub delta: glam::Vec2,
    /// Left, middle, right
    pub buttons: [InputState; 3],
}

impl Mouse {
    /// Updates the mouse from one window event.
    pub fn handle_event(&mut self, event: MouseEvent)
        ensures
            match event {
                MouseEvent::Button { button, action } => {
                    &&& final(self).buttons@ == match button_slot(button) {
                        Some(k) => old(self).buttons@.update(k, after_action(old(self).buttons@[k], action)),
                        None => old(self).buttons@,
                    }
                    &&& final(self).pos == old(self).pos
                    &&& final(self).delta == old(self).delta
                },
                MouseEvent::CursorMoved(p) => {
                    &&& final(self).pos == p
                    &&& final(self).buttons == old(self).buttons
                },
                MouseEvent::Other => *final(self) == *old(self),
            },
    {
        match event {
            MouseEvent::Button { button, action } => {
                if let Some(idx) = button_index(button) {
                    let mut bstate = self.buttons[idx];
                    match action {
                        ButtonAction::Pressed => {
                            bstate = bstate.press();
                        },
                        ButtonAction::Released => {
                            bstate = bstate.release();
                        },
                    }
                    self.buttons[idx] = bstate;
                }
            },
            MouseEvent::CursorMoved(pos) => {
                self.delta = vec2_sub(pos, self.pos);
                self.pos = pos;
            },
            MouseEvent::Other => {},
        }
    }
}


/// A button that reads as pressed is also held, and stays so under any
/// sequence of presses and releases.
pub proof fn lemma_pressed_implies_held(s: InputState, action: ButtonAction)
    requires
        s.pressed ==> s.held,
    ensures
        after_action(s, action).pressed ==> after_action(s, action).held,
{
}

/// No event ever sets `released`: a button that does not read as released
/// never will.
pub proof fn lemma_released_stays_clear(s: InputState, action: ButtonAction)
    requires
        !s.released,
    ensures
        !after_action(s, action).released,
{
}

/// After a release, `released` is clear whatever it was before.
pub proof fn lemma_release_clears_all(s: InputState)
    ensures
        released_state(s) == InputState::default_state(),
{
}

/// `pressed` reads true only for the first press of a button that was not
/// held: a second press in a row keeps the button held but clears `pressed`.
pub proof fn lemma_second_press_not_pressed(s: InputState)
    ensures
        pressed_state(pressed_state(s)).held,
        !pressed_state(pressed_state(s)).pressed,
        !s.held ==> pressed_state(s).pressed && pressed_state(s).held,
{
}

/// After a release, a press always reads as a fresh press.
pub proof fn lemma_release_then_press(s: InputState)
    ensures
        pressed_state(released_state(s)) == (InputState { pressed: true, released: false, held: true }),
{
}

impl InputState {
    /// The state a button starts in: not pressed, not released, not held.
    pub open spec fn default_state() -> InputState {
        InputState { pressed: false, released: false, held: false }
    }
}

} // verus!
