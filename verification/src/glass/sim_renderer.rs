//! Keyboard control of the camera: the arrow keys move it by a fixed step.
use vstd::prelude::*;

verus! {

/// The keys that move the camera; any other key is `Other`.
#[derive(PartialEq, Eq, Structural, Clone, Copy, Debug)]
pub enum KeyCode {
    Up,
    Left,
    Down,
    Right,
    Other,
}

/// How far one key press moves the camera, in world units along x and y.
pub open spec fn step_for(key: KeyCode) -> Option<(i32, i32)> {
    match key {
        KeyCode::Up => Some((0i32, 10i32)),
        KeyCode::Left => Some((-10i32, 0i32)),
        KeyCode::Down => Some((0i32, -10i32)),
        KeyCode::Right => Some((10i32, 0i32)),
        KeyCode::Other => None,
    }
}

/// The camera move for a key press, if the key moves the camera.
pub fn camera_step(key: KeyCode) -> (r: Option<(i32, i32)>)
    ensures
        r == step_for(key),
{
    match key {
        KeyCode::Up => Some((0, 10)),
        KeyCode::Left => Some((-10, 0)),
        KeyCode::Down => Some((0, -10)),
        KeyCode::Right => Some((10, 0)),
        _ => None,
    }
}

/// The moves of two keys add up to nothing.
pub open spec fn cancel(k1: KeyCode, k2: KeyCode) -> bool {
    match (step_for(k1), step_for(k2)) {
        (Some(u), Some(d)) => u.0 + d.0 == 0 && u.1 + d.1 == 0,
        _ => false,
    }
}

/// Opposite arrow keys undo each other's moves.
pub proof fn lemma_opposite_keys_cancel()
    ensures
        cancel(KeyCode::Up, KeyCode::Down),
        cancel(KeyCode::Left, KeyCode::Right),
{
}

} // verus!
