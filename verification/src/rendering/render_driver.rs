//! Window events in the render driver: the GUI sees each event first, and
//! what it consumes goes no further.
use vstd::prelude::*;
use crate::driver::driver::{LoopAction, LoopEvent, action_for};

verus! {

/// What the render driver does about a window event that the GUI did or did
/// not consume.
pub open spec fn window_action(consumed: bool, event: LoopEvent) -> LoopAction {
    if consumed {
        LoopAction::Nothing
    } else {
        match event {
            LoopEvent::CloseRequested => LoopAction::Exit,
            LoopEvent::ScaleFactorChanged { width, height } => LoopAction::Resize { width, height },
            LoopEvent::Resized { width, height } => LoopAction::Resize { width, height },
            _ => LoopAction::Nothing,
        }
    }
}

/// The action for a window event: nothing when the GUI consumed it, else an
/// exit for a close request, a resize for a change of size, nothing otherwise.
pub fn handle_window_event(consumed: bool, event: LoopEvent) -> (a: LoopAction)
    ensures
        a == window_action(consumed, event),
{
    if consumed {
        return LoopAction::Nothing;
    }
    match event {
        LoopEvent::CloseRequested => LoopAction::Exit,
        LoopEvent::ScaleFactorChanged { width, height } => LoopAction::Resize { width, height },
        LoopEvent::Resized { width, height } => LoopAction::Resize { width, height },
        _ => LoopAction::Nothing,
    }
}

/// A window event that the GUI did not consume leads to what the event loop
/// does about it, except that drawing and updating are not window events.
pub proof fn lemma_unconsumed_as_loop(tick: int, event: LoopEvent)
    requires
        event != LoopEvent::RedrawRequested,
        event != LoopEvent::MainEventsCleared,
    ensures
        window_action(false, event) == action_for(tick, event),
{
}

} // verus!
