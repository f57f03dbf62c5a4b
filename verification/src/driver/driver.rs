//! The decisions of the window event loop: what each event leads to, and when
//! the frame rate is reported.
use vstd::prelude::*;

verus! {

/// The window events that the loop tells apart.
#[derive(PartialEq, Eq, Structural, Clone, Copy, Debug)]
pub enum LoopEvent {
    /// The window asks to be drawn.
    RedrawRequested,
    /// Every pending event was handled.
    MainEventsCleared,
    /// The window was asked to close.
    CloseRequested,
    /// The window's scale factor changed; its new inner size.
    ScaleFactorChanged { width: u32, height: u32 },
    /// The window was resized; its new inner size.
    Resized { width: u32, height: u32 },
    /// Anything else.
    Other,
}

/// What the loop does in answer to an event.
#[derive(PartialEq, Eq, Structural, Clone, Copy, Debug)]
pub enum LoopAction {
    /// Draw a frame; print the frame rate when `report_fps`.
    Render { report_fps: bool },
    /// Advance the simulation and ask for a redraw.
    UpdateAndRequestRedraw,
    /// Leave the loop.
    Exit,
    /// Reconfigure the surface to the given size.
    Resize { width: u32, height: u32 },
    /// Nothing.
    Nothing,
}

/// Frames drawn so far.
pub struct LoopState {
    pub tick: usize,
}

/// The frame rate is printed on every hundredth frame.
pub open spec fn reports_on(tick: int) -> bool {
    tick % 100 == 0
}

/// The action for `event` when `tick` frames were drawn before it.
pub open spec fn action_for(tick: int, event: LoopEvent) -> LoopAction {
    match event {
        LoopEvent::RedrawRequested => LoopAction::Render { report_fps: reports_on(tick + 1) },
        LoopEvent::MainEventsCleared => LoopAction::UpdateAndRequestRedraw,
        LoopEvent::CloseRequested => LoopAction::Exit,
        LoopEvent::ScaleFactorChanged { width, height } => LoopAction::Resize { width, height },
        LoopEvent::Resized { width, height } => LoopAction::Resize { width, height },
        LoopEvent::Other => LoopAction::Nothing,
    }
}

impl LoopState {
    /// No frame drawn yet.
    pub fn new() -> (s: Self)
        ensures
            s.tick == 0,
    {
        LoopState { tick: 0 }
    }

    /// Decides what to do about `event`; a redraw counts one more frame.
    pub fn step(&mut self, event: LoopEvent) -> (a: LoopAction)
        requires
            event == LoopEvent::RedrawRequested ==> old(self).tick < usize::MAX,
        ensures
            a == action_for(old(self).tick as int, event),
            final(self).tick == if event == LoopEvent::RedrawRequested {
                old(self).tick + 1
            } else {
                old(self).tick as int
            },
    {
        match event {
            LoopEvent::RedrawRequested => {
                self.tick = self.tick + 1;
                LoopAction::Render { report_fps: self.tick % 100 == 0 }
            },
            LoopEvent::MainEventsCleared => LoopAction::UpdateAndRequestRedraw,
            LoopEvent::CloseRequested => LoopAction::Exit,
            LoopEvent::ScaleFactorChanged { width, height } => LoopAction::Resize { width, height },
            LoopEvent::Resized { width, height } => LoopAction::Resize { width, height },
            LoopEvent::Other => LoopAction::Nothing,
        }
    }
}

/// Number of frames among frames `1..=n` on which the rate is printed.
pub open spec fn reports_upto(n: nat) -> nat
    decreases n,
{
    if n == 0 {
        0
    } else {
        reports_upto((n - 1) as nat) + if reports_on(n as int) { 1nat } else { 0nat }
    }
}

/// Over the first `n` frames the frame rate is printed `n / 100` times.
pub proof fn lemma_report_count(n: nat)
    ensures
        reports_upto(n) == n / 100,
    decreases n,
{
    if n > 0 {
        lemma_report_count((n - 1) as nat);
        assert(reports_upto(n) == (n - 1) as nat / 100 + if n % 100 == 0 { 1nat } else { 0nat });
        assert(((n - 1) as nat / 100 + if n % 100 == 0 { 1nat } else { 0nat }) == n / 100) by (nonlinear_arith)
            requires
                n > 0,
        ;
    }
}

/// Only a close request ends the loop.
pub proof fn lemma_exit_only_on_close(tick: int, event: LoopEvent)
    ensures
        action_for(tick, event) == LoopAction::Exit <==> event == LoopEvent::CloseRequested,
{
}

} // verus!
