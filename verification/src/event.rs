//! Window events and the decision of the default event processor.

use vstd::prelude::*;

verus! {

#[derive(Debug, Clone, Copy, PartialEq, Eq, Structural)]
pub enum Theme {
    Light,
    Dark,
}

/// What an event processor did with an event.
#[derive(Debug, Clone, Copy, PartialEq, Eq, Structural)]
pub enum ProcessEventResult {
    Received,
    Consumed,
    ExitLoop,
}

/// The events the default processor acts on; all others are `Other`.
#[derive(Debug, Clone, Copy, PartialEq, Eq, Structural)]
pub enum Event {
    CloseRequested,
    /// A cursor icon, by its index in the windowing library's list.
    UpdateCursor(u32),
    UpdateImePosition(u32, u32),
    FullScreen(bool),
    Theme(Theme),
    Other,
}

/// What the window is asked to do.
#[derive(Debug, Clone, Copy, PartialEq, Eq, Structural)]
pub enum WindowAction {
    SetCursor(u32),
    SetImePosition(u32, u32),
    /// Borderless full screen, or windowed.
    SetFullscreen(bool),
}

/// The processor that closes the loop on a close request and applies
/// cursor, input method and full screen requests to the window.
#[derive(Debug)]
pub struct DefaultProcessor {}

impl DefaultProcessor {
    pub fn new() -> (r: Self) {
        DefaultProcessor {}
    }

    /// The result for `event` and the action the window should take.
    pub fn on_event(&mut self, event: &Event) -> (r: (ProcessEventResult, Option<WindowAction>))
        ensures
            r == match *event {
                Event::CloseRequested => (ProcessEventResult::ExitLoop, None),
                Event::UpdateCursor(c) => (ProcessEventResult::Received, Some(WindowAction::SetCursor(c))),
                Event::UpdateImePosition(x, y) => (
                    ProcessEventResult::Received,
                    Some(WindowAction::SetImePosition(x, y)),
                ),
                Event::FullScreen(f) => (ProcessEventResult::Received, Some(WindowAction::SetFullscreen(f))),
                _ => (ProcessEventResult::Received, None),
            },
    {
        match event {
            Event::CloseRequested => (ProcessEventResult::ExitLoop, None),
            Event::UpdateCursor(c) => (ProcessEventResult::Received, Some(WindowAction::SetCursor(*c))),
            Event::UpdateImePosition(x, y) => (
                ProcessEventResult::Received,
                Some(WindowAction::SetImePosition(*x, *y)),
            ),
            Event::FullScreen(f) => (ProcessEventResult::Received, Some(WindowAction::SetFullscreen(*f))),
            _ => (ProcessEventResult::Received, None),
        }
    }
}

} // verus!
