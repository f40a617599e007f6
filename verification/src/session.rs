//! The interactive chart session as a state machine.
//!
//! The shell around the library owns the terminal: it acquires raw
//! mode and the alternate screen, draws, and blocks for the next
//! terminal event. Every decision — whether an event redraws, is
//! ignored, or ends the session — is made here, with a contract.

use vstd::prelude::*;

verus! {

/// A key press, reduced to what the session cares about.
#[derive(Clone, Copy, Debug, PartialEq, Eq, Structural)]
pub enum KeyPress {
    /// A printable character key.
    Char(char),
    /// The escape key.
    Escape,
    /// Any other key.
    Other,
}

/// One terminal event handed to the session by the shell.
#[derive(Clone, Copy, Debug, PartialEq, Eq, Structural)]
pub enum TermEvent {
    Key(KeyPress),
    /// The viewport changed to the given width and height.
    Resize(u16, u16),
    /// Any other terminal event.
    Other,
}

/// The session's state. It starts in `Rendering` (the initial draw is
/// already on screen) and moves to `Terminated` exactly on a quit key;
/// the shell then releases the terminal.
#[derive(Clone, Copy, Debug, PartialEq, Eq, Structural)]
pub enum SessionState {
    Rendering,
    Terminated,
}

/// What the shell must do after handing an event to the session.
#[derive(Clone, Copy, Debug, PartialEq, Eq, Structural)]
pub enum SessionAction {
    /// Re-issue exactly one draw with the same data and bounds, then
    /// wait for the next event.
    Redraw,
    /// Release the terminal and end the session.
    Stop,
    /// Ignore the event and wait for the next one.
    Wait,
}

/// Whether an event is a quit request: `q`, `Q`, or the escape key.
pub open spec fn is_quit_event(ev: TermEvent) -> bool {
    ||| ev == TermEvent::Key(KeyPress::Char('q'))
    ||| ev == TermEvent::Key(KeyPress::Char('Q'))
    ||| ev == TermEvent::Key(KeyPress::Escape)
}

/// Whether an event is a viewport resize.
pub open spec fn is_resize_event(ev: TermEvent) -> bool {
    ev is Resize
}

/// The interactive session. The series and its bounds are fixed for
/// the session's whole lifetime: the log is read once, not tailed.
pub struct Session {
    pub state: SessionState,
}

impl Session {
    /// Starts a session; the shell performs the initial draw as it
    /// enters the loop.
    pub fn new() -> (s: Session)
        ensures
            s.state == SessionState::Rendering,
    {
        Session { state: SessionState::Rendering }
    }

    /// Advances the session by one terminal event. A quit key ends the
    /// session; a resize asks for exactly one redraw with unchanged
    /// data; everything else is ignored. No other transition exists.
    pub fn on_event(&mut self, ev: &TermEvent) -> (a: SessionAction)
        requires
            old(self).state == SessionState::Rendering,
        ensures
            final(self).state == (if is_quit_event(*ev) {
                SessionState::Terminated
            } else {
                SessionState::Rendering
            }),
            a == (if is_quit_event(*ev) {
                SessionAction::Stop
            } else if is_resize_event(*ev) {
                SessionAction::Redraw
            } else {
                SessionAction::Wait
            }),
    {
        match ev {
            TermEvent::Key(KeyPress::Char(c)) => {
                if *c == 'q' || *c == 'Q' {
                    self.state = SessionState::Terminated;
                    SessionAction::Stop
                } else {
                    SessionAction::Wait
                }
            }
            TermEvent::Key(KeyPress::Escape) => {
                self.state = SessionState::Terminated;
                SessionAction::Stop
            }
            TermEvent::Key(KeyPress::Other) => SessionAction::Wait,
            TermEvent::Resize(_, _) => SessionAction::Redraw,
            TermEvent::Other => SessionAction::Wait,
        }
    }
}

} // verus!
