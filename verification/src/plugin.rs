//! The channel to the editor that hosts the program as a plugin.
//!
//! The host opens the session and waits on it; what to do next, and what to
//! tell the application afterwards, is decided here.

use vstd::prelude::*;

verus! {

/// What travels over the channel between the application and the editor.
#[derive(Clone, Debug, PartialEq, Eq)]
pub enum Message {
    Connected,
    Disconnected,
    User(String),
}

/// Whether a session with the editor is open.
#[derive(Clone, Copy, Debug, PartialEq, Eq)]
pub enum State {
    Disconnected,
    Connected,
}

/// What the host does next.
#[derive(Clone, Copy, Debug, PartialEq, Eq)]
pub enum Task {
    /// Open a session with the editor and a channel to the application.
    OpenSession,
    /// Wait for the editor to send something.
    AwaitEditor,
}

/// What the application is told once the host has done its task.
#[derive(Clone, Debug, PartialEq, Eq)]
pub enum Event {
    Connected,
    Disconnected,
    MessageReceived(Message),
}

/// The task that the host has in `state`.
pub open spec fn task_in(state: State) -> Task {
    match state {
        State::Disconnected => Task::OpenSession,
        State::Connected => Task::AwaitEditor,
    }
}

/// What the application is told after the task of `state`: that the session
/// is open, or that the editor was heard. Whatever the editor sent, or
/// failed to send, the application is told the same.
pub open spec fn event_after(state: State) -> Event {
    match state {
        State::Disconnected => Event::Connected,
        State::Connected => Event::MessageReceived(Message::Connected),
    }
}

/// One turn of the plugin's loop: the task for the host, the state after
/// it, and what the application is told then. Once open, the session stays
/// open.
pub fn connect(state: State) -> (turn: (Task, State, Event))
    ensures
        turn.0 == task_in(state),
        turn.1 == State::Connected,
        turn.2 == event_after(state),
{
    match state {
        State::Disconnected => (Task::OpenSession, State::Connected, Event::Connected),
        State::Connected => (
            Task::AwaitEditor,
            State::Connected,
            Event::MessageReceived(Message::Connected),
        ),
    }
}

} // verus!
