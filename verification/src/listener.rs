use vstd::prelude::*;

use crate::text::{trim, trimmed};

verus! {

/// What one read of a line from the event socket came back with.
#[derive(Debug)]
pub enum ReadOutcome {
    /// The socket was closed: nothing was read.
    Closed,
    /// A line was read, with its line ending.
    Line(String),
    /// No data yet, but the socket is alive.
    WouldBlock,
    /// The read failed.
    Failed,
}

/// What an event watcher does next.
#[derive(Debug)]
pub enum ListenerAction {
    /// Leave this connection and connect again.
    EndSession,
    /// Nothing to show; pause briefly and read again.
    Wait,
    /// Print this event line.
    Show(String),
    /// Read again at once.
    ReadAgain,
}

/// Decides what a watcher of the event socket does with one read: a closed or
/// failed socket ends the session, an empty read is read again, and a line is
/// printed without its surrounding white space, or waited past when nothing is
/// left of it.
pub fn next_action(outcome: ReadOutcome) -> (r: ListenerAction)
    ensures
        match outcome {
            ReadOutcome::Closed => r is EndSession,
            ReadOutcome::Failed => r is EndSession,
            ReadOutcome::WouldBlock => r is ReadAgain,
            ReadOutcome::Line(l) => if trimmed(l@).len() == 0 {
                r is Wait
            } else {
                r matches ListenerAction::Show(t) && t@ == trimmed(l@)
            },
        },
{
    match outcome {
        ReadOutcome::Closed => ListenerAction::EndSession,
        ReadOutcome::Failed => ListenerAction::EndSession,
        ReadOutcome::WouldBlock => ListenerAction::ReadAgain,
        ReadOutcome::Line(l) => {
            let t = trim(l.as_str());
            if t.as_str().is_empty() {
                ListenerAction::Wait
            } else {
                ListenerAction::Show(t)
            }
        },
    }
}

} // verus!
