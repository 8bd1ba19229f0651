//! How messages are written to one node.
//!
//! The writing task takes one message after the other, and gives each a limited
//! time to be sent. It ends when a message could not be sent in time or when there
//! will be no more of them, and reports whether all were sent.
use crate::message::Message;
use vstd::prelude::*;

verus! {

/// What came of sending a message, with a time limit on it.
#[derive(Clone, Copy, Debug, PartialEq, Eq, Structural)]
pub enum WriteOutcome {
    /// The message was sent in time.
    Sent,
    /// Sending failed in time.
    Failed,
    /// The time was up.
    TimedOut,
}

/// What the writing task does next.
#[derive(Debug, PartialEq, Eq)]
pub enum WriterAction {
    /// Send the message, and go on with [`written`].
    Write(Message),
    /// Wait for the next message, and go on with [`next`].
    AwaitMessage,
    /// Report whether all messages were sent, and end.
    Report(bool),
}

/// What is done about the next message, where `None` says that there is none.
pub open spec fn next_action(message: Option<Message>) -> WriterAction {
    match message {
        Some(message) => WriterAction::Write(message),
        None => WriterAction::Report(true),
    }
}

/// What is done once a message was sent or was not. One that failed to be sent, or
/// took too long, ends the task.
pub open spec fn written_action(outcome: WriteOutcome) -> WriterAction {
    match outcome {
        WriteOutcome::Sent => WriterAction::AwaitMessage,
        WriteOutcome::Failed | WriteOutcome::TimedOut => WriterAction::Report(false),
    }
}

/// Takes the next message, or the news that there will be none.
pub fn next(message: Option<Message>) -> (action: WriterAction)
    ensures
        action == next_action(message),
{
    match message {
        Some(message) => WriterAction::Write(message),
        None => WriterAction::Report(true),
    }
}

/// Takes what came of sending a message.
pub fn written(outcome: WriteOutcome) -> (action: WriterAction)
    ensures
        action == written_action(outcome),
{
    match outcome {
        WriteOutcome::Sent => WriterAction::AwaitMessage,
        WriteOutcome::Failed | WriteOutcome::TimedOut => WriterAction::Report(false),
    }
}

} // verus!
