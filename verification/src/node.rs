//! How the channel to one node is served.
//!
//! A [`NodeSession`] stands between the controller and the peer: it turns the
//! peer's messages into events for the controller, and the controller's commands
//! into messages for the task that writes to the peer.
use crate::event::{NodeCommand, NodeEvent, NodeEventType};
use crate::identity::{ConnectionClosureReason, NodeId};
use crate::message::Message;
use vstd::prelude::*;

verus! {

/// What the session of a node is told.
#[derive(Debug, PartialEq, Eq)]
pub enum SessionInput {
    /// The peer sent a message.
    Message(Message),
    /// The peer closed the stream cleanly.
    PeerClosed,
    /// Nothing can be read from the peer.
    StreamFailed,
    /// The controller asks for something.
    Command(NodeCommand),
    /// The controller is gone.
    CommandsClosed,
    /// The writing task ended, and says whether all messages were sent.
    WriterReport(bool),
    /// The writing task is gone without a report.
    WriterLost,
    /// It is time to ask the peer for its list of peers.
    Tick,
}

/// What the session wants done. Actions are performed in the order they are given in.
#[derive(Debug, PartialEq, Eq)]
pub enum SessionAction {
    /// Tell the controller.
    Emit(NodeEvent),
    /// Hand the message to the writing task.
    Write(Message),
    /// Let the writing task know that nothing more is to be written.
    CloseWriter,
    /// Wait for the report of the writing task, and discard it.
    AwaitWriterReport,
    /// Wait for the end of the writing task.
    JoinWriter,
}

/// An action that could not be performed.
#[derive(Clone, Copy, Debug, PartialEq, Eq, Structural)]
pub enum FailedSessionAction {
    /// The controller did not take an event.
    Emit,
    /// The writing task did not take a message.
    Write,
    /// The writing task gave no report.
    AwaitWriterReport,
    /// The writing task did not end as it should.
    JoinWriter,
}

/// Something that must not happen. The session cannot go on after it.
#[derive(Clone, Copy, Debug, PartialEq, Eq, Structural)]
pub enum SessionFault {
    /// The controller left without closing the session.
    CommandsClosed,
    WriterLost,
    /// The controller was gone while the session was open.
    EventLost,
    /// The controller was gone before it could be told that the channel is.
    ClosedLost,
    /// A message was lost.
    MessageLost,
    /// The writing task was gone before its report was waited for.
    ReportLost,
    /// The writing task did not end as it should.
    WriterNotJoined,
}

impl SessionFault {
    /// The text of [`SessionFault::message`].
    pub open spec fn text(self) -> Seq<char> {
        match self {
            SessionFault::CommandsClosed =>
                "the protocol controller should have close everything before shuting down"@,
            SessionFault::WriterLost => "writer_evt_rx died"@,
            SessionFault::EventLost => "node_event_tx died"@,
            SessionFault::ClosedLost => "node_event_tx already closed"@,
            SessionFault::MessageLost => "writer disappeared"@,
            SessionFault::ReportLost => "writer_evt_tx already closed"@,
            SessionFault::WriterNotJoined => "node_writer_handle already closed"@,
        }
    }

    /// The fault in words.
    pub fn message(&self) -> (text: String)
        ensures
            text@ == self.text(),
    {
        let text: &str = match self {
            SessionFault::CommandsClosed =>
                "the protocol controller should have close everything before shuting down",
            SessionFault::WriterLost => "writer_evt_rx died",
            SessionFault::EventLost => "node_event_tx died",
            SessionFault::ClosedLost => "node_event_tx already closed",
            SessionFault::MessageLost => "writer disappeared",
            SessionFault::ReportLost => "writer_evt_tx already closed",
            SessionFault::WriterNotJoined => "node_writer_handle already closed",
        };
        text.to_owned()
    }
}

/// The session of one node.
pub struct NodeSession {
    node_id: NodeId,
    open: bool,
}

/// What a [`NodeSession`] knows.
pub struct SessionView {
    pub node_id: NodeId,
    /// Whether inputs are still taken.
    pub open: bool,
}

impl View for NodeSession {
    type V = SessionView;

    closed spec fn view(&self) -> SessionView {
        SessionView { node_id: self.node_id, open: self.open }
    }
}

/// The fault that `input` is, if it is one.
pub open spec fn session_fault_of(input: SessionInput) -> Option<SessionFault> {
    match input {
        SessionInput::CommandsClosed => Some(SessionFault::CommandsClosed),
        SessionInput::WriterLost => Some(SessionFault::WriterLost),
        _ => None,
    }
}

/// The fault that it is in the state `state` not to be able to perform an action.
pub open spec fn session_failure_of(
    state: SessionView,
    failed: FailedSessionAction,
) -> SessionFault {
    match failed {
        FailedSessionAction::Emit => if state.open {
            SessionFault::EventLost
        } else {
            SessionFault::ClosedLost
        },
        FailedSessionAction::Write => SessionFault::MessageLost,
        FailedSessionAction::AwaitWriterReport => SessionFault::ReportLost,
        FailedSessionAction::JoinWriter => SessionFault::WriterNotJoined,
    }
}

/// The reason for which `input` ends the session, if it does.
pub open spec fn ends_with(input: SessionInput) -> Option<ConnectionClosureReason> {
    match input {
        SessionInput::Message(Message::HandshakeInitiation { .. }) => Some(
            ConnectionClosureReason::Failed,
        ),
        SessionInput::Message(Message::HandshakeReply { .. }) => Some(
            ConnectionClosureReason::Failed,
        ),
        SessionInput::PeerClosed => Some(ConnectionClosureReason::Normal),
        SessionInput::StreamFailed => Some(ConnectionClosureReason::Failed),
        SessionInput::Command(NodeCommand::Close) => Some(ConnectionClosureReason::Normal),
        SessionInput::WriterReport(clean) => Some(
            if clean {
                ConnectionClosureReason::Normal
            } else {
                ConnectionClosureReason::Failed
            },
        ),
        _ => None,
    }
}

/// What is done at the end of the session of `node_id`, where `reported` says
/// whether the writing task has given its report.
pub open spec fn closing_actions(
    node_id: NodeId,
    reason: ConnectionClosureReason,
    reported: bool,
) -> Seq<SessionAction> {
    let closed = SessionAction::Emit(NodeEvent(node_id, NodeEventType::Closed(reason)));
    if reported {
        seq![SessionAction::CloseWriter, SessionAction::JoinWriter, closed]
    } else {
        seq![
            SessionAction::CloseWriter,
            SessionAction::AwaitWriterReport,
            SessionAction::JoinWriter,
            closed,
        ]
    }
}

/// What `input`, which is no fault, makes the session of `node_id` do.
pub open spec fn session_actions(node_id: NodeId, input: SessionInput) -> Seq<SessionAction> {
    match input {
        SessionInput::Message(Message::Block(block)) => seq![
            SessionAction::Emit(NodeEvent(node_id, NodeEventType::ReceivedBlock(block))),
        ],
        SessionInput::Message(Message::Transaction(transaction)) => seq![
            SessionAction::Emit(NodeEvent(node_id, NodeEventType::ReceivedTransaction(transaction))),
        ],
        SessionInput::Message(Message::PeerList(peers)) => seq![
            SessionAction::Emit(NodeEvent(node_id, NodeEventType::ReceivedPeerList(peers))),
        ],
        SessionInput::Message(Message::AskPeerList) => seq![
            SessionAction::Emit(NodeEvent(node_id, NodeEventType::AskedPeerList)),
        ],
        SessionInput::Command(NodeCommand::SendPeerList(peers)) => seq![
            SessionAction::Write(Message::PeerList(peers)),
        ],
        SessionInput::Command(NodeCommand::SendBlock(block)) => seq![
            SessionAction::Write(Message::Block(block)),
        ],
        SessionInput::Command(NodeCommand::SendTransaction(transaction)) => seq![
            SessionAction::Write(Message::Transaction(transaction)),
        ],
        SessionInput::Tick => seq![SessionAction::Write(Message::AskPeerList)],
        _ => match ends_with(input) {
            Some(reason) => closing_actions(node_id, reason, input is WriterReport),
            None => Seq::empty(),
        },
    }
}

fn one(action: SessionAction) -> (actions: Vec<SessionAction>)
    ensures
        actions@ == seq![action],
{
    let mut actions: Vec<SessionAction> = Vec::new();
    actions.push(action);
    assert(actions@ =~= seq![action]);
    actions
}

impl NodeSession {
    /// The session of the node that a handshake has just authenticated.
    pub fn new(node_id: NodeId) -> (session: Self)
        ensures
            session@ == (SessionView { node_id, open: true }),
    {
        NodeSession { node_id, open: true }
    }

    /// Whether inputs are still taken.
    pub fn is_open(&self) -> (open: bool)
        ensures
            open == self@.open,
    {
        self.open
    }

    /// The fault that `input` is, if it is one.
    pub fn fault(input: &SessionInput) -> (fault: Option<SessionFault>)
        ensures
            fault == session_fault_of(*input),
    {
        match input {
            SessionInput::CommandsClosed => Some(SessionFault::CommandsClosed),
            SessionInput::WriterLost => Some(SessionFault::WriterLost),
            _ => None,
        }
    }

    /// The fault that it is not to be able to perform an action. This is asked in the
    /// state that the input of the action led to.
    pub fn failure(&self, failed: FailedSessionAction) -> (fault: SessionFault)
        ensures
            fault == session_failure_of(self@, failed),
    {
        match failed {
            FailedSessionAction::Emit => {
                if self.open {
                    SessionFault::EventLost
                } else {
                    SessionFault::ClosedLost
                }
            },
            FailedSessionAction::Write => SessionFault::MessageLost,
            FailedSessionAction::AwaitWriterReport => SessionFault::ReportLost,
            FailedSessionAction::JoinWriter => SessionFault::WriterNotJoined,
        }
    }

    /// Takes an input that is no fault, and says what to do about it.
    pub fn step(&mut self, input: SessionInput) -> (actions: Vec<SessionAction>)
        requires
            old(self)@.open,
            session_fault_of(input) is None,
        ensures
            final(self)@ == (SessionView {
                node_id: old(self)@.node_id,
                open: ends_with(input) is None,
            }),
            actions@ == session_actions(old(self)@.node_id, input),
    {
        match input {
            SessionInput::Message(message) => match message {
                Message::Block(block) => self.tell(NodeEventType::ReceivedBlock(block)),
                Message::Transaction(transaction) => self.tell(
                    NodeEventType::ReceivedTransaction(transaction),
                ),
                Message::PeerList(peers) => self.tell(NodeEventType::ReceivedPeerList(peers)),
                Message::AskPeerList => self.tell(NodeEventType::AskedPeerList),
                // a handshake is over before its session begins
                Message::HandshakeInitiation { .. } | Message::HandshakeReply { .. } => {
                    self.close(ConnectionClosureReason::Failed, false)
                },
            },
            SessionInput::PeerClosed => self.close(ConnectionClosureReason::Normal, false),
            SessionInput::StreamFailed => self.close(ConnectionClosureReason::Failed, false),
            SessionInput::Command(command) => match command {
                NodeCommand::Close => self.close(ConnectionClosureReason::Normal, false),
                NodeCommand::SendPeerList(peers) => one(
                    SessionAction::Write(Message::PeerList(peers)),
                ),
                NodeCommand::SendBlock(block) => one(SessionAction::Write(Message::Block(block))),
                NodeCommand::SendTransaction(transaction) => one(
                    SessionAction::Write(Message::Transaction(transaction)),
                ),
            },
            SessionInput::WriterReport(clean) => {
                let reason = if clean {
                    ConnectionClosureReason::Normal
                } else {
                    ConnectionClosureReason::Failed
                };
                self.close(reason, true)
            },
            SessionInput::Tick => one(SessionAction::Write(Message::AskPeerList)),
            SessionInput::CommandsClosed | SessionInput::WriterLost => Vec::new(),
        }
    }

    fn tell(&self, news: NodeEventType) -> (actions: Vec<SessionAction>)
        ensures
            actions@ == seq![SessionAction::Emit(NodeEvent(self@.node_id, news))],
    {
        one(SessionAction::Emit(NodeEvent(self.node_id, news)))
    }

    fn close(&mut self, reason: ConnectionClosureReason, reported: bool) -> (actions: Vec<
        SessionAction,
    >)
        ensures
            final(self)@ == (SessionView { node_id: old(self)@.node_id, open: false }),
            actions@ == closing_actions(old(self)@.node_id, reason, reported),
    {
        self.open = false;
        let mut actions: Vec<SessionAction> = one(SessionAction::CloseWriter);
        if !reported {
            actions.push(SessionAction::AwaitWriterReport);
        }
        actions.push(SessionAction::JoinWriter);
        actions.push(SessionAction::Emit(NodeEvent(self.node_id, NodeEventType::Closed(reason))));
        assert(actions@ =~= closing_actions(self.node_id, reason, reported));
        actions
    }
}

} // verus!
