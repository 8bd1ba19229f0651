use massa_protocol::controller::{Controller, ControllerAction, ControllerEvent};
use massa_protocol::event::{NodeCommand, NodeEvent, NodeEventType};
use massa_protocol::identity::{ConnectionClosureReason, ConnectionId, NodeId, PublicKey};
use massa_protocol::message::{Block, IpAddr, Message, Signature};
use massa_protocol::node::{
    FailedSessionAction, NodeSession, SessionAction, SessionFault, SessionInput,
};
use massa_protocol::writer::{next, written, WriteOutcome, WriterAction};

fn node() -> NodeId {
    NodeId(PublicKey([3u8; 33]))
}

/// What one input makes a new session do, and whether it is open after it.
fn once(input: SessionInput) -> (Vec<SessionAction>, bool) {
    assert_eq!(NodeSession::fault(&input), None);
    let mut session = NodeSession::new(node());
    assert!(session.is_open());
    let actions = session.step(input);
    (actions, session.is_open())
}

fn told(news: NodeEventType) -> SessionAction {
    SessionAction::Emit(NodeEvent(node(), news))
}

fn ending(reason: ConnectionClosureReason) -> (Vec<SessionAction>, bool) {
    let actions = vec![
        SessionAction::CloseWriter,
        SessionAction::AwaitWriterReport,
        SessionAction::JoinWriter,
        told(NodeEventType::Closed(reason)),
    ];
    (actions, false)
}

#[test]
fn messages_become_events() {
    let peers = vec![IpAddr::V4(1), IpAddr::V6(2)];
    assert_eq!(
        once(SessionInput::Message(Message::Block(Block(vec![1u8])))),
        (vec![told(NodeEventType::ReceivedBlock(Block(vec![1u8])))], true)
    );
    assert_eq!(
        once(SessionInput::Message(Message::Transaction("t".to_string()))),
        (vec![told(NodeEventType::ReceivedTransaction("t".to_string()))], true)
    );
    assert_eq!(
        once(SessionInput::Message(Message::PeerList(peers.clone()))),
        (vec![told(NodeEventType::ReceivedPeerList(peers))], true)
    );
    assert_eq!(
        once(SessionInput::Message(Message::AskPeerList)),
        (vec![told(NodeEventType::AskedPeerList)], true)
    );
}

#[test]
fn commands_become_messages() {
    let peers = vec![IpAddr::V4(1)];
    assert_eq!(
        once(SessionInput::Command(NodeCommand::SendPeerList(peers.clone()))),
        (vec![SessionAction::Write(Message::PeerList(peers))], true)
    );
    assert_eq!(
        once(SessionInput::Command(NodeCommand::SendBlock(Block(vec![2u8])))),
        (vec![SessionAction::Write(Message::Block(Block(vec![2u8])))], true)
    );
    assert_eq!(
        once(SessionInput::Command(NodeCommand::SendTransaction("t".to_string()))),
        (vec![SessionAction::Write(Message::Transaction("t".to_string()))], true)
    );
}

#[test]
fn tick_asks_for_peers() {
    assert_eq!(
        once(SessionInput::Tick),
        (vec![SessionAction::Write(Message::AskPeerList)], true)
    );
}

#[test]
fn handshake_message_ends_the_session_as_failed() {
    let initiation = Message::HandshakeInitiation { public_key: node().0, random_bytes: vec![] };
    let reply = Message::HandshakeReply { signature: Signature(vec![]) };
    assert_eq!(
        once(SessionInput::Message(initiation)),
        ending(ConnectionClosureReason::Failed)
    );
    assert_eq!(
        once(SessionInput::Message(reply)),
        ending(ConnectionClosureReason::Failed)
    );
}

#[test]
fn ends_of_a_session() {
    assert_eq!(once(SessionInput::PeerClosed), ending(ConnectionClosureReason::Normal));
    assert_eq!(once(SessionInput::StreamFailed), ending(ConnectionClosureReason::Failed));
    assert_eq!(
        once(SessionInput::Command(NodeCommand::Close)),
        ending(ConnectionClosureReason::Normal)
    );
}

#[test]
fn report_of_the_writer_is_not_waited_for_twice() {
    let actions = |reason: ConnectionClosureReason| {
        vec![
            SessionAction::CloseWriter,
            SessionAction::JoinWriter,
            told(NodeEventType::Closed(reason)),
        ]
    };
    assert_eq!(
        once(SessionInput::WriterReport(true)),
        (actions(ConnectionClosureReason::Normal), false)
    );
    assert_eq!(
        once(SessionInput::WriterReport(false)),
        (actions(ConnectionClosureReason::Failed), false)
    );
}

#[test]
fn session_goes_on_until_it_ends() {
    let mut session = NodeSession::new(node());
    session.step(SessionInput::Tick);
    session.step(SessionInput::Message(Message::AskPeerList));
    assert!(session.is_open());
    let actions = session.step(SessionInput::PeerClosed);
    assert_eq!(
        actions.last(),
        Some(&told(NodeEventType::Closed(ConnectionClosureReason::Normal)))
    );
    assert!(!session.is_open());
}

#[test]
fn session_faults() {
    assert_eq!(
        NodeSession::fault(&SessionInput::CommandsClosed),
        Some(SessionFault::CommandsClosed)
    );
    assert_eq!(
        NodeSession::fault(&SessionInput::WriterLost),
        Some(SessionFault::WriterLost)
    );
    assert_eq!(
        SessionFault::CommandsClosed.message(),
        "the protocol controller should have close everything before shuting down"
    );
    assert_eq!(SessionFault::WriterLost.message(), "writer_evt_rx died");
}

#[test]
fn failed_session_actions() {
    let mut session = NodeSession::new(node());
    let text = |session: &NodeSession, failed: FailedSessionAction| session.failure(failed).message();
    assert_eq!(session.failure(FailedSessionAction::Emit), SessionFault::EventLost);
    assert_eq!(text(&session, FailedSessionAction::Emit), "node_event_tx died");
    assert_eq!(text(&session, FailedSessionAction::Write), "writer disappeared");
    session.step(SessionInput::PeerClosed);
    assert_eq!(session.failure(FailedSessionAction::Emit), SessionFault::ClosedLost);
    assert_eq!(text(&session, FailedSessionAction::Emit), "node_event_tx already closed");
    assert_eq!(
        text(&session, FailedSessionAction::AwaitWriterReport),
        "writer_evt_tx already closed"
    );
    assert_eq!(
        text(&session, FailedSessionAction::JoinWriter),
        "node_writer_handle already closed"
    );
}

#[test]
fn session_tells_and_hands_on_in_order() {
    let mut session = NodeSession::new(node());
    let inputs = vec![
        SessionInput::Message(Message::AskPeerList),
        SessionInput::Command(NodeCommand::SendBlock(Block(vec![1u8]))),
        SessionInput::Message(Message::Block(Block(vec![2u8]))),
        SessionInput::Tick,
        SessionInput::PeerClosed,
    ];
    let mut told_events: Vec<NodeEvent> = Vec::new();
    let mut handed: Vec<Message> = Vec::new();
    for input in inputs {
        for action in session.step(input) {
            match action {
                SessionAction::Emit(event) => told_events.push(event),
                SessionAction::Write(message) => handed.push(message),
                _ => {}
            }
        }
    }
    assert_eq!(
        told_events,
        vec![
            NodeEvent(node(), NodeEventType::AskedPeerList),
            NodeEvent(node(), NodeEventType::ReceivedBlock(Block(vec![2u8]))),
            NodeEvent(node(), NodeEventType::Closed(ConnectionClosureReason::Normal)),
        ]
    );
    assert_eq!(handed, vec![Message::Block(Block(vec![1u8])), Message::AskPeerList]);
}

#[test]
fn writer_takes_messages() {
    assert_eq!(next(Some(Message::AskPeerList)), WriterAction::Write(Message::AskPeerList));
    assert_eq!(next(None), WriterAction::Report(true));
}

#[test]
fn unsent_message_ends_the_writer() {
    assert_eq!(written(WriteOutcome::Sent), WriterAction::AwaitMessage);
    assert_eq!(written(WriteOutcome::Failed), WriterAction::Report(false));
    assert_eq!(written(WriteOutcome::TimedOut), WriterAction::Report(false));
}

/// Runs the writer on messages that are sent with the given outcomes.
fn run_writer(messages: Vec<Message>, outcomes: Vec<WriteOutcome>) -> (Vec<Message>, bool) {
    let mut tried: Vec<Message> = Vec::new();
    let mut messages = messages.into_iter();
    let mut outcomes = outcomes.into_iter();
    loop {
        let action = match next(messages.next()) {
            WriterAction::Write(message) => {
                tried.push(message);
                match outcomes.next() {
                    Some(outcome) => written(outcome),
                    None => panic!("a message without an outcome"),
                }
            }
            action => action,
        };
        match action {
            WriterAction::Report(clean) => return (tried, clean),
            WriterAction::AwaitMessage => {}
            WriterAction::Write(message) => panic!("{:?}", message),
        }
    }
}

fn transaction(text: &str) -> Message {
    Message::Transaction(text.to_string())
}

#[test]
fn writer_sends_in_order_until_a_message_is_not_sent() {
    let messages = vec![transaction("a"), transaction("b"), transaction("c")];
    let (tried, clean) = run_writer(messages.clone(), vec![WriteOutcome::Sent; 3]);
    assert_eq!(tried, messages);
    assert!(clean);
    for outcome in [WriteOutcome::Failed, WriteOutcome::TimedOut].iter() {
        let (tried, clean) = run_writer(
            messages.clone(),
            vec![WriteOutcome::Sent, *outcome, WriteOutcome::Sent],
        );
        assert_eq!(tried, vec![transaction("a"), transaction("b")]);
        assert!(!clean);
    }
}

#[test]
fn unsent_message_fails_the_session() {
    for outcome in [WriteOutcome::Failed, WriteOutcome::TimedOut].iter() {
        let (_, clean) = run_writer(vec![transaction("a")], vec![*outcome]);
        let (actions, open) = once(SessionInput::WriterReport(clean));
        assert!(!open);
        assert_eq!(
            actions.last(),
            Some(&told(NodeEventType::Closed(ConnectionClosureReason::Failed)))
        );
    }
}

#[test]
fn shutdown_closes_the_session() {
    let mut controller = Controller::new();
    controller.step(ControllerEvent::NewConnection(ConnectionId(1)));
    controller.step(ControllerEvent::HandshakeFinished(ConnectionId(1), Ok(node())));
    let mut session = NodeSession::new(node());
    let mut said: Vec<SessionAction> = Vec::new();
    for action in controller.step(ControllerEvent::CommandsClosed) {
        match action {
            ControllerAction::SendCommand(to, command) => {
                assert!(to == node());
                said.extend(session.step(SessionInput::Command(command)));
            }
            // by the time the node is released its session needs no commands any more
            ControllerAction::ReleaseNode(_) => assert!(!session.is_open()),
            _ => {}
        }
    }
    assert_eq!(said, ending(ConnectionClosureReason::Normal).0);
}
