use massa_protocol::controller::{
    answer_peer_list, Controller, ControllerAction, ControllerEvent, ControllerFault, FailedAction,
};
use massa_protocol::event::{
    NodeCommand, NodeEvent, NodeEventType, ProtocolCommand, ProtocolEvent, ProtocolEventType,
};
use massa_protocol::handshake::HandshakeError;
use massa_protocol::identity::{ConnectionClosureReason, ConnectionId, NodeId, PublicKey};
use massa_protocol::message::{Block, IpAddr};

const C1: ConnectionId = ConnectionId(1);
const C2: ConnectionId = ConnectionId(2);

fn node(byte: u8) -> NodeId {
    NodeId(PublicKey([byte; 33]))
}

/// Takes an event that must be no fault.
fn take(controller: &mut Controller, event: ControllerEvent) -> Vec<ControllerAction> {
    assert!(controller.is_open());
    assert_eq!(controller.fault(&event), None);
    controller.step(event)
}

fn news(node_id: NodeId, news: NodeEventType) -> ControllerEvent {
    ControllerEvent::Node(NodeEvent(node_id, news))
}

/// Opens a channel to `node_id` over `connection_id`.
fn open_channel(controller: &mut Controller, connection_id: ConnectionId, node_id: NodeId) {
    let actions = take(controller, ControllerEvent::NewConnection(connection_id));
    assert_eq!(actions, vec![ControllerAction::StartHandshake(connection_id)]);
    let actions = take(
        controller,
        ControllerEvent::HandshakeFinished(connection_id, Ok(node_id)),
    );
    assert_eq!(actions, vec![ControllerAction::StartNode(connection_id, node_id)]);
}

fn closed(connection_id: ConnectionId, reason: ConnectionClosureReason) -> ControllerAction {
    ControllerAction::ConnectionClosed(connection_id, reason)
}

#[test]
fn command_is_taken_and_nothing_done() {
    let mut controller = Controller::new();
    let command = ProtocolCommand::PropagateBlock {
        restrict_to_node: None,
        exclude_node: Some(node(1)),
        block: Block(vec![1u8]),
    };
    assert_eq!(take(&mut controller, ControllerEvent::Command(command)), vec![]);
    assert!(controller.is_open());
}

#[test]
fn successful_handshake_opens_a_channel() {
    let mut controller = Controller::new();
    open_channel(&mut controller, C1, node(1));
}

#[test]
fn failed_handshake_gives_the_connection_back() {
    let mut controller = Controller::new();
    take(&mut controller, ControllerEvent::NewConnection(C1));
    let finished = ControllerEvent::HandshakeFinished(C1, Err(HandshakeError::InitTimedOut));
    assert_eq!(
        take(&mut controller, finished),
        vec![closed(C1, ConnectionClosureReason::Failed)]
    );
    // the handshake is over, so the connection may be new again
    take(&mut controller, ControllerEvent::NewConnection(C1));
}

#[test]
fn new_connection_with_a_running_handshake_is_a_fault() {
    let mut controller = Controller::new();
    take(&mut controller, ControllerEvent::NewConnection(C1));
    assert_eq!(
        controller.fault(&ControllerEvent::NewConnection(C1)),
        Some(ControllerFault::HandshakeAlreadyRunning)
    );
    assert_eq!(controller.fault(&ControllerEvent::NewConnection(C2)), None);
}

#[test]
fn ban_during_the_handshake_opens_nothing() {
    let mut controller = Controller::new();
    take(&mut controller, ControllerEvent::NewConnection(C1));
    assert_eq!(take(&mut controller, ControllerEvent::ConnectionBanned(C1)), vec![]);
    open_channel(&mut controller, C2, node(2));
    assert_eq!(
        take(&mut controller, ControllerEvent::HandshakeFinished(C1, Ok(node(1)))),
        vec![closed(C1, ConnectionClosureReason::Normal)]
    );
    let asked = news(node(1), NodeEventType::AskedPeerList);
    assert_eq!(
        controller.fault(&asked),
        Some(ControllerFault::PeerListAskedByMissingNode)
    );
}

#[test]
fn redundant_channel_is_refused_and_the_first_kept() {
    let mut controller = Controller::new();
    open_channel(&mut controller, C1, node(1));
    take(&mut controller, ControllerEvent::NewConnection(C2));
    assert_eq!(
        take(&mut controller, ControllerEvent::HandshakeFinished(C2, Ok(node(1)))),
        vec![closed(C2, ConnectionClosureReason::Normal)]
    );
    let gone = news(node(1), NodeEventType::Closed(ConnectionClosureReason::Normal));
    assert_eq!(
        take(&mut controller, gone),
        vec![
            closed(C1, ConnectionClosureReason::Normal),
            ControllerAction::JoinNode(node(1)),
        ]
    );
}

#[test]
fn ban_closes_every_node_on_the_connection() {
    let mut controller = Controller::new();
    open_channel(&mut controller, C1, node(1));
    open_channel(&mut controller, C2, node(2));
    open_channel(&mut controller, C1, node(3));
    let actions = take(&mut controller, ControllerEvent::ConnectionBanned(C1));
    assert_eq!(actions.len(), 2);
    assert!(actions.contains(&ControllerAction::SendCommand(node(1), NodeCommand::Close)));
    assert!(actions.contains(&ControllerAction::SendCommand(node(3), NodeCommand::Close)));
    // they stay until they say that they are gone
    let gone = news(node(3), NodeEventType::Closed(ConnectionClosureReason::Normal));
    assert_eq!(
        take(&mut controller, gone),
        vec![
            closed(C1, ConnectionClosureReason::Normal),
            ControllerAction::JoinNode(node(3)),
        ]
    );
}

#[test]
fn closed_node_is_forgotten_and_may_come_back() {
    let mut controller = Controller::new();
    open_channel(&mut controller, C1, node(1));
    let gone = news(node(1), NodeEventType::Closed(ConnectionClosureReason::Failed));
    assert_eq!(
        take(&mut controller, gone),
        vec![
            closed(C1, ConnectionClosureReason::Failed),
            ControllerAction::JoinNode(node(1)),
        ]
    );
    let again = news(node(1), NodeEventType::Closed(ConnectionClosureReason::Failed));
    assert_eq!(controller.fault(&again), Some(ControllerFault::MissingNodeClosed));
    open_channel(&mut controller, C2, node(1));
}

#[test]
fn block_and_transaction_reach_the_user() {
    let mut controller = Controller::new();
    open_channel(&mut controller, C1, node(1));
    let block = Block(vec![1u8, 2, 3]);
    assert_eq!(
        take(&mut controller, news(node(1), NodeEventType::ReceivedBlock(block.clone()))),
        vec![ControllerAction::Emit(ProtocolEvent(
            node(1),
            ProtocolEventType::ReceivedBlock(block)
        ))]
    );
    let transaction = "transaction".to_string();
    let received = NodeEventType::ReceivedTransaction(transaction.clone());
    assert_eq!(
        take(&mut controller, news(node(1), received)),
        vec![ControllerAction::Emit(ProtocolEvent(
            node(1),
            ProtocolEventType::ReceivedTransaction(transaction)
        ))]
    );
}

#[test]
fn data_of_a_missing_node_is_a_fault() {
    let mut controller = Controller::new();
    let block = || NodeEventType::ReceivedBlock(Block(vec![4u8]));
    let transaction = || NodeEventType::ReceivedTransaction("t".to_string());
    let fault = Some(ControllerFault::DataFromMissingNode);
    assert_eq!(controller.fault(&news(node(1), block())), fault);
    assert_eq!(controller.fault(&news(node(1), transaction())), fault);
    open_channel(&mut controller, C1, node(1));
    assert_eq!(controller.fault(&news(node(1), block())), None);
    assert_eq!(controller.fault(&news(node(1), transaction())), None);
    assert_eq!(controller.fault(&news(node(2), block())), fault);
    let gone = news(node(1), NodeEventType::Closed(ConnectionClosureReason::Normal));
    take(&mut controller, gone);
    assert_eq!(controller.fault(&news(node(1), block())), fault);
}

#[test]
fn handshake_runs_until_it_is_over_or_its_peer_banned() {
    let mut controller = Controller::new();
    assert!(!controller.is_running(C1));
    take(&mut controller, ControllerEvent::NewConnection(C1));
    take(&mut controller, ControllerEvent::NewConnection(C2));
    assert!(controller.is_running(C1));
    take(&mut controller, ControllerEvent::ConnectionBanned(C1));
    assert!(!controller.is_running(C1));
    assert!(controller.is_running(C2));
    take(&mut controller, ControllerEvent::HandshakeFinished(C2, Ok(node(2))));
    assert!(!controller.is_running(C2));
}

/// How often `actions` give `connection_id` back.
fn times_given_back(actions: &Vec<ControllerAction>, connection_id: ConnectionId) -> usize {
    actions
        .iter()
        .filter(|action| match action {
            ControllerAction::ConnectionClosed(id, _) => *id == connection_id,
            _ => false,
        })
        .count()
}

#[test]
fn connection_is_given_back_once() {
    let mut controller = Controller::new();
    let mut given_back: usize = 0;
    let events = vec![
        ControllerEvent::NewConnection(C1),
        ControllerEvent::NewConnection(C2),
        ControllerEvent::HandshakeFinished(C1, Ok(node(1))),
        ControllerEvent::HandshakeFinished(C2, Err(HandshakeError::ReplyStopped)),
        ControllerEvent::ConnectionBanned(C1),
    ];
    for event in events {
        given_back += times_given_back(&take(&mut controller, event), C1);
    }
    assert_eq!(given_back, 0);
    let gone = news(node(1), NodeEventType::Closed(ConnectionClosureReason::Normal));
    assert_eq!(times_given_back(&take(&mut controller, gone), C1), 1);
    assert_eq!(
        times_given_back(&take(&mut controller, ControllerEvent::CommandsClosed), C1),
        0
    );
}

#[test]
fn peer_list_is_merged_and_shows_life() {
    let mut controller = Controller::new();
    open_channel(&mut controller, C2, node(1));
    let peers = vec![IpAddr::V4(0x7f00_0001), IpAddr::V6(1)];
    assert_eq!(
        take(&mut controller, news(node(1), NodeEventType::ReceivedPeerList(peers.clone()))),
        vec![
            ControllerAction::ConnectionAlive(C2),
            ControllerAction::MergePeerList(peers),
        ]
    );
}

#[test]
fn peer_list_question_is_answered() {
    let mut controller = Controller::new();
    open_channel(&mut controller, C1, node(1));
    assert_eq!(
        take(&mut controller, news(node(1), NodeEventType::AskedPeerList)),
        vec![ControllerAction::AnswerPeerList(node(1))]
    );
    let peers = vec![IpAddr::V4(5)];
    assert_eq!(
        answer_peer_list(node(1), peers.clone()),
        ControllerAction::SendCommand(node(1), NodeCommand::SendPeerList(peers))
    );
}

#[test]
fn faults() {
    let controller = Controller::new();
    let missing = node(4);
    assert_eq!(
        controller.fault(&news(missing, NodeEventType::ReceivedPeerList(vec![]))),
        Some(ControllerFault::PeerListFromMissingNode)
    );
    assert_eq!(
        controller.fault(&news(
            missing,
            NodeEventType::Closed(ConnectionClosureReason::Normal)
        )),
        Some(ControllerFault::MissingNodeClosed)
    );
    assert_eq!(
        controller.fault(&news(missing, NodeEventType::AskedPeerList)),
        Some(ControllerFault::PeerListAskedByMissingNode)
    );
    assert_eq!(
        controller.fault(&ControllerEvent::HandshakeLost),
        Some(ControllerFault::HandshakeLost)
    );
    assert_eq!(
        controller.fault(&ControllerEvent::NodeEventsClosed),
        Some(ControllerFault::NodeEventsClosed)
    );
    assert_eq!(controller.fault(&ControllerEvent::CommandsClosed), None);
}

#[test]
fn failed_actions() {
    let mut controller = Controller::new();
    let lost = Some(ControllerFault::ControllerEventLost);
    assert_eq!(
        controller.failure(FailedAction::SendCommand),
        Some(ControllerFault::NodeCommandLost)
    );
    assert_eq!(controller.failure(FailedAction::AnswerPeerList), lost);
    assert_eq!(controller.failure(FailedAction::Emit), lost);
    assert_eq!(controller.failure(FailedAction::JoinNode), lost);
    take(&mut controller, ControllerEvent::CommandsClosed);
    // a node may be gone before it is told to close
    assert_eq!(controller.failure(FailedAction::SendCommand), None);
    assert_eq!(controller.failure(FailedAction::JoinReleasedNodes), None);
    assert_eq!(controller.failure(FailedAction::DrainHandshakes), None);
}

#[test]
fn user_is_told_what_nodes_sent_in_order() {
    let mut controller = Controller::new();
    open_channel(&mut controller, C1, node(1));
    open_channel(&mut controller, C2, node(2));
    let block = |byte: u8| NodeEventType::ReceivedBlock(Block(vec![byte]));
    let events = vec![
        news(node(2), block(1u8)),
        news(node(1), NodeEventType::AskedPeerList),
        news(node(1), NodeEventType::ReceivedTransaction("t".to_string())),
        ControllerEvent::ConnectionBanned(C1),
        news(node(2), block(2u8)),
        ControllerEvent::CommandsClosed,
    ];
    let mut told: Vec<ProtocolEvent> = Vec::new();
    for event in events {
        for action in take(&mut controller, event) {
            if let ControllerAction::Emit(event) = action {
                told.push(event);
            }
        }
    }
    assert_eq!(
        told,
        vec![
            ProtocolEvent(node(2), ProtocolEventType::ReceivedBlock(Block(vec![1u8]))),
            ProtocolEvent(node(1), ProtocolEventType::ReceivedTransaction("t".to_string())),
            ProtocolEvent(node(2), ProtocolEventType::ReceivedBlock(Block(vec![2u8]))),
        ]
    );
}

#[test]
fn fault_texts() {
    let texts = [
        (
            ControllerFault::HandshakeAlreadyRunning,
            "expect that the id is not already in running_handshakes",
        ),
        (ControllerFault::HandshakeLost, "running handshake future await returned an error"),
        (ControllerFault::PeerListFromMissingNode, "event from missing node"),
        (ControllerFault::MissingNodeClosed, "event from misising node"),
        (ControllerFault::PeerListAskedByMissingNode, "event received from missing node"),
        (ControllerFault::DataFromMissingNode, "event from missing node"),
        (ControllerFault::NodeEventsClosed, "node_event_rx died"),
        (ControllerFault::NodeCommandLost, "node command tx disappeared"),
        (ControllerFault::ControllerEventLost, "controller event tx failed"),
    ];
    for (fault, text) in texts.iter() {
        assert_eq!(fault.message(), *text);
    }
}

#[test]
fn shutdown_releases_everything() {
    let mut controller = Controller::new();
    open_channel(&mut controller, C1, node(1));
    open_channel(&mut controller, C2, node(2));
    take(&mut controller, ControllerEvent::NewConnection(ConnectionId(3)));
    let actions = take(&mut controller, ControllerEvent::CommandsClosed);
    assert!(!controller.is_open());
    assert_eq!(actions.len(), 8);
    for byte in 1u8..3 {
        let close = ControllerAction::SendCommand(node(byte), NodeCommand::Close);
        assert!(actions[..2].contains(&close));
        assert!(actions[2..4].contains(&ControllerAction::ReleaseNode(node(byte))));
    }
    assert_eq!(
        actions[4..],
        [
            ControllerAction::DrainNodeEvents,
            ControllerAction::JoinReleasedNodes,
            ControllerAction::DrainHandshakes,
            ControllerAction::StopConnections,
        ]
    );
    // nothing is left to be missed or to be running
    assert_eq!(controller.fault(&ControllerEvent::NewConnection(ConnectionId(3))), None);
    assert_eq!(
        controller.fault(&news(node(1), NodeEventType::AskedPeerList)),
        Some(ControllerFault::PeerListAskedByMissingNode)
    );
}

#[test]
fn shutdown_of_an_idle_controller() {
    let mut controller = Controller::new();
    assert_eq!(
        take(&mut controller, ControllerEvent::CommandsClosed),
        vec![
            ControllerAction::DrainNodeEvents,
            ControllerAction::JoinReleasedNodes,
            ControllerAction::DrainHandshakes,
            ControllerAction::StopConnections,
        ]
    );
}
