//! Which handshakes are running, which nodes a channel is open to, and what each
//! event does to them.
use crate::active_nodes::{enumerates, nodes_on, ActiveNodes};
use crate::event::{
    NodeCommand, NodeEvent, NodeEventType, ProtocolCommand, ProtocolEvent, ProtocolEventType,
};
use crate::handshake::HandshakeError;
use crate::identity::{ConnectionClosureReason, ConnectionId, NodeId};
use crate::message::IpAddr;
use std::collections::HashSet;
use vstd::prelude::*;

verus! {

/// What the controller is told.
#[derive(Debug, PartialEq, Eq)]
pub enum ControllerEvent {
    /// The user asks for something.
    Command(ProtocolCommand),
    /// The user will ask for nothing more.
    CommandsClosed,
    /// The network layer has a new connection.
    NewConnection(ConnectionId),
    /// The network layer has banned the peer of a connection.
    ConnectionBanned(ConnectionId),
    /// The handshake of a connection is over.
    HandshakeFinished(ConnectionId, Result<NodeId, HandshakeError>),
    /// The task of a handshake ended without a result.
    HandshakeLost,
    /// The task of a node has news.
    Node(NodeEvent),
    /// No task of a node can have news any more.
    NodeEventsClosed,
}

/// What the controller wants done. Actions are performed in the order they are given in.
#[derive(Debug, PartialEq, Eq)]
pub enum ControllerAction {
    /// Run a handshake on the connection.
    StartHandshake(ConnectionId),
    /// Serve the node over the connection, on which its handshake has just succeeded.
    StartNode(ConnectionId, NodeId),
    /// Give the command to the task of the node.
    SendCommand(NodeId, NodeCommand),
    /// Ask the network layer for the peers to advertise, and go on with
    /// [`answer_peer_list`].
    AnswerPeerList(NodeId),
    /// Tell the user.
    Emit(ProtocolEvent),
    /// Tell the network layer that the peer of the connection is alive.
    ConnectionAlive(ConnectionId),
    /// Tell the network layer that the connection is not used any more.
    ConnectionClosed(ConnectionId, ConnectionClosureReason),
    /// Tell the network layer which peers a node advertised.
    MergePeerList(Vec<IpAddr>),
    /// Wait for the task of the node, which has said its last.
    JoinNode(NodeId),
    /// Give up the means to command the task of the node.
    ReleaseNode(NodeId),
    /// Discard news of nodes until there can be none any more.
    DrainNodeEvents,
    /// Wait for the tasks of the released nodes.
    JoinReleasedNodes,
    /// Wait for the running handshakes, and discard what they came to.
    DrainHandshakes,
    /// Stop the network layer.
    StopConnections,
}

/// An action that could not be performed.
#[derive(Clone, Copy, Debug, PartialEq, Eq, Structural)]
pub enum FailedAction {
    /// The task of a node did not take a command.
    SendCommand,
    /// The task of a node did not take the answer to its question for peers.
    AnswerPeerList,
    /// The user did not take an event.
    Emit,
    /// The task of a node that has said its last did not end as it should.
    JoinNode,
    /// The task of a released node did not end as it should.
    JoinReleasedNodes,
    /// The task of a handshake that is discarded did not end as it should.
    DrainHandshakes,
}

/// Something that must not happen. The protocol cannot go on after it.
#[derive(Clone, Copy, Debug, PartialEq, Eq, Structural)]
pub enum ControllerFault {
    /// A connection is new although its handshake is running.
    HandshakeAlreadyRunning,
    HandshakeLost,
    /// A node that no channel is open to sent a list of peers.
    PeerListFromMissingNode,
    /// The channel to a node closed that was not open.
    MissingNodeClosed,
    /// A node that no channel is open to asked for a list of peers.
    PeerListAskedByMissingNode,
    /// A node that no channel is open to sent a block or a transaction.
    DataFromMissingNode,
    NodeEventsClosed,
    /// A command was lost.
    NodeCommandLost,
    /// An answer or an event was lost, or a node did not end as it should.
    ControllerEventLost,
}

impl ControllerFault {
    /// The text of [`ControllerFault::message`].
    pub open spec fn text(self) -> Seq<char> {
        match self {
            ControllerFault::HandshakeAlreadyRunning =>
                "expect that the id is not already in running_handshakes"@,
            ControllerFault::HandshakeLost =>
                "running handshake future await returned an error"@,
            ControllerFault::PeerListFromMissingNode => "event from missing node"@,
            ControllerFault::MissingNodeClosed => "event from misising node"@,
            ControllerFault::PeerListAskedByMissingNode => "event received from missing node"@,
            ControllerFault::DataFromMissingNode => "event from missing node"@,
            ControllerFault::NodeEventsClosed => "node_event_rx died"@,
            ControllerFault::NodeCommandLost => "node command tx disappeared"@,
            ControllerFault::ControllerEventLost => "controller event tx failed"@,
        }
    }

    /// The fault in words.
    pub fn message(&self) -> (text: String)
        ensures
            text@ == self.text(),
    {
        let text: &str = match self {
            ControllerFault::HandshakeAlreadyRunning =>
                "expect that the id is not already in running_handshakes",
            ControllerFault::HandshakeLost => "running handshake future await returned an error",
            ControllerFault::PeerListFromMissingNode => "event from missing node",
            ControllerFault::MissingNodeClosed => "event from misising node",
            ControllerFault::PeerListAskedByMissingNode => "event received from missing node",
            ControllerFault::DataFromMissingNode => "event from missing node",
            ControllerFault::NodeEventsClosed => "node_event_rx died",
            ControllerFault::NodeCommandLost => "node command tx disappeared",
            ControllerFault::ControllerEventLost => "controller event tx failed",
        };
        text.to_owned()
    }
}

/// What the controller keeps track of.
pub struct Controller {
    running_handshakes: HashSet<u64>,
    active_nodes: ActiveNodes,
    open: bool,
}

/// What a [`Controller`] knows.
#[verifier::ext_equal]
pub struct ControllerView {
    /// The connections whose handshake is running, but for those banned meanwhile.
    pub running: Set<ConnectionId>,
    /// The nodes that a channel is open to, and the connection that carries it.
    pub active: Map<NodeId, ConnectionId>,
    /// Whether events are still taken.
    pub open: bool,
}

impl View for Controller {
    type V = ControllerView;

    closed spec fn view(&self) -> ControllerView {
        ControllerView {
            running: connection_ids(self.running_handshakes@),
            active: self.active_nodes@,
            open: self.open,
        }
    }
}

spec fn connection_ids(numbers: Set<u64>) -> Set<ConnectionId> {
    Set::new(|connection_id: ConnectionId| numbers.contains(connection_id.0))
}

/// The state before the first event.
pub open spec fn initial() -> ControllerView {
    ControllerView { running: Set::empty(), active: Map::empty(), open: true }
}

/// The fault that `event` is in the state `pre`, if it is one.
pub open spec fn fault_of(pre: ControllerView, event: ControllerEvent) -> Option<
    ControllerFault,
> {
    match event {
        ControllerEvent::NewConnection(connection_id) => if pre.running.contains(connection_id) {
            Some(ControllerFault::HandshakeAlreadyRunning)
        } else {
            None
        },
        ControllerEvent::HandshakeLost => Some(ControllerFault::HandshakeLost),
        ControllerEvent::NodeEventsClosed => Some(ControllerFault::NodeEventsClosed),
        ControllerEvent::Node(NodeEvent(node_id, news)) => if pre.active.contains_key(node_id) {
            None
        } else {
            match news {
                NodeEventType::ReceivedPeerList(_) => Some(
                    ControllerFault::PeerListFromMissingNode,
                ),
                NodeEventType::Closed(_) => Some(ControllerFault::MissingNodeClosed),
                NodeEventType::AskedPeerList => Some(ControllerFault::PeerListAskedByMissingNode),
                NodeEventType::ReceivedBlock(_) | NodeEventType::ReceivedTransaction(_) => Some(
                    ControllerFault::DataFromMissingNode,
                ),
            }
        },
        _ => None,
    }
}

/// The fault that it is in the state `state` not to be able to perform an action,
/// if it is one. At the shutdown a node may be gone before it is told to close.
pub open spec fn failure_of(state: ControllerView, failed: FailedAction) -> Option<
    ControllerFault,
> {
    match failed {
        FailedAction::SendCommand => if state.open {
            Some(ControllerFault::NodeCommandLost)
        } else {
            None
        },
        FailedAction::AnswerPeerList | FailedAction::Emit | FailedAction::JoinNode => Some(
            ControllerFault::ControllerEventLost,
        ),
        FailedAction::JoinReleasedNodes | FailedAction::DrainHandshakes => None,
    }
}

/// `actions` tell each node of `nodes` once to close its channel, and nothing else.
pub open spec fn closes(actions: Seq<ControllerAction>, nodes: Set<NodeId>) -> bool {
    exists|order: Seq<NodeId>| #[trigger]
        enumerates(order, nodes) && actions == order.map_values(
            |node_id: NodeId| ControllerAction::SendCommand(node_id, NodeCommand::Close),
        )
}

/// `actions` wind everything down, where `nodes` are the nodes that a channel is
/// open to: each is told once to close its channel, then each is released once,
/// then come the steps of the shutdown.
pub open spec fn winds_down(actions: Seq<ControllerAction>, nodes: Set<NodeId>) -> bool {
    exists|order: Seq<NodeId>| #[trigger]
        enumerates(order, nodes) && actions == order.map_values(
            |node_id: NodeId| ControllerAction::SendCommand(node_id, NodeCommand::Close),
        ) + order.map_values(|node_id: NodeId| ControllerAction::ReleaseNode(node_id)) + seq![
            ControllerAction::DrainNodeEvents,
            ControllerAction::JoinReleasedNodes,
            ControllerAction::DrainHandshakes,
            ControllerAction::StopConnections,
        ]
}

/// In the state `pre`, which takes events, `event` leads to `post` and to `actions`.
///
/// What is told to several nodes is told in no particular order.
pub open spec fn transition(
    pre: ControllerView,
    event: ControllerEvent,
    post: ControllerView,
    actions: Seq<ControllerAction>,
) -> bool {
    match event {
        ControllerEvent::Command(_) => post == pre && actions == Seq::<ControllerAction>::empty(),
        ControllerEvent::CommandsClosed => {
            &&& post == ControllerView { running: Set::empty(), active: Map::empty(), open: false }
            &&& winds_down(actions, pre.active.dom())
        },
        ControllerEvent::NewConnection(connection_id) => {
            &&& post == ControllerView { running: pre.running.insert(connection_id), ..pre }
            &&& actions == seq![ControllerAction::StartHandshake(connection_id)]
        },
        ControllerEvent::ConnectionBanned(connection_id) => {
            &&& post == ControllerView { running: pre.running.remove(connection_id), ..pre }
            &&& closes(actions, nodes_on(pre.active, connection_id))
        },
        ControllerEvent::HandshakeFinished(connection_id, Ok(node_id)) => {
            if pre.running.contains(connection_id) && !pre.active.contains_key(node_id) {
                &&& post == ControllerView {
                    running: pre.running.remove(connection_id),
                    active: pre.active.insert(node_id, connection_id),
                    ..pre
                }
                &&& actions == seq![ControllerAction::StartNode(connection_id, node_id)]
            } else {
                &&& post == ControllerView { running: pre.running.remove(connection_id), ..pre }
                &&& actions == seq![
                    ControllerAction::ConnectionClosed(
                        connection_id,
                        ConnectionClosureReason::Normal,
                    ),
                ]
            }
        },
        ControllerEvent::HandshakeFinished(connection_id, Err(_)) => {
            &&& post == ControllerView { running: pre.running.remove(connection_id), ..pre }
            &&& actions == seq![
                ControllerAction::ConnectionClosed(connection_id, ConnectionClosureReason::Failed),
            ]
        },
        ControllerEvent::Node(NodeEvent(node_id, news)) => match news {
            NodeEventType::ReceivedPeerList(peers) => {
                &&& post == pre
                &&& actions == seq![
                    ControllerAction::ConnectionAlive(pre.active[node_id]),
                    ControllerAction::MergePeerList(peers),
                ]
            },
            NodeEventType::ReceivedBlock(block) => {
                &&& post == pre
                &&& actions == seq![
                    ControllerAction::Emit(
                        ProtocolEvent(node_id, ProtocolEventType::ReceivedBlock(block)),
                    ),
                ]
            },
            NodeEventType::ReceivedTransaction(transaction) => {
                &&& post == pre
                &&& actions == seq![
                    ControllerAction::Emit(
                        ProtocolEvent(node_id, ProtocolEventType::ReceivedTransaction(transaction)),
                    ),
                ]
            },
            NodeEventType::Closed(reason) => {
                &&& post == ControllerView { active: pre.active.remove(node_id), ..pre }
                &&& actions == seq![
                    ControllerAction::ConnectionClosed(pre.active[node_id], reason),
                    ControllerAction::JoinNode(node_id),
                ]
            },
            NodeEventType::AskedPeerList => {
                &&& post == pre
                &&& actions == seq![ControllerAction::AnswerPeerList(node_id)]
            },
        },
        ControllerEvent::HandshakeLost | ControllerEvent::NodeEventsClosed => false,
    }
}

/// What [`ControllerAction::AnswerPeerList`] comes to, where `peers` are the peers
/// that the network layer advertises.
pub open spec fn peer_list_answer(node_id: NodeId, peers: Vec<IpAddr>) -> ControllerAction {
    ControllerAction::SendCommand(node_id, NodeCommand::SendPeerList(peers))
}

/// The action that answers a node's question for a list of peers, once the
/// network layer has said which peers to advertise.
pub fn answer_peer_list(node_id: NodeId, peers: Vec<IpAddr>) -> (action: ControllerAction)
    ensures
        action == peer_list_answer(node_id, peers),
{
    ControllerAction::SendCommand(node_id, NodeCommand::SendPeerList(peers))
}

fn one(action: ControllerAction) -> (actions: Vec<ControllerAction>)
    ensures
        actions@ == seq![action],
{
    let mut actions: Vec<ControllerAction> = Vec::new();
    actions.push(action);
    assert(actions@ =~= seq![action]);
    actions
}

fn two(first: ControllerAction, second: ControllerAction) -> (actions: Vec<ControllerAction>)
    ensures
        actions@ == seq![first, second],
{
    let mut actions: Vec<ControllerAction> = one(first);
    actions.push(second);
    assert(actions@ =~= seq![first, second]);
    actions
}

/// Tells each of `nodes` to close its channel.
fn close_each(nodes: &Vec<NodeId>) -> (actions: Vec<ControllerAction>)
    ensures
        actions@ == nodes@.map_values(
            |node_id: NodeId| ControllerAction::SendCommand(node_id, NodeCommand::Close),
        ),
{
    let mut actions: Vec<ControllerAction> = Vec::new();
    let mut i: usize = 0;
    while i < nodes.len()
        invariant
            i <= nodes.len(),
            actions@.len() == i,
            forall|j: int|
                0 <= j < i ==> #[trigger] actions@[j] == ControllerAction::SendCommand(
                    nodes@[j],
                    NodeCommand::Close,
                ),
        decreases nodes.len() - i,
    {
        actions.push(ControllerAction::SendCommand(nodes[i], NodeCommand::Close));
        i = i + 1;
    }
    assert(actions@ =~= nodes@.map_values(
        |node_id: NodeId| ControllerAction::SendCommand(node_id, NodeCommand::Close),
    ));
    actions
}

impl Controller {
    /// No handshake is running, and no channel is open.
    pub fn new() -> (controller: Self)
        ensures
            controller@ == initial(),
    {
        let controller = Controller {
            running_handshakes: HashSet::new(),
            active_nodes: ActiveNodes::new(),
            open: true,
        };
        assert(controller@.running =~= Set::<ConnectionId>::empty());
        controller
    }

    /// Whether events are still taken.
    pub fn is_open(&self) -> (open: bool)
        ensures
            open == self@.open,
    {
        self.open
    }

    /// Whether the handshake of `connection_id` is running and its peer not banned since.
    pub fn is_running(&self, connection_id: ConnectionId) -> (running: bool)
        ensures
            running == self@.running.contains(connection_id),
    {
        self.running_handshakes.contains(&connection_id.0)
    }

    /// The fault that `event` is, if it is one.
    pub fn fault(&self, event: &ControllerEvent) -> (fault: Option<ControllerFault>)
        ensures
            fault == fault_of(self@, *event),
    {
        match event {
            ControllerEvent::NewConnection(connection_id) => {
                if self.is_running(*connection_id) {
                    Some(ControllerFault::HandshakeAlreadyRunning)
                } else {
                    None
                }
            },
            ControllerEvent::HandshakeLost => Some(ControllerFault::HandshakeLost),
            ControllerEvent::NodeEventsClosed => Some(ControllerFault::NodeEventsClosed),
            ControllerEvent::Node(NodeEvent(node_id, news)) => {
                if self.active_nodes.get(*node_id).is_some() {
                    None
                } else {
                    match news {
                        NodeEventType::ReceivedPeerList(_) => Some(
                            ControllerFault::PeerListFromMissingNode,
                        ),
                        NodeEventType::Closed(_) => Some(ControllerFault::MissingNodeClosed),
                        NodeEventType::AskedPeerList => Some(
                            ControllerFault::PeerListAskedByMissingNode,
                        ),
                        NodeEventType::ReceivedBlock(_) | NodeEventType::ReceivedTransaction(
                            _,
                        ) => Some(ControllerFault::DataFromMissingNode),
                    }
                }
            },
            _ => None,
        }
    }

    /// The fault that it is not to be able to perform an action, if it is one. This is
    /// asked in the state that the event of the action led to.
    pub fn failure(&self, failed: FailedAction) -> (fault: Option<ControllerFault>)
        ensures
            fault == failure_of(self@, failed),
    {
        match failed {
            FailedAction::SendCommand => {
                if self.open {
                    Some(ControllerFault::NodeCommandLost)
                } else {
                    None
                }
            },
            FailedAction::AnswerPeerList | FailedAction::Emit | FailedAction::JoinNode => {
                Some(ControllerFault::ControllerEventLost)
            },
            FailedAction::JoinReleasedNodes | FailedAction::DrainHandshakes => None,
        }
    }

    /// Takes an event that is no fault, and says what to do about it.
    pub fn step(&mut self, event: ControllerEvent) -> (actions: Vec<ControllerAction>)
        requires
            old(self)@.open,
            fault_of(old(self)@, event) is None,
        ensures
            transition(old(self)@, event, final(self)@, actions@),
    {
        match event {
            // a command changes nothing so far
            ControllerEvent::Command(_) => Vec::new(),
            ControllerEvent::CommandsClosed => self.wind_down(),
            ControllerEvent::NewConnection(connection_id) => {
                self.running_handshakes.insert(connection_id.0);
                assert(self@.running =~= old(self)@.running.insert(connection_id));
                one(ControllerAction::StartHandshake(connection_id))
            },
            ControllerEvent::ConnectionBanned(connection_id) => self.banned(connection_id),
            ControllerEvent::HandshakeFinished(connection_id, result) => {
                self.handshake_finished(connection_id, result)
            },
            ControllerEvent::Node(NodeEvent(node_id, news)) => self.news(node_id, news),
            ControllerEvent::HandshakeLost | ControllerEvent::NodeEventsClosed => Vec::new(),
        }
    }

    /// Forgets the handshake of `connection_id`, and says whether it was running.
    fn end_handshake(&mut self, connection_id: ConnectionId) -> (was_running: bool)
        ensures
            was_running == old(self)@.running.contains(connection_id),
            final(self)@ == (ControllerView {
                running: old(self)@.running.remove(connection_id),
                ..old(self)@
            }),
    {
        let was_running = self.running_handshakes.remove(&connection_id.0);
        assert(self@.running =~= old(self)@.running.remove(connection_id));
        was_running
    }

    fn banned(&mut self, connection_id: ConnectionId) -> (actions: Vec<ControllerAction>)
        ensures
            final(self)@ == (ControllerView {
                running: old(self)@.running.remove(connection_id),
                ..old(self)@
            }),
            closes(actions@, nodes_on(old(self)@.active, connection_id)),
    {
        self.end_handshake(connection_id);
        let nodes = self.active_nodes.on_connection(connection_id);
        close_each(&nodes)
    }

    fn handshake_finished(
        &mut self,
        connection_id: ConnectionId,
        result: Result<NodeId, HandshakeError>,
    ) -> (actions: Vec<ControllerAction>)
        ensures
            transition(
                old(self)@,
                ControllerEvent::HandshakeFinished(connection_id, result),
                final(self)@,
                actions@,
            ),
    {
        let was_running = self.end_handshake(connection_id);
        match result {
            Ok(node_id) => {
                // the peer was banned in the meantime
                if !was_running {
                    return one(
                        ControllerAction::ConnectionClosed(
                            connection_id,
                            ConnectionClosureReason::Normal,
                        ),
                    );
                }
                // another connection leads to this node already
                if self.active_nodes.get(node_id).is_some() {
                    return one(
                        ControllerAction::ConnectionClosed(
                            connection_id,
                            ConnectionClosureReason::Normal,
                        ),
                    );
                }
                self.active_nodes.insert(node_id, connection_id);
                one(ControllerAction::StartNode(connection_id, node_id))
            },
            Err(_) => one(
                ControllerAction::ConnectionClosed(connection_id, ConnectionClosureReason::Failed),
            ),
        }
    }

    fn news(&mut self, node_id: NodeId, news: NodeEventType) -> (actions: Vec<ControllerAction>)
        requires
            fault_of(old(self)@, ControllerEvent::Node(NodeEvent(node_id, news))) is None,
        ensures
            transition(
                old(self)@,
                ControllerEvent::Node(NodeEvent(node_id, news)),
                final(self)@,
                actions@,
            ),
    {
        match news {
            NodeEventType::ReceivedPeerList(peers) => match self.active_nodes.get(node_id) {
                Some(connection_id) => two(
                    ControllerAction::ConnectionAlive(connection_id),
                    ControllerAction::MergePeerList(peers),
                ),
                None => Vec::new(),
            },
            NodeEventType::ReceivedBlock(block) => one(
                ControllerAction::Emit(
                    ProtocolEvent(node_id, ProtocolEventType::ReceivedBlock(block)),
                ),
            ),
            NodeEventType::ReceivedTransaction(transaction) => one(
                ControllerAction::Emit(
                    ProtocolEvent(node_id, ProtocolEventType::ReceivedTransaction(transaction)),
                ),
            ),
            NodeEventType::Closed(reason) => match self.active_nodes.remove(node_id) {
                Some(connection_id) => two(
                    ControllerAction::ConnectionClosed(connection_id, reason),
                    ControllerAction::JoinNode(node_id),
                ),
                None => Vec::new(),
            },
            NodeEventType::AskedPeerList => one(ControllerAction::AnswerPeerList(node_id)),
        }
    }

    fn wind_down(&mut self) -> (actions: Vec<ControllerAction>)
        ensures
            final(self)@ == (ControllerView {
                running: Set::empty(),
                active: Map::empty(),
                open: false,
            }),
            winds_down(actions@, old(self)@.active.dom()),
    {
        let nodes = self.active_nodes.drain();
        self.running_handshakes.clear();
        self.open = false;
        assert(self@.running =~= Set::<ConnectionId>::empty());
        let ghost closing = nodes@.map_values(
            |node_id: NodeId| ControllerAction::SendCommand(node_id, NodeCommand::Close),
        );
        let mut actions: Vec<ControllerAction> = close_each(&nodes);
        let mut i: usize = 0;
        while i < nodes.len()
            invariant
                i <= nodes.len(),
                closing.len() == nodes@.len(),
                actions@.len() == nodes@.len() + i,
                forall|j: int| 0 <= j < nodes@.len() ==> #[trigger] actions@[j] == closing[j],
                forall|j: int|
                    0 <= j < i ==> #[trigger] actions@[nodes@.len() + j]
                        == ControllerAction::ReleaseNode(nodes@[j]),
            decreases nodes.len() - i,
        {
            actions.push(ControllerAction::ReleaseNode(nodes[i]));
            i = i + 1;
        }
        let ghost releasing = nodes@.map_values(
            |node_id: NodeId| ControllerAction::ReleaseNode(node_id),
        );
        assert forall|j: int| 0 <= j < actions@.len() implies #[trigger] actions@[j] == (closing
            + releasing)[j] by {
            if j >= nodes@.len() {
                assert(actions@[nodes@.len() + (j - nodes@.len())] == actions@[j]);
            }
        }
        assert(actions@ =~= closing + releasing);
        actions.push(ControllerAction::DrainNodeEvents);
        actions.push(ControllerAction::JoinReleasedNodes);
        actions.push(ControllerAction::DrainHandshakes);
        actions.push(ControllerAction::StopConnections);
        assert(actions@ =~= closing + releasing + seq![
            ControllerAction::DrainNodeEvents,
            ControllerAction::JoinReleasedNodes,
            ControllerAction::DrainHandshakes,
            ControllerAction::StopConnections,
        ]);
        actions
    }
}

} // verus!
