//! What each part of the protocol does about each thing it is told.
//!
//! The laws here say, input by input, what has to come of it, in terms of the
//! input and the result alone.
use crate::active_nodes::{enumerates, nodes_on};
use crate::controller::{
    failure_of, fault_of, initial, peer_list_answer, transition, ControllerAction,
    ControllerEvent, ControllerFault, ControllerView, FailedAction,
};
use crate::event::{
    NodeCommand, NodeEvent, NodeEventType, ProtocolCommand, ProtocolEvent, ProtocolEventType,
};
use crate::handshake::{
    after_check, after_initiation, after_reply, after_signing, initiation_message, outcome,
    reply_message, AnsweredView, ChallengedView, Exchange, ExchangeView, HandshakeError,
    InitiatingView, ReplyingView,
};
use crate::identity::{ConnectionClosureReason, ConnectionId, NodeId, PublicKey};
use crate::laws::{
    law_ban_closes_the_nodes_on_the_connection, law_shutdown_releases_everything,
    lemma_shutdown_order,
};
use crate::message::{Block, IpAddr, Message, MessageView, Signature};
use crate::node::{
    ends_with, session_actions, session_failure_of, session_fault_of, FailedSessionAction,
    SessionAction, SessionFault, SessionInput, SessionView,
};
use crate::writer::{next_action, written_action, WriteOutcome, WriterAction};
use vstd::prelude::*;

verus! {

// ---------------------------------------------------------------- controller

/// A controller begins with no handshake and no channel, and takes events.
pub proof fn law_controller_begins_with_nothing(connection_id: ConnectionId, node_id: NodeId)
    ensures
        !initial().running.contains(connection_id),
        !initial().active.contains_key(node_id),
        initial().open,
{
}

/// A command changes nothing, and nothing is done about it.
pub proof fn law_command_changes_nothing(
    pre: ControllerView,
    command: ProtocolCommand,
    post: ControllerView,
    actions: Seq<ControllerAction>,
)
    requires
        transition(pre, ControllerEvent::Command(command), post, actions),
    ensures
        actions.len() == 0,
        post.running == pre.running,
        post.active == pre.active,
        post.open == pre.open,
{
}

/// Every new connection gets its handshake at once, whatever else is running, and
/// nothing else changes.
pub proof fn law_every_new_connection_gets_a_handshake(
    pre: ControllerView,
    connection_id: ConnectionId,
    post: ControllerView,
    actions: Seq<ControllerAction>,
)
    requires
        transition(pre, ControllerEvent::NewConnection(connection_id), post, actions),
    ensures
        actions == seq![ControllerAction::StartHandshake(connection_id)],
        post.running == pre.running.insert(connection_id),
        post.active == pre.active,
        post.open == pre.open,
{
}

/// A ban forgets the handshake of its connection and no other, and leaves every
/// channel to end by itself: the nodes on the connection, and only they, are told
/// to close, each once.
pub proof fn law_ban_forgets_the_handshake(
    pre: ControllerView,
    connection_id: ConnectionId,
    post: ControllerView,
    actions: Seq<ControllerAction>,
)
    requires
        transition(pre, ControllerEvent::ConnectionBanned(connection_id), post, actions),
    ensures
        post.running == pre.running.remove(connection_id),
        post.active == pre.active,
        post.open == pre.open,
        actions.no_duplicates(),
        forall|node_id: NodeId|
            pre.active.contains_key(node_id) && pre.active[node_id] == connection_id
                ==> #[trigger] actions.contains(
                ControllerAction::SendCommand(node_id, NodeCommand::Close),
            ),
        forall|p: int|
            0 <= p < actions.len() ==> (#[trigger] actions[p] matches ControllerAction::SendCommand(
                node_id,
                NodeCommand::Close,
            ) && pre.active.contains_key(node_id) && pre.active[node_id] == connection_id),
{
    law_ban_closes_the_nodes_on_the_connection(pre, connection_id, post, actions);
    assert(forall|p: int|
        0 <= p < actions.len() ==> actions.contains(#[trigger] actions[p]));
}

/// A handshake that succeeds while it is running, for a node that no channel is
/// open to, opens the channel, whatever else is going on.
pub proof fn law_success_opens_the_channel(
    pre: ControllerView,
    connection_id: ConnectionId,
    node_id: NodeId,
    post: ControllerView,
    actions: Seq<ControllerAction>,
)
    requires
        pre.running.contains(connection_id),
        !pre.active.contains_key(node_id),
        transition(
            pre,
            ControllerEvent::HandshakeFinished(connection_id, Ok(node_id)),
            post,
            actions,
        ),
    ensures
        actions == seq![ControllerAction::StartNode(connection_id, node_id)],
        post.active == pre.active.insert(node_id, connection_id),
        post.running == pre.running.remove(connection_id),
        post.open == pre.open,
{
}

/// A handshake that succeeds after it was forgotten, or for a node that a channel
/// is open to, opens nothing: its connection is given back as normal.
pub proof fn law_success_that_opens_nothing(
    pre: ControllerView,
    connection_id: ConnectionId,
    node_id: NodeId,
    post: ControllerView,
    actions: Seq<ControllerAction>,
)
    requires
        !pre.running.contains(connection_id) || pre.active.contains_key(node_id),
        transition(
            pre,
            ControllerEvent::HandshakeFinished(connection_id, Ok(node_id)),
            post,
            actions,
        ),
    ensures
        actions == seq![
            ControllerAction::ConnectionClosed(connection_id, ConnectionClosureReason::Normal),
        ],
        post.active == pre.active,
        post.running == pre.running.remove(connection_id),
        post.open == pre.open,
{
}

/// A handshake that fails, whatever for, gives its connection back as failed.
pub proof fn law_failed_handshake_gives_the_connection_back(
    pre: ControllerView,
    connection_id: ConnectionId,
    error: HandshakeError,
    post: ControllerView,
    actions: Seq<ControllerAction>,
)
    requires
        transition(
            pre,
            ControllerEvent::HandshakeFinished(connection_id, Err(error)),
            post,
            actions,
        ),
    ensures
        actions == seq![
            ControllerAction::ConnectionClosed(connection_id, ConnectionClosureReason::Failed),
        ],
        post.active == pre.active,
        post.running == pre.running.remove(connection_id),
        post.open == pre.open,
{
}

/// What a node sends is handed on as it is: data to the user under the node's id,
/// peers to the network layer together with the sign of life, and a question for
/// peers is to be answered. None of it changes anything.
pub proof fn law_news_is_handed_on(
    pre: ControllerView,
    node_id: NodeId,
    news: NodeEventType,
    post: ControllerView,
    actions: Seq<ControllerAction>,
)
    requires
        transition(pre, ControllerEvent::Node(NodeEvent(node_id, news)), post, actions),
        !(news is Closed),
    ensures
        post.running == pre.running,
        post.active == pre.active,
        post.open == pre.open,
        news matches NodeEventType::ReceivedBlock(block) ==> actions == seq![
                ControllerAction::Emit(
                    ProtocolEvent(node_id, ProtocolEventType::ReceivedBlock(block)),
                ),
            ],
        news matches NodeEventType::ReceivedTransaction(transaction) ==> actions == seq![
                ControllerAction::Emit(
                    ProtocolEvent(node_id, ProtocolEventType::ReceivedTransaction(transaction)),
                ),
            ],
        news matches NodeEventType::ReceivedPeerList(peers) ==> actions == seq![
                ControllerAction::ConnectionAlive(pre.active[node_id]),
                ControllerAction::MergePeerList(peers),
            ],
        news == NodeEventType::AskedPeerList ==> actions == seq![
            ControllerAction::AnswerPeerList(node_id),
        ],
{
}

/// A channel that is gone is forgotten, and no other is. Its connection is given
/// back for the very reason that it is gone for, and its task is waited for.
pub proof fn law_reason_reaches_the_network_layer(
    pre: ControllerView,
    node_id: NodeId,
    reason: ConnectionClosureReason,
    post: ControllerView,
    actions: Seq<ControllerAction>,
)
    requires
        pre.active.contains_key(node_id),
        transition(
            pre,
            ControllerEvent::Node(NodeEvent(node_id, NodeEventType::Closed(reason))),
            post,
            actions,
        ),
    ensures
        actions == seq![
            ControllerAction::ConnectionClosed(pre.active[node_id], reason),
            ControllerAction::JoinNode(node_id),
        ],
        post.active == pre.active.remove(node_id),
        post.running == pre.running,
        post.open == pre.open,
{
}

/// The shutdown tells every node that a channel is open to to close it, then lets
/// go of every such node, then drains, waits and stops, in this order. It does
/// nothing else, nothing twice, and leaves nothing behind.
pub proof fn law_shutdown_in_order(
    pre: ControllerView,
    post: ControllerView,
    actions: Seq<ControllerAction>,
    p: int,
    q: int,
)
    requires
        transition(pre, ControllerEvent::CommandsClosed, post, actions),
        0 <= p < actions.len(),
        0 <= q < actions.len(),
    ensures
        actions.no_duplicates(),
        actions.len() >= 4,
        actions.subrange(actions.len() - 4, actions.len() as int) == seq![
            ControllerAction::DrainNodeEvents,
            ControllerAction::JoinReleasedNodes,
            ControllerAction::DrainHandshakes,
            ControllerAction::StopConnections,
        ],
        forall|node_id: NodeId| #[trigger]
            pre.active.contains_key(node_id) ==> actions.contains(
                ControllerAction::SendCommand(node_id, NodeCommand::Close),
            ) && actions.contains(ControllerAction::ReleaseNode(node_id)),
        p < actions.len() - 4 ==> {
            ||| actions[p] matches ControllerAction::SendCommand(node_id, command) && command
                == NodeCommand::Close && pre.active.contains_key(node_id)
            ||| actions[p] matches ControllerAction::ReleaseNode(node_id)
                && pre.active.contains_key(node_id)
        },
        actions[p] is SendCommand && actions[q] is ReleaseNode ==> p < q,
        forall|connection_id: ConnectionId| !(#[trigger] post.running.contains(connection_id)),
        forall|node_id: NodeId| !(#[trigger] post.active.contains_key(node_id)),
        !post.open,
{
    law_shutdown_releases_everything(pre, post, actions);
    let order = lemma_shutdown_order(pre, post, actions);
    let n = order.len() as int;
    assert(actions.subrange(actions.len() - 4, actions.len() as int) =~= seq![
        ControllerAction::DrainNodeEvents,
        ControllerAction::JoinReleasedNodes,
        ControllerAction::DrainHandshakes,
        ControllerAction::StopConnections,
    ]);
    assert forall|node_id: NodeId| #[trigger]
        pre.active.contains_key(node_id) implies actions.contains(
        ControllerAction::SendCommand(node_id, NodeCommand::Close),
    ) && actions.contains(ControllerAction::ReleaseNode(node_id)) by {
        assert(order.to_set().contains(node_id));
        let k = choose|k: int| 0 <= k < order.len() && order[k] == node_id;
        assert(actions[k] == ControllerAction::SendCommand(node_id, NodeCommand::Close));
        assert(actions[n + k] == ControllerAction::ReleaseNode(node_id));
    }
    if p < n {
        assert(order.to_set().contains(order[p]));
    } else if p < 2 * n {
        assert(order.to_set().contains(order[p - n]));
    }
}

/// Only a connection that is new while its handshake runs, news of a node that no
/// channel is open to, and the loss of a handshake or of all nodes are faults.
/// Everything else may be taken, whatever it carries.
pub proof fn law_which_events_are_faults(pre: ControllerView, event: ControllerEvent)
    ensures
        fault_of(pre, event) is Some <==> {
            ||| event matches ControllerEvent::NewConnection(connection_id)
                && pre.running.contains(connection_id)
            ||| event matches ControllerEvent::Node(news) && !pre.active.contains_key(news.0)
            ||| event is HandshakeLost
            ||| event is NodeEventsClosed
        },
        event is NewConnection && fault_of(pre, event) is Some ==> fault_of(pre, event) == Some(
            ControllerFault::HandshakeAlreadyRunning,
        ),
        event is HandshakeLost ==> fault_of(pre, event) == Some(ControllerFault::HandshakeLost),
        event is NodeEventsClosed ==> fault_of(pre, event) == Some(
            ControllerFault::NodeEventsClosed,
        ),
{
}

/// The fault that news of a node is that no channel is open to, by its kind.
pub proof fn law_which_fault_missing_nodes_are(
    pre: ControllerView,
    node_id: NodeId,
    news: NodeEventType,
)
    requires
        !pre.active.contains_key(node_id),
    ensures
        ({
            let fault = fault_of(pre, ControllerEvent::Node(NodeEvent(node_id, news)));
            &&& news is ReceivedPeerList ==> fault == Some(ControllerFault::PeerListFromMissingNode)
            &&& news is Closed ==> fault == Some(ControllerFault::MissingNodeClosed)
            &&& news is AskedPeerList ==> fault == Some(ControllerFault::PeerListAskedByMissingNode)
            &&& news is ReceivedBlock || news is ReceivedTransaction ==> fault == Some(
                ControllerFault::DataFromMissingNode,
            )
        }),
{
}

/// Which actions must not fail: a command while events are taken, and always an
/// answer, an event for the user and the end of a node that has said its last.
pub proof fn law_which_failures_are_faults(state: ControllerView, failed: FailedAction)
    ensures
        failure_of(state, failed) is Some <==> {
            ||| failed is SendCommand && state.open
            ||| failed is AnswerPeerList
            ||| failed is Emit
            ||| failed is JoinNode
        },
        failed is SendCommand && state.open ==> failure_of(state, failed) == Some(
            ControllerFault::NodeCommandLost,
        ),
        failed is AnswerPeerList || failed is Emit || failed is JoinNode ==> failure_of(
            state,
            failed,
        ) == Some(ControllerFault::ControllerEventLost),
{
}

/// The answer to a node's question goes to that node and carries just the peers
/// that the network layer gave.
pub proof fn law_answer_carries_the_peers(node_id: NodeId, peers: Vec<IpAddr>)
    ensures
        peer_list_answer(node_id, peers) == ControllerAction::SendCommand(
            node_id,
            NodeCommand::SendPeerList(peers),
        ),
{
}

/// An enumeration of nodes holds each of them, nothing else, and nothing twice.
pub proof fn law_enumeration_is_complete(order: Seq<NodeId>, nodes: Set<NodeId>)
    ensures
        enumerates(order, nodes) <==> {
            &&& forall|i: int, j: int| 0 <= i < j < order.len() ==> order[i] != order[j]
            &&& forall|node_id: NodeId| order.contains(node_id) <==> nodes.contains(node_id)
        },
{
    if enumerates(order, nodes) {
        assert forall|node_id: NodeId| order.contains(node_id) <==> nodes.contains(node_id) by {
            assert(order.to_set().contains(node_id) <==> order.contains(node_id));
        }
    }
    if {
        &&& forall|i: int, j: int| 0 <= i < j < order.len() ==> order[i] != order[j]
        &&& forall|node_id: NodeId| order.contains(node_id) <==> nodes.contains(node_id)
    } {
        assert(order.to_set() =~= nodes);
        assert(order.no_duplicates());
    }
}

/// The nodes on a connection are those whose channel it carries.
pub proof fn law_nodes_on_a_connection(
    active: Map<NodeId, ConnectionId>,
    connection_id: ConnectionId,
    node_id: NodeId,
)
    ensures
        nodes_on(active, connection_id).contains(node_id) <==> active.contains_key(node_id)
            && active[node_id] == connection_id,
{
}

// ---------------------------------------------------------------- session of a node

/// Only the loss of the controller or of the writing task is a fault of a session.
/// Whatever a peer sends, it is none.
pub proof fn law_which_inputs_are_faults(input: SessionInput)
    ensures
        session_fault_of(input) == Some(SessionFault::CommandsClosed) <==> input
            is CommandsClosed,
        session_fault_of(input) == Some(SessionFault::WriterLost) <==> input is WriterLost,
        session_fault_of(input) is None <==> !(input is CommandsClosed) && !(input is WriterLost),
{
}

/// Which inputs end a session, and for which reason: as failed a handshake message,
/// whatever it carries, a broken stream and a writing task that did not send all;
/// as normal a clean end of the peer, a command to close and a writing task that
/// did send all. Nothing else ends it.
pub proof fn law_which_inputs_end_a_session(input: SessionInput)
    ensures
        ends_with(input) == Some(ConnectionClosureReason::Failed) <==> {
            ||| input matches SessionInput::Message(message) && (message is HandshakeInitiation
                || message is HandshakeReply)
            ||| input is StreamFailed
            ||| input == SessionInput::WriterReport(false)
        },
        ends_with(input) == Some(ConnectionClosureReason::Normal) <==> {
            ||| input is PeerClosed
            ||| input matches SessionInput::Command(command) && command is Close
            ||| input == SessionInput::WriterReport(true)
        },
{
}

/// A peer's message becomes one event for the controller, which carries just what
/// the message does, whatever that is.
pub proof fn law_message_becomes_an_event(
    node_id: NodeId,
    block: Block,
    transaction: String,
    peers: Vec<IpAddr>,
)
    ensures
        session_actions(node_id, SessionInput::Message(Message::Block(block))) == seq![
            SessionAction::Emit(NodeEvent(node_id, NodeEventType::ReceivedBlock(block))),
        ],
        session_actions(node_id, SessionInput::Message(Message::Transaction(transaction))) == seq![
            SessionAction::Emit(NodeEvent(node_id, NodeEventType::ReceivedTransaction(transaction))),
        ],
        session_actions(node_id, SessionInput::Message(Message::PeerList(peers))) == seq![
            SessionAction::Emit(NodeEvent(node_id, NodeEventType::ReceivedPeerList(peers))),
        ],
        session_actions(node_id, SessionInput::Message(Message::AskPeerList)) == seq![
            SessionAction::Emit(NodeEvent(node_id, NodeEventType::AskedPeerList)),
        ],
{
}

/// A command becomes one message for the peer, which carries just what the command
/// does, and the clock has the peer asked for its peers.
pub proof fn law_command_becomes_a_message(
    node_id: NodeId,
    block: Block,
    transaction: String,
    peers: Vec<IpAddr>,
)
    ensures
        session_actions(node_id, SessionInput::Command(NodeCommand::SendBlock(block))) == seq![
            SessionAction::Write(Message::Block(block)),
        ],
        session_actions(node_id, SessionInput::Command(NodeCommand::SendTransaction(transaction)))
            == seq![SessionAction::Write(Message::Transaction(transaction))],
        session_actions(node_id, SessionInput::Command(NodeCommand::SendPeerList(peers))) == seq![
            SessionAction::Write(Message::PeerList(peers)),
        ],
        session_actions(node_id, SessionInput::Tick) == seq![
            SessionAction::Write(Message::AskPeerList),
        ],
{
}

/// A session that ends closes the writing task, waits for its report unless it has
/// it, waits for its end, and only then says that the channel is gone: as failed
/// after a handshake message, a broken stream or messages that were not sent, as
/// normal otherwise.
pub proof fn law_end_of_a_session(node_id: NodeId, input: SessionInput)
    requires
        ({
            ||| input matches SessionInput::Message(message) && (message is HandshakeInitiation
                || message is HandshakeReply)
            ||| input is StreamFailed
            ||| input is PeerClosed
            ||| input matches SessionInput::Command(command) && command is Close
            ||| input is WriterReport
        }),
    ensures
        ({
            let failed = input is Message || input is StreamFailed || input
                == SessionInput::WriterReport(false);
            let reason = if failed {
                ConnectionClosureReason::Failed
            } else {
                ConnectionClosureReason::Normal
            };
            let closed = SessionAction::Emit(NodeEvent(node_id, NodeEventType::Closed(reason)));
            &&& input is WriterReport ==> session_actions(node_id, input) == seq![
                SessionAction::CloseWriter,
                SessionAction::JoinWriter,
                closed,
            ]
            &&& !(input is WriterReport) ==> session_actions(node_id, input) == seq![
                SessionAction::CloseWriter,
                SessionAction::AwaitWriterReport,
                SessionAction::JoinWriter,
                closed,
            ]
        }),
{
}

/// The fault that it is for a session not to be able to perform an action.
pub proof fn law_which_faults_session_failures_are(
    state: SessionView,
    failed: FailedSessionAction,
)
    ensures
        failed is Emit && state.open ==> session_failure_of(state, failed)
            == SessionFault::EventLost,
        failed is Emit && !state.open ==> session_failure_of(state, failed)
            == SessionFault::ClosedLost,
        failed is Write ==> session_failure_of(state, failed) == SessionFault::MessageLost,
        failed is AwaitWriterReport ==> session_failure_of(state, failed)
            == SessionFault::ReportLost,
        failed is JoinWriter ==> session_failure_of(state, failed)
            == SessionFault::WriterNotJoined,
{
}

// ---------------------------------------------------------------- writing task

/// Every message is sent, whatever it is, and the end of the messages is reported
/// as a success.
pub proof fn law_every_message_is_written(message: Message)
    ensures
        next_action(Some(message)) == WriterAction::Write(message),
        next_action(None) == WriterAction::Report(true),
{
}

/// The writing task goes on exactly after a message that was sent, and reports any
/// other as a failure.
pub proof fn law_unsent_message_is_reported(outcome: WriteOutcome)
    ensures
        written_action(outcome) == WriterAction::AwaitMessage <==> outcome == WriteOutcome::Sent,
        written_action(outcome) == WriterAction::Report(false) <==> outcome
            != WriteOutcome::Sent,
{
}

// ---------------------------------------------------------------- handshake

/// What a message says is what it holds, all of it.
pub proof fn law_message_says_what_it_holds(
    public_key: PublicKey,
    random_bytes: Vec<u8>,
    signature: Signature,
    block: Block,
    transaction: String,
    peers: Vec<IpAddr>,
)
    ensures
        (Message::HandshakeInitiation { public_key, random_bytes })@
            == (MessageView::HandshakeInitiation { public_key, random_bytes: random_bytes@ }),
        (Message::HandshakeReply { signature })@ == (MessageView::HandshakeReply {
            signature: signature.0@,
        }),
        Message::Block(block)@ == MessageView::Block(block.0@),
        Message::Transaction(transaction)@ == MessageView::Transaction(transaction@),
        Message::PeerList(peers)@ == MessageView::PeerList(peers@),
        Message::AskPeerList@ == MessageView::AskPeerList,
        signature@ == signature.0@,
        block@ == block.0@,
{
}

/// What an exchange says is what came of it.
pub proof fn law_exchange_says_what_came_of_it(message: Message)
    ensures
        Exchange::Received(message)@ == ExchangeView::Received(message@),
        Exchange::TimedOut@ == ExchangeView::TimedOut,
        Exchange::Failed@ == ExchangeView::Failed,
        Exchange::Stopped@ == ExchangeView::Stopped,
{
}

/// The two messages of a handshake carry the own key with the own bytes, and the
/// signature.
pub proof fn law_handshake_messages(own: NodeId, random_bytes: Seq<u8>, signature: Seq<u8>)
    ensures
        initiation_message(own, random_bytes) == (MessageView::HandshakeInitiation {
            public_key: own.0,
            random_bytes,
        }),
        reply_message(signature) == (MessageView::HandshakeReply { signature }),
{
}

/// The first exchange is accepted exactly when the other side announced a key other
/// than the own one, whatever bytes it announced, and then the announced bytes are
/// to be signed for the announced key.
pub proof fn law_announcement_is_accepted(stage: InitiatingView, exchange: ExchangeView)
    ensures
        after_initiation(stage, exchange) is Ok <==> (exchange matches ExchangeView::Received(
            MessageView::HandshakeInitiation { public_key, .. },
        ) && NodeId(public_key) != stage.self_node_id),
        exchange matches ExchangeView::Received(
            MessageView::HandshakeInitiation { public_key, random_bytes },
        ) ==> NodeId(public_key) != stage.self_node_id ==> after_initiation(stage, exchange)
            == Ok::<ChallengedView, (ConnectionId, HandshakeError)>(
            ChallengedView {
                connection_id: stage.connection_id,
                random_bytes: stage.random_bytes,
                other_node_id: NodeId(public_key),
                challenge: random_bytes,
            },
        ),
{
}

/// Why the first exchange fails, if it does: for what came of it, for a message of
/// another kind, or for the own key. The failure is that of its connection.
pub proof fn law_announcement_is_refused(stage: InitiatingView, exchange: ExchangeView)
    requires
        after_initiation(stage, exchange) is Err,
    ensures
        after_initiation(stage, exchange)->Err_0.0 == stage.connection_id,
        ({
            let error = after_initiation(stage, exchange)->Err_0.1;
            &&& exchange is TimedOut ==> error == HandshakeError::InitTimedOut
            &&& exchange is Failed ==> error == HandshakeError::InitFailed
            &&& exchange is Stopped ==> error == HandshakeError::InitStopped
            &&& exchange matches ExchangeView::Received(message) ==> if message
                is HandshakeInitiation {
                error == HandshakeError::OwnPublicKey
            } else {
                error == HandshakeError::InitWrongMessage
            }
        }),
{
}

/// To sign changes nothing of what the handshake knows.
pub proof fn law_signing_keeps_the_rest(stage: ChallengedView)
    ensures
        after_signing(stage) == (ReplyingView {
            connection_id: stage.connection_id,
            random_bytes: stage.random_bytes,
            other_node_id: stage.other_node_id,
        }),
{
}

/// The second exchange is accepted exactly when the other side sent a signature,
/// whatever it is, and then that signature is to be checked.
pub proof fn law_reply_is_accepted(stage: ReplyingView, exchange: ExchangeView)
    ensures
        after_reply(stage, exchange) is Ok <==> (exchange matches ExchangeView::Received(message)
            && message is HandshakeReply),
        exchange matches ExchangeView::Received(
            MessageView::HandshakeReply { signature },
        ) ==> after_reply(stage, exchange) == Ok::<AnsweredView, (ConnectionId, HandshakeError)>(
            AnsweredView {
                connection_id: stage.connection_id,
                random_bytes: stage.random_bytes,
                other_node_id: stage.other_node_id,
                signature,
            },
        ),
{
}

/// Why the second exchange fails, if it does: for what came of it, or for a message
/// of another kind. The failure is that of its connection.
pub proof fn law_reply_is_refused(stage: ReplyingView, exchange: ExchangeView)
    requires
        after_reply(stage, exchange) is Err,
    ensures
        after_reply(stage, exchange)->Err_0.0 == stage.connection_id,
        ({
            let error = after_reply(stage, exchange)->Err_0.1;
            &&& exchange is TimedOut ==> error == HandshakeError::ReplyTimedOut
            &&& exchange is Failed ==> error == HandshakeError::ReplyFailed
            &&& exchange is Stopped ==> error == HandshakeError::ReplyStopped
            &&& exchange is Received ==> error == HandshakeError::ReplyWrongMessage
        }),
{
}

/// The check of the signature decides alone: a valid one authenticates the other
/// side, whoever it is, and an invalid one nobody.
pub proof fn law_check_decides(stage: AnsweredView, valid: bool)
    ensures
        after_check(stage, valid).0 == stage.connection_id,
        valid ==> after_check(stage, valid).1 == Ok::<NodeId, HandshakeError>(stage.other_node_id),
        !valid ==> after_check(stage, valid).1 == Err::<NodeId, HandshakeError>(
            HandshakeError::InvalidSignature,
        ),
{
}

/// Whoever can answer is let in: any other node's announcement, any signature and a
/// valid check make a handshake succeed.
pub proof fn law_any_other_node_can_be_authenticated(
    own: NodeId,
    other: NodeId,
    random_bytes: Seq<u8>,
    signature: Seq<u8>,
)
    requires
        own != other,
    ensures
        outcome(
            own,
            ExchangeView::Received(
                MessageView::HandshakeInitiation { public_key: other.0, random_bytes },
            ),
            ExchangeView::Received(MessageView::HandshakeReply { signature }),
            true,
        ) == Ok::<NodeId, HandshakeError>(other),
{
}

/// Two keys are equal exactly when all their bytes are.
pub proof fn law_keys_are_compared_by_all_bytes(a: PublicKey, b: PublicKey)
    ensures
        vstd::std_specs::cmp::PartialEqSpec::eq_spec(&a, &b) <==> a.0@ == b.0@,
        vstd::std_specs::cmp::PartialEqSpec::eq_spec(&NodeId(a), &NodeId(b)) <==> a.0@ == b.0@,
{
    if a.0@ == b.0@ {
        assert(forall|i: int| 0 <= i < 33 ==> a.0@[i] == b.0@[i]);
        assert(a.0 =~= b.0);
    }
}

} // verus!
