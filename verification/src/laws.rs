//! What holds across the parts of the protocol, and across many events.
use crate::active_nodes::{enumerates, nodes_on};
use crate::controller::{
    closes, fault_of, initial, peer_list_answer, transition, winds_down, ControllerAction,
    ControllerEvent, ControllerView,
};
use crate::event::{
    NodeCommand, NodeEvent, NodeEventType, ProtocolEvent, ProtocolEventType,
};
use crate::handshake::{
    after_initiation, after_reply, after_signing, initiation_message, initiation_verdict, outcome,
    reply_message, reply_verdict, through_the_stages, ExchangeView, HandshakeError,
    InitiatingView,
};
use crate::identity::{ConnectionClosureReason, ConnectionId, NodeId, PublicKey};
use crate::message::{Block, IpAddr, Message, MessageView};
use crate::node::{
    closing_actions, ends_with, session_actions, session_fault_of, SessionAction, SessionInput,
    SessionView,
};
use crate::writer::{next_action, written_action, WriteOutcome, WriterAction};
use vstd::prelude::*;

verus! {

// ---------------------------------------------------------------- handshake

/// The stages of a handshake, one after the other, come to its outcome, on the
/// connection that it was begun on.
pub proof fn law_stages_come_to_the_outcome(
    stage: InitiatingView,
    initiation: ExchangeView,
    reply: ExchangeView,
    valid: bool,
)
    ensures
        through_the_stages(stage, initiation, reply, valid) == (
            stage.connection_id,
            outcome(stage.self_node_id, initiation, reply, valid),
        ),
{
}

/// What a handshake signs is what the other side announced, and what it has
/// checked is what it announced itself, under the key that the other side announced
/// and by the signature that it sent.
pub proof fn law_stages_keep_what_was_announced(
    stage: InitiatingView,
    initiation: ExchangeView,
    reply: ExchangeView,
)
    requires
        after_initiation(stage, initiation) is Ok,
        after_reply(after_signing(after_initiation(stage, initiation)->Ok_0), reply) is Ok,
    ensures
        ({
            let challenged = after_initiation(stage, initiation)->Ok_0;
            let answered = after_reply(after_signing(challenged), reply)->Ok_0;
            &&& initiation == ExchangeView::Received(
                initiation_message(answered.other_node_id, challenged.challenge),
            )
            &&& reply == ExchangeView::Received(reply_message(answered.signature))
            &&& answered.random_bytes == stage.random_bytes
        }),
{
}

/// A handshake succeeds exactly when the other side announced a key other than
/// the own one, sent a signature, and that signature is valid. It then gives the
/// node of the announced key.
pub proof fn law_handshake_success(
    own: NodeId,
    initiation: ExchangeView,
    reply: ExchangeView,
    valid: bool,
    node_id: NodeId,
)
    ensures
        outcome(own, initiation, reply, valid) == Ok::<NodeId, HandshakeError>(node_id) <==> {
            &&& initiation matches ExchangeView::Received(
                MessageView::HandshakeInitiation { public_key, .. },
            )
            &&& NodeId(public_key) == node_id
            &&& node_id != own
            &&& reply matches ExchangeView::Received(MessageView::HandshakeReply { .. })
            &&& valid
        },
{
}

/// A handshake never authenticates a node as itself.
pub proof fn law_handshake_refuses_own_key(
    own: NodeId,
    random_bytes: Seq<u8>,
    reply: ExchangeView,
    valid: bool,
)
    ensures
        outcome(own, ExchangeView::Received(initiation_message(own, random_bytes)), reply, valid)
            == Err::<NodeId, HandshakeError>(HandshakeError::OwnPublicKey),
{
}

/// Two nodes with different keys that follow the protocol authenticate each
/// other, whatever the signature scheme is, as long as each one's signatures are
/// valid under its key.
pub proof fn law_honest_peers_accept_each_other(
    a: NodeId,
    a_bytes: Seq<u8>,
    sign_a: spec_fn(Seq<u8>) -> Seq<u8>,
    b: NodeId,
    b_bytes: Seq<u8>,
    sign_b: spec_fn(Seq<u8>) -> Seq<u8>,
    valid: spec_fn(Seq<u8>, Seq<u8>, PublicKey) -> bool,
)
    requires
        a != b,
        forall|bytes: Seq<u8>| valid(bytes, #[trigger] sign_a(bytes), a.0),
        forall|bytes: Seq<u8>| valid(bytes, #[trigger] sign_b(bytes), b.0),
    ensures
        ({
            let a_hears = ExchangeView::Received(initiation_message(b, b_bytes));
            let b_hears = ExchangeView::Received(initiation_message(a, a_bytes));
            let (_, a_signs) = initiation_verdict(a, a_hears)->Ok_0;
            let (_, b_signs) = initiation_verdict(b, b_hears)->Ok_0;
            let a_gets = ExchangeView::Received(reply_message(sign_b(b_signs)));
            let b_gets = ExchangeView::Received(reply_message(sign_a(a_signs)));
            let a_checks = valid(a_bytes, reply_verdict(a_gets)->Ok_0, b.0);
            let b_checks = valid(b_bytes, reply_verdict(b_gets)->Ok_0, a.0);
            &&& outcome(a, a_hears, a_gets, a_checks) == Ok::<NodeId, HandshakeError>(b)
            &&& outcome(b, b_hears, b_gets, b_checks) == Ok::<NodeId, HandshakeError>(a)
        }),
{
}

// ---------------------------------------------------------------- controller, one event

/// `event` says that the channel to `node_id` is gone.
pub open spec fn closed_by(event: ControllerEvent, node_id: NodeId) -> bool {
    event matches ControllerEvent::Node(NodeEvent(from, NodeEventType::Closed(_))) && from
        == node_id
}

/// Only its own end or the shutdown ends a channel: every other event leaves it
/// open, over the same connection.
pub proof fn law_channel_is_kept(
    pre: ControllerView,
    event: ControllerEvent,
    post: ControllerView,
    actions: Seq<ControllerAction>,
    node_id: NodeId,
)
    requires
        pre.active.contains_key(node_id),
        transition(pre, event, post, actions),
        event != ControllerEvent::CommandsClosed,
        !closed_by(event, node_id),
    ensures
        post.active.contains_key(node_id),
        post.active[node_id] == pre.active[node_id],
{
}

/// A finished handshake either opens a channel over its connection or gives the
/// connection back: as failed if the handshake failed, as normal otherwise. Either
/// way the handshake is not running any more.
pub proof fn law_finished_handshake_is_settled(
    pre: ControllerView,
    connection_id: ConnectionId,
    result: Result<NodeId, HandshakeError>,
    post: ControllerView,
    actions: Seq<ControllerAction>,
)
    requires
        transition(
            pre,
            ControllerEvent::HandshakeFinished(connection_id, result),
            post,
            actions,
        ),
    ensures
        !post.running.contains(connection_id),
        match result {
            Ok(node_id) => {
                ||| actions == seq![ControllerAction::StartNode(connection_id, node_id)]
                    && post.active == pre.active.insert(node_id, connection_id)
                ||| actions == seq![
                    ControllerAction::ConnectionClosed(
                        connection_id,
                        ConnectionClosureReason::Normal,
                    ),
                ] && post.active == pre.active
            },
            Err(_) => actions == seq![
                ControllerAction::ConnectionClosed(connection_id, ConnectionClosureReason::Failed),
            ] && post.active == pre.active,
        },
{
}

/// A second connection to a node that a channel is open to is given back, and
/// the channel stays as it is.
pub proof fn law_redundant_connection_is_given_back(
    pre: ControllerView,
    connection_id: ConnectionId,
    node_id: NodeId,
    post: ControllerView,
    actions: Seq<ControllerAction>,
)
    requires
        pre.active.contains_key(node_id),
        transition(
            pre,
            ControllerEvent::HandshakeFinished(connection_id, Ok(node_id)),
            post,
            actions,
        ),
    ensures
        post.active == pre.active,
        actions == seq![
            ControllerAction::ConnectionClosed(connection_id, ConnectionClosureReason::Normal),
        ],
{
}

/// A ban tells exactly the nodes on the banned connection to close, each once.
pub proof fn law_ban_closes_the_nodes_on_the_connection(
    pre: ControllerView,
    connection_id: ConnectionId,
    post: ControllerView,
    actions: Seq<ControllerAction>,
)
    requires
        transition(pre, ControllerEvent::ConnectionBanned(connection_id), post, actions),
    ensures
        actions.no_duplicates(),
        forall|action: ControllerAction| #[trigger]
            actions.contains(action) <==> (action matches ControllerAction::SendCommand(
                node_id,
                NodeCommand::Close,
            ) && pre.active.contains_key(node_id) && pre.active[node_id] == connection_id),
{
    let nodes = nodes_on(pre.active, connection_id);
    let close = |node_id: NodeId| ControllerAction::SendCommand(node_id, NodeCommand::Close);
    assert(closes(actions, nodes));
    let order = choose|order: Seq<NodeId>| #[trigger]
        enumerates(order, nodes) && actions == order.map_values(close);
    assert(enumerates(order, nodes) && actions == order.map_values(close));
    assert forall|action: ControllerAction| #[trigger]
        actions.contains(action) <==> (action matches ControllerAction::SendCommand(
            node_id,
            NodeCommand::Close,
        ) && pre.active.contains_key(node_id) && pre.active[node_id] == connection_id) by {
        if actions.contains(action) {
            let i = choose|i: int| 0 <= i < actions.len() && actions[i] == action;
            assert(order.to_set().contains(order[i]));
        }
        if let ControllerAction::SendCommand(node_id, NodeCommand::Close) = action {
            if nodes.contains(node_id) {
                assert(order.to_set().contains(node_id));
                let i = choose|i: int| 0 <= i < order.len() && order[i] == node_id;
                assert(actions[i] == action);
            }
        }
    }
}

/// What the shutdown does where `active` are the open channels.
pub open spec fn is_shutdown_action(
    active: Map<NodeId, ConnectionId>,
    action: ControllerAction,
) -> bool {
    match action {
        ControllerAction::SendCommand(node_id, NodeCommand::Close) => active.contains_key(node_id),
        ControllerAction::ReleaseNode(node_id) => active.contains_key(node_id),
        ControllerAction::DrainNodeEvents => true,
        ControllerAction::JoinReleasedNodes => true,
        ControllerAction::DrainHandshakes => true,
        ControllerAction::StopConnections => true,
        _ => false,
    }
}

/// The shutdown tells every node that a channel is open to to close it, releases
/// every such node, waits for all of them and for the handshakes, and stops the
/// network layer last. It does each of this once, and nothing else: the user is
/// told nothing more, and no connection is given back one by one.
pub proof fn law_shutdown_releases_everything(
    pre: ControllerView,
    post: ControllerView,
    actions: Seq<ControllerAction>,
)
    requires
        transition(pre, ControllerEvent::CommandsClosed, post, actions),
    ensures
        post.running == Set::<ConnectionId>::empty(),
        post.active == Map::<NodeId, ConnectionId>::empty(),
        !post.open,
        actions.no_duplicates(),
        forall|action: ControllerAction| #[trigger]
            actions.contains(action) <==> is_shutdown_action(pre.active, action),
        actions.last() == ControllerAction::StopConnections,
{
    let nodes = pre.active.dom();
    let order = lemma_shutdown_order(pre, post, actions);
    let n = order.len() as int;
    assert forall|action: ControllerAction| #[trigger]
        actions.contains(action) <==> is_shutdown_action(pre.active, action) by {
        if actions.contains(action) {
            let i = choose|i: int| 0 <= i < actions.len() && actions[i] == action;
            if i < 2 * n {
                let k = if i < n { i } else { i - n };
                assert(order.to_set().contains(order[k]));
            }
        }
        if is_shutdown_action(pre.active, action) {
            match action {
                ControllerAction::SendCommand(node_id, _) => {
                    assert(order.to_set().contains(node_id));
                    let i = choose|i: int| 0 <= i < order.len() && order[i] == node_id;
                    assert(actions[i] == action);
                },
                ControllerAction::ReleaseNode(node_id) => {
                    assert(order.to_set().contains(node_id));
                    let i = choose|i: int| 0 <= i < order.len() && order[i] == node_id;
                    assert(actions[n + i] == action);
                },
                ControllerAction::DrainNodeEvents => {
                    assert(actions[2 * n] == action);
                },
                ControllerAction::JoinReleasedNodes => {
                    assert(actions[2 * n + 1] == action);
                },
                ControllerAction::DrainHandshakes => {
                    assert(actions[2 * n + 2] == action);
                },
                _ => {
                    assert(actions[2 * n + 3] == action);
                },
            }
        }
    }
}

/// The order in which the shutdown speaks of the nodes, and where it does so.
pub(crate) proof fn lemma_shutdown_order(
    pre: ControllerView,
    post: ControllerView,
    actions: Seq<ControllerAction>,
) -> (order: Seq<NodeId>)
    requires
        transition(pre, ControllerEvent::CommandsClosed, post, actions),
    ensures
        enumerates(order, pre.active.dom()),
        actions.len() == 2 * order.len() + 4,
        forall|i: int|
            0 <= i < order.len() ==> #[trigger] actions[i] == ControllerAction::SendCommand(
                order[i],
                NodeCommand::Close,
            ),
        forall|i: int|
            order.len() <= i < 2 * order.len() ==> #[trigger] actions[i]
                == ControllerAction::ReleaseNode(order[i - order.len()]),
        actions[actions.len() - 4] == ControllerAction::DrainNodeEvents,
        actions[actions.len() - 3] == ControllerAction::JoinReleasedNodes,
        actions[actions.len() - 2] == ControllerAction::DrainHandshakes,
        actions[actions.len() - 1] == ControllerAction::StopConnections,
{
    let nodes = pre.active.dom();
    let close = |node_id: NodeId| ControllerAction::SendCommand(node_id, NodeCommand::Close);
    let release = |node_id: NodeId| ControllerAction::ReleaseNode(node_id);
    let rest = seq![
        ControllerAction::DrainNodeEvents,
        ControllerAction::JoinReleasedNodes,
        ControllerAction::DrainHandshakes,
        ControllerAction::StopConnections,
    ];
    assert(winds_down(actions, nodes));
    let order = choose|order: Seq<NodeId>| #[trigger]
        enumerates(order, nodes) && actions == order.map_values(close) + order.map_values(release)
            + rest;
    assert(enumerates(order, nodes) && actions == order.map_values(close) + order.map_values(
        release,
    ) + rest);
    order
}

// ---------------------------------------------------------------- controller, many events

/// A controller, from its beginning: event `i` is taken in state `i`, leads to
/// state `i + 1`, and makes the controller want `actions[i]` done.
pub open spec fn is_run(
    states: Seq<ControllerView>,
    events: Seq<ControllerEvent>,
    actions: Seq<Seq<ControllerAction>>,
) -> bool {
    &&& states.len() == events.len() + 1
    &&& actions.len() == events.len()
    &&& states[0] == initial()
    &&& forall|i: int|
        0 <= i < events.len() ==> #[trigger] takes(states, events, actions, i)
}

/// Event `i` may be taken in state `i`, and leads to state `i + 1` and to `actions[i]`.
pub open spec fn takes(
    states: Seq<ControllerView>,
    events: Seq<ControllerEvent>,
    actions: Seq<Seq<ControllerAction>>,
    i: int,
) -> bool {
    &&& states[i].open
    &&& fault_of(states[i], events[i]) is None
    &&& transition(states[i], events[i], states[i + 1], actions[i])
}

/// `event` ends the handshake of `connection_id`, or forgets it.
pub open spec fn ends_handshake(event: ControllerEvent, connection_id: ConnectionId) -> bool {
    match event {
        ControllerEvent::ConnectionBanned(banned) => banned == connection_id,
        ControllerEvent::HandshakeFinished(finished, _) => finished == connection_id,
        _ => false,
    }
}

/// Nothing is taken after the shutdown.
pub proof fn law_nothing_follows_the_shutdown(
    states: Seq<ControllerView>,
    events: Seq<ControllerEvent>,
    actions: Seq<Seq<ControllerAction>>,
    i: int,
)
    requires
        is_run(states, events, actions),
        0 <= i < events.len(),
        events[i] == ControllerEvent::CommandsClosed,
    ensures
        i == events.len() - 1,
{
    assert(takes(states, events, actions, i));
    if i + 1 < events.len() {
        assert(takes(states, events, actions, i + 1));
    }
}

/// A handshake that is not running stays so until its connection is new again.
proof fn lemma_stays_forgotten(
    states: Seq<ControllerView>,
    events: Seq<ControllerEvent>,
    actions: Seq<Seq<ControllerAction>>,
    connection_id: ConnectionId,
    i: int,
    j: int,
)
    requires
        is_run(states, events, actions),
        0 <= i <= j < states.len(),
        !states[i].running.contains(connection_id),
        forall|k: int|
            i <= k < j ==> #[trigger] events[k] != ControllerEvent::NewConnection(connection_id),
    ensures
        !states[j].running.contains(connection_id),
    decreases j - i,
{
    if i < j {
        lemma_stays_forgotten(states, events, actions, connection_id, i, j - 1);
        assert(takes(states, events, actions, j - 1));
        assert(events[j - 1] != ControllerEvent::NewConnection(connection_id));
    }
}

/// A handshake that is running stays so until it ends or its connection is banned.
proof fn lemma_stays_running(
    states: Seq<ControllerView>,
    events: Seq<ControllerEvent>,
    actions: Seq<Seq<ControllerAction>>,
    connection_id: ConnectionId,
    i: int,
    j: int,
)
    requires
        is_run(states, events, actions),
        0 <= i <= j < events.len(),
        states[i].running.contains(connection_id),
        forall|k: int| i <= k < j ==> !ends_handshake(#[trigger] events[k], connection_id),
    ensures
        states[j].running.contains(connection_id),
    decreases j - i,
{
    if i < j {
        lemma_stays_running(states, events, actions, connection_id, i, j - 1);
        assert(takes(states, events, actions, j - 1));
        assert(takes(states, events, actions, j));
        assert(!ends_handshake(events[j - 1], connection_id));
    }
}

/// An open channel stays open over its connection until it is said to be gone.
proof fn lemma_stays_active(
    states: Seq<ControllerView>,
    events: Seq<ControllerEvent>,
    actions: Seq<Seq<ControllerAction>>,
    node_id: NodeId,
    i: int,
    j: int,
)
    requires
        is_run(states, events, actions),
        0 <= i <= j < states.len(),
        states[i].active.contains_key(node_id),
        states[j].open,
        forall|k: int| i <= k < j ==> !closed_by(#[trigger] events[k], node_id),
    ensures
        states[j].active.contains_key(node_id),
        states[j].active[node_id] == states[i].active[node_id],
    decreases j - i,
{
    if i < j {
        assert(takes(states, events, actions, j - 1));
        lemma_stays_active(states, events, actions, node_id, i, j - 1);
        assert(!closed_by(events[j - 1], node_id));
        law_channel_is_kept(
            states[j - 1],
            events[j - 1],
            states[j],
            actions[j - 1],
            node_id,
        );
    }
}

/// Only a handshake that succeeds opens a channel.
proof fn lemma_start_node(
    pre: ControllerView,
    event: ControllerEvent,
    post: ControllerView,
    actions: Seq<ControllerAction>,
    connection_id: ConnectionId,
    node_id: NodeId,
)
    requires
        transition(pre, event, post, actions),
        actions == seq![ControllerAction::StartNode(connection_id, node_id)],
    ensures
        event == ControllerEvent::HandshakeFinished(connection_id, Ok(node_id)),
        pre.running.contains(connection_id),
        !pre.active.contains_key(node_id),
        post.active == pre.active.insert(node_id, connection_id),
        post.open == pre.open,
{
    let start = ControllerAction::StartNode(connection_id, node_id);
    assert(actions[0] == start);
    match event {
        ControllerEvent::CommandsClosed => {
            law_shutdown_releases_everything(pre, post, actions);
            assert(actions.last() == start);
        },
        ControllerEvent::ConnectionBanned(banned) => {
            law_ban_closes_the_nodes_on_the_connection(pre, banned, post, actions);
            assert(actions.contains(start));
        },
        ControllerEvent::HandshakeFinished(finished, result) => {},
        ControllerEvent::Node(NodeEvent(from, news)) => {
            match news {
                NodeEventType::ReceivedPeerList(_) => {
                    assert(actions.len() == 2);
                },
                NodeEventType::Closed(_) => {
                    assert(actions.len() == 2);
                },
                _ => {},
            }
        },
        _ => {},
    }
}

/// A peer that is banned while its handshake runs never gets a channel by it: a
/// handshake that succeeds after the ban gives its connection back and changes
/// nothing, unless the connection was new again in between.
pub proof fn law_banned_handshake_opens_nothing(
    states: Seq<ControllerView>,
    events: Seq<ControllerEvent>,
    actions: Seq<Seq<ControllerAction>>,
    connection_id: ConnectionId,
    node_id: NodeId,
    i: int,
    j: int,
)
    requires
        is_run(states, events, actions),
        0 <= i < j < events.len(),
        events[i] == ControllerEvent::ConnectionBanned(connection_id),
        events[j] == ControllerEvent::HandshakeFinished(connection_id, Ok(node_id)),
        forall|k: int|
            i < k < j ==> #[trigger] events[k] != ControllerEvent::NewConnection(connection_id),
    ensures
        states[j + 1] == states[j],
        actions[j] == seq![
            ControllerAction::ConnectionClosed(connection_id, ConnectionClosureReason::Normal),
        ],
{
    assert(takes(states, events, actions, i));
    assert(takes(states, events, actions, j));
    lemma_stays_forgotten(states, events, actions, connection_id, i + 1, j);
    assert(states[j].running.remove(connection_id) =~= states[j].running);
}

/// There is at most one channel to a node: where a channel to it is opened
/// twice, the first was said to be gone in between.
pub proof fn law_one_channel_per_node(
    states: Seq<ControllerView>,
    events: Seq<ControllerEvent>,
    actions: Seq<Seq<ControllerAction>>,
    node_id: NodeId,
    first: ConnectionId,
    i: int,
    second: ConnectionId,
    j: int,
)
    requires
        is_run(states, events, actions),
        0 <= i < j < events.len(),
        actions[i] == seq![ControllerAction::StartNode(first, node_id)],
        actions[j] == seq![ControllerAction::StartNode(second, node_id)],
    ensures
        exists|k: int| i < k < j && closed_by(#[trigger] events[k], node_id),
{
    assert(takes(states, events, actions, i));
    assert(takes(states, events, actions, j));
    lemma_start_node(states[i], events[i], states[i + 1], actions[i], first, node_id);
    lemma_start_node(states[j], events[j], states[j + 1], actions[j], second, node_id);
    if forall|k: int| i < k < j ==> !closed_by(#[trigger] events[k], node_id) {
        lemma_stays_active(states, events, actions, node_id, i + 1, j);
    }
}

/// The controller hears a node out: from the moment its channel is opened until
/// the channel is said to be gone, nothing that its session tells is a fault.
pub proof fn law_opened_channel_is_heard(
    states: Seq<ControllerView>,
    events: Seq<ControllerEvent>,
    actions: Seq<Seq<ControllerAction>>,
    connection_id: ConnectionId,
    node_id: NodeId,
    i: int,
    j: int,
    news: NodeEventType,
)
    requires
        is_run(states, events, actions),
        0 <= i < j < states.len(),
        actions[i] == seq![ControllerAction::StartNode(connection_id, node_id)],
        forall|k: int| i < k < j ==> !closed_by(#[trigger] events[k], node_id),
        states[j].open,
    ensures
        states[j].active.contains_key(node_id),
        states[j].active[node_id] == connection_id,
        fault_of(states[j], ControllerEvent::Node(NodeEvent(node_id, news))) is None,
{
    assert(takes(states, events, actions, i));
    lemma_start_node(states[i], events[i], states[i + 1], actions[i], connection_id, node_id);
    lemma_stays_active(states, events, actions, node_id, i + 1, j);
}

/// The handshake of a connection does not run twice at a time: where its
/// connection is new twice, it ended or was banned in between.
pub proof fn law_one_handshake_per_connection(
    states: Seq<ControllerView>,
    events: Seq<ControllerEvent>,
    actions: Seq<Seq<ControllerAction>>,
    connection_id: ConnectionId,
    i: int,
    j: int,
)
    requires
        is_run(states, events, actions),
        0 <= i < j < events.len(),
        events[i] == ControllerEvent::NewConnection(connection_id),
        events[j] == ControllerEvent::NewConnection(connection_id),
    ensures
        exists|k: int| i < k < j && ends_handshake(#[trigger] events[k], connection_id),
{
    assert(takes(states, events, actions, i));
    assert(takes(states, events, actions, j));
    if forall|k: int| i < k < j ==> !ends_handshake(#[trigger] events[k], connection_id) {
        lemma_stays_running(states, events, actions, connection_id, i + 1, j);
    }
}

/// A running handshake was started, and has neither ended nor been banned since.
proof fn lemma_running_was_started(
    states: Seq<ControllerView>,
    events: Seq<ControllerEvent>,
    actions: Seq<Seq<ControllerAction>>,
    connection_id: ConnectionId,
    j: int,
) -> (i: int)
    requires
        is_run(states, events, actions),
        0 <= j < states.len(),
        states[j].running.contains(connection_id),
    ensures
        0 <= i < j,
        events[i] == ControllerEvent::NewConnection(connection_id),
        forall|k: int| i < k < j ==> !ends_handshake(#[trigger] events[k], connection_id),
    decreases j,
{
    if j > 0 {
        assert(takes(states, events, actions, j - 1));
        if states[j - 1].running.contains(connection_id) {
            let i = lemma_running_was_started(states, events, actions, connection_id, j - 1);
            assert(!ends_handshake(events[j - 1], connection_id));
            i
        } else {
            j - 1
        }
    } else {
        0
    }
}

/// A channel is opened only by a handshake on a connection that was new, and
/// that was neither settled nor banned between then and its success.
pub proof fn law_channel_needs_a_handshake(
    states: Seq<ControllerView>,
    events: Seq<ControllerEvent>,
    actions: Seq<Seq<ControllerAction>>,
    connection_id: ConnectionId,
    node_id: NodeId,
    j: int,
)
    requires
        is_run(states, events, actions),
        0 <= j < events.len(),
        actions[j] == seq![ControllerAction::StartNode(connection_id, node_id)],
    ensures
        events[j] == ControllerEvent::HandshakeFinished(connection_id, Ok(node_id)),
        exists|i: int|
            0 <= i < j && #[trigger] events[i] == ControllerEvent::NewConnection(connection_id)
                && forall|k: int|
                i < k < j ==> !ends_handshake(#[trigger] events[k], connection_id),
{
    assert(takes(states, events, actions, j));
    lemma_start_node(states[j], events[j], states[j + 1], actions[j], connection_id, node_id);
    let i = lemma_running_was_started(states, events, actions, connection_id, j);
    assert(events[i] == ControllerEvent::NewConnection(connection_id));
}

/// Every open channel was opened over its connection, and has not been said to
/// be gone since.
pub proof fn law_open_channel_was_opened(
    states: Seq<ControllerView>,
    events: Seq<ControllerEvent>,
    actions: Seq<Seq<ControllerAction>>,
    node_id: NodeId,
    j: int,
)
    requires
        is_run(states, events, actions),
        0 <= j < states.len(),
        states[j].active.contains_key(node_id),
    ensures
        exists|i: int|
            0 <= i < j && #[trigger] actions[i] == seq![
                ControllerAction::StartNode(states[j].active[node_id], node_id),
            ] && forall|k: int| i < k < j ==> !closed_by(#[trigger] events[k], node_id),
    decreases j,
{
    if j > 0 {
        let pre = states[j - 1];
        assert(takes(states, events, actions, j - 1));
        if pre.active.contains_key(node_id) {
            assert(!closed_by(events[j - 1], node_id));
            law_channel_is_kept(pre, events[j - 1], states[j], actions[j - 1], node_id);
            law_open_channel_was_opened(states, events, actions, node_id, j - 1);
            let i = choose|i: int|
                0 <= i < j - 1 && #[trigger] actions[i] == seq![
                    ControllerAction::StartNode(pre.active[node_id], node_id),
                ] && forall|k: int| i < k < j - 1 ==> !closed_by(#[trigger] events[k], node_id);
            assert(0 <= i < j && actions[i] == seq![
                ControllerAction::StartNode(states[j].active[node_id], node_id),
            ]);
        } else {
            assert(actions[j - 1] == seq![
                ControllerAction::StartNode(states[j].active[node_id], node_id),
            ]);
        }
    }
}

/// What `actions` tell the user, in order.
pub open spec fn told_to_user(actions: Seq<ControllerAction>) -> Seq<ProtocolEvent>
    decreases actions.len(),
{
    if actions.len() == 0 {
        Seq::empty()
    } else {
        told_to_user(actions.drop_last()) + match actions.last() {
            ControllerAction::Emit(told) => seq![told],
            _ => Seq::empty(),
        }
    }
}

/// What the first `j` events make the controller tell the user, in order.
pub open spec fn told_by(actions: Seq<Seq<ControllerAction>>, j: int) -> Seq<ProtocolEvent>
    decreases j,
{
    if j <= 0 {
        Seq::empty()
    } else {
        told_by(actions, j - 1) + told_to_user(actions[j - 1])
    }
}

/// The block or the transaction that `event` brings, if it brings one.
pub open spec fn data_of(event: ControllerEvent) -> Seq<ProtocolEvent> {
    match event {
        ControllerEvent::Node(NodeEvent(node_id, NodeEventType::ReceivedBlock(block))) => seq![
            ProtocolEvent(node_id, ProtocolEventType::ReceivedBlock(block)),
        ],
        ControllerEvent::Node(
            NodeEvent(node_id, NodeEventType::ReceivedTransaction(transaction)),
        ) => seq![ProtocolEvent(node_id, ProtocolEventType::ReceivedTransaction(transaction))],
        _ => Seq::empty(),
    }
}

/// The blocks and transactions that the first `j` events bring, in order.
pub open spec fn data_until(events: Seq<ControllerEvent>, j: int) -> Seq<ProtocolEvent>
    decreases j,
{
    if j <= 0 {
        Seq::empty()
    } else {
        data_until(events, j - 1) + data_of(events[j - 1])
    }
}

/// Where no action tells the user anything, the user is told nothing.
proof fn lemma_nothing_told(actions: Seq<ControllerAction>)
    requires
        forall|p: int| 0 <= p < actions.len() ==> !(#[trigger] actions[p] is Emit),
    ensures
        told_to_user(actions) == Seq::<ProtocolEvent>::empty(),
    decreases actions.len(),
{
    if actions.len() > 0 {
        assert(actions.last() == actions[actions.len() - 1]);
        lemma_nothing_told(actions.drop_last());
        assert(told_to_user(actions) =~= Seq::<ProtocolEvent>::empty());
    }
}

/// The user is told exactly the blocks and transactions that nodes sent, each once
/// and in the order in which they came in, and nothing else.
pub proof fn law_user_is_told_what_nodes_sent(
    states: Seq<ControllerView>,
    events: Seq<ControllerEvent>,
    actions: Seq<Seq<ControllerAction>>,
    j: int,
)
    requires
        is_run(states, events, actions),
        0 <= j <= events.len(),
    ensures
        told_by(actions, j) == data_until(events, j),
    decreases j,
{
    if j > 0 {
        law_user_is_told_what_nodes_sent(states, events, actions, j - 1);
        assert(takes(states, events, actions, j - 1));
        let pre = states[j - 1];
        let event = events[j - 1];
        let wanted = actions[j - 1];
        if data_of(event).len() > 0 {
            assert(wanted.drop_last() =~= Seq::<ControllerAction>::empty());
            assert(told_to_user(wanted.drop_last()) =~= Seq::<ProtocolEvent>::empty());
            assert(told_to_user(wanted) =~= data_of(event));
        } else {
            if event == ControllerEvent::CommandsClosed {
                law_shutdown_releases_everything(pre, states[j], wanted);
            }
            if let ControllerEvent::ConnectionBanned(banned) = event {
                law_ban_closes_the_nodes_on_the_connection(pre, banned, states[j], wanted);
            }
            assert forall|p: int| 0 <= p < wanted.len() implies !(#[trigger] wanted[p] is Emit) by {
                assert(wanted.contains(wanted[p]));
            }
            lemma_nothing_told(wanted);
        }
    }
}

/// `action` gives `connection_id` back to the network layer.
pub open spec fn gives_back(action: ControllerAction, connection_id: ConnectionId) -> bool {
    action matches ControllerAction::ConnectionClosed(given_back, _) && given_back == connection_id
}

/// Some action of `actions` gives `connection_id` back.
pub open spec fn some_gives_back(
    actions: Seq<ControllerAction>,
    connection_id: ConnectionId,
) -> bool {
    exists|p: int| 0 <= p < actions.len() && gives_back(#[trigger] actions[p], connection_id)
}

/// `event` says that the handshake of `connection_id` is over.
pub open spec fn finishes(event: ControllerEvent, connection_id: ConnectionId) -> bool {
    event matches ControllerEvent::HandshakeFinished(finished, _) && finished == connection_id
}

/// Taking `event` in the state `pre` gives `connection_id` back.
spec fn settles(pre: ControllerView, event: ControllerEvent, connection_id: ConnectionId) -> bool {
    match event {
        ControllerEvent::HandshakeFinished(finished, Ok(node_id)) => finished == connection_id && !(
        pre.running.contains(connection_id) && !pre.active.contains_key(node_id)),
        ControllerEvent::HandshakeFinished(finished, Err(_)) => finished == connection_id,
        ControllerEvent::Node(NodeEvent(node_id, NodeEventType::Closed(_))) => pre.active[node_id]
            == connection_id,
        _ => false,
    }
}

/// Which events give a connection back, and that they do so once.
proof fn lemma_gives_back(
    pre: ControllerView,
    event: ControllerEvent,
    post: ControllerView,
    actions: Seq<ControllerAction>,
    connection_id: ConnectionId,
)
    requires
        transition(pre, event, post, actions),
    ensures
        some_gives_back(actions, connection_id) <==> settles(pre, event, connection_id),
        forall|p: int, q: int|
            0 <= p < actions.len() && 0 <= q < actions.len() && gives_back(
                #[trigger] actions[p],
                connection_id,
            ) && gives_back(#[trigger] actions[q], connection_id) ==> p == q,
{
    match event {
        ControllerEvent::CommandsClosed => {
            law_shutdown_releases_everything(pre, post, actions);
            assert forall|p: int| 0 <= p < actions.len() implies !gives_back(
                #[trigger] actions[p],
                connection_id,
            ) by {
                assert(actions.contains(actions[p]));
            }
        },
        ControllerEvent::ConnectionBanned(banned) => {
            law_ban_closes_the_nodes_on_the_connection(pre, banned, post, actions);
            assert forall|p: int| 0 <= p < actions.len() implies !gives_back(
                #[trigger] actions[p],
                connection_id,
            ) by {
                assert(actions.contains(actions[p]));
            }
        },
        _ => {
            if settles(pre, event, connection_id) {
                assert(gives_back(actions[0], connection_id));
            }
        },
    }
}

/// How many of the first `j` events say that `connection_id` is new.
pub open spec fn count_new(
    events: Seq<ControllerEvent>,
    connection_id: ConnectionId,
    j: int,
) -> nat
    decreases j,
{
    if j <= 0 {
        0
    } else {
        count_new(events, connection_id, j - 1) + if events[j - 1]
            == ControllerEvent::NewConnection(connection_id) {
            1nat
        } else {
            0
        }
    }
}

/// How many of the first `j` events say that a handshake of `connection_id` is over.
pub open spec fn count_finished(
    events: Seq<ControllerEvent>,
    connection_id: ConnectionId,
    j: int,
) -> nat
    decreases j,
{
    if j <= 0 {
        0
    } else {
        count_finished(events, connection_id, j - 1) + if finishes(events[j - 1], connection_id) {
            1nat
        } else {
            0
        }
    }
}

/// How often the first `j` events make the controller give `connection_id` back.
pub open spec fn count_given_back(
    actions: Seq<Seq<ControllerAction>>,
    connection_id: ConnectionId,
    j: int,
) -> nat
    decreases j,
{
    if j <= 0 {
        0
    } else {
        count_given_back(actions, connection_id, j - 1) + actions[j - 1].filter(
            |action: ControllerAction| gives_back(action, connection_id),
        ).len()
    }
}

/// Where at most one action gives the connection back, filtering finds it.
proof fn lemma_filter_gives_back(actions: Seq<ControllerAction>, connection_id: ConnectionId)
    requires
        forall|p: int, q: int|
            0 <= p < actions.len() && 0 <= q < actions.len() && gives_back(
                #[trigger] actions[p],
                connection_id,
            ) && gives_back(#[trigger] actions[q], connection_id) ==> p == q,
    ensures
        actions.filter(|action: ControllerAction| gives_back(action, connection_id)).len() == (
        if some_gives_back(actions, connection_id) {
            1nat
        } else {
            0
        }),
    decreases actions.len(),
{
    reveal(Seq::filter);
    if actions.len() > 0 {
        let front = actions.drop_last();
        lemma_filter_gives_back(front, connection_id);
        if some_gives_back(front, connection_id) {
            let p = choose|p: int|
                0 <= p < front.len() && gives_back(#[trigger] front[p], connection_id);
            assert(gives_back(actions[p], connection_id));
        } else if some_gives_back(actions, connection_id) {
            let p = choose|p: int|
                0 <= p < actions.len() && gives_back(#[trigger] actions[p], connection_id);
            if p < front.len() {
                assert(gives_back(front[p], connection_id));
            }
        }
    }
}

/// Every handshake that is over is accounted for: its connection was given back,
/// or carries a channel, or carried one at the shutdown.
pub proof fn law_finished_handshakes_are_accounted_for(
    states: Seq<ControllerView>,
    events: Seq<ControllerEvent>,
    actions: Seq<Seq<ControllerAction>>,
    connection_id: ConnectionId,
    j: int,
)
    requires
        is_run(states, events, actions),
        0 <= j < states.len(),
    ensures
        nodes_on(states[j].active, connection_id).finite(),
        count_given_back(actions, connection_id, j) + nodes_on(
            states[j].active,
            connection_id,
        ).len() <= count_finished(events, connection_id, j),
        states[j].open ==> count_given_back(actions, connection_id, j) + nodes_on(
            states[j].active,
            connection_id,
        ).len() == count_finished(events, connection_id, j),
    decreases j,
{
    if j == 0 {
        assert(nodes_on(states[0].active, connection_id) =~= Set::<NodeId>::empty());
    } else {
        let pre = states[j - 1];
        let post = states[j];
        let event = events[j - 1];
        law_finished_handshakes_are_accounted_for(states, events, actions, connection_id, j - 1);
        assert(takes(states, events, actions, j - 1));
        lemma_gives_back(pre, event, post, actions[j - 1], connection_id);
        lemma_filter_gives_back(actions[j - 1], connection_id);
        let before = nodes_on(pre.active, connection_id);
        let after = nodes_on(post.active, connection_id);
        match event {
            ControllerEvent::CommandsClosed => {
                assert(after =~= Set::<NodeId>::empty());
            },
            ControllerEvent::HandshakeFinished(finished, Ok(node_id)) => {
                if finished == connection_id && !settles(pre, event, connection_id) {
                    assert(after =~= before.insert(node_id));
                } else {
                    assert(after =~= before);
                }
            },
            ControllerEvent::Node(NodeEvent(node_id, NodeEventType::Closed(_))) => {
                if settles(pre, event, connection_id) {
                    assert(after =~= before.remove(node_id));
                } else {
                    assert(after =~= before);
                }
            },
            _ => {
                assert(after =~= before);
            },
        }
    }
}

/// A connection is given back at most once for each time that it was new, and a
/// channel over it takes the place of giving it back. That each handshake is over
/// at most once is up to the tasks that run them.
pub proof fn law_given_back_at_most_once_per_new_connection(
    states: Seq<ControllerView>,
    events: Seq<ControllerEvent>,
    actions: Seq<Seq<ControllerAction>>,
    connection_id: ConnectionId,
    j: int,
)
    requires
        is_run(states, events, actions),
        0 <= j < states.len(),
        count_finished(events, connection_id, j) <= count_new(events, connection_id, j),
    ensures
        count_given_back(actions, connection_id, j) + nodes_on(
            states[j].active,
            connection_id,
        ).len() <= count_new(events, connection_id, j),
{
    law_finished_handshakes_are_accounted_for(states, events, actions, connection_id, j);
}

/// No channel runs over `connection_id`.
pub open spec fn carries_nothing(state: ControllerView, connection_id: ConnectionId) -> bool {
    forall|node_id: NodeId| #[trigger]
        state.active.contains_key(node_id) ==> state.active[node_id] != connection_id
}

/// Where a connection stands after it was new at `i` and before event `m` is taken.
spec fn stands(
    states: Seq<ControllerView>,
    events: Seq<ControllerEvent>,
    actions: Seq<Seq<ControllerAction>>,
    connection_id: ConnectionId,
    i: int,
    m: int,
) -> bool {
    let finished = exists|f: int| i < f < m && finishes(#[trigger] events[f], connection_id);
    let given_back = exists|k: int|
        i < k < m && some_gives_back(#[trigger] actions[k], connection_id);
    &&& !finished ==> !given_back && carries_nothing(states[m], connection_id)
    &&& given_back ==> carries_nothing(states[m], connection_id)
    &&& forall|a: NodeId, b: NodeId|
        #![trigger states[m].active.contains_key(a), states[m].active.contains_key(b)]
        states[m].active.contains_key(a) && states[m].active[a] == connection_id
            && states[m].active.contains_key(b) && states[m].active[b] == connection_id ==> a == b
}

proof fn lemma_stands(
    states: Seq<ControllerView>,
    events: Seq<ControllerEvent>,
    actions: Seq<Seq<ControllerAction>>,
    connection_id: ConnectionId,
    i: int,
    m: int,
)
    requires
        is_run(states, events, actions),
        0 <= i < m < states.len(),
        events[i] == ControllerEvent::NewConnection(connection_id),
        carries_nothing(states[i], connection_id),
        forall|f: int, g: int|
            i < f < m && i < g < m && finishes(#[trigger] events[f], connection_id) && finishes(
                #[trigger] events[g],
                connection_id,
            ) ==> f == g,
    ensures
        stands(states, events, actions, connection_id, i, m),
    decreases m - i,
{
    if m == i + 1 {
        assert(takes(states, events, actions, i));
    } else {
        let n = m - 1;
        lemma_stands(states, events, actions, connection_id, i, n);
        assert(takes(states, events, actions, n));
        lemma_gives_back(states[n], events[n], states[m], actions[n], connection_id);
        let finished = exists|f: int| i < f < n && finishes(#[trigger] events[f], connection_id);
        let given_back = exists|k: int|
            i < k < n && some_gives_back(#[trigger] actions[k], connection_id);
        if finishes(events[n], connection_id) {
            assert(!finished);
        }
        assert((exists|f: int| i < f < m && finishes(#[trigger] events[f], connection_id)) <==> (
        finished || finishes(events[n], connection_id))) by {
            if finished {
                let f = choose|f: int| i < f < n && finishes(#[trigger] events[f], connection_id);
                assert(i < f < m && finishes(events[f], connection_id));
            }
        }
        assert((exists|k: int| i < k < m && some_gives_back(#[trigger] actions[k], connection_id))
            <==> (given_back || some_gives_back(actions[n], connection_id))) by {
            if given_back {
                let k = choose|k: int|
                    i < k < n && some_gives_back(#[trigger] actions[k], connection_id);
                assert(i < k < m && some_gives_back(actions[k], connection_id));
            }
        }
    }
}

/// A connection that is new, while no channel runs over it, is given back at most
/// once as long as at most one handshake of it is over. It is not given back before
/// that handshake is over, and afterwards no channel runs over it.
///
/// That a handshake is over once is up to the task that runs it. That a connection
/// carries no channel when it is new is up to the network layer.
pub proof fn law_new_connection_is_given_back_once(
    states: Seq<ControllerView>,
    events: Seq<ControllerEvent>,
    actions: Seq<Seq<ControllerAction>>,
    connection_id: ConnectionId,
    i: int,
    j: int,
    k: int,
    p: int,
)
    requires
        is_run(states, events, actions),
        0 <= i < k < j < states.len(),
        events[i] == ControllerEvent::NewConnection(connection_id),
        carries_nothing(states[i], connection_id),
        forall|f: int, g: int|
            i < f < j && i < g < j && finishes(#[trigger] events[f], connection_id) && finishes(
                #[trigger] events[g],
                connection_id,
            ) ==> f == g,
        0 <= p < actions[k].len(),
        gives_back(actions[k][p], connection_id),
    ensures
        exists|f: int| i < f <= k && finishes(#[trigger] events[f], connection_id),
        forall|m: int, q: int|
            i < m < j && 0 <= q < actions[m].len() && gives_back(
                #[trigger] actions[m][q],
                connection_id,
            ) ==> m == k && q == p,
        forall|m: int| k < m <= j ==> carries_nothing(#[trigger] states[m], connection_id),
{
    assert(some_gives_back(actions[k], connection_id));
    lemma_stands(states, events, actions, connection_id, i, k + 1);
    assert(i < k < k + 1 && some_gives_back(actions[k], connection_id));
    assert forall|m: int| k < m <= j implies carries_nothing(
        #[trigger] states[m],
        connection_id,
    ) by {
        lemma_stands(states, events, actions, connection_id, i, m);
        assert(i < k < m && some_gives_back(actions[k], connection_id));
    }
    assert forall|m: int, q: int|
        i < m < j && 0 <= q < actions[m].len() && gives_back(
            #[trigger] actions[m][q],
            connection_id,
        ) implies m == k && q == p by {
        assert(some_gives_back(actions[m], connection_id));
        if m == k {
            assert(takes(states, events, actions, k));
            lemma_gives_back(states[k], events[k], states[k + 1], actions[k], connection_id);
        } else {
            let early = if m < k { m } else { k };
            let late = if m < k { k } else { m };
            lemma_given_back_twice(states, events, actions, connection_id, i, early, late);
        }
    }
}

/// A connection that was given back is not given back again before it is new again.
proof fn lemma_given_back_twice(
    states: Seq<ControllerView>,
    events: Seq<ControllerEvent>,
    actions: Seq<Seq<ControllerAction>>,
    connection_id: ConnectionId,
    i: int,
    early: int,
    late: int,
)
    requires
        is_run(states, events, actions),
        0 <= i < early < late < events.len(),
        events[i] == ControllerEvent::NewConnection(connection_id),
        carries_nothing(states[i], connection_id),
        forall|f: int, g: int|
            i < f <= late && i < g <= late && finishes(#[trigger] events[f], connection_id)
                && finishes(#[trigger] events[g], connection_id) ==> f == g,
        some_gives_back(actions[early], connection_id),
    ensures
        !some_gives_back(actions[late], connection_id),
{
    lemma_stands(states, events, actions, connection_id, i, late);
    assert(i < early < late && some_gives_back(actions[early], connection_id));
    assert(takes(states, events, actions, late));
    lemma_gives_back(states[late], events[late], states[late + 1], actions[late], connection_id);
    if finishes(events[late], connection_id) {
        let f = choose|f: int| i < f < late && finishes(#[trigger] events[f], connection_id);
        assert(finishes(events[f], connection_id));
    }
}

/// `result` is what some handshake of the side that `own` identifies came to.
pub open spec fn is_outcome_for(own: NodeId, result: Result<NodeId, HandshakeError>) -> bool {
    ||| result == Err::<NodeId, HandshakeError>(HandshakeError::NoEntropy)
    ||| exists|initiation: ExchangeView, reply: ExchangeView, valid: bool| #[trigger]
        outcome(own, initiation, reply, valid) == result
}

/// A node never has a channel to itself, whatever its peers announce.
pub proof fn law_no_channel_to_itself(
    own: NodeId,
    states: Seq<ControllerView>,
    events: Seq<ControllerEvent>,
    actions: Seq<Seq<ControllerAction>>,
    j: int,
)
    requires
        is_run(states, events, actions),
        forall|k: int|
            0 <= k < events.len() ==> (#[trigger] events[k] matches
                ControllerEvent::HandshakeFinished(_, result) ==> is_outcome_for(own, result)),
        0 <= j < states.len(),
    ensures
        !states[j].active.contains_key(own),
    decreases j,
{
    if j > 0 {
        law_no_channel_to_itself(own, states, events, actions, j - 1);
        assert(takes(states, events, actions, j - 1));
        if let ControllerEvent::HandshakeFinished(_, Ok(node_id)) = events[j - 1] {
            assert(is_outcome_for(own, Ok(node_id)));
            let (initiation, reply, valid) = choose|
                initiation: ExchangeView,
                reply: ExchangeView,
                valid: bool,
            | #[trigger]
                outcome(own, initiation, reply, valid) == Ok::<NodeId, HandshakeError>(node_id);
            law_handshake_success(own, initiation, reply, valid, node_id);
        }
    }
}

// ---------------------------------------------------------------- session of a node

/// The session of `node_id`, from its beginning: input `i` is taken in state
/// `i`, leads to state `i + 1`, and makes the session want `actions[i]` done.
pub open spec fn is_session(
    node_id: NodeId,
    states: Seq<SessionView>,
    inputs: Seq<SessionInput>,
    actions: Seq<Seq<SessionAction>>,
) -> bool {
    &&& states.len() == inputs.len() + 1
    &&& actions.len() == inputs.len()
    &&& states[0] == SessionView { node_id, open: true }
    &&& forall|i: int|
        0 <= i < inputs.len() ==> #[trigger] session_takes(states, inputs, actions, i)
}

/// Input `i` may be taken in state `i`, and leads to state `i + 1` and to `actions[i]`.
pub open spec fn session_takes(
    states: Seq<SessionView>,
    inputs: Seq<SessionInput>,
    actions: Seq<Seq<SessionAction>>,
    i: int,
) -> bool {
    &&& states[i].open
    &&& session_fault_of(inputs[i]) is None
    &&& states[i + 1] == SessionView {
        node_id: states[i].node_id,
        open: ends_with(inputs[i]) is None,
    }
    &&& actions[i] == session_actions(states[i].node_id, inputs[i])
}

/// Whatever a session tells the controller, it tells of its own node.
pub proof fn law_session_speaks_for_its_node(
    node_id: NodeId,
    input: SessionInput,
    told: NodeEvent,
)
    requires
        session_actions(node_id, input).contains(SessionAction::Emit(told)),
    ensures
        told.0 == node_id,
{
    let actions = session_actions(node_id, input);
    let m = choose|m: int| 0 <= m < actions.len() && actions[m] == SessionAction::Emit(told);
    assert(actions[m] == SessionAction::Emit(told));
}

/// The state of a session keeps its node.
proof fn lemma_session_keeps_its_node(
    node_id: NodeId,
    states: Seq<SessionView>,
    inputs: Seq<SessionInput>,
    actions: Seq<Seq<SessionAction>>,
    i: int,
)
    requires
        is_session(node_id, states, inputs, actions),
        0 <= i < states.len(),
    ensures
        states[i].node_id == node_id,
    decreases i,
{
    if i > 0 {
        lemma_session_keeps_its_node(node_id, states, inputs, actions, i - 1);
        assert(session_takes(states, inputs, actions, i - 1));
    }
}

/// That its channel is gone is the last thing a session does, with the reason
/// that its last input gave.
pub proof fn law_closed_is_the_last_word(
    node_id: NodeId,
    states: Seq<SessionView>,
    inputs: Seq<SessionInput>,
    actions: Seq<Seq<SessionAction>>,
    i: int,
    m: int,
    from: NodeId,
    reason: ConnectionClosureReason,
)
    requires
        is_session(node_id, states, inputs, actions),
        0 <= i < inputs.len(),
        0 <= m < actions[i].len(),
        actions[i][m] == SessionAction::Emit(NodeEvent(from, NodeEventType::Closed(reason))),
    ensures
        i == inputs.len() - 1,
        m == actions[i].len() - 1,
        from == node_id,
        ends_with(inputs[i]) == Some(reason),
{
    assert(session_takes(states, inputs, actions, i));
    lemma_session_keeps_its_node(node_id, states, inputs, actions, i);
    if i + 1 < inputs.len() {
        assert(session_takes(states, inputs, actions, i + 1));
    }
}

/// A session that has ended has told the controller that its channel is gone.
pub proof fn law_ended_session_says_so(
    node_id: NodeId,
    states: Seq<SessionView>,
    inputs: Seq<SessionInput>,
    actions: Seq<Seq<SessionAction>>,
)
    requires
        is_session(node_id, states, inputs, actions),
        !states.last().open,
    ensures
        inputs.len() > 0,
        ends_with(inputs.last()) is Some,
        actions.last().last() == SessionAction::Emit(
            NodeEvent(node_id, NodeEventType::Closed(ends_with(inputs.last())->0)),
        ),
{
    let i = inputs.len() - 1;
    if inputs.len() > 0 {
        assert(session_takes(states, inputs, actions, i));
        lemma_session_keeps_its_node(node_id, states, inputs, actions, i);
    }
}

/// What `actions` tell the controller, in order.
pub open spec fn told_to_controller(actions: Seq<SessionAction>) -> Seq<NodeEvent>
    decreases actions.len(),
{
    if actions.len() == 0 {
        Seq::empty()
    } else {
        told_to_controller(actions.drop_last()) + match actions.last() {
            SessionAction::Emit(told) => seq![told],
            _ => Seq::empty(),
        }
    }
}

/// What `actions` hand to the writing task, in order.
pub open spec fn handed_to_writer(actions: Seq<SessionAction>) -> Seq<Message>
    decreases actions.len(),
{
    if actions.len() == 0 {
        Seq::empty()
    } else {
        handed_to_writer(actions.drop_last()) + match actions.last() {
            SessionAction::Write(message) => seq![message],
            _ => Seq::empty(),
        }
    }
}

/// What the first `j` inputs make a session tell the controller, in order.
pub open spec fn session_told(actions: Seq<Seq<SessionAction>>, j: int) -> Seq<NodeEvent>
    decreases j,
{
    if j <= 0 {
        Seq::empty()
    } else {
        session_told(actions, j - 1) + told_to_controller(actions[j - 1])
    }
}

/// What the first `j` inputs make a session hand to the writing task, in order.
pub open spec fn session_handed(actions: Seq<Seq<SessionAction>>, j: int) -> Seq<Message>
    decreases j,
{
    if j <= 0 {
        Seq::empty()
    } else {
        session_handed(actions, j - 1) + handed_to_writer(actions[j - 1])
    }
}

/// The event that a message of the peer is for the controller, if it is one.
pub open spec fn news_of(node_id: NodeId, input: SessionInput) -> Seq<NodeEvent> {
    match input {
        SessionInput::Message(Message::Block(block)) => seq![
            NodeEvent(node_id, NodeEventType::ReceivedBlock(block)),
        ],
        SessionInput::Message(Message::Transaction(transaction)) => seq![
            NodeEvent(node_id, NodeEventType::ReceivedTransaction(transaction)),
        ],
        SessionInput::Message(Message::PeerList(peers)) => seq![
            NodeEvent(node_id, NodeEventType::ReceivedPeerList(peers)),
        ],
        SessionInput::Message(Message::AskPeerList) => seq![
            NodeEvent(node_id, NodeEventType::AskedPeerList),
        ],
        _ => Seq::empty(),
    }
}

/// The message that a command of the controller or the clock asks for, if it does.
pub open spec fn asked_by(input: SessionInput) -> Seq<Message> {
    match input {
        SessionInput::Command(NodeCommand::SendPeerList(peers)) => seq![Message::PeerList(peers)],
        SessionInput::Command(NodeCommand::SendBlock(block)) => seq![Message::Block(block)],
        SessionInput::Command(NodeCommand::SendTransaction(transaction)) => seq![
            Message::Transaction(transaction),
        ],
        SessionInput::Tick => seq![Message::AskPeerList],
        _ => Seq::empty(),
    }
}

/// The events that the first `j` inputs are for the controller, in order.
pub open spec fn news_until(node_id: NodeId, inputs: Seq<SessionInput>, j: int) -> Seq<NodeEvent>
    decreases j,
{
    if j <= 0 {
        Seq::empty()
    } else {
        news_until(node_id, inputs, j - 1) + news_of(node_id, inputs[j - 1])
    }
}

/// The messages that the first `j` inputs ask for, in order.
pub open spec fn asked_until(inputs: Seq<SessionInput>, j: int) -> Seq<Message>
    decreases j,
{
    if j <= 0 {
        Seq::empty()
    } else {
        asked_until(inputs, j - 1) + asked_by(inputs[j - 1])
    }
}

/// What the controller and the writing task get of the actions of one input.
proof fn lemma_session_step(node_id: NodeId, input: SessionInput)
    requires
        session_fault_of(input) is None,
    ensures
        told_to_controller(session_actions(node_id, input)) == news_of(node_id, input) + (
        match ends_with(input) {
            Some(reason) => seq![NodeEvent(node_id, NodeEventType::Closed(reason))],
            None => Seq::empty(),
        }),
        handed_to_writer(session_actions(node_id, input)) == asked_by(input),
{
    reveal_with_fuel(told_to_controller, 5);
    reveal_with_fuel(handed_to_writer, 5);
    let actions = session_actions(node_id, input);
    assert(actions.drop_last().len() == actions.len() - 1);
    if ends_with(input) is Some {
        let front = actions.drop_last();
        assert(front.last() == SessionAction::JoinWriter);
        if input is WriterReport {
            assert(front.drop_last() =~= seq![SessionAction::CloseWriter]);
        } else {
            assert(front.drop_last() =~= seq![
                SessionAction::CloseWriter,
                SessionAction::AwaitWriterReport,
            ]);
            assert(front.drop_last().drop_last() =~= seq![SessionAction::CloseWriter]);
        }
        assert(seq![SessionAction::CloseWriter].drop_last() =~= Seq::<SessionAction>::empty());
        assert(told_to_controller(front) =~= Seq::<NodeEvent>::empty());
        assert(handed_to_writer(front) =~= Seq::<Message>::empty());
    } else {
        assert(actions.drop_last() =~= Seq::<SessionAction>::empty());
    }
    assert(told_to_controller(actions) =~= news_of(node_id, input) + (match ends_with(input) {
        Some(reason) => seq![NodeEvent(node_id, NodeEventType::Closed(reason))],
        None => Seq::empty(),
    }));
    assert(handed_to_writer(actions) =~= asked_by(input));
}

/// A session tells the controller exactly what its peer's messages say, one event
/// for each and in their order, and at its end that the channel is gone.
pub proof fn law_session_tells_what_the_peer_sent(
    node_id: NodeId,
    states: Seq<SessionView>,
    inputs: Seq<SessionInput>,
    actions: Seq<Seq<SessionAction>>,
    j: int,
)
    requires
        is_session(node_id, states, inputs, actions),
        0 <= j <= inputs.len(),
    ensures
        states[j].open ==> session_told(actions, j) == news_until(node_id, inputs, j),
        !states[j].open ==> j > 0 && ends_with(inputs[j - 1]) is Some && session_told(actions, j)
            == news_until(node_id, inputs, j - 1).push(
            NodeEvent(node_id, NodeEventType::Closed(ends_with(inputs[j - 1])->0)),
        ),
    decreases j,
{
    if j > 0 {
        law_session_tells_what_the_peer_sent(node_id, states, inputs, actions, j - 1);
        assert(session_takes(states, inputs, actions, j - 1));
        lemma_session_keeps_its_node(node_id, states, inputs, actions, j - 1);
        lemma_session_step(node_id, inputs[j - 1]);
        if states[j].open {
            assert(session_told(actions, j) =~= news_until(node_id, inputs, j));
        } else {
            assert(session_told(actions, j) =~= news_until(node_id, inputs, j - 1).push(
                NodeEvent(node_id, NodeEventType::Closed(ends_with(inputs[j - 1])->0)),
            ));
        }
    }
}

/// A session hands the writing task exactly the messages that the controller's
/// commands and the clock ask for, one for each and in their order.
pub proof fn law_session_hands_on_what_was_asked(
    node_id: NodeId,
    states: Seq<SessionView>,
    inputs: Seq<SessionInput>,
    actions: Seq<Seq<SessionAction>>,
    j: int,
)
    requires
        is_session(node_id, states, inputs, actions),
        0 <= j <= inputs.len(),
    ensures
        session_handed(actions, j) == asked_until(inputs, j),
    decreases j,
{
    if j > 0 {
        law_session_hands_on_what_was_asked(node_id, states, inputs, actions, j - 1);
        assert(session_takes(states, inputs, actions, j - 1));
        lemma_session_keeps_its_node(node_id, states, inputs, actions, j - 1);
        lemma_session_step(node_id, inputs[j - 1]);
    }
}

// ---------------------------------------------------------------- writing task

/// The messages that the writing task tries to send, and what it reports at its
/// end, where it is given `messages` and then the news that there are no more, and
/// `outcomes[i]` is what comes of sending the message `i`.
pub open spec fn writer_run(messages: Seq<Message>, outcomes: Seq<WriteOutcome>) -> (
    Seq<Message>,
    bool,
)
    decreases messages.len(),
{
    let given = if messages.len() == 0 {
        None
    } else {
        Some(messages[0])
    };
    match next_action(given) {
        WriterAction::Write(message) => match written_action(outcomes[0]) {
            WriterAction::Report(clean) => (seq![message], clean),
            _ => if messages.len() == 0 {
                (seq![message], false)
            } else {
                let (tried, clean) = writer_run(messages.drop_first(), outcomes.drop_first());
                (seq![message] + tried, clean)
            },
        },
        WriterAction::Report(clean) => (Seq::empty(), clean),
        WriterAction::AwaitMessage => (Seq::empty(), false),
    }
}

/// The writing task sends the messages in the order it is given them, up to the
/// first that is not sent in time. It reports that all were sent exactly when they
/// were.
pub proof fn law_writer_sends_in_order(messages: Seq<Message>, outcomes: Seq<WriteOutcome>)
    requires
        outcomes.len() == messages.len(),
    ensures
        ({
            let (tried, clean) = writer_run(messages, outcomes);
            &&& tried.len() <= messages.len()
            &&& tried == messages.take(tried.len() as int)
            &&& clean <==> all_sent(outcomes)
            &&& clean ==> tried == messages
            &&& !clean ==> tried.len() > 0 && outcomes[tried.len() - 1] != WriteOutcome::Sent
            &&& forall|i: int|
                0 <= i < tried.len() - 1 ==> #[trigger] outcomes[i] == WriteOutcome::Sent
        }),
    decreases messages.len(),
{
    let (tried, clean) = writer_run(messages, outcomes);
    if messages.len() == 0 {
        assert(tried =~= messages);
    } else if outcomes[0] != WriteOutcome::Sent {
        assert(tried =~= messages.take(1));
    } else {
        let rest = messages.drop_first();
        let rest_outcomes = outcomes.drop_first();
        law_writer_sends_in_order(rest, rest_outcomes);
        let (rest_tried, rest_clean) = writer_run(rest, rest_outcomes);
        assert(tried == seq![messages[0]] + rest_tried);
        assert(tried =~= messages.take(tried.len() as int));
        if rest_clean {
            assert(tried =~= messages);
            assert forall|i: int| 0 <= i < outcomes.len() implies #[trigger] outcomes[i]
                == WriteOutcome::Sent by {
                if i > 0 {
                    assert(rest_outcomes[i - 1] == outcomes[i]);
                }
            }
        } else {
            assert(outcomes[tried.len() - 1] == rest_outcomes[rest_tried.len() - 1]);
        }
        assert forall|i: int| 0 <= i < tried.len() - 1 implies #[trigger] outcomes[i]
            == WriteOutcome::Sent by {
            if i > 0 {
                assert(rest_outcomes[i - 1] == outcomes[i]);
            }
        }
    }
}

/// Every message was sent in time.
pub open spec fn all_sent(outcomes: Seq<WriteOutcome>) -> bool {
    forall|i: int| 0 <= i < outcomes.len() ==> #[trigger] outcomes[i] == WriteOutcome::Sent
}

/// A peer that a message cannot be sent to in time is given up as failed, and one
/// that all messages can be sent to is not, by what the writing task reports.
pub proof fn law_unsent_message_fails_the_session(
    messages: Seq<Message>,
    outcomes: Seq<WriteOutcome>,
)
    requires
        outcomes.len() == messages.len(),
    ensures
        ends_with(SessionInput::WriterReport(writer_run(messages, outcomes).1)) == Some(
            if all_sent(outcomes) {
                ConnectionClosureReason::Normal
            } else {
                ConnectionClosureReason::Failed
            },
        ),
{
    law_writer_sends_in_order(messages, outcomes);
}

// ---------------------------------------------------------------- from peer to user and back

/// A block that a node sends reaches the user as it is, and as that node's.
pub proof fn law_block_reaches_the_user(
    node_id: NodeId,
    block: Block,
    told: NodeEvent,
    pre: ControllerView,
    post: ControllerView,
    actions: Seq<ControllerAction>,
)
    requires
        session_actions(node_id, SessionInput::Message(Message::Block(block))).contains(
            SessionAction::Emit(told),
        ),
        transition(pre, ControllerEvent::Node(told), post, actions),
    ensures
        post == pre,
        actions == seq![
            ControllerAction::Emit(
                ProtocolEvent(node_id, ProtocolEventType::ReceivedBlock(block)),
            ),
        ],
{
}

/// A transaction that a node sends reaches the user as it is, and as that node's.
pub proof fn law_transaction_reaches_the_user(
    node_id: NodeId,
    transaction: String,
    told: NodeEvent,
    pre: ControllerView,
    post: ControllerView,
    actions: Seq<ControllerAction>,
)
    requires
        session_actions(node_id, SessionInput::Message(Message::Transaction(transaction))).contains(
            SessionAction::Emit(told),
        ),
        transition(pre, ControllerEvent::Node(told), post, actions),
    ensures
        post == pre,
        actions == seq![
            ControllerAction::Emit(
                ProtocolEvent(node_id, ProtocolEventType::ReceivedTransaction(transaction)),
            ),
        ],
{
}

/// A node that asks for peers is sent the peers that the network layer
/// advertises: the controller wants the question answered, the answer is a command
/// to the session of that node, and the session writes just these peers.
pub proof fn law_peer_list_is_answered(
    node_id: NodeId,
    told: NodeEvent,
    pre: ControllerView,
    post: ControllerView,
    actions: Seq<ControllerAction>,
    peers: Vec<IpAddr>,
)
    requires
        session_actions(node_id, SessionInput::Message(Message::AskPeerList)).contains(
            SessionAction::Emit(told),
        ),
        transition(pre, ControllerEvent::Node(told), post, actions),
    ensures
        post == pre,
        actions == seq![ControllerAction::AnswerPeerList(node_id)],
        peer_list_answer(node_id, peers) == ControllerAction::SendCommand(
            node_id,
            NodeCommand::SendPeerList(peers),
        ),
        session_actions(node_id, SessionInput::Command(NodeCommand::SendPeerList(peers))) == seq![
            SessionAction::Write(Message::PeerList(peers)),
        ],
{
}

/// A list of peers that a node sends is handed to the network layer as it is,
/// and shows that the node's connection is alive.
pub proof fn law_peer_list_is_merged(
    node_id: NodeId,
    peers: Vec<IpAddr>,
    told: NodeEvent,
    pre: ControllerView,
    post: ControllerView,
    actions: Seq<ControllerAction>,
)
    requires
        session_actions(node_id, SessionInput::Message(Message::PeerList(peers))).contains(
            SessionAction::Emit(told),
        ),
        pre.active.contains_key(node_id),
        transition(pre, ControllerEvent::Node(told), post, actions),
    ensures
        post == pre,
        actions == seq![
            ControllerAction::ConnectionAlive(pre.active[node_id]),
            ControllerAction::MergePeerList(peers),
        ],
{
}

/// The shutdown closes every session: each node that a channel is open to is told
/// to close it before it is released, and that ends its session as it should, with
/// the last word that the channel is gone for no fault of the peer. So no session
/// is left to find its controller gone.
pub proof fn law_shutdown_closes_every_session(
    pre: ControllerView,
    post: ControllerView,
    actions: Seq<ControllerAction>,
    node_id: NodeId,
    states: Seq<SessionView>,
    inputs: Seq<SessionInput>,
    session: Seq<Seq<SessionAction>>,
    i: int,
)
    requires
        transition(pre, ControllerEvent::CommandsClosed, post, actions),
        pre.active.contains_key(node_id),
        is_session(node_id, states, inputs, session),
        0 <= i < inputs.len(),
        inputs[i] == SessionInput::Command(NodeCommand::Close),
    ensures
        exists|told: int, released: int|
            0 <= told < released < actions.len() && #[trigger] actions[told]
                == ControllerAction::SendCommand(node_id, NodeCommand::Close)
                && #[trigger] actions[released] == ControllerAction::ReleaseNode(node_id),
        i == inputs.len() - 1,
        !states.last().open,
        session[i] == closing_actions(node_id, ConnectionClosureReason::Normal, false),
        session[i].last() == SessionAction::Emit(
            NodeEvent(node_id, NodeEventType::Closed(ConnectionClosureReason::Normal)),
        ),
{
    let order = lemma_shutdown_order(pre, post, actions);
    assert(order.to_set().contains(node_id));
    let k = choose|k: int| 0 <= k < order.len() && order[k] == node_id;
    assert(actions[k] == ControllerAction::SendCommand(node_id, NodeCommand::Close));
    assert(actions[order.len() + k] == ControllerAction::ReleaseNode(node_id));
    assert(session_takes(states, inputs, session, i));
    lemma_session_keeps_its_node(node_id, states, inputs, session, i);
    if i + 1 < inputs.len() {
        assert(session_takes(states, inputs, session, i + 1));
    }
}

/// A ban of a node's connection ends its channel: the node is told to close, its
/// session then says so, and the controller gives the connection back and forgets
/// the node.
pub proof fn law_ban_ends_the_channel(
    node_id: NodeId,
    connection_id: ConnectionId,
    banned_in: ControllerView,
    after_ban: ControllerView,
    ban_actions: Seq<ControllerAction>,
    told: NodeEvent,
    closed_in: ControllerView,
    after_close: ControllerView,
    close_actions: Seq<ControllerAction>,
)
    requires
        banned_in.active.contains_key(node_id),
        banned_in.active[node_id] == connection_id,
        transition(
            banned_in,
            ControllerEvent::ConnectionBanned(connection_id),
            after_ban,
            ban_actions,
        ),
        session_actions(node_id, SessionInput::Command(NodeCommand::Close)).contains(
            SessionAction::Emit(told),
        ),
        closed_in.active.contains_key(node_id),
        closed_in.active[node_id] == connection_id,
        transition(closed_in, ControllerEvent::Node(told), after_close, close_actions),
    ensures
        ban_actions.contains(ControllerAction::SendCommand(node_id, NodeCommand::Close)),
        !after_close.active.contains_key(node_id),
        close_actions == seq![
            ControllerAction::ConnectionClosed(connection_id, ConnectionClosureReason::Normal),
            ControllerAction::JoinNode(node_id),
        ],
{
    law_ban_closes_the_nodes_on_the_connection(banned_in, connection_id, after_ban, ban_actions);
    let actions = session_actions(node_id, SessionInput::Command(NodeCommand::Close));
    let m = choose|m: int| 0 <= m < actions.len() && actions[m] == SessionAction::Emit(told);
    assert(actions[m] == SessionAction::Emit(told));
}

} // verus!
