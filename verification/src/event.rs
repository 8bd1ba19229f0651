//! What the parts of the protocol tell each other, and what they tell the user.
use crate::identity::{ConnectionClosureReason, NodeId};
use crate::message::{Block, IpAddr};
use vstd::prelude::*;

verus! {

/// What the user asks of the protocol.
#[derive(Clone, Debug, PartialEq, Eq)]
pub enum ProtocolCommand {
    PropagateBlock {
        restrict_to_node: Option<NodeId>,
        exclude_node: Option<NodeId>,
        block: Block,
    },
}

/// What the user is told.
#[derive(Clone, Debug, PartialEq, Eq)]
pub enum ProtocolEventType {
    ReceivedTransaction(String),
    ReceivedBlock(Block),
    AskedBlock(crate::message::Hash),
}

/// What the user is told, and which node it came from.
#[derive(Clone, Debug, PartialEq, Eq)]
pub struct ProtocolEvent(pub NodeId, pub ProtocolEventType);

/// What the controller asks of the task that serves one node.
#[derive(Clone, Debug, PartialEq, Eq)]
pub enum NodeCommand {
    SendPeerList(Vec<IpAddr>),
    SendBlock(Block),
    SendTransaction(String),
    Close,
}

/// What the task that serves one node tells the controller.
#[derive(Clone, Debug, PartialEq, Eq)]
pub enum NodeEventType {
    AskedPeerList,
    ReceivedPeerList(Vec<IpAddr>),
    ReceivedBlock(Block),
    ReceivedTransaction(String),
    /// The channel is gone. This is the last event of its node.
    Closed(ConnectionClosureReason),
}

/// What the task of a node tells the controller, and which node that is.
#[derive(Clone, Debug, PartialEq, Eq)]
pub struct NodeEvent(pub NodeId, pub NodeEventType);

} // verus!
