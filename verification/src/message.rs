//! What peers send to each other.
use crate::identity::PublicKey;
use vstd::prelude::*;

verus! {

/// The address of a peer, as the number that the address stands for.
#[derive(Clone, Copy, Debug, Hash, PartialEq, Eq, PartialOrd, Ord, Structural)]
pub enum IpAddr {
    V4(u32),
    V6(u128),
}

/// A block in its encoded form. The protocol passes blocks on and never looks inside.
#[derive(Clone, Debug, PartialEq, Eq)]
pub struct Block(pub Vec<u8>);

impl View for Block {
    type V = Seq<u8>;

    open spec fn view(&self) -> Seq<u8> {
        self.0@
    }
}

/// The hash by which a block is asked for.
#[derive(Clone, Copy, Debug, PartialEq, Eq)]
pub struct Hash(pub [u8; 32]);

/// A signature in its encoded form.
#[derive(Clone, Debug, PartialEq, Eq)]
pub struct Signature(pub Vec<u8>);

impl View for Signature {
    type V = Seq<u8>;

    open spec fn view(&self) -> Seq<u8> {
        self.0@
    }
}

/// A message on the wire.
#[derive(Clone, Debug, PartialEq, Eq)]
pub enum Message {
    /// Announces the sender's key, and the bytes that the receiver has to sign.
    HandshakeInitiation { public_key: PublicKey, random_bytes: Vec<u8> },
    /// The signature of the bytes that the receiver of this message announced.
    HandshakeReply { signature: Signature },
    Block(Block),
    Transaction(String),
    PeerList(Vec<IpAddr>),
    AskPeerList,
}

/// What a [`Message`] says.
pub enum MessageView {
    HandshakeInitiation { public_key: PublicKey, random_bytes: Seq<u8> },
    HandshakeReply { signature: Seq<u8> },
    Block(Seq<u8>),
    Transaction(Seq<char>),
    PeerList(Seq<IpAddr>),
    AskPeerList,
}

impl View for Message {
    type V = MessageView;

    open spec fn view(&self) -> MessageView {
        match *self {
            Message::HandshakeInitiation { public_key, random_bytes } =>
                MessageView::HandshakeInitiation { public_key, random_bytes: random_bytes@ },
            Message::HandshakeReply { signature } =>
                MessageView::HandshakeReply { signature: signature@ },
            Message::Block(block) => MessageView::Block(block@),
            Message::Transaction(transaction) => MessageView::Transaction(transaction@),
            Message::PeerList(peers) => MessageView::PeerList(peers@),
            Message::AskPeerList => MessageView::AskPeerList,
        }
    }
}

} // verus!
