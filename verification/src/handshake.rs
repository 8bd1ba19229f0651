//! How two peers authenticate each other.
//!
//! Each side announces its public key together with random bytes, signs the
//! bytes that the other side announced, and checks the signature that it gets
//! for its own. The stages below follow one side through that: each takes what
//! came of the work between it and the one before, and says what to do next.
//!
//! [`Initiating`] sends the announcement and waits for the other side's,
//! [`Challenged`] has bytes to sign, [`Replying`] sends the signature and waits
//! for the other side's, [`Answered`] has a signature to check.
use crate::entropy::{draw, lemma_drawing, may_be_drawn, may_lack_entropy};
use crate::identity::{ConnectionId, NodeId, PublicKey};
use crate::message::{Message, MessageView, Signature};
use vstd::prelude::*;

verus! {

/// How many random bytes the other side is asked to sign.
pub const RANDOM_BYTES: usize = 64;

/// What came of sending one message and waiting for one, with a time limit on both.
#[derive(Clone, Debug, PartialEq, Eq)]
pub enum Exchange {
    /// The time was up.
    TimedOut,
    /// Sending or receiving failed.
    Failed,
    /// The other side closed the stream instead of sending a message.
    Stopped,
    /// The message was sent, and this one came.
    Received(Message),
}

/// What an [`Exchange`] says.
pub enum ExchangeView {
    TimedOut,
    Failed,
    Stopped,
    Received(MessageView),
}

impl View for Exchange {
    type V = ExchangeView;

    open spec fn view(&self) -> ExchangeView {
        match *self {
            Exchange::TimedOut => ExchangeView::TimedOut,
            Exchange::Failed => ExchangeView::Failed,
            Exchange::Stopped => ExchangeView::Stopped,
            Exchange::Received(message) => ExchangeView::Received(message@),
        }
    }
}

/// Why a handshake came to nothing.
#[derive(Clone, Copy, Debug, PartialEq, Eq, Structural)]
pub enum HandshakeError {
    /// There were no random bytes to announce.
    NoEntropy,
    InitTimedOut,
    InitFailed,
    InitStopped,
    InitWrongMessage,
    /// The other side announced the key of this side.
    OwnPublicKey,
    ReplyTimedOut,
    ReplyFailed,
    ReplyStopped,
    ReplyWrongMessage,
    /// The other side does not hold the key that it announced.
    InvalidSignature,
}

impl HandshakeError {
    /// The text of [`HandshakeError::message`].
    pub open spec fn text(self) -> Seq<char> {
        match self {
            HandshakeError::NoEntropy => "handshake random bytes unavailable"@,
            HandshakeError::InitTimedOut => "handshake init timed out"@,
            HandshakeError::InitFailed => "handshake init r/w failed"@,
            HandshakeError::InitStopped => "handshake init stopped"@,
            HandshakeError::InitWrongMessage => "handshake init wrong message"@,
            HandshakeError::OwnPublicKey => "handshake announced own public key"@,
            HandshakeError::ReplyTimedOut => "handshake reply timed out"@,
            HandshakeError::ReplyFailed => "handshake reply r/w failed"@,
            HandshakeError::ReplyStopped => "handshake reply stopped"@,
            HandshakeError::ReplyWrongMessage => "handshake reply wrong message"@,
            HandshakeError::InvalidSignature => "invalid remote handshake signature"@,
        }
    }

    /// The error in words.
    pub fn message(&self) -> (text: String)
        ensures
            text@ == self.text(),
    {
        let text: &str = match self {
            HandshakeError::NoEntropy => "handshake random bytes unavailable",
            HandshakeError::InitTimedOut => "handshake init timed out",
            HandshakeError::InitFailed => "handshake init r/w failed",
            HandshakeError::InitStopped => "handshake init stopped",
            HandshakeError::InitWrongMessage => "handshake init wrong message",
            HandshakeError::OwnPublicKey => "handshake announced own public key",
            HandshakeError::ReplyTimedOut => "handshake reply timed out",
            HandshakeError::ReplyFailed => "handshake reply r/w failed",
            HandshakeError::ReplyStopped => "handshake reply stopped",
            HandshakeError::ReplyWrongMessage => "handshake reply wrong message",
            HandshakeError::InvalidSignature => "invalid remote handshake signature",
        };
        text.to_owned()
    }
}

/// The announcement of the side that `own` identifies.
pub open spec fn initiation_message(own: NodeId, random_bytes: Seq<u8>) -> MessageView {
    MessageView::HandshakeInitiation { public_key: own.0, random_bytes }
}

/// The answer to the other side's announcement.
pub open spec fn reply_message(signature: Seq<u8>) -> MessageView {
    MessageView::HandshakeReply { signature }
}

/// What the first exchange gives the side that `own` identifies: who the other
/// side claims to be, and the bytes to sign for it.
pub open spec fn initiation_verdict(own: NodeId, exchange: ExchangeView) -> Result<
    (NodeId, Seq<u8>),
    HandshakeError,
> {
    match exchange {
        ExchangeView::TimedOut => Err(HandshakeError::InitTimedOut),
        ExchangeView::Failed => Err(HandshakeError::InitFailed),
        ExchangeView::Stopped => Err(HandshakeError::InitStopped),
        ExchangeView::Received(
            MessageView::HandshakeInitiation { public_key, random_bytes },
        ) => if NodeId(public_key) == own {
            Err(HandshakeError::OwnPublicKey)
        } else {
            Ok((NodeId(public_key), random_bytes))
        },
        ExchangeView::Received(_) => Err(HandshakeError::InitWrongMessage),
    }
}

/// What the second exchange gives: the signature to check.
pub open spec fn reply_verdict(exchange: ExchangeView) -> Result<Seq<u8>, HandshakeError> {
    match exchange {
        ExchangeView::TimedOut => Err(HandshakeError::ReplyTimedOut),
        ExchangeView::Failed => Err(HandshakeError::ReplyFailed),
        ExchangeView::Stopped => Err(HandshakeError::ReplyStopped),
        ExchangeView::Received(MessageView::HandshakeReply { signature }) => Ok(signature),
        ExchangeView::Received(_) => Err(HandshakeError::ReplyWrongMessage),
    }
}

/// What the check of the signature gives.
pub open spec fn check_verdict(other: NodeId, valid: bool) -> Result<NodeId, HandshakeError> {
    if valid {
        Ok(other)
    } else {
        Err(HandshakeError::InvalidSignature)
    }
}

/// What a handshake comes to for the side that `own` identifies, from what came
/// of the two exchanges and of the check of the signature.
pub open spec fn outcome(
    own: NodeId,
    initiation: ExchangeView,
    reply: ExchangeView,
    valid: bool,
) -> Result<NodeId, HandshakeError> {
    match initiation_verdict(own, initiation) {
        Ok((other, _)) => match reply_verdict(reply) {
            Ok(_) => check_verdict(other, valid),
            Err(error) => Err(error),
        },
        Err(error) => Err(error),
    }
}

/// The announcement is to be sent, and the other side's is to be waited for.
pub struct Initiating {
    connection_id: ConnectionId,
    self_node_id: NodeId,
    random_bytes: Vec<u8>,
}

/// What an [`Initiating`] holds.
pub struct InitiatingView {
    pub connection_id: ConnectionId,
    pub self_node_id: NodeId,
    /// The bytes that this side announces.
    pub random_bytes: Seq<u8>,
}

impl View for Initiating {
    type V = InitiatingView;

    closed spec fn view(&self) -> InitiatingView {
        InitiatingView {
            connection_id: self.connection_id,
            self_node_id: self.self_node_id,
            random_bytes: self.random_bytes@,
        }
    }
}

/// The bytes that the other side announced are to be signed.
pub struct Challenged {
    connection_id: ConnectionId,
    random_bytes: Vec<u8>,
    other_node_id: NodeId,
    challenge: Vec<u8>,
}

/// What a [`Challenged`] holds.
pub struct ChallengedView {
    pub connection_id: ConnectionId,
    /// The bytes that this side announced.
    pub random_bytes: Seq<u8>,
    pub other_node_id: NodeId,
    /// The bytes that the other side announced.
    pub challenge: Seq<u8>,
}

impl View for Challenged {
    type V = ChallengedView;

    closed spec fn view(&self) -> ChallengedView {
        ChallengedView {
            connection_id: self.connection_id,
            random_bytes: self.random_bytes@,
            other_node_id: self.other_node_id,
            challenge: self.challenge@,
        }
    }
}

/// The signature is to be sent, and the other side's is to be waited for.
pub struct Replying {
    connection_id: ConnectionId,
    random_bytes: Vec<u8>,
    other_node_id: NodeId,
}

/// What a [`Replying`] holds.
pub struct ReplyingView {
    pub connection_id: ConnectionId,
    /// The bytes that this side announced.
    pub random_bytes: Seq<u8>,
    pub other_node_id: NodeId,
}

impl View for Replying {
    type V = ReplyingView;

    closed spec fn view(&self) -> ReplyingView {
        ReplyingView {
            connection_id: self.connection_id,
            random_bytes: self.random_bytes@,
            other_node_id: self.other_node_id,
        }
    }
}

/// The other side's signature is to be checked.
pub struct Answered {
    connection_id: ConnectionId,
    random_bytes: Vec<u8>,
    other_node_id: NodeId,
    signature: Signature,
}

/// What an [`Answered`] holds.
pub struct AnsweredView {
    pub connection_id: ConnectionId,
    /// The bytes that this side announced.
    pub random_bytes: Seq<u8>,
    pub other_node_id: NodeId,
    /// The signature that the other side sent for them.
    pub signature: Seq<u8>,
}

impl View for Answered {
    type V = AnsweredView;

    closed spec fn view(&self) -> AnsweredView {
        AnsweredView {
            connection_id: self.connection_id,
            random_bytes: self.random_bytes@,
            other_node_id: self.other_node_id,
            signature: self.signature@,
        }
    }
}

/// The stage after the first exchange, or the failure that it was.
pub open spec fn after_initiation(stage: InitiatingView, exchange: ExchangeView) -> Result<
    ChallengedView,
    (ConnectionId, HandshakeError),
> {
    match initiation_verdict(stage.self_node_id, exchange) {
        Ok((other_node_id, challenge)) => Ok(
            ChallengedView {
                connection_id: stage.connection_id,
                random_bytes: stage.random_bytes,
                other_node_id,
                challenge,
            },
        ),
        Err(error) => Err((stage.connection_id, error)),
    }
}

/// The stage after the other side's bytes were signed.
pub open spec fn after_signing(stage: ChallengedView) -> ReplyingView {
    ReplyingView {
        connection_id: stage.connection_id,
        random_bytes: stage.random_bytes,
        other_node_id: stage.other_node_id,
    }
}

/// The stage after the second exchange, or the failure that it was.
pub open spec fn after_reply(stage: ReplyingView, exchange: ExchangeView) -> Result<
    AnsweredView,
    (ConnectionId, HandshakeError),
> {
    match reply_verdict(exchange) {
        Ok(signature) => Ok(
            AnsweredView {
                connection_id: stage.connection_id,
                random_bytes: stage.random_bytes,
                other_node_id: stage.other_node_id,
                signature,
            },
        ),
        Err(error) => Err((stage.connection_id, error)),
    }
}

/// What the handshake comes to after the check of the signature.
pub open spec fn after_check(stage: AnsweredView, valid: bool) -> (
    ConnectionId,
    Result<NodeId, HandshakeError>,
) {
    (stage.connection_id, check_verdict(stage.other_node_id, valid))
}

/// What comes of going through the stages from `stage` on.
pub open spec fn through_the_stages(
    stage: InitiatingView,
    initiation: ExchangeView,
    reply: ExchangeView,
    valid: bool,
) -> (ConnectionId, Result<NodeId, HandshakeError>) {
    match after_initiation(stage, initiation) {
        Ok(challenged) => match after_reply(after_signing(challenged), reply) {
            Ok(answered) => after_check(answered, valid),
            Err((connection_id, error)) => (connection_id, Err(error)),
        },
        Err((connection_id, error)) => (connection_id, Err(error)),
    }
}

impl Initiating {
    /// Begins a handshake on `connection_id` with fresh random bytes, and gives
    /// the announcement to send.
    pub fn start(connection_id: ConnectionId, self_node_id: NodeId) -> (started: Result<
        (Initiating, Message),
        (ConnectionId, HandshakeError),
    >)
        ensures
            match started {
                Ok((stage, message)) => {
                    &&& stage@.connection_id == connection_id
                    &&& stage@.self_node_id == self_node_id
                    &&& stage@.random_bytes.len() == RANDOM_BYTES
                    &&& may_be_drawn(RANDOM_BYTES, stage@.random_bytes)
                    &&& message@ == initiation_message(self_node_id, stage@.random_bytes)
                },
                Err(failure) => {
                    &&& failure == (connection_id, HandshakeError::NoEntropy)
                    &&& may_lack_entropy(RANDOM_BYTES)
                },
            },
    {
        proof {
            lemma_drawing(RANDOM_BYTES);
        }
        match draw(RANDOM_BYTES) {
            Ok(random_bytes) => Ok(Initiating::announcing(connection_id, self_node_id, random_bytes)),
            Err(_) => Err((connection_id, HandshakeError::NoEntropy)),
        }
    }

    /// Begins a handshake on `connection_id` with the given random bytes, and
    /// gives the announcement to send.
    pub fn announcing(
        connection_id: ConnectionId,
        self_node_id: NodeId,
        random_bytes: Vec<u8>,
    ) -> (started: (Initiating, Message))
        ensures
            started.0@ == (InitiatingView {
                connection_id,
                self_node_id,
                random_bytes: random_bytes@,
            }),
            started.1@ == initiation_message(self_node_id, random_bytes@),
    {
        let announced: Vec<u8> = random_bytes.clone();
        assert(announced@ =~= random_bytes@);
        let message = Message::HandshakeInitiation {
            public_key: self_node_id.0,
            random_bytes: announced,
        };
        (Initiating { connection_id, self_node_id, random_bytes }, message)
    }

    /// Takes what came of sending the announcement and waiting for the other side's.
    pub fn exchanged(self, exchange: Exchange) -> (next: Result<
        Challenged,
        (ConnectionId, HandshakeError),
    >)
        ensures
            match after_initiation(self@, exchange@) {
                Ok(stage) => next is Ok && next->Ok_0@ == stage,
                Err(failure) => next == Err::<Challenged, (ConnectionId, HandshakeError)>(failure),
            },
    {
        let (other_node_id, challenge) = match exchange {
            Exchange::TimedOut => return Err((self.connection_id, HandshakeError::InitTimedOut)),
            Exchange::Failed => return Err((self.connection_id, HandshakeError::InitFailed)),
            Exchange::Stopped => return Err((self.connection_id, HandshakeError::InitStopped)),
            Exchange::Received(message) => match message {
                Message::HandshakeInitiation { public_key, random_bytes } => (
                    NodeId(public_key),
                    random_bytes,
                ),
                _ => return Err((self.connection_id, HandshakeError::InitWrongMessage)),
            },
        };
        if other_node_id == self.self_node_id {
            return Err((self.connection_id, HandshakeError::OwnPublicKey));
        }
        Ok(
            Challenged {
                connection_id: self.connection_id,
                random_bytes: self.random_bytes,
                other_node_id,
                challenge,
            },
        )
    }
}

impl Challenged {
    /// The bytes to sign with the key of this side.
    pub fn challenge(&self) -> (bytes: &Vec<u8>)
        ensures
            bytes@ == self@.challenge,
    {
        &self.challenge
    }

    /// Takes the signature of [`Challenged::challenge`], and gives the reply to send.
    pub fn signed(self, signature: Signature) -> (next: (Replying, Message))
        ensures
            next.0@ == after_signing(self@),
            next.1@ == reply_message(signature@),
    {
        let message = Message::HandshakeReply { signature };
        (
            Replying {
                connection_id: self.connection_id,
                random_bytes: self.random_bytes,
                other_node_id: self.other_node_id,
            },
            message,
        )
    }
}

impl Replying {
    /// Takes what came of sending the reply and waiting for the other side's.
    pub fn exchanged(self, exchange: Exchange) -> (next: Result<
        Answered,
        (ConnectionId, HandshakeError),
    >)
        ensures
            match after_reply(self@, exchange@) {
                Ok(stage) => next is Ok && next->Ok_0@ == stage,
                Err(failure) => next == Err::<Answered, (ConnectionId, HandshakeError)>(failure),
            },
    {
        let signature = match exchange {
            Exchange::TimedOut => return Err((self.connection_id, HandshakeError::ReplyTimedOut)),
            Exchange::Failed => return Err((self.connection_id, HandshakeError::ReplyFailed)),
            Exchange::Stopped => return Err((self.connection_id, HandshakeError::ReplyStopped)),
            Exchange::Received(message) => match message {
                Message::HandshakeReply { signature } => signature,
                _ => return Err((self.connection_id, HandshakeError::ReplyWrongMessage)),
            },
        };
        Ok(
            Answered {
                connection_id: self.connection_id,
                random_bytes: self.random_bytes,
                other_node_id: self.other_node_id,
                signature,
            },
        )
    }
}

impl Answered {
    /// The bytes, the signature of them, and the key to check it with.
    pub fn to_check(&self) -> (check: (&Vec<u8>, &Signature, PublicKey))
        ensures
            check.0@ == self@.random_bytes,
            check.1@ == self@.signature,
            check.2 == self@.other_node_id.0,
    {
        (&self.random_bytes, &self.signature, self.other_node_id.0)
    }

    /// Takes whether the signature of [`Answered::to_check`] is valid, and gives
    /// what the handshake came to.
    pub fn checked(self, valid: bool) -> (finished: (ConnectionId, Result<NodeId, HandshakeError>))
        ensures
            finished == after_check(self@, valid),
    {
        if !valid {
            return (self.connection_id, Err(HandshakeError::InvalidSignature));
        }
        (self.connection_id, Ok(self.other_node_id))
    }
}

} // verus!
