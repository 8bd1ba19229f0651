use massa_protocol::handshake::{
    Answered, Challenged, Exchange, HandshakeError, Initiating, Replying, RANDOM_BYTES,
};
use massa_protocol::identity::{ConnectionId, NodeId, PublicKey};
use massa_protocol::message::{Message, Signature};

const CONNECTION: ConnectionId = ConnectionId(7);

fn node(byte: u8) -> NodeId {
    NodeId(PublicKey([byte; 33]))
}

fn initiating() -> Initiating {
    Initiating::announcing(CONNECTION, node(1), vec![10u8, 11, 12]).0
}

fn challenged() -> Challenged {
    let announcement = Message::HandshakeInitiation {
        public_key: node(2).0,
        random_bytes: vec![20u8, 21],
    };
    match initiating().exchanged(Exchange::Received(announcement)) {
        Ok(stage) => stage,
        Err(failure) => panic!("{:?}", failure),
    }
}

fn replying() -> Replying {
    challenged().signed(Signature(vec![1u8])).0
}

fn answered() -> Answered {
    let reply = Message::HandshakeReply { signature: Signature(vec![30u8, 31]) };
    match replying().exchanged(Exchange::Received(reply)) {
        Ok(stage) => stage,
        Err(failure) => panic!("{:?}", failure),
    }
}

fn init_error(exchange: Exchange) -> (ConnectionId, HandshakeError) {
    match initiating().exchanged(exchange) {
        Ok(_) => panic!("the exchange was accepted"),
        Err(failure) => failure,
    }
}

fn reply_error(exchange: Exchange) -> (ConnectionId, HandshakeError) {
    match replying().exchanged(exchange) {
        Ok(_) => panic!("the exchange was accepted"),
        Err(failure) => failure,
    }
}

fn announced_bytes(message: Message) -> Vec<u8> {
    match message {
        Message::HandshakeInitiation { random_bytes, .. } => random_bytes,
        other => panic!("{:?}", other),
    }
}

/// A signature scheme for tests: the signature names the key and the bytes.
fn toy_sign(bytes: &Vec<u8>, key: NodeId) -> Signature {
    let mut signature: Vec<u8> = vec![key.0 .0[0]];
    signature.extend(bytes.iter());
    Signature(signature)
}

fn toy_verify(bytes: &Vec<u8>, signature: &Signature, key: PublicKey) -> bool {
    *signature == toy_sign(bytes, NodeId(key))
}

#[test]
fn announcement_carries_the_key_and_the_bytes() {
    let (_, message) = Initiating::announcing(CONNECTION, node(1), vec![10u8, 11, 12]);
    assert_eq!(
        message,
        Message::HandshakeInitiation {
            public_key: PublicKey([1u8; 33]),
            random_bytes: vec![10u8, 11, 12],
        }
    );
}

#[test]
fn start_announces_fresh_random_bytes() {
    let first = match Initiating::start(CONNECTION, node(1)) {
        Ok((_, message)) => announced_bytes(message),
        Err(failure) => panic!("{:?}", failure),
    };
    let second = match Initiating::start(CONNECTION, node(1)) {
        Ok((_, message)) => announced_bytes(message),
        Err(failure) => panic!("{:?}", failure),
    };
    assert_eq!(RANDOM_BYTES, 64);
    assert_eq!(first.len(), 64);
    assert_eq!(second.len(), 64);
    assert_ne!(first, vec![0u8; 64]);
    assert_ne!(first, second);
}

#[test]
fn started_handshake_checks_the_bytes_it_announced() {
    let (stage, message) = match Initiating::start(CONNECTION, node(1)) {
        Ok(started) => started,
        Err(failure) => panic!("{:?}", failure),
    };
    let announced = announced_bytes(message);
    let theirs = Message::HandshakeInitiation { public_key: node(2).0, random_bytes: vec![5u8] };
    let stage = match stage.exchanged(Exchange::Received(theirs)) {
        Ok(stage) => stage,
        Err(failure) => panic!("{:?}", failure),
    };
    let (stage, _) = stage.signed(Signature(vec![]));
    let reply = Message::HandshakeReply { signature: Signature(vec![6u8]) };
    let stage = match stage.exchanged(Exchange::Received(reply)) {
        Ok(stage) => stage,
        Err(failure) => panic!("{:?}", failure),
    };
    assert_eq!(*stage.to_check().0, announced);
}

#[test]
fn the_other_sides_bytes_are_signed() {
    let stage = challenged();
    assert_eq!(*stage.challenge(), vec![20u8, 21]);
    let (_, message) = stage.signed(Signature(vec![9u8, 9]));
    assert_eq!(message, Message::HandshakeReply { signature: Signature(vec![9u8, 9]) });
}

#[test]
fn the_own_bytes_are_checked_under_the_announced_key() {
    let stage = answered();
    let (bytes, signature, key) = stage.to_check();
    assert_eq!(*bytes, vec![10u8, 11, 12]);
    assert_eq!(*signature, Signature(vec![30u8, 31]));
    assert!(key == node(2).0);
}

#[test]
fn valid_signature_gives_the_other_node() {
    assert_eq!(answered().checked(true), (CONNECTION, Ok(node(2))));
}

#[test]
fn invalid_signature_is_refused() {
    assert_eq!(
        answered().checked(false),
        (CONNECTION, Err(HandshakeError::InvalidSignature))
    );
}

#[test]
fn initiation_errors() {
    assert_eq!(init_error(Exchange::TimedOut), (CONNECTION, HandshakeError::InitTimedOut));
    assert_eq!(init_error(Exchange::Failed), (CONNECTION, HandshakeError::InitFailed));
    assert_eq!(init_error(Exchange::Stopped), (CONNECTION, HandshakeError::InitStopped));
    assert_eq!(
        init_error(Exchange::Received(Message::AskPeerList)),
        (CONNECTION, HandshakeError::InitWrongMessage)
    );
    let reply = Message::HandshakeReply { signature: Signature(vec![]) };
    assert_eq!(
        init_error(Exchange::Received(reply)),
        (CONNECTION, HandshakeError::InitWrongMessage)
    );
}

#[test]
fn own_key_is_refused() {
    let (_, own) = Initiating::announcing(ConnectionId(8), node(1), vec![1u8]);
    assert_eq!(
        init_error(Exchange::Received(own)),
        (CONNECTION, HandshakeError::OwnPublicKey)
    );
}

#[test]
fn key_that_differs_in_the_last_byte_is_another() {
    let mut bytes: [u8; 33] = [1u8; 33];
    bytes[32] = 2u8;
    let theirs = Message::HandshakeInitiation {
        public_key: PublicKey(bytes),
        random_bytes: vec![],
    };
    assert!(initiating().exchanged(Exchange::Received(theirs)).is_ok());
}

#[test]
fn reply_errors() {
    assert_eq!(reply_error(Exchange::TimedOut), (CONNECTION, HandshakeError::ReplyTimedOut));
    assert_eq!(reply_error(Exchange::Failed), (CONNECTION, HandshakeError::ReplyFailed));
    assert_eq!(reply_error(Exchange::Stopped), (CONNECTION, HandshakeError::ReplyStopped));
    assert_eq!(
        reply_error(Exchange::Received(Message::Transaction("tx".to_string()))),
        (CONNECTION, HandshakeError::ReplyWrongMessage)
    );
    let announcement = Message::HandshakeInitiation {
        public_key: node(2).0,
        random_bytes: vec![],
    };
    assert_eq!(
        reply_error(Exchange::Received(announcement)),
        (CONNECTION, HandshakeError::ReplyWrongMessage)
    );
}

#[test]
fn error_texts() {
    let texts = [
        (HandshakeError::NoEntropy, "handshake random bytes unavailable"),
        (HandshakeError::InitTimedOut, "handshake init timed out"),
        (HandshakeError::InitFailed, "handshake init r/w failed"),
        (HandshakeError::InitStopped, "handshake init stopped"),
        (HandshakeError::InitWrongMessage, "handshake init wrong message"),
        (HandshakeError::OwnPublicKey, "handshake announced own public key"),
        (HandshakeError::ReplyTimedOut, "handshake reply timed out"),
        (HandshakeError::ReplyFailed, "handshake reply r/w failed"),
        (HandshakeError::ReplyStopped, "handshake reply stopped"),
        (HandshakeError::ReplyWrongMessage, "handshake reply wrong message"),
        (HandshakeError::InvalidSignature, "invalid remote handshake signature"),
    ];
    for (error, text) in texts.iter() {
        assert_eq!(error.message(), *text);
    }
}

#[test]
fn honest_peers_accept_each_other() {
    let (a, b) = (node(1), node(2));
    let (a_stage, a_announces) = Initiating::announcing(ConnectionId(1), a, vec![1u8, 2, 3]);
    let (b_stage, b_announces) = Initiating::announcing(ConnectionId(2), b, vec![4u8, 5, 6]);
    let a_stage = match a_stage.exchanged(Exchange::Received(b_announces)) {
        Ok(stage) => stage,
        Err(failure) => panic!("{:?}", failure),
    };
    let b_stage = match b_stage.exchanged(Exchange::Received(a_announces)) {
        Ok(stage) => stage,
        Err(failure) => panic!("{:?}", failure),
    };
    let a_signature = toy_sign(a_stage.challenge(), a);
    let b_signature = toy_sign(b_stage.challenge(), b);
    let (a_stage, a_replies) = a_stage.signed(a_signature);
    let (b_stage, b_replies) = b_stage.signed(b_signature);
    let a_stage = match a_stage.exchanged(Exchange::Received(b_replies)) {
        Ok(stage) => stage,
        Err(failure) => panic!("{:?}", failure),
    };
    let b_stage = match b_stage.exchanged(Exchange::Received(a_replies)) {
        Ok(stage) => stage,
        Err(failure) => panic!("{:?}", failure),
    };
    let a_valid = {
        let (bytes, signature, key) = a_stage.to_check();
        toy_verify(bytes, signature, key)
    };
    let b_valid = {
        let (bytes, signature, key) = b_stage.to_check();
        toy_verify(bytes, signature, key)
    };
    assert_eq!(a_stage.checked(a_valid), (ConnectionId(1), Ok(b)));
    assert_eq!(b_stage.checked(b_valid), (ConnectionId(2), Ok(a)));
}
