use massa_protocol::active_nodes::ActiveNodes;
use massa_protocol::identity::{ConnectionId, NodeId, PublicKey};

fn node(byte: u8) -> NodeId {
    NodeId(PublicKey([byte; 33]))
}

#[test]
fn entries_are_found_and_taken_out() {
    let mut nodes = ActiveNodes::new();
    assert_eq!(nodes.get(node(1)), None);
    nodes.insert(node(1), ConnectionId(10));
    nodes.insert(node(2), ConnectionId(20));
    nodes.insert(node(3), ConnectionId(10));
    assert_eq!(nodes.get(node(1)), Some(ConnectionId(10)));
    assert_eq!(nodes.get(node(2)), Some(ConnectionId(20)));
    assert_eq!(nodes.remove(node(1)), Some(ConnectionId(10)));
    assert_eq!(nodes.remove(node(1)), None);
    assert_eq!(nodes.get(node(1)), None);
    assert_eq!(nodes.get(node(3)), Some(ConnectionId(10)));
}

#[test]
fn nodes_of_a_connection() {
    let mut nodes = ActiveNodes::new();
    nodes.insert(node(1), ConnectionId(10));
    nodes.insert(node(2), ConnectionId(20));
    nodes.insert(node(3), ConnectionId(10));
    let mut found = nodes.on_connection(ConnectionId(10));
    found.sort();
    assert_eq!(found, vec![node(1), node(3)]);
    assert_eq!(nodes.on_connection(ConnectionId(30)), vec![]);
}

#[test]
fn drain_takes_everything() {
    let mut nodes = ActiveNodes::new();
    nodes.insert(node(1), ConnectionId(10));
    nodes.insert(node(2), ConnectionId(10));
    let mut drained = nodes.drain();
    drained.sort();
    assert_eq!(drained, vec![node(1), node(2)]);
    assert_eq!(nodes.get(node(1)), None);
    assert_eq!(nodes.drain(), vec![]);
}

#[test]
fn node_ids_differ_where_a_byte_differs() {
    let mut bytes: [u8; 33] = [1u8; 33];
    assert!(NodeId(PublicKey(bytes)) == node(1));
    bytes[0] = 0u8;
    assert!(NodeId(PublicKey(bytes)) != node(1));
    assert!(NodeId(PublicKey(bytes)) < node(1));
}

#[test]
fn node_id_is_shown_by_its_key_alone() {
    let key = PublicKey([7u8; 33]);
    let text = format!("{:?}", key);
    assert!(text.starts_with("PublicKey([7, 7,"));
    assert_eq!(format!("{:?}", NodeId(key)), text);
    assert_eq!(format!("{}", NodeId(key)), text);
    assert_eq!(NodeId(key).to_string(), text);
    // in one line, whatever is asked for
    assert_eq!(format!("{:#?}", NodeId(key)), text);
}
