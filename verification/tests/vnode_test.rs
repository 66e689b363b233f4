//! Tests for virtual nodes and their token derivation.

use hashring::node::NodeId;
use hashring::token::Murmur3Token;
use hashring::vnode::VirtualNode;

#[test]
fn test_vnode_creation() {
    let vnode = VirtualNode::new(Murmur3Token(100), NodeId(1));
    assert_eq!(vnode.token(), Murmur3Token(100));
    assert_eq!(vnode.node_id(), NodeId(1));
}

#[test]
fn test_vnode_from_index() {
    let vnode0 = VirtualNode::from_index(NodeId(1), 0);
    let vnode1 = VirtualNode::from_index(NodeId(1), 1);

    // Should have different tokens
    assert_ne!(vnode0.token(), vnode1.token());

    // But same node_id
    assert_eq!(vnode0.node_id(), vnode1.node_id());
    assert_eq!(vnode0.node_id(), NodeId(1));
}

#[test]
fn test_vnode_distance() {
    let vnode1 = VirtualNode::new(Murmur3Token(100), NodeId(1));
    let vnode2 = VirtualNode::new(Murmur3Token(200), NodeId(2));

    let distance = vnode1.distance_to(&vnode2);
    assert_eq!(distance, Murmur3Token(100)); // 200 - 100
}

#[test]
fn test_vnode_ordering() {
    let vnode1 = VirtualNode::new(Murmur3Token(100), NodeId(1));
    let vnode2 = VirtualNode::new(Murmur3Token(200), NodeId(2));

    assert!(vnode1 < vnode2); // Ordered by token
}

#[test]
fn test_vnode_key_derivation() {
    // The derived token is the hash of "<32 hex digits of the id>:<index>".
    let vnode = VirtualNode::from_index(NodeId(1), 0);
    let expected = Murmur3Token::from_key("00000000000000000000000000000001:0");
    assert_eq!(vnode.token(), expected);

    let vnode = VirtualNode::from_index(NodeId(0xabcdef), 17);
    let expected = Murmur3Token::from_key("00000000000000000000000000abcdef:17");
    assert_eq!(vnode.token(), expected);
}

#[test]
fn test_vnode_matches_ring_tokens() {
    // The ring derives its tokens exactly as `VirtualNode::from_index`.
    let mut ring = hashring::ring::HashRing::new();
    ring.add_node(hashring::node::Node::new(NodeId(5), "node5"), 3);

    let mut expected: Vec<u64> = (0..3)
        .map(|i| VirtualNode::from_index(NodeId(5), i).token().0)
        .collect();
    expected.sort();

    let actual: Vec<u64> = ring.tokens().iter().map(|(t, _)| t.0).collect();
    assert_eq!(actual, expected);
}

#[test]
fn test_vnode_distance_wraps() {
    // Distance wraps through the top of the space: from the maximum token
    // to zero is one step.
    let top = VirtualNode::new(Murmur3Token(u64::MAX), NodeId(1));
    let bottom = VirtualNode::new(Murmur3Token(0), NodeId(2));
    assert_eq!(top.distance_to(&bottom), Murmur3Token(1));
    assert_eq!(bottom.distance_to(&top), Murmur3Token(u64::MAX));
    assert_eq!(top.distance_to(&top), Murmur3Token(0));
}
