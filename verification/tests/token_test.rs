//! Tests for token types, partitioners, positions, nodes and errors.

use hashring::error::Error;
use hashring::node::{Node, NodeId};
use hashring::partitioner::{
    ByteOrderedPartitioner, Murmur3Partitioner, Partitioner, RandomPartitioner,
};
use hashring::position::Position;
use hashring::token::{ByteOrderedToken, Murmur3Token, RandomToken, Token};

#[test]
fn test_murmur3_token_boundaries() {
    assert!(Murmur3Token::zero().is_zero());
    assert!(!Murmur3Token::zero().is_max());
    assert!(Murmur3Token::max().is_max());
    assert_eq!(Murmur3Token::zero(), Murmur3Token(0));
    assert_eq!(Murmur3Token::max(), Murmur3Token(u64::MAX));
}

#[test]
fn test_murmur3_distance_formula() {
    // Forward gap: plain difference when the target is ahead, wrap through
    // the top of the space otherwise.
    let a = Murmur3Token(100);
    let b = Murmur3Token(250);
    assert_eq!(a.distance_to(&b), Murmur3Token(150));
    assert_eq!(b.distance_to(&a), Murmur3Token(u64::MAX - 150 + 1));
    assert_eq!(
        Murmur3Token(u64::MAX).distance_to(&Murmur3Token(0)),
        Murmur3Token(1)
    );
    assert_eq!(a.distance_to(&a), Murmur3Token(0));
}

#[test]
fn test_random_token() {
    assert_eq!(RandomToken::from_seed(7), RandomToken(7));
    assert!(RandomToken::zero().is_zero());
    assert!(RandomToken::max().is_max());
    assert_eq!(
        RandomToken(10).distance_to(&RandomToken(3)),
        RandomToken(u64::MAX - 7 + 1)
    );
}

#[test]
fn test_byte_ordered_token() {
    assert!(ByteOrderedToken::zero().is_zero());
    assert!(ByteOrderedToken::max().is_max());
    assert!(!ByteOrderedToken::from_key("ab").is_zero());
    assert_eq!(ByteOrderedToken::from_key("ab").0, b"ab".to_vec());
    assert_eq!(ByteOrderedToken::from_bytes(vec![1, 2, 3]).0, vec![1, 2, 3]);
}

#[test]
fn test_partition_determinism() {
    // Repeated calls on the same key yield an identical token, for every
    // partitioner.
    let key = b"determinism-key";
    let m = Murmur3Partitioner;
    assert_eq!(m.partition(key), m.partition(key));
    let r = RandomPartitioner;
    assert_eq!(r.partition(key), r.partition(key));
    let b = ByteOrderedPartitioner;
    assert_eq!(b.partition(key), b.partition(key));
}

#[test]
fn test_partitioners_hash_distinct_keys() {
    // The hashing partitioners separate ordinary distinct keys; the
    // byte-ordered partitioner carries the key bytes through unchanged.
    let m = Murmur3Partitioner;
    assert_ne!(m.partition(b"key-a"), m.partition(b"key-b"));
    assert_eq!(m.partition(b"key-a"), Murmur3Token::from_bytes(b"key-a"));

    let r = RandomPartitioner;
    assert_ne!(r.partition(b"key-a"), r.partition(b"key-b"));

    let b = ByteOrderedPartitioner;
    assert_eq!(b.partition(b"key-a").0, b"key-a".to_vec());
}

#[test]
fn test_partitioner_boundaries_and_names() {
    let m = Murmur3Partitioner;
    assert!(m.min_token().is_zero());
    assert!(m.max_token().is_max());
    assert_eq!(m.name(), "Murmur3Partitioner");
    assert_eq!(RandomPartitioner.name(), "RandomPartitioner");
    assert_eq!(ByteOrderedPartitioner.name(), "ByteOrderedPartitioner");
}

#[test]
fn test_position() {
    let pos = Position::new(Murmur3Token(5), Murmur3Partitioner);
    assert_eq!(*pos.token(), Murmur3Token(5));
    assert!(!pos.is_minimum());
    assert!(!pos.is_maximum());
    assert!(pos.min_value().is_minimum());
    assert!(pos.max_value().is_maximum());

    let zero = Position::new(Murmur3Token(0), Murmur3Partitioner);
    assert!(zero.is_minimum());
}

#[test]
fn test_node_construction() {
    let node = Node::new(NodeId(9), "host-9");
    assert_eq!(node.id, NodeId(9));
    assert_eq!(node.name, "host-9");
    assert!(node.datacenter.is_none());
    assert!(node.rack.is_none());

    let node = Node::with_topology(NodeId(10), "host-10", Some("dc1"), Some("rack7"));
    assert_eq!(node.id, NodeId(10));
    assert_eq!(node.datacenter.as_deref(), Some("dc1"));
    assert_eq!(node.rack.as_deref(), Some("rack7"));

    let copy = node.clone();
    assert_eq!(copy.id, node.id);
    assert_eq!(copy.name, node.name);
    assert_eq!(copy.datacenter, node.datacenter);
    assert_eq!(copy.rack, node.rack);
}

#[test]
fn test_error_messages() {
    assert_eq!(
        Error::InvalidToken("bad".to_string()).message(),
        "Invalid token: bad"
    );
    assert_eq!(
        Error::InvalidNode("x".to_string()).message(),
        "Invalid node: x"
    );
    assert_eq!(
        Error::RingOperation("y".to_string()).message(),
        "Ring operation failed: y"
    );
    assert_eq!(
        Error::Topology("z".to_string()).message(),
        "Topology error: z"
    );
    assert_eq!(Error::Internal("w".to_string()).message(), "Internal error: w");
}

#[test]
fn test_from_key_matches_bytes() {
    // Hashing a string key equals hashing its bytes.
    assert_eq!(
        Murmur3Token::from_key("some-key"),
        Murmur3Token::from_bytes(b"some-key")
    );
}

#[test]
fn test_byte_ordered_lexicographic() {
    // Byte-ordered tokens preserve the keys' lexicographic order.
    let a = ByteOrderedToken::from_key("a");
    let ab = ByteOrderedToken::from_key("ab");
    let b = ByteOrderedToken::from_key("b");
    assert!(a < ab);
    assert!(ab < b);
    assert!(a < b);
}
