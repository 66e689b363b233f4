//! Tests for replication strategies.

use hashring::node::{Node, NodeId};
use hashring::ring::HashRing;
use hashring::strategy::{ReplicationStrategy, SimpleStrategy};

#[test]
fn test_simple_strategy_replication_factor() {
    let strategy = SimpleStrategy::new(3);
    assert_eq!(strategy.replication_factor(), 3);
}

#[test]
fn test_simple_strategy_replicas() {
    let mut ring = HashRing::new();
    ring.add_node(Node::new(NodeId(1), "node1"), 4);
    ring.add_node(Node::new(NodeId(2), "node2"), 4);
    ring.add_node(Node::new(NodeId(3), "node3"), 4);

    let strategy = SimpleStrategy::new(3);
    let replicas = strategy.replicas_for_key(&ring, b"test-key");

    assert_eq!(replicas.len(), 3);
    // Should have unique nodes
    let unique: std::collections::HashSet<_> = replicas.iter().collect();
    assert_eq!(unique.len(), 3);
}

#[test]
fn test_simple_strategy_three_distinct_for_any_key() {
    // A factor of three over a three-node ring returns exactly three
    // distinct ids, whatever the key.
    let mut ring = HashRing::new();
    ring.add_node(Node::new(NodeId(1), "node1"), 4);
    ring.add_node(Node::new(NodeId(2), "node2"), 4);
    ring.add_node(Node::new(NodeId(3), "node3"), 4);

    let strategy = SimpleStrategy::new(3);
    for i in 0..25u32 {
        let key = format!("replica-key-{}", i);
        let replicas = strategy.replicas_for_key(&ring, key.as_bytes());
        assert_eq!(replicas.len(), 3);
        let unique: std::collections::HashSet<_> = replicas.iter().collect();
        assert_eq!(unique.len(), 3);
    }
}

#[test]
fn test_simple_strategy_primary_first() {
    let mut ring = HashRing::new();
    ring.add_node(Node::new(NodeId(1), "node1"), 4);
    ring.add_node(Node::new(NodeId(2), "node2"), 4);
    ring.add_node(Node::new(NodeId(3), "node3"), 4);

    let strategy = SimpleStrategy::new(2);
    for i in 0..25u32 {
        let key = format!("primary-key-{}", i);
        let replicas = strategy.replicas_for_key(&ring, key.as_bytes());
        assert_eq!(replicas[0], ring.lookup(key.as_bytes()).unwrap());
    }
}

#[test]
fn test_simple_strategy_factor_one() {
    // A factor of one yields the primary alone.
    let mut ring = HashRing::new();
    ring.add_node(Node::new(NodeId(1), "node1"), 4);
    ring.add_node(Node::new(NodeId(2), "node2"), 4);

    let strategy = SimpleStrategy::new(1);
    let replicas = strategy.replicas_for_key(&ring, b"k");
    assert_eq!(replicas.len(), 1);
    assert_eq!(replicas[0], ring.lookup(b"k").unwrap());
}

#[test]
fn test_simple_strategy_fewer_nodes_than_factor() {
    // With fewer distinct nodes than the factor, every node appears once.
    let mut ring = HashRing::new();
    ring.add_node(Node::new(NodeId(1), "node1"), 4);
    ring.add_node(Node::new(NodeId(2), "node2"), 4);

    let strategy = SimpleStrategy::new(5);
    let replicas = strategy.replicas_for_key(&ring, b"k");
    assert_eq!(replicas.len(), 2);
    let unique: std::collections::HashSet<_> = replicas.iter().collect();
    assert_eq!(unique.len(), 2);
}

#[test]
fn test_simple_strategy_empty_cases() {
    let strategy = SimpleStrategy::new(3);
    assert!(strategy.replicas_for_key(&HashRing::new(), b"k").is_empty());

    let mut ring = HashRing::new();
    ring.add_node(Node::new(NodeId(1), "node1"), 4);
    let zero = SimpleStrategy::new(0);
    assert!(zero.replicas_for_key(&ring, b"k").is_empty());
}

#[test]
fn test_simple_strategy_default_and_name() {
    let strategy = SimpleStrategy::default();
    assert_eq!(strategy.replication_factor(), 3);
    assert_eq!(strategy.name(), "SimpleStrategy");
}

#[test]
fn test_strategy_agrees_with_topology() {
    // The strategy and the topology's replica discovery share one rule.
    let mut ring = HashRing::new();
    ring.add_node(Node::new(NodeId(1), "node1"), 4);
    ring.add_node(Node::new(NodeId(2), "node2"), 4);
    ring.add_node(Node::new(NodeId(3), "node3"), 4);

    let strategy = SimpleStrategy::new(3);
    let from_strategy = strategy.replicas_for_key(&ring, b"shared-key");
    let topology = hashring::topology::Topology::new(ring);
    let from_topology = topology.replicas_for_key(b"shared-key", 3);
    assert_eq!(from_strategy, from_topology);
}
