//! Tests for the topology view: ownership, percentages, description and
//! replica discovery.

use hashring::node::{Node, NodeId};
use hashring::ring::HashRing;
use hashring::topology::Topology;

#[test]
fn test_topology_ownership() {
    let mut ring = HashRing::new();
    ring.add_node(Node::new(NodeId(1), "node1"), 4);
    ring.add_node(Node::new(NodeId(2), "node2"), 4);

    let topology = Topology::new(ring);
    let ownership = topology.ownership();

    assert_eq!(ownership.len(), 2);
    let node1 = ownership.iter().find(|e| e.0 == NodeId(1)).unwrap();
    let node2 = ownership.iter().find(|e| e.0 == NodeId(2)).unwrap();
    assert_eq!(node1.1.len(), 4);
    assert_eq!(node2.1.len(), 4);
}

#[test]
fn test_topology_percentages() {
    let mut ring = HashRing::new();
    ring.add_node(Node::new(NodeId(1), "node1"), 4);
    ring.add_node(Node::new(NodeId(2), "node2"), 4);

    let topology = Topology::new(ring);
    let ownership = topology.ownership();
    let total = topology.ring().token_count() as f64;

    // Should be roughly 50% each (may vary slightly due to token distribution)
    assert_eq!(ownership.len(), 2);
    for entry in ownership.iter() {
        let percentage = entry.1.len() as f64 / total * 100.0;
        assert!((percentage - 50.0).abs() < 5.0);
    }
}

#[test]
fn test_topology_describe() {
    let mut ring = HashRing::new();
    ring.add_node(Node::new(NodeId(1), "node1"), 4);

    let topology = Topology::new(ring);
    let description = topology.describe();

    assert!(description.contains("Ring Description"));
    assert!(description.contains("node1"));
}

#[test]
fn test_describe_exact_format() {
    // A single node owning every token reads as a fixed report.
    let mut ring = HashRing::new();
    ring.add_node(Node::new(NodeId(1), "node1"), 4);

    let description = Topology::new(ring).describe();
    let expected = "Ring Description:\n  Nodes: 1\n  Total Tokens: 4\n  \
        Partitioner: Murmur3Partitioner\n\nNode Ownership:\n  \
        Node 00000000000000000000000000000001 (node1): 4 tokens (100.00%)\n";
    assert_eq!(description, expected);
}

#[test]
fn test_describe_empty_ring() {
    let description = Topology::new(HashRing::new()).describe();
    let expected =
        "Ring Description:\n  Nodes: 0\n  Total Tokens: 0\n  Partitioner: Murmur3Partitioner\n";
    assert_eq!(description, expected);
}

#[test]
fn test_describe_percentages_thirds() {
    // Two nodes holding one and two tokens of three: 33.33% and 66.66%
    // (truncated hundredths).
    let mut ring = HashRing::new();
    ring.add_node(Node::new(NodeId(1), "a"), 1);
    ring.add_node(Node::new(NodeId(2), "b"), 2);

    let description = Topology::new(ring).describe();
    assert!(description.contains("(a): 1 tokens (33.33%)"));
    assert!(description.contains("(b): 2 tokens (66.66%)"));
}

#[test]
fn test_topology_ownership_sorted_by_id() {
    let mut ring = HashRing::new();
    ring.add_node(Node::new(NodeId(30), "c"), 2);
    ring.add_node(Node::new(NodeId(10), "a"), 2);
    ring.add_node(Node::new(NodeId(20), "b"), 2);

    let ownership = Topology::new(ring).ownership();
    let ids: Vec<u128> = ownership.iter().map(|e| e.0 .0).collect();
    assert_eq!(ids, vec![10, 20, 30]);
}

#[test]
fn test_topology_replicas_for_key() {
    // The topology's replica discovery walks clockwise past the primary,
    // collecting distinct nodes.
    let mut ring = HashRing::new();
    ring.add_node(Node::new(NodeId(1), "node1"), 4);
    ring.add_node(Node::new(NodeId(2), "node2"), 4);
    ring.add_node(Node::new(NodeId(3), "node3"), 4);

    let topology = Topology::new(ring);
    let primary = topology.ring().lookup(b"my-key").unwrap();
    let replicas = topology.replicas_for_key(b"my-key", 3);

    assert_eq!(replicas.len(), 3);
    assert_eq!(replicas[0], primary);
    let unique: std::collections::HashSet<_> = replicas.iter().collect();
    assert_eq!(unique.len(), 3);
}

#[test]
fn test_topology_replicas_zero_and_empty() {
    let topology = Topology::new(HashRing::new());
    assert!(topology.replicas_for_key(b"k", 3).is_empty());

    let mut ring = HashRing::new();
    ring.add_node(Node::new(NodeId(1), "node1"), 4);
    let topology = Topology::new(ring);
    assert!(topology.replicas_for_key(b"k", 0).is_empty());
}

#[test]
fn test_topology_removed_node_owns_nothing() {
    // After removal, no ownership entry maps to the removed id and its
    // metadata is gone.
    let mut ring = HashRing::new();
    ring.add_node(Node::new(NodeId(1), "node1"), 4);
    ring.add_node(Node::new(NodeId(2), "node2"), 4);
    assert!(ring.remove_node(&NodeId(1)));

    assert!(ring.get_node(&NodeId(1)).is_none());
    for (_, id) in ring.tokens() {
        assert_ne!(id, NodeId(1));
    }

    let ownership = Topology::new(ring).ownership();
    assert!(ownership.iter().all(|e| e.0 != NodeId(1)));
}
