//! Tests for the hash ring: add/remove/lookup, builders, and edge cases.

use hashring::node::{Node, NodeId};
use hashring::ring::HashRing;
use hashring::token::Murmur3Token;

#[test]
fn test_empty_ring_lookup() {
    // An empty ring returns nothing for every lookup.
    let ring = HashRing::new();
    assert_eq!(ring.lookup(b"key1"), None);
    assert!(ring.lookup_node(b"key1").is_none());
    assert_eq!(ring.node_count(), 0);
    assert_eq!(ring.token_count(), 0);
}

#[test]
fn test_add_node_and_lookup() {
    let mut ring = HashRing::new();
    let node = Node::new(NodeId(1), "node1");

    ring.add_node(node.clone(), 4);

    assert_eq!(ring.node_count(), 1);
    assert_eq!(ring.token_count(), 4);

    let result = ring.lookup(b"test-key");
    assert!(result.is_some(), "Lookup should succeed after adding node");
    assert_eq!(result.unwrap(), NodeId(1), "Should return the added node");

    let node_meta = ring.lookup_node(b"test-key");
    assert!(node_meta.is_some(), "Should return node metadata");
    assert_eq!(node_meta.unwrap().id, NodeId(1), "Should match added node");

    let retrieved = ring.get_node(&NodeId(1));
    assert!(retrieved.is_some(), "Should retrieve node by ID");
    assert_eq!(retrieved.unwrap().id, NodeId(1));
}

#[test]
fn test_remove_node() {
    let mut ring = HashRing::new();

    ring.add_node(Node::new(NodeId(1), "node1"), 4);
    ring.add_node(Node::new(NodeId(2), "node2"), 4);

    assert_eq!(ring.node_count(), 2);
    assert_eq!(ring.token_count(), 8);

    assert!(ring.remove_node(&NodeId(1)), "Should successfully remove node");

    assert_eq!(ring.node_count(), 1);
    assert_eq!(ring.token_count(), 4);

    let result = ring.lookup(b"some-key");
    assert!(result.is_some(), "Lookup should still work");
    assert_eq!(result.unwrap(), NodeId(2), "Should return remaining node");

    assert!(ring.get_node(&NodeId(1)).is_none(), "Node1 should be removed");
    assert!(ring.get_node(&NodeId(2)).is_some(), "Node2 should still exist");

    assert!(
        !ring.remove_node(&NodeId(999)),
        "Should return false for non-existent node"
    );
}

#[test]
fn test_multiple_nodes() {
    let mut ring = HashRing::new();

    ring.add_node(Node::new(NodeId(1), "node1"), 4);
    ring.add_node(Node::new(NodeId(2), "node2"), 4);
    ring.add_node(Node::new(NodeId(3), "node3"), 4);

    assert_eq!(ring.node_count(), 3);
    assert_eq!(ring.token_count(), 12);

    let key1_node = ring.lookup(b"key1");
    let key2_node = ring.lookup(b"key2");
    let key3_node = ring.lookup(b"key3");

    assert!(key1_node.is_some(), "All lookups should succeed");
    assert!(key2_node.is_some());
    assert!(key3_node.is_some());

    let node_ids: Vec<NodeId> = vec![NodeId(1), NodeId(2), NodeId(3)];
    assert!(
        node_ids.contains(&key1_node.unwrap()),
        "Key1 should map to a valid node"
    );
    assert!(
        node_ids.contains(&key2_node.unwrap()),
        "Key2 should map to a valid node"
    );
    assert!(
        node_ids.contains(&key3_node.unwrap()),
        "Key3 should map to a valid node"
    );
}

#[test]
fn test_consistent_lookup() {
    let mut ring = HashRing::new();

    ring.add_node(Node::new(NodeId(1), "node1"), 4);
    ring.add_node(Node::new(NodeId(2), "node2"), 4);

    let key = b"consistent-key";

    let node1 = ring.lookup(key);
    let node2 = ring.lookup(key);
    let node3 = ring.lookup(key);

    assert_eq!(node1, node2, "Same key should map to same node");
    assert_eq!(node2, node3, "Same key should map to same node");
}

#[test]
fn test_ring_builder_default() {
    let ring = hashring::ring::RingBuilder::new()
        .add_node(Node::new(NodeId(1), "node1"))
        .add_node(Node::new(NodeId(2), "node2"))
        .build();

    assert!(ring.lookup(b"key").is_some(), "Lookup should work");
    assert_eq!(ring.node_count(), 2, "Should have 2 nodes");
    assert_eq!(ring.token_count(), 512, "Should have 512 tokens (2 * 256)");
}

#[test]
fn test_ring_builder_custom_vnodes() {
    let ring = hashring::ring::RingBuilder::new()
        .with_vnodes(8)
        .add_node(Node::new(NodeId(1), "node1"))
        .add_node(Node::new(NodeId(2), "node2"))
        .build();

    assert!(ring.lookup(b"key").is_some());
    assert_eq!(ring.node_count(), 2);
    assert_eq!(ring.token_count(), 16);
}

#[test]
fn test_ring_builder_mixed_vnodes() {
    let ring = hashring::ring::RingBuilder::new()
        .with_vnodes(4)
        .add_node(Node::new(NodeId(1), "node1"))
        .add_node_with_vnodes(Node::new(NodeId(2), "node2"), 8)
        .build();

    assert_eq!(ring.node_count(), 2);
    assert_eq!(ring.token_count(), 12);
}

#[test]
fn test_single_node() {
    let mut ring = HashRing::new();
    ring.add_node(Node::new(NodeId(1), "node1"), 4);

    for key in [b"key1" as &[u8], b"key2", b"key3", b"very-long-key-name"] {
        let node_id = ring.lookup(key);
        assert_eq!(node_id, Some(NodeId(1)), "All keys should map to single node");
    }
}

#[test]
fn test_add_remove_add() {
    let mut ring = HashRing::new();

    ring.add_node(Node::new(NodeId(1), "node1"), 4);
    assert_eq!(ring.node_count(), 1);

    assert!(ring.remove_node(&NodeId(1)));
    assert_eq!(ring.node_count(), 0);

    ring.add_node(Node::new(NodeId(1), "node1"), 4);
    assert_eq!(ring.node_count(), 1);
    assert!(ring.lookup(b"key").is_some());
}

#[test]
fn test_idempotent_add() {
    let mut ring = HashRing::new();

    let node = Node::new(NodeId(1), "node1");
    ring.add_node(node.clone(), 4);
    assert_eq!(ring.token_count(), 4);

    ring.add_node(node, 4);
    assert_eq!(ring.token_count(), 8);
    assert_eq!(ring.node_count(), 1);
}

#[test]
fn test_get_all_nodes() {
    let mut ring = HashRing::new();

    ring.add_node(Node::new(NodeId(1), "node1"), 4);
    ring.add_node(Node::new(NodeId(2), "node2"), 4);

    let nodes = ring.nodes();
    assert_eq!(nodes.len(), 2);

    let node_ids: Vec<NodeId> = nodes.iter().map(|n| n.id).collect();
    assert!(node_ids.contains(&NodeId(1)));
    assert!(node_ids.contains(&NodeId(2)));
}

#[test]
fn test_get_all_tokens() {
    let mut ring = HashRing::new();

    ring.add_node(Node::new(NodeId(1), "node1"), 4);

    let tokens = ring.tokens();
    assert_eq!(tokens.len(), 4, "Should have 4 tokens");

    for (_, node_id) in tokens {
        assert_eq!(node_id, NodeId(1), "All tokens should map to node1");
    }
}

#[test]
fn test_partitioner_name() {
    let ring = HashRing::new();
    assert_eq!(ring.partitioner_name(), "Murmur3Partitioner");
}

#[test]
fn test_lookup_matches_clockwise_rule() {
    // The lookup result must equal an independent application of the
    // clockwise rule to the sorted token list, wraparound included.
    let mut ring = HashRing::new();
    ring.add_node(Node::new(NodeId(1), "node1"), 3);
    ring.add_node(Node::new(NodeId(2), "node2"), 3);
    ring.add_node(Node::new(NodeId(3), "node3"), 3);

    let tokens = ring.tokens();
    for i in 0..200u32 {
        let key = format!("probe-key-{}", i);
        let t = Murmur3Token::from_key(&key);
        let expected = tokens
            .iter()
            .find(|(tok, _)| tok.0 >= t.0)
            .map(|(_, id)| *id)
            .unwrap_or(tokens[0].1);
        assert_eq!(ring.lookup(key.as_bytes()), Some(expected));
    }
}

#[test]
fn test_wraparound_to_smallest_token() {
    // A key hashing strictly past the largest stored token must resolve to
    // the owner of the smallest stored token.
    let mut ring = HashRing::new();
    ring.add_node(Node::new(NodeId(1), "node1"), 2);
    ring.add_node(Node::new(NodeId(2), "node2"), 2);

    let tokens = ring.tokens();
    let max_token = tokens[tokens.len() - 1].0;
    let smallest_owner = tokens[0].1;

    let mut wrapped = 0u32;
    for i in 0..10000u32 {
        let key = format!("wrap-key-{}", i);
        if Murmur3Token::from_key(&key).0 > max_token.0 {
            wrapped += 1;
            assert_eq!(ring.lookup(key.as_bytes()), Some(smallest_owner));
        }
    }
    assert!(wrapped > 0, "Some key should hash past the largest token");
}

#[test]
fn test_re_add_updates_metadata() {
    // Re-adding an id overwrites the metadata while appending vnodes.
    let mut ring = HashRing::new();
    ring.add_node(Node::new(NodeId(7), "old-name"), 3);
    ring.add_node(Node::new(NodeId(7), "new-name"), 3);

    assert_eq!(ring.node_count(), 1);
    assert_eq!(ring.token_count(), 6);
    assert_eq!(ring.get_node(&NodeId(7)).unwrap().name, "new-name");
}

#[test]
fn test_three_node_scenario() {
    // Three nodes, four vnodes each: counts, lookup membership, and the
    // effect of removing one node.
    let mut ring = HashRing::new();
    ring.add_node(Node::new(NodeId(1), "node1"), 4);
    ring.add_node(Node::new(NodeId(2), "node2"), 4);
    ring.add_node(Node::new(NodeId(3), "node3"), 4);

    assert_eq!(ring.node_count(), 3);
    assert_eq!(ring.token_count(), 12);

    let owner = ring.lookup(b"test-key").unwrap();
    assert!(owner == NodeId(1) || owner == NodeId(2) || owner == NodeId(3));

    assert!(ring.remove_node(&NodeId(2)));
    assert_eq!(ring.token_count(), 8);
    assert_eq!(ring.node_count(), 2);

    for i in 0..100u32 {
        let key = format!("after-removal-{}", i);
        let id = ring.lookup(key.as_bytes()).unwrap();
        assert_ne!(id, NodeId(2), "No lookup may return the removed node");
    }
}

#[test]
fn test_single_node_many_keys() {
    // With a single registered node every distinct key maps to it.
    let mut ring = HashRing::new();
    ring.add_node(Node::new(NodeId(42), "only"), 4);

    for i in 0..100u32 {
        let key = format!("any-key-{}", i);
        assert_eq!(ring.lookup(key.as_bytes()), Some(NodeId(42)));
    }
}

#[test]
fn test_idempotent_remove_leaves_counts() {
    // Removing an absent id reports false and changes nothing.
    let mut ring = HashRing::new();
    ring.add_node(Node::new(NodeId(1), "node1"), 4);
    let tokens_before = ring.token_count();
    let nodes_before = ring.node_count();

    assert!(!ring.remove_node(&NodeId(9)));
    assert_eq!(ring.token_count(), tokens_before);
    assert_eq!(ring.node_count(), nodes_before);

    assert!(ring.remove_node(&NodeId(1)));
    assert!(!ring.remove_node(&NodeId(1)), "Second removal is a no-op");
    assert_eq!(ring.token_count(), 0);
    assert_eq!(ring.node_count(), 0);
}

#[test]
fn test_tokens_sorted() {
    let mut ring = HashRing::new();
    ring.add_node(Node::new(NodeId(1), "node1"), 8);
    ring.add_node(Node::new(NodeId(2), "node2"), 8);

    let tokens = ring.tokens();
    for w in tokens.windows(2) {
        assert!(w[0].0 .0 < w[1].0 .0, "Token list must be strictly sorted");
    }
}

#[test]
fn test_lookup_node_optimized_agrees() {
    let mut ring = HashRing::new();
    ring.add_node(Node::new(NodeId(1), "node1"), 4);
    ring.add_node(Node::new(NodeId(2), "node2"), 4);

    for i in 0..50u32 {
        let key = format!("combined-{}", i);
        let two_step = ring.lookup_node(key.as_bytes()).unwrap();
        let one_pass = ring.lookup_node_optimized(key.as_bytes()).unwrap();
        assert_eq!(two_step.id, one_pass.id);
        assert_eq!(two_step.name, one_pass.name);
    }
    assert!(HashRing::new().lookup_node_optimized(b"k").is_none());
}
