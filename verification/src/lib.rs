//! Consistent-hashing ring with virtual nodes.
//!
//! The crate assigns keys to a dynamic set of cluster nodes by hashing each
//! key to a position (a token) on a cyclic, totally ordered token space and
//! routing it to the first node found clockwise from that position.  Each
//! physical node owns several positions (virtual nodes) so that membership
//! changes move only a small share of the keys.
//!
//! The main pieces, from the bottom up:
//! - [`token`]: token value types, one per partitioning strategy;
//! - [`partitioner`]: strategies that hash raw key bytes into tokens;
//! - [`node`]: node identifiers and node metadata;
//! - [`vnode`]: a single ring position owned by one node;
//! - [`ring`]: the token index and node registry with clockwise lookup;
//! - [`topology`]: read-only ownership analysis over a ring;
//! - [`strategy`]: replica placement derived from the clockwise rule.

pub mod digits;
pub mod error;
pub mod hashing;
pub mod node;
pub mod partitioner;
pub mod position;
pub mod ring;
pub mod strategy;
pub mod token;
pub mod topology;
pub mod vnode;

pub use error::Error;
pub use token::{ByteOrderedToken, Murmur3Token, RandomToken};
pub use node::{Node, NodeId};
pub use partitioner::{ByteOrderedPartitioner, Murmur3Partitioner, Partitioner, RandomPartitioner};
pub use position::Position;
pub use ring::{HashRing, NodeEntry, RingBuilder};
pub use strategy::{ReplicationStrategy, SimpleStrategy};
pub use topology::Topology;
pub use vnode::VirtualNode;
pub use token::Token;
