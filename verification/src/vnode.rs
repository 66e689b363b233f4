//! Virtual nodes: single ring positions owned by one physical node.
//!
//! Each physical node is represented by several virtual nodes spread around
//! the ring, which smooths load distribution and limits data movement when
//! membership changes.  A virtual node's token is derived deterministically
//! from the owning node's id and the virtual node's index, so any process
//! reproduces the same placement without coordination.

use crate::digits::{dec_chars, hex_chars_fixed, push_dec, push_hex};
use crate::hashing::{sip13_hash, sip13_of};
use crate::node::NodeId;
use crate::token::{Murmur3Token, Token};
use vstd::prelude::*;
use vstd::string::StringExecFns;
use vstd::utf8::encode_utf8;

verus! {

/// The textual key a virtual node's token is derived from: the owning id as
/// 32 lower-case hexadecimal digits, a colon, and the index in decimal.
pub open spec fn vnode_key_chars(id: u128, index: nat) -> Seq<char> {
    hex_chars_fixed(id as nat, 32) + seq![':'] + dec_chars(index)
}

/// The ring token of virtual node `index` of node `id`: the hash of the
/// textual key's bytes.
pub open spec fn vnode_token(id: u128, index: nat) -> u64 {
    sip13_of(encode_utf8(vnode_key_chars(id, index)))
}

/// Builds the textual key of virtual node `index` of node `id`.
pub fn vnode_key(id: u128, index: usize) -> (s: String)
    ensures
        s@ == vnode_key_chars(id, index as nat),
{
    let mut s = String::new();
    push_hex(&mut s, id, 32);
    s.append(":");
    push_dec(&mut s, index);
    proof {
        reveal_strlit(":");
        assert(s@ =~= vnode_key_chars(id, index as nat));
    }
    s
}

/// A virtual node on the hash ring: one token position owned by exactly one
/// physical node.
#[derive(Debug, Clone, Copy, PartialEq, Eq, Structural, PartialOrd, Hash)]
pub struct VirtualNode {
    /// Token position on the ring.
    pub token: Murmur3Token,
    /// The physical node that owns this position; several virtual nodes may
    /// share it.
    pub node_id: NodeId,
}

impl VirtualNode {
    /// Create a virtual node from an explicit token position and owner.
    pub fn new(token: Murmur3Token, node_id: NodeId) -> (r: Self)
        ensures
            r.token == token,
            r.node_id == node_id,
    {
        VirtualNode { token, node_id }
    }

    /// Create virtual node `vnode_index` of node `node_id`, deriving the
    /// token from the textual key of the pair.
    pub fn from_index(node_id: NodeId, vnode_index: usize) -> (r: Self)
        ensures
            r.token.0 == vnode_token(node_id.0, vnode_index as nat),
            r.node_id == node_id,
    {
        let key = vnode_key(node_id.0, vnode_index);
        let token = Murmur3Token(sip13_hash(key.as_str().as_bytes()));
        VirtualNode { token, node_id }
    }

    /// The token position.
    pub fn token(&self) -> (t: Murmur3Token)
        ensures
            t == self.token,
    {
        self.token
    }

    /// The owning node's id.
    pub fn node_id(&self) -> (id: NodeId)
        ensures
            id == self.node_id,
    {
        self.node_id
    }

    /// The clockwise distance from this virtual node's position to
    /// another's.
    pub fn distance_to(&self, other: &Self) -> (d: Murmur3Token)
        ensures
            d == self.token.distance_spec(other.token),
    {
        self.token.distance_to(&other.token)
    }
}

} // verus!
