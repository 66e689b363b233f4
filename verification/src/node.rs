//! Node identifiers and node metadata.
//!
//! A node is a logical cluster participant.  It is identified by a compact
//! 128-bit [`NodeId`], cheap to compare and copy; the remaining fields are
//! descriptive metadata with no runtime state.

use vstd::prelude::*;

verus! {

/// Compact identifier for a node in the cluster.
///
/// Newtype over `u128`: comparisons and hashing stay fast while the space is
/// large enough for uniqueness.  Order and equality are those of the integer.
#[derive(Copy, Clone, PartialEq, Eq, Structural, PartialOrd, Hash, Debug)]
pub struct NodeId(pub u128);

/// Logical node participating in the ring.
///
/// Kept small and cheap to clone; heavy mutable state (connections, metrics)
/// belongs elsewhere.  The ring stores an owned copy keyed by [`NodeId`];
/// re-registering the same id overwrites these metadata fields in place.
#[derive(Debug)]
pub struct Node {
    pub id: NodeId,
    /// Human-readable name or hostname.
    pub name: String,
    /// Optional data center label for topology-aware replication.
    pub datacenter: Option<String>,
    /// Optional rack label for rack-aware replication.
    pub rack: Option<String>,
}

/// The character sequence carried by an optional borrowed string.
pub open spec fn opt_str_view(o: Option<&str>) -> Option<Seq<char>> {
    match o {
        Some(s) => Some(s@),
        None => None,
    }
}

/// The character sequence carried by an optional owned string.
pub open spec fn opt_string_view(o: Option<String>) -> Option<Seq<char>> {
    match o {
        Some(s) => Some(s@),
        None => None,
    }
}

fn clone_opt_string(o: &Option<String>) -> (r: Option<String>)
    ensures
        r == *o,
{
    match o {
        Some(s) => Some(s.clone()),
        None => None,
    }
}

impl Node {
    /// Construct a new node with basic metadata and no topology labels.
    pub fn new(id: NodeId, name: &str) -> (r: Self)
        ensures
            r.id == id,
            r.name@ == name@,
            r.datacenter is None,
            r.rack is None,
    {
        Node { id, name: name.to_owned(), datacenter: None, rack: None }
    }

    /// Construct a node together with its data center and rack labels.
    pub fn with_topology(id: NodeId, name: &str, datacenter: Option<&str>, rack: Option<&str>) -> (r:
        Self)
        ensures
            r.id == id,
            r.name@ == name@,
            opt_string_view(r.datacenter) == opt_str_view(datacenter),
            opt_string_view(r.rack) == opt_str_view(rack),
    {
        let dc: Option<String> = match datacenter {
            Some(s) => Some(s.to_owned()),
            None => None,
        };
        let rk: Option<String> = match rack {
            Some(s) => Some(s.to_owned()),
            None => None,
        };
        Node { id, name: name.to_owned(), datacenter: dc, rack: rk }
    }
}

impl Clone for Node {
    /// An exact copy: the clone equals the original value.
    fn clone(&self) -> (r: Self)
        ensures
            r == *self,
    {
        Node {
            id: self.id,
            name: self.name.clone(),
            datacenter: clone_opt_string(&self.datacenter),
            rack: clone_opt_string(&self.rack),
        }
    }
}

} // verus!
