//! The hash ring: a sorted token index plus a node registry, with clockwise
//! lookup, node addition and node removal.
//!
//! The ring keeps two coupled collections.  The token index maps each token
//! to the id of the owning node and is kept strictly sorted by token value;
//! the registry stores each registered node's metadata together with the
//! number of virtual nodes handed out to it so far, so that adding a node
//! again appends fresh ring positions instead of overwriting the old ones.
//!
//! Every operation is specified against the sequence-level model defined at
//! the top of this module; the clockwise-search-with-wraparound rule
//! [`ring_lookup`] is the single governing rule that lookup, topology
//! analysis and replica placement all share.

use crate::node::{Node, NodeId};
use crate::partitioner::{Murmur3Partitioner, Partitioner};
use crate::token::Murmur3Token;
use crate::vnode::{vnode_key, vnode_token};
use crate::hashing::{sip13_hash, sip13_of};
use vstd::prelude::*;

verus! {

/// One registry slot: a node's metadata and the count of virtual nodes
/// generated for it since it was (last) registered.
#[derive(Debug, Clone)]
pub struct NodeEntry {
    /// The registered node metadata.
    pub node: Node,
    /// How many virtual-node indices have been consumed for this id.
    pub vnodes: usize,
}

// ---------------------------------------------------------------------------
// Sequence-level model of the token index
// ---------------------------------------------------------------------------

/// The token index is strictly sorted by token value: tokens are unique and
/// in increasing order.
pub open spec fn tokens_sorted(s: Seq<(Murmur3Token, NodeId)>) -> bool {
    forall|i: int, j: int| 0 <= i < j < s.len() ==> s[i].0.0 < s[j].0.0
}

/// Whether some entry of the index holds token value `t`.
pub open spec fn has_token(s: Seq<(Murmur3Token, NodeId)>, t: u64) -> bool {
    exists|i: int| 0 <= i < s.len() && s[i].0.0 == t
}

/// Whether some entry of the index is owned by `id`.
pub open spec fn has_id(s: Seq<(Murmur3Token, NodeId)>, id: NodeId) -> bool {
    exists|i: int| 0 <= i < s.len() && s[i].1 == id
}

/// The index of the first entry whose token is at or past `t`, or the
/// length of the index when every entry lies before `t`.
pub open spec fn first_ge(s: Seq<(Murmur3Token, NodeId)>, t: u64) -> int
    decreases s.len(),
{
    if s.len() == 0 {
        0
    } else if s[0].0.0 >= t {
        0
    } else {
        1 + first_ge(s.drop_first(), t)
    }
}

/// The clockwise lookup rule: the owner of token `t` is the first entry at
/// or past `t`, wrapping to the first entry of the index when `t` lies past
/// the last stored token; an empty index owns nothing.
pub open spec fn ring_lookup(s: Seq<(Murmur3Token, NodeId)>, t: u64) -> Option<NodeId> {
    if s.len() == 0 {
        None
    } else if first_ge(s, t) < s.len() {
        Some(s[first_ge(s, t)].1)
    } else {
        Some(s[0].1)
    }
}

/// Sorted insertion of token `t` owned by `id`: entries before `t` keep
/// their place, an entry carrying `t` itself is overwritten (last write
/// wins), and otherwise the new entry is spliced in front of the remainder.
pub open spec fn spec_insert(
    s: Seq<(Murmur3Token, NodeId)>,
    t: u64,
    id: NodeId,
) -> Seq<(Murmur3Token, NodeId)>
    decreases s.len(),
{
    if s.len() == 0 {
        seq![(Murmur3Token(t), id)]
    } else if s[0].0.0 < t {
        seq![s[0]] + spec_insert(s.drop_first(), t, id)
    } else if s[0].0.0 == t {
        seq![(Murmur3Token(t), id)] + s.drop_first()
    } else {
        seq![(Murmur3Token(t), id)] + s
    }
}

/// The token index after generating `count` virtual nodes for `id`,
/// starting at virtual-node index `start`: each derived token is inserted
/// in turn.
pub open spec fn spec_add_vnodes(
    s: Seq<(Murmur3Token, NodeId)>,
    id: NodeId,
    start: nat,
    count: nat,
) -> Seq<(Murmur3Token, NodeId)>
    decreases count,
{
    if count == 0 {
        s
    } else {
        spec_add_vnodes(spec_insert(s, vnode_token(id.0, start), id), id, start + 1, (count
            - 1) as nat)
    }
}

/// The token index with every entry owned by `id` removed, order kept.
pub open spec fn spec_remove_id(s: Seq<(Murmur3Token, NodeId)>, id: NodeId) -> Seq<
    (Murmur3Token, NodeId),
>
    decreases s.len(),
{
    if s.len() == 0 {
        s
    } else {
        let p = spec_remove_id(s.drop_last(), id);
        if s.last().1 == id {
            p
        } else {
            p.push(s.last())
        }
    }
}

// ---------------------------------------------------------------------------
// Sequence-level model of the node registry
// ---------------------------------------------------------------------------

/// Registry ids are unique: no node is registered twice.
pub open spec fn reg_ids_unique(r: Seq<NodeEntry>) -> bool {
    forall|i: int, j: int| 0 <= i < j < r.len() ==> r[i].node.id != r[j].node.id
}

/// Whether `id` is registered.
pub open spec fn reg_contains(r: Seq<NodeEntry>, id: NodeId) -> bool {
    exists|i: int| 0 <= i < r.len() && r[i].node.id == id
}

/// The index of the first registry slot for `id`, or the registry's length
/// when `id` is absent.
pub open spec fn reg_index_of(r: Seq<NodeEntry>, id: NodeId) -> int
    decreases r.len(),
{
    if r.len() == 0 {
        0
    } else if r[0].node.id == id {
        0
    } else {
        1 + reg_index_of(r.drop_first(), id)
    }
}

/// The metadata registered for `id`, if any.
pub open spec fn spec_get_node(r: Seq<NodeEntry>, id: NodeId) -> Option<Node> {
    if reg_index_of(r, id) < r.len() {
        Some(r[reg_index_of(r, id)].node)
    } else {
        None
    }
}

/// How many virtual-node indices have been consumed for `id`; zero when the
/// id is not registered.
pub open spec fn reg_vnodes(r: Seq<NodeEntry>, id: NodeId) -> nat {
    if reg_index_of(r, id) < r.len() {
        r[reg_index_of(r, id)].vnodes as nat
    } else {
        0
    }
}

/// The registry after registering `node` with `v` additional virtual nodes:
/// an existing slot for the id has its metadata overwritten and its count
/// raised; a new id is appended.
pub open spec fn spec_reg_add(r: Seq<NodeEntry>, node: Node, v: usize) -> Seq<NodeEntry> {
    let k = reg_index_of(r, node.id);
    if k < r.len() {
        r.update(k, NodeEntry { node, vnodes: (r[k].vnodes + v) as usize })
    } else {
        r.push(NodeEntry { node, vnodes: v })
    }
}

/// The registry with the slot for `id` deleted, order kept; unchanged when
/// the id is absent.
pub open spec fn spec_reg_remove(r: Seq<NodeEntry>, id: NodeId) -> Seq<NodeEntry> {
    let k = reg_index_of(r, id);
    if k < r.len() {
        r.remove(k)
    } else {
        r
    }
}

// ---------------------------------------------------------------------------
// Lemmas about the model
// ---------------------------------------------------------------------------

/// `first_ge` is the boundary between the strict prefix below `t` and the
/// rest of the index.
pub proof fn lemma_first_ge_bounds(s: Seq<(Murmur3Token, NodeId)>, t: u64)
    ensures
        0 <= first_ge(s, t) <= s.len(),
        forall|i: int| 0 <= i < first_ge(s, t) ==> s[i].0.0 < t,
        first_ge(s, t) < s.len() ==> s[first_ge(s, t)].0.0 >= t,
    decreases s.len(),
{
    if s.len() != 0 && s[0].0.0 < t {
        lemma_first_ge_bounds(s.drop_first(), t);
        assert forall|i: int| 0 <= i < first_ge(s, t) implies s[i].0.0 < t by {
            if i > 0 {
                assert(s.drop_first()[i - 1] == s[i]);
            }
        }
    }
}

/// Any index with `first_ge`'s defining properties is `first_ge`.
pub proof fn lemma_first_ge_unique(s: Seq<(Murmur3Token, NodeId)>, t: u64, k: int)
    requires
        0 <= k <= s.len(),
        forall|i: int| 0 <= i < k ==> s[i].0.0 < t,
        k < s.len() ==> s[k].0.0 >= t,
    ensures
        k == first_ge(s, t),
{
    lemma_first_ge_bounds(s, t);
    let fg = first_ge(s, t);
    if k < fg {
        assert(s[k].0.0 < t);
    } else if fg < k {
        assert(s[fg].0.0 < t);
    }
}

/// `reg_index_of` finds the first slot of `id`, and nothing before it
/// carries `id`.
pub proof fn lemma_reg_index_of_bounds(r: Seq<NodeEntry>, id: NodeId)
    ensures
        0 <= reg_index_of(r, id) <= r.len(),
        forall|i: int| 0 <= i < reg_index_of(r, id) ==> r[i].node.id != id,
        reg_index_of(r, id) < r.len() ==> r[reg_index_of(r, id)].node.id == id,
        (reg_index_of(r, id) < r.len()) == reg_contains(r, id),
    decreases r.len(),
{
    if r.len() != 0 && r[0].node.id != id {
        lemma_reg_index_of_bounds(r.drop_first(), id);
        assert forall|i: int| 0 <= i < reg_index_of(r, id) implies r[i].node.id != id by {
            if i > 0 {
                assert(r.drop_first()[i - 1] == r[i]);
            }
        }
        if reg_index_of(r.drop_first(), id) < r.drop_first().len() {
            assert(r[reg_index_of(r, id)].node.id == id);
        } else {
            assert forall|i: int| 0 <= i < r.len() implies r[i].node.id != id by {
                if i > 0 {
                    assert(r.drop_first()[i - 1] == r[i]);
                }
            }
        }
    } else if r.len() != 0 {
        assert(reg_contains(r, id));
    }
}

// ---------------------------------------------------------------------------
// The ring
// ---------------------------------------------------------------------------

/// A consistent-hash ring bound to the default hash-based partitioner.
///
/// The ring owns its state; callers that share one ring across threads wrap
/// it in a shared-ownership handle with a reader/writer lock, taking a read
/// acquisition for the query surface and an exclusive acquisition for
/// `add_node` / `remove_node`.
pub struct HashRing {
    partitioner: Murmur3Partitioner,
    entries: Vec<(Murmur3Token, NodeId)>,
    registry: Vec<NodeEntry>,
}

impl HashRing {
    /// The token index, sorted by token value.
    pub closed spec fn spec_tokens(self) -> Seq<(Murmur3Token, NodeId)> {
        self.entries@
    }

    /// The node registry, in registration order.
    pub closed spec fn spec_registry(self) -> Seq<NodeEntry> {
        self.registry@
    }

    /// Well-formedness: the token index is strictly sorted, registry ids
    /// are unique, and every token's owner is registered.
    pub open spec fn wf(self) -> bool {
        &&& tokens_sorted(self.spec_tokens())
        &&& reg_ids_unique(self.spec_registry())
        &&& forall|i: int|
            0 <= i < self.spec_tokens().len() ==> reg_contains(
                self.spec_registry(),
                self.spec_tokens()[i].1,
            )
    }

    /// Create a new, empty ring with the default hash-based partitioner.
    pub fn new() -> (r: Self)
        ensures
            r.wf(),
            r.spec_tokens() == Seq::<(Murmur3Token, NodeId)>::empty(),
            r.spec_registry() == Seq::<NodeEntry>::empty(),
    {
        HashRing { partitioner: Murmur3Partitioner, entries: Vec::new(), registry: Vec::new() }
    }

    /// Create an empty ring with the given partitioner value.
    pub fn with_partitioner(partitioner: Murmur3Partitioner) -> (r: Self)
        ensures
            r.wf(),
            r.spec_tokens() == Seq::<(Murmur3Token, NodeId)>::empty(),
            r.spec_registry() == Seq::<NodeEntry>::empty(),
    {
        HashRing { partitioner, entries: Vec::new(), registry: Vec::new() }
    }

    /// The number of tokens (virtual nodes) stored in the ring.
    pub fn token_count(&self) -> (n: usize)
        ensures
            n == self.spec_tokens().len(),
    {
        self.entries.len()
    }

    /// The number of physical nodes registered in the ring.
    pub fn node_count(&self) -> (n: usize)
        ensures
            n == self.spec_registry().len(),
    {
        self.registry.len()
    }

    /// All tokens of the ring with their owners, sorted by token value.
    pub fn tokens(&self) -> (r: Vec<(Murmur3Token, NodeId)>)
        ensures
            r@ == self.spec_tokens(),
    {
        let mut out: Vec<(Murmur3Token, NodeId)> = Vec::new();
        let mut i: usize = 0;
        while i < self.entries.len()
            invariant
                i <= self.entries@.len(),
                out@ == self.entries@.take(i as int),
            decreases self.entries@.len() - i,
        {
            out.push(self.entries[i]);
            proof {
                assert(self.entries@.take(i + 1 as int) =~= self.entries@.take(i as int).push(
                    self.entries@[i as int],
                ));
            }
            i = i + 1;
        }
        proof {
            assert(self.entries@.take(self.entries@.len() as int) =~= self.entries@);
        }
        out
    }

    /// All registered nodes, in registration order.
    pub fn nodes(&self) -> (r: Vec<Node>)
        ensures
            r@.len() == self.spec_registry().len(),
            forall|i: int| 0 <= i < r@.len() ==> r@[i] == self.spec_registry()[i].node,
    {
        let mut out: Vec<Node> = Vec::new();
        let mut i: usize = 0;
        while i < self.registry.len()
            invariant
                i <= self.registry@.len(),
                out@.len() == i,
                forall|j: int| 0 <= j < i ==> out@[j] == self.registry@[j].node,
            decreases self.registry@.len() - i,
        {
            out.push(self.registry[i].node.clone());
            i = i + 1;
        }
        out
    }

    /// The metadata registered for `node_id`, if that node is present.
    pub fn get_node(&self, node_id: &NodeId) -> (r: Option<Node>)
        ensures
            r == spec_get_node(self.spec_registry(), *node_id),
    {
        proof {
            lemma_reg_index_of_bounds(self.registry@, *node_id);
        }
        match reg_find(&self.registry, *node_id) {
            Some(k) => Some(self.registry[k].node.clone()),
            None => None,
        }
    }

    /// The name of the ring's partitioner.
    pub fn partitioner_name(&self) -> (r: &'static str)
        ensures
            r@ == "Murmur3Partitioner"@,
    {
        self.partitioner.name()
    }
}

/// Binary search for `first_ge`: the index of the first entry at or past
/// `t` in a sorted token index.
fn lower_bound(entries: &Vec<(Murmur3Token, NodeId)>, t: u64) -> (p: usize)
    requires
        tokens_sorted(entries@),
    ensures
        p as int == first_ge(entries@, t),
{
    let mut lo: usize = 0;
    let mut hi: usize = entries.len();
    while lo < hi
        invariant
            lo <= hi <= entries@.len(),
            tokens_sorted(entries@),
            forall|i: int| 0 <= i < lo ==> entries@[i].0.0 < t,
            forall|i: int| hi <= i < entries@.len() ==> entries@[i].0.0 >= t,
        decreases hi - lo,
    {
        let mid = lo + (hi - lo) / 2;
        if entries[mid].0.0 < t {
            lo = mid + 1;
        } else {
            hi = mid;
        }
    }
    proof {
        lemma_first_ge_unique(entries@, t, lo as int);
    }
    lo
}

impl HashRing {
    /// Look up the node responsible for a key: hash the key to a token and
    /// apply the clockwise rule.  Returns nothing exactly when the ring
    /// holds no tokens.  The result is a pure function of the ring state
    /// and the key, so repeated lookups of one key on an unchanged ring
    /// return the same owner.
    pub fn lookup(&self, key: &[u8]) -> (r: Option<NodeId>)
        requires
            self.wf(),
        ensures
            r == ring_lookup(self.spec_tokens(), sip13_of(key@)),
            r is Some <==> self.spec_tokens().len() > 0,
    {
        let token = self.partitioner.partition(key);
        if self.entries.len() == 0 {
            return None;
        }
        let p = lower_bound(&self.entries, token.0);
        if p < self.entries.len() {
            Some(self.entries[p].1)
        } else {
            Some(self.entries[0].1)
        }
    }

    /// Look up the node responsible for a key and resolve its full
    /// metadata.  Returns nothing exactly when the ring holds no tokens.
    pub fn lookup_node(&self, key: &[u8]) -> (r: Option<Node>)
        requires
            self.wf(),
        ensures
            match ring_lookup(self.spec_tokens(), sip13_of(key@)) {
                Some(id) => r == spec_get_node(self.spec_registry(), id),
                None => r is None,
            },
            r is Some <==> self.spec_tokens().len() > 0,
    {
        match self.lookup(key) {
            Some(id) => {
                proof {
                    let s = self.spec_tokens();
                    let t = sip13_of(key@);
                    lemma_first_ge_bounds(s, t);
                    let k = if first_ge(s, t) < s.len() {
                        first_ge(s, t)
                    } else {
                        0
                    };
                    assert(reg_contains(self.spec_registry(), s[k].1));
                    lemma_reg_index_of_bounds(self.spec_registry(), s[k].1);
                }
                self.get_node(&id)
            },
            None => None,
        }
    }

    /// Same result as [`HashRing::lookup_node`].  The ring is a
    /// single-owner value, so both forms observe one consistent state and
    /// this method simply delegates.
    pub fn lookup_node_optimized(&self, key: &[u8]) -> (r: Option<Node>)
        requires
            self.wf(),
        ensures
            match ring_lookup(self.spec_tokens(), sip13_of(key@)) {
                Some(id) => r == spec_get_node(self.spec_registry(), id),
                None => r is None,
            },
            r is Some <==> self.spec_tokens().len() > 0,
    {
        self.lookup_node(key)
    }
}

/// Any slot index carrying `id` with no earlier slot of `id` is
/// `reg_index_of`.
pub proof fn lemma_reg_index_of_unique(r: Seq<NodeEntry>, id: NodeId, k: int)
    requires
        0 <= k < r.len(),
        forall|i: int| 0 <= i < k ==> r[i].node.id != id,
        r[k].node.id == id,
    ensures
        k == reg_index_of(r, id),
{
    lemma_reg_index_of_bounds(r, id);
    let g = reg_index_of(r, id);
    if k < g {
        assert(r[k].node.id != id);
    } else if g < k {
        assert(r[g].node.id != id);
    }
}


/// The shape of a sorted insertion: it overwrites the entry at `first_ge`
/// when that entry already carries `t`, and splices a new entry in at
/// `first_ge` otherwise.
pub proof fn lemma_insert_shape(s: Seq<(Murmur3Token, NodeId)>, t: u64, id: NodeId)
    ensures
        first_ge(s, t) < s.len() && s[first_ge(s, t)].0.0 == t ==> spec_insert(s, t, id) =~= s.update(
            first_ge(s, t),
            (Murmur3Token(t), id),
        ),
        !(first_ge(s, t) < s.len() && s[first_ge(s, t)].0.0 == t) ==> spec_insert(s, t, id) =~= s.insert(
            first_ge(s, t),
            (Murmur3Token(t), id),
        ),
    decreases s.len(),
{
    lemma_first_ge_bounds(s, t);
    if s.len() == 0 {
    } else if s[0].0.0 < t {
        lemma_insert_shape(s.drop_first(), t, id);
        lemma_first_ge_bounds(s.drop_first(), t);
    } else {
    }
}

/// A sorted insertion keeps the index strictly sorted.
pub proof fn lemma_insert_sorted(s: Seq<(Murmur3Token, NodeId)>, t: u64, id: NodeId)
    requires
        tokens_sorted(s),
    ensures
        tokens_sorted(spec_insert(s, t, id)),
{
    lemma_insert_shape(s, t, id);
    lemma_first_ge_bounds(s, t);
    let fg = first_ge(s, t);
    let n = spec_insert(s, t, id);
    if fg < s.len() && s[fg].0.0 == t {
        assert forall|i: int, j: int| 0 <= i < j < n.len() implies n[i].0.0 < n[j].0.0 by {
            assert(n[i].0.0 == s[i].0.0);
            assert(n[j].0.0 == s[j].0.0);
        }
    } else {
        assert forall|i: int, j: int| 0 <= i < j < n.len() implies n[i].0.0 < n[j].0.0 by {
            if i < fg {
                assert(n[i] == s[i]);
                assert(s[i].0.0 < t);
            }
            if j > fg {
                assert(n[j] == s[j - 1]);
                assert(s[j - 1].0.0 >= t);
                if s[j - 1].0.0 == t {
                    lemma_first_ge_unique(s, t, j - 1);
                }
            }
        }
    }
}

/// Every entry of a sorted insertion is the inserted entry or one of the
/// original entries.
pub proof fn lemma_insert_members(s: Seq<(Murmur3Token, NodeId)>, t: u64, id: NodeId)
    ensures
        forall|j: int|
            0 <= j < spec_insert(s, t, id).len() ==> spec_insert(s, t, id)[j] == (
                Murmur3Token(t),
                id,
            ) || s.contains(spec_insert(s, t, id)[j]),
{
    lemma_insert_shape(s, t, id);
    lemma_first_ge_bounds(s, t);
    let fg = first_ge(s, t);
    let n = spec_insert(s, t, id);
    if fg < s.len() && s[fg].0.0 == t {
        assert forall|j: int|
            0 <= j < n.len() implies n[j] == (Murmur3Token(t), id) || s.contains(n[j]) by {
            if j != fg {
                assert(n[j] == s[j]);
            }
        }
    } else {
        assert forall|j: int|
            0 <= j < n.len() implies n[j] == (Murmur3Token(t), id) || s.contains(n[j]) by {
            if j < fg {
                assert(n[j] == s[j]);
            } else if j > fg {
                assert(n[j] == s[j - 1]);
            }
        }
    }
}

/// A sorted insertion of a token grows the index exactly when the token is
/// new.
pub proof fn lemma_insert_len(s: Seq<(Murmur3Token, NodeId)>, t: u64, id: NodeId)
    requires
        tokens_sorted(s),
    ensures
        has_token(s, t) ==> spec_insert(s, t, id).len() == s.len(),
        !has_token(s, t) ==> spec_insert(s, t, id).len() == s.len() + 1,
{
    lemma_insert_shape(s, t, id);
    lemma_first_ge_bounds(s, t);
    let fg = first_ge(s, t);
    if fg < s.len() && s[fg].0.0 == t {
        assert(has_token(s, t));
    } else {
        if has_token(s, t) {
            let i = choose|i: int| 0 <= i < s.len() && s[i].0.0 == t;
            lemma_first_ge_unique(s, t, i);
        }
    }
}

/// Generating one more virtual node inserts the next derived token into the
/// index built so far.
pub proof fn lemma_add_vnodes_snoc(s: Seq<(Murmur3Token, NodeId)>, id: NodeId, start: nat, i: nat)
    ensures
        spec_add_vnodes(s, id, start, i + 1) == spec_insert(
            spec_add_vnodes(s, id, start, i),
            vnode_token(id.0, start + i),
            id,
        ),
    decreases i,
{
    if i == 0 {
        assert(spec_add_vnodes(s, id, start, 1) == spec_add_vnodes(
            spec_insert(s, vnode_token(id.0, start), id),
            id,
            start + 1,
            0,
        ));
    } else {
        let s1 = spec_insert(s, vnode_token(id.0, start), id);
        lemma_add_vnodes_snoc(s1, id, start + 1, (i - 1) as nat);
        assert(start + 1 + (i - 1) == start + i);
    }
}

/// Sorted insertion, implemented by binary search for the insertion point.
fn insert_entry(entries: &mut Vec<(Murmur3Token, NodeId)>, t: u64, id: NodeId)
    requires
        tokens_sorted(old(entries)@),
    ensures
        final(entries)@ == spec_insert(old(entries)@, t, id),
        tokens_sorted(final(entries)@),
{
    proof {
        lemma_insert_shape(old(entries)@, t, id);
        lemma_insert_sorted(old(entries)@, t, id);
        lemma_first_ge_bounds(old(entries)@, t);
    }
    let p = lower_bound(entries, t);
    if p < entries.len() && entries[p].0.0 == t {
        entries[p] = (Murmur3Token(t), id);
        proof {
            assert(entries@ =~= old(entries)@.update(p as int, (Murmur3Token(t), id)));
        }
    } else {
        entries.insert(p, (Murmur3Token(t), id));
    }
}

/// Linear search for the registry slot of `id`.
fn reg_find(registry: &Vec<NodeEntry>, id: NodeId) -> (r: Option<usize>)
    ensures
        match r {
            Some(k) => k as int == reg_index_of(registry@, id) && (k as int) < registry@.len(),
            None => !reg_contains(registry@, id) && reg_index_of(registry@, id)
                == registry@.len(),
        },
{
    proof {
        lemma_reg_index_of_bounds(registry@, id);
    }
    let mut k: usize = 0;
    while k < registry.len()
        invariant
            k <= registry@.len(),
            forall|j: int| 0 <= j < k ==> registry@[j].node.id != id,
        decreases registry@.len() - k,
    {
        if registry[k].node.id == id {
            proof {
                lemma_reg_index_of_unique(registry@, id, k as int);
            }
            return Some(k);
        }
        k = k + 1;
    }
    None
}

impl HashRing {
    /// Register `node`'s metadata and insert `vnodes` freshly derived ring
    /// positions for it.
    ///
    /// Re-adding an already registered id overwrites its metadata and
    /// appends further virtual nodes (the previously added ones stay); a
    /// derived token that collides with a stored one overwrites that entry,
    /// last write wins.
    pub fn add_node(&mut self, node: Node, vnodes: usize)
        requires
            old(self).wf(),
            reg_vnodes(old(self).spec_registry(), node.id) + vnodes <= usize::MAX,
        ensures
            final(self).wf(),
            final(self).spec_registry() == spec_reg_add(old(self).spec_registry(), node, vnodes),
            final(self).spec_tokens() == spec_add_vnodes(
                old(self).spec_tokens(),
                node.id,
                reg_vnodes(old(self).spec_registry(), node.id),
                vnodes as nat,
            ),
    {
        let id = node.id;
        let ghost r0 = old(self).spec_registry();
        let ghost s0 = old(self).spec_tokens();
        proof {
            lemma_reg_index_of_bounds(r0, id);
        }
        // Register or update the node's metadata, remembering how many
        // virtual-node indices were consumed for this id before.
        let start: usize = match reg_find(&self.registry, id) {
            Some(k) => {
                let prev = self.registry[k].vnodes;
                let updated = NodeEntry { node, vnodes: prev + vnodes };
                self.registry[k] = updated;
                proof {
                    assert(self.registry@ =~= spec_reg_add(r0, node, vnodes));
                }
                prev
            },
            None => {
                self.registry.push(NodeEntry { node, vnodes });
                proof {
                    assert(self.registry@ =~= spec_reg_add(r0, node, vnodes));
                }
                0
            },
        };
        proof {
            // The updated registry still has unique ids and contains every
            // id it contained before, plus `id`.
            let r1 = self.registry@;
            let k0 = reg_index_of(r0, id);
            assert(reg_ids_unique(r1)) by {
                assert forall|i: int, j: int|
                    0 <= i < j < r1.len() implies r1[i].node.id != r1[j].node.id by {
                    assert(r1[i].node.id == r0[i].node.id || (i == k0 && r1[i].node.id == id));
                    assert(r1[j].node.id == r0[j].node.id || (j == k0 && r1[j].node.id == id));
                }
            }
            assert forall|nid: NodeId|
                reg_contains(r0, nid) || nid == id implies reg_contains(r1, nid) by {
                if nid == id {
                    assert(r1[k0].node.id == id);
                } else {
                    let j = choose|j: int| 0 <= j < r0.len() && r0[j].node.id == nid;
                    assert(r1[j].node.id == nid);
                }
            }
        }
        // Derive and insert the fresh ring positions.
        let ghost reg1 = self.registry@;
        let mut i: usize = 0;
        while i < vnodes
            invariant
                i <= vnodes,
                start + vnodes <= usize::MAX,
                self.registry@ == reg1,
                self.entries@ == spec_add_vnodes(s0, id, start as nat, i as nat),
                tokens_sorted(self.entries@),
                forall|nid: NodeId|
                    reg_contains(r0, nid) || nid == id ==> reg_contains(reg1, nid),
                forall|j: int|
                    0 <= j < self.entries@.len() ==> self.entries@[j].1 == id || s0.contains(
                        self.entries@[j],
                    ),
            decreases vnodes - i,
        {
            let key = vnode_key(id.0, start + i);
            let t = sip13_hash(key.as_str().as_bytes());
            let ghost before = self.entries@;
            proof {
                assert(t == vnode_token(id.0, (start + i) as nat));
                lemma_insert_members(before, t, id);
            }
            insert_entry(&mut self.entries, t, id);
            proof {
                lemma_add_vnodes_snoc(s0, id, start as nat, i as nat);
                assert forall|j: int|
                    0 <= j < self.entries@.len() implies self.entries@[j].1 == id || s0.contains(
                        self.entries@[j],
                    ) by {
                    if self.entries@[j] != (Murmur3Token(t), id) {
                        assert(before.contains(self.entries@[j]));
                        let m = choose|m: int|
                            0 <= m < before.len() && before[m] == self.entries@[j];
                        assert(before[m].1 == id || s0.contains(before[m]));
                    }
                }
            }
            i = i + 1;
        }
        proof {
            // Every token owner is registered.
            assert forall|j: int|
                0 <= j < self.spec_tokens().len() implies reg_contains(
                    self.spec_registry(),
                    self.spec_tokens()[j].1,
                ) by {
                if self.spec_tokens()[j].1 != id {
                    let m = choose|m: int| 0 <= m < s0.len() && s0[m] == self.spec_tokens()[j];
                    assert(reg_contains(r0, s0[m].1));
                }
            }
        }
    }
}


/// One step of the removal recursion along a growing prefix.
pub proof fn lemma_remove_take_step(s: Seq<(Murmur3Token, NodeId)>, id: NodeId, i: int)
    requires
        0 <= i < s.len(),
    ensures
        spec_remove_id(s.take(i + 1), id) == if s[i].1 == id {
            spec_remove_id(s.take(i), id)
        } else {
            spec_remove_id(s.take(i), id).push(s[i])
        },
{
    let u = s.take(i + 1);
    assert(u.drop_last() =~= s.take(i));
    assert(u.last() == s[i]);
}

/// What removal keeps: no entry of the removed id survives, every surviving
/// entry is an original one, every original entry of another id survives,
/// and sortedness is preserved.
pub proof fn lemma_remove_id_props(s: Seq<(Murmur3Token, NodeId)>, id: NodeId)
    requires
        tokens_sorted(s),
    ensures
        forall|j: int|
            0 <= j < spec_remove_id(s, id).len() ==> spec_remove_id(s, id)[j].1 != id
                && s.contains(spec_remove_id(s, id)[j]),
        forall|i: int|
            0 <= i < s.len() && s[i].1 != id ==> spec_remove_id(s, id).contains(s[i]),
        tokens_sorted(spec_remove_id(s, id)),
    decreases s.len(),
{
    let res = spec_remove_id(s, id);
    if s.len() == 0 {
    } else {
        let d = s.drop_last();
        assert(tokens_sorted(d)) by {
            assert forall|i: int, j: int| 0 <= i < j < d.len() implies d[i].0.0 < d[j].0.0 by {
                assert(d[i] == s[i]);
                assert(d[j] == s[j]);
            }
        }
        lemma_remove_id_props(d, id);
        let p = spec_remove_id(d, id);
        // Lift membership in the shorter sequence to membership in `s`.
        assert forall|j: int| 0 <= j < p.len() implies s.contains(p[j]) by {
            assert(d.contains(p[j]));
            let m = choose|m: int| 0 <= m < d.len() && d[m] == p[j];
            assert(s[m] == p[j]);
        }
        if s.last().1 == id {
            assert(res == p);
            assert forall|i: int|
                0 <= i < s.len() && s[i].1 != id implies res.contains(s[i]) by {
                assert(i < s.len() - 1);
                assert(d[i] == s[i]);
                assert(p.contains(d[i]));
            }
        } else {
            assert(res == p.push(s.last()));
            assert forall|j: int|
                0 <= j < res.len() implies res[j].1 != id && s.contains(res[j]) by {
                if j < p.len() {
                    assert(res[j] == p[j]);
                } else {
                    assert(res[j] == s.last());
                    assert(s[s.len() - 1] == s.last());
                }
            }
            assert forall|i: int|
                0 <= i < s.len() && s[i].1 != id implies res.contains(s[i]) by {
                if i < s.len() - 1 {
                    assert(d[i] == s[i]);
                    assert(p.contains(d[i]));
                    let m = choose|m: int| 0 <= m < p.len() && p[m] == s[i];
                    assert(res[m] == s[i]);
                } else {
                    assert(res[res.len() - 1] == s[i]);
                }
            }
            assert(tokens_sorted(res)) by {
                assert forall|i: int, j: int|
                    0 <= i < j < res.len() implies res[i].0.0 < res[j].0.0 by {
                    if j < p.len() {
                    } else {
                        assert(res[j] == s.last());
                        assert(d.contains(p[i]));
                        let m = choose|m: int| 0 <= m < d.len() && d[m] == p[i];
                        assert(s[m].0.0 < s[s.len() - 1].0.0);
                    }
                }
            }
        }
    }
}

impl HashRing {
    /// Remove a node: delete every stored token owned by `node_id` and its
    /// registry slot.  Returns whether the node was present; removing an
    /// absent node changes nothing.
    pub fn remove_node(&mut self, node_id: &NodeId) -> (removed: bool)
        requires
            old(self).wf(),
        ensures
            final(self).wf(),
            removed == reg_contains(old(self).spec_registry(), *node_id),
            removed ==> final(self).spec_tokens() == spec_remove_id(
                old(self).spec_tokens(),
                *node_id,
            ) && final(self).spec_registry() == spec_reg_remove(
                old(self).spec_registry(),
                *node_id,
            ),
            !removed ==> final(self).spec_tokens() == old(self).spec_tokens()
                && final(self).spec_registry() == old(self).spec_registry(),
    {
        let ghost s0 = old(self).spec_tokens();
        let ghost r0 = old(self).spec_registry();
        let k = match reg_find(&self.registry, *node_id) {
            Some(k) => k,
            None => {
                return false;
            },
        };
        // Drop every token owned by the node, keeping the others in order.
        let mut kept: Vec<(Murmur3Token, NodeId)> = Vec::new();
        let mut i: usize = 0;
        while i < self.entries.len()
            invariant
                i <= self.entries@.len(),
                self.entries@ == s0,
                self.registry@ == r0,
                kept@ == spec_remove_id(s0.take(i as int), *node_id),
            decreases self.entries@.len() - i,
        {
            proof {
                lemma_remove_take_step(s0, *node_id, i as int);
            }
            let e = self.entries[i];
            if !(e.1 == *node_id) {
                kept.push(e);
            }
            i = i + 1;
        }
        proof {
            assert(s0.take(s0.len() as int) =~= s0);
        }
        self.entries = kept;
        // Delete the registry slot.
        self.registry.remove(k);
        proof {
            lemma_remove_id_props(s0, *node_id);
            lemma_reg_index_of_bounds(r0, *node_id);
            // Unique ids survive the deletion, and every surviving token
            // owner is still registered.
            let r1 = self.registry@;
            assert(reg_ids_unique(r1)) by {
                assert forall|i2: int, j2: int|
                    0 <= i2 < j2 < r1.len() implies r1[i2].node.id != r1[j2].node.id by {
                    assert(r1[i2] == r0[if i2 < k as int {
                        i2
                    } else {
                        i2 + 1
                    }]);
                    assert(r1[j2] == r0[if j2 < k as int {
                        j2
                    } else {
                        j2 + 1
                    }]);
                }
            }
            assert forall|j: int|
                0 <= j < self.spec_tokens().len() implies reg_contains(
                    r1,
                    self.spec_tokens()[j].1,
                ) by {
                let e = self.spec_tokens()[j];
                assert(e.1 != *node_id);
                assert(s0.contains(e));
                let m = choose|m: int| 0 <= m < s0.len() && s0[m] == e;
                assert(reg_contains(r0, e.1));
                let w = choose|w: int| 0 <= w < r0.len() && r0[w].node.id == e.1;
                if w < k as int {
                    assert(r1[w].node.id == e.1);
                } else {
                    assert(w != k as int);
                    assert(r1[w - 1].node.id == e.1);
                }
            }
        }
        true
    }
}


// ---------------------------------------------------------------------------
// Ring-wide laws
// ---------------------------------------------------------------------------

/// Empty-ring safety: the clockwise rule on an empty index resolves no
/// token, whatever the key hashed to.
pub proof fn lemma_empty_ring_lookup(t: u64)
    ensures
        ring_lookup(Seq::<(Murmur3Token, NodeId)>::empty(), t) is None,
{
}

/// Wraparound correctness: a token strictly past the largest stored token
/// resolves to the owner of the smallest stored token.
pub proof fn lemma_wraparound(s: Seq<(Murmur3Token, NodeId)>, t: u64)
    requires
        tokens_sorted(s),
        s.len() > 0,
        s[s.len() - 1].0.0 < t,
    ensures
        ring_lookup(s, t) == Some(s[0].1),
{
    lemma_first_ge_bounds(s, t);
    if first_ge(s, t) < s.len() {
        let fg = first_ge(s, t);
        assert(s[fg].0.0 >= t);
        assert(s[fg].0.0 <= s[s.len() - 1].0.0);
    }
}

/// Every entry of the index after generating a batch of virtual nodes is an
/// original entry or carries one of the batch's derived tokens.
pub proof fn lemma_add_vnodes_members(s: Seq<(Murmur3Token, NodeId)>, id: NodeId, start: nat, count: nat)
    ensures
        forall|j: int|
            0 <= j < spec_add_vnodes(s, id, start, count).len() ==> s.contains(
                spec_add_vnodes(s, id, start, count)[j],
            ) || exists|m: nat|
                start <= m < start + count && spec_add_vnodes(s, id, start, count)[j] == (
                    Murmur3Token(vnode_token(id.0, m)),
                    id,
                ),
    decreases count,
{
    let res = spec_add_vnodes(s, id, start, count);
    if count == 0 {
    } else {
        let t0 = vnode_token(id.0, start);
        let s1 = spec_insert(s, t0, id);
        let res1 = spec_add_vnodes(s1, id, start + 1, (count - 1) as nat);
        assert(res == res1);
        lemma_insert_members(s, t0, id);
        lemma_add_vnodes_members(s1, id, start + 1, (count - 1) as nat);
        assert forall|j: int|
            0 <= j < res.len() implies s.contains(res[j]) || exists|m: nat|
                start <= m < start + count && res[j] == (Murmur3Token(vnode_token(id.0, m)), id) by {
            assert(s1.contains(res1[j]) || exists|m: nat|
                start + 1 <= m < start + 1 + ((count - 1) as nat) && res1[j] == (
                    Murmur3Token(vnode_token(id.0, m)),
                    id,
                ));
            if s1.contains(res1[j]) {
                let w = choose|w: int| 0 <= w < s1.len() && s1[w] == res1[j];
                if s1[w] == (Murmur3Token(t0), id) {
                    assert(start <= start < start + count && res[j] == (
                        Murmur3Token(vnode_token(id.0, start)),
                        id,
                    ));
                } else {
                    assert(s.contains(s1[w]));
                }
            } else {
                let m = choose|m: nat|
                    start + 1 <= m < start + 1 + ((count - 1) as nat) && res1[j] == (
                        Murmur3Token(vnode_token(id.0, m)),
                        id,
                    );
                assert(start <= m < start + count && res[j] == (
                    Murmur3Token(vnode_token(id.0, m)),
                    id,
                ));
            }
        }
    }
}

/// A batch of virtual nodes whose derived tokens are fresh (absent from the
/// index) and pairwise distinct grows the index by exactly the batch size.
pub proof fn lemma_add_vnodes_len_fresh(s: Seq<(Murmur3Token, NodeId)>, id: NodeId, start: nat, count: nat)
    requires
        tokens_sorted(s),
        forall|k: nat| start <= k < start + count ==> !has_token(s, vnode_token(id.0, k)),
        forall|k1: nat, k2: nat|
            start <= k1 < k2 < start + count ==> vnode_token(id.0, k1) != vnode_token(id.0, k2),
    ensures
        spec_add_vnodes(s, id, start, count).len() == s.len() + count,
        tokens_sorted(spec_add_vnodes(s, id, start, count)),
    decreases count,
{
    if count == 0 {
    } else {
        let t0 = vnode_token(id.0, start);
        let s1 = spec_insert(s, t0, id);
        assert(!has_token(s, t0));
        lemma_insert_len(s, t0, id);
        lemma_insert_sorted(s, t0, id);
        lemma_insert_members(s, t0, id);
        assert forall|k: nat|
            start + 1 <= k < start + 1 + (count - 1) implies !has_token(s1, vnode_token(id.0, k)) by {
            if has_token(s1, vnode_token(id.0, k)) {
                let i = choose|i: int| 0 <= i < s1.len() && s1[i].0.0 == vnode_token(id.0, k);
                if s1[i] == (Murmur3Token(t0), id) {
                    assert(vnode_token(id.0, start) == vnode_token(id.0, k));
                    assert(start < k < start + count);
                } else {
                    assert(s.contains(s1[i]));
                    let m = choose|m: int| 0 <= m < s.len() && s[m] == s1[i];
                    assert(has_token(s, vnode_token(id.0, k)));
                }
            }
        }
        lemma_add_vnodes_len_fresh(s1, id, start + 1, (count - 1) as nat);
    }
}

/// Additive re-add: registering the same node again with `v` virtual nodes
/// leaves the node count unchanged and, as long as the derived tokens are
/// fresh and pairwise distinct (a hash collision would overwrite instead),
/// each of the two adds grows the token index by exactly `v`.
pub proof fn lemma_additive_re_add(
    s: Seq<(Murmur3Token, NodeId)>,
    r: Seq<NodeEntry>,
    node: Node,
    v: usize,
)
    requires
        tokens_sorted(s),
        reg_vnodes(r, node.id) + 2 * v <= usize::MAX,
        forall|k: nat|
            reg_vnodes(r, node.id) <= k < reg_vnodes(r, node.id) + 2 * v ==> !has_token(
                s,
                vnode_token(node.id.0, k),
            ),
        forall|k1: nat, k2: nat|
            reg_vnodes(r, node.id) <= k1 < k2 < reg_vnodes(r, node.id) + 2 * v ==> vnode_token(
                node.id.0,
                k1,
            ) != vnode_token(node.id.0, k2),
    ensures
        ({
            let start = reg_vnodes(r, node.id);
            let r1 = spec_reg_add(r, node, v);
            let s1 = spec_add_vnodes(s, node.id, start, v as nat);
            let r2 = spec_reg_add(r1, node, v);
            let s2 = spec_add_vnodes(s1, node.id, reg_vnodes(r1, node.id), v as nat);
            &&& reg_vnodes(r1, node.id) == start + v
            &&& s1.len() == s.len() + v
            &&& s2.len() == s1.len() + v
            &&& r2.len() == r1.len()
        }),
{
    let id = node.id;
    let start = reg_vnodes(r, id);
    let r1 = spec_reg_add(r, node, v);
    let s1 = spec_add_vnodes(s, id, start, v as nat);
    lemma_reg_index_of_bounds(r, id);
    let k0 = reg_index_of(r, id);
    // After the first registration the id sits at a known slot with the
    // raised virtual-node count, so the second registration updates in
    // place.
    assert(r1[k0].node.id == id);
    assert(forall|i: int| 0 <= i < k0 ==> r1[i].node.id != id);
    lemma_reg_index_of_unique(r1, id, k0);
    assert(reg_vnodes(r1, id) == start + v);
    assert(r1.len() == if k0 < r.len() {
        r.len()
    } else {
        r.len() + 1
    });
    assert(spec_reg_add(r1, node, v).len() == r1.len());
    // First batch: tokens start .. start + v are fresh in `s`.
    assert forall|k: nat| start <= k < start + v implies !has_token(s, vnode_token(id.0, k)) by {
        assert(start <= k < start + 2 * v);
    }
    lemma_add_vnodes_len_fresh(s, id, start, v as nat);
    // Second batch: tokens start + v .. start + 2v are fresh in `s1`.
    lemma_add_vnodes_members(s, id, start, v as nat);
    assert forall|k: nat|
        start + v <= k < start + 2 * v implies !has_token(s1, vnode_token(id.0, k)) by {
        if has_token(s1, vnode_token(id.0, k)) {
            let i = choose|i: int| 0 <= i < s1.len() && s1[i].0.0 == vnode_token(id.0, k);
            if s.contains(s1[i]) {
                let m = choose|m: int| 0 <= m < s.len() && s[m] == s1[i];
                assert(has_token(s, vnode_token(id.0, k)));
                assert(start <= k < start + 2 * v);
            } else {
                let m = choose|m: nat|
                    start <= m < start + v && s1[i] == (Murmur3Token(vnode_token(id.0, m)), id);
                assert(vnode_token(id.0, m) == vnode_token(id.0, k));
                assert(m < k);
            }
        }
    }
    lemma_add_vnodes_len_fresh(s1, id, (start + v) as nat, v as nat);
}

/// Removal completeness: after removing a node, no surviving token maps to
/// it and its metadata can no longer be found.
pub proof fn lemma_removal_complete(s: Seq<(Murmur3Token, NodeId)>, r: Seq<NodeEntry>, id: NodeId)
    requires
        tokens_sorted(s),
        reg_ids_unique(r),
    ensures
        forall|j: int| 0 <= j < spec_remove_id(s, id).len() ==> spec_remove_id(s, id)[j].1 != id,
        spec_get_node(spec_reg_remove(r, id), id) is None,
{
    lemma_remove_id_props(s, id);
    lemma_reg_index_of_bounds(r, id);
    let k = reg_index_of(r, id);
    let r1 = spec_reg_remove(r, id);
    lemma_reg_index_of_bounds(r1, id);
    if reg_index_of(r1, id) < r1.len() {
        let w = reg_index_of(r1, id);
        assert(r1[w].node.id == id);
        if k < r.len() {
            assert(r1[w] == r[if w < k {
                w
            } else {
                w + 1
            }]);
        } else {
            assert(reg_contains(r, id));
        }
    }
}

// ---------------------------------------------------------------------------
// Builder
// ---------------------------------------------------------------------------

/// Incremental construction of a ring: accumulates a default virtual-node
/// count and a sequence of node additions, then hands out the finished
/// ring.  The builder is a plain single-owner value; only the built ring is
/// meant to be shared.
pub struct RingBuilder {
    ring: HashRing,
    default_vnodes: usize,
}

impl RingBuilder {
    /// The ring as built so far.
    pub closed spec fn spec_ring(self) -> HashRing {
        self.ring
    }

    /// The default number of virtual nodes per added node.
    pub closed spec fn spec_default_vnodes(self) -> usize {
        self.default_vnodes
    }

    /// Create a builder over an empty ring, with 256 virtual nodes per node
    /// by default.
    pub fn new() -> (r: Self)
        ensures
            r.spec_ring().wf(),
            r.spec_ring().spec_tokens() == Seq::<(Murmur3Token, NodeId)>::empty(),
            r.spec_ring().spec_registry() == Seq::<NodeEntry>::empty(),
            r.spec_default_vnodes() == 256,
    {
        RingBuilder { ring: HashRing::new(), default_vnodes: 256 }
    }

    /// Set the default number of virtual nodes per added node.
    pub fn with_vnodes(self, vnodes: usize) -> (r: Self)
        ensures
            r.spec_ring() == self.spec_ring(),
            r.spec_default_vnodes() == vnodes,
    {
        RingBuilder { ring: self.ring, default_vnodes: vnodes }
    }

    /// Add a node with the default virtual-node count.
    pub fn add_node(self, node: Node) -> (r: Self)
        requires
            self.spec_ring().wf(),
            reg_vnodes(self.spec_ring().spec_registry(), node.id) + self.spec_default_vnodes()
                <= usize::MAX,
        ensures
            r.spec_ring().wf(),
            r.spec_default_vnodes() == self.spec_default_vnodes(),
            r.spec_ring().spec_registry() == spec_reg_add(
                self.spec_ring().spec_registry(),
                node,
                self.spec_default_vnodes(),
            ),
            r.spec_ring().spec_tokens() == spec_add_vnodes(
                self.spec_ring().spec_tokens(),
                node.id,
                reg_vnodes(self.spec_ring().spec_registry(), node.id),
                self.spec_default_vnodes() as nat,
            ),
    {
        let mut ring = self.ring;
        let vnodes = self.default_vnodes;
        ring.add_node(node, vnodes);
        RingBuilder { ring, default_vnodes: vnodes }
    }

    /// Add a node with an explicit virtual-node count.
    pub fn add_node_with_vnodes(self, node: Node, vnodes: usize) -> (r: Self)
        requires
            self.spec_ring().wf(),
            reg_vnodes(self.spec_ring().spec_registry(), node.id) + vnodes <= usize::MAX,
        ensures
            r.spec_ring().wf(),
            r.spec_default_vnodes() == self.spec_default_vnodes(),
            r.spec_ring().spec_registry() == spec_reg_add(
                self.spec_ring().spec_registry(),
                node,
                vnodes,
            ),
            r.spec_ring().spec_tokens() == spec_add_vnodes(
                self.spec_ring().spec_tokens(),
                node.id,
                reg_vnodes(self.spec_ring().spec_registry(), node.id),
                vnodes as nat,
            ),
    {
        let mut ring = self.ring;
        let dv = self.default_vnodes;
        ring.add_node(node, vnodes);
        RingBuilder { ring, default_vnodes: dv }
    }

    /// Finish building and hand out the ring.
    pub fn build(self) -> (r: HashRing)
        ensures
            r == self.spec_ring(),
    {
        self.ring
    }
}

impl Default for HashRing {
    /// An empty ring with the default partitioner.
    fn default() -> (r: Self)
        ensures
            r.wf(),
            r.spec_tokens() == Seq::<(Murmur3Token, NodeId)>::empty(),
            r.spec_registry() == Seq::<NodeEntry>::empty(),
    {
        HashRing::new()
    }
}

impl Default for RingBuilder {
    /// A builder over an empty ring with the default virtual-node count.
    fn default() -> (r: Self)
        ensures
            r.spec_ring().wf(),
            r.spec_ring().spec_tokens() == Seq::<(Murmur3Token, NodeId)>::empty(),
            r.spec_ring().spec_registry() == Seq::<NodeEntry>::empty(),
            r.spec_default_vnodes() == 256,
    {
        RingBuilder::new()
    }
}

} // verus!
