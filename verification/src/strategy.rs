//! Replication strategies: from a ring and a key to an ordered list of
//! distinct replica-holder node ids.
//!
//! The placement rule extends the clockwise lookup: starting from the first
//! ring position owned by the primary node, walk the sorted token list
//! forward (wrapping around its end) and record each node id not seen
//! before, until enough distinct ids are collected or the walk has visited
//! every position.  Distinctness is at the node level, not the virtual-node
//! level.

use crate::hashing::sip13_of;
use crate::node::NodeId;
use crate::ring::{first_ge, has_id, ring_lookup, HashRing};
use crate::token::Murmur3Token;
use vstd::prelude::*;

verus! {

/// The position `off` steps clockwise from `start` in a list of `len`
/// entries, wrapping past the end.
pub open spec fn wrap_index(start: int, off: int, len: int) -> int {
    if start + off < len {
        start + off
    } else {
        start + off - len
    }
}

/// The replica walk: starting `off` steps past `start` with the ids in
/// `acc` already collected, visit each further position clockwise and
/// record every id not seen before, stopping after a full cycle or once
/// `factor` ids are collected.
pub open spec fn collect_replicas(
    toks: Seq<(Murmur3Token, NodeId)>,
    start: int,
    off: nat,
    acc: Seq<NodeId>,
    factor: nat,
) -> Seq<NodeId>
    decreases toks.len() - off,
{
    if off >= toks.len() || acc.len() >= factor {
        acc
    } else {
        let id = toks[wrap_index(start, off as int, toks.len() as int)].1;
        let acc2 = if acc.contains(id) {
            acc
        } else {
            acc.push(id)
        };
        collect_replicas(toks, start, off + 1, acc2, factor)
    }
}

/// The first position of the token list owned by `id`, or the list's
/// length when `id` owns no position.
pub open spec fn first_index_of_id(s: Seq<(Murmur3Token, NodeId)>, id: NodeId) -> int
    decreases s.len(),
{
    if s.len() == 0 {
        0
    } else if s[0].1 == id {
        0
    } else {
        1 + first_index_of_id(s.drop_first(), id)
    }
}

/// The replica set of a key's token over a token list: empty for a zero
/// factor or an empty list, else the walk from the primary owner's first
/// position, seeded with the primary.
pub open spec fn spec_replicas(toks: Seq<(Murmur3Token, NodeId)>, t: u64, factor: nat) -> Seq<
    NodeId,
> {
    if factor == 0 || toks.len() == 0 {
        Seq::empty()
    } else {
        let primary = match ring_lookup(toks, t) {
            Some(id) => id,
            None => toks[0].1,
        };
        collect_replicas(toks, first_index_of_id(toks, primary), 1, seq![primary], factor)
    }
}

/// `first_index_of_id` is in bounds, nothing before it carries `id`, and it
/// carries `id` when it is a proper index.
pub proof fn lemma_first_index_of_id_bounds(s: Seq<(Murmur3Token, NodeId)>, id: NodeId)
    ensures
        0 <= first_index_of_id(s, id) <= s.len(),
        forall|i: int| 0 <= i < first_index_of_id(s, id) ==> s[i].1 != id,
        first_index_of_id(s, id) < s.len() ==> s[first_index_of_id(s, id)].1 == id,
        (first_index_of_id(s, id) < s.len()) == has_id(s, id),
    decreases s.len(),
{
    if s.len() != 0 && s[0].1 != id {
        lemma_first_index_of_id_bounds(s.drop_first(), id);
        assert forall|i: int| 0 <= i < first_index_of_id(s, id) implies s[i].1 != id by {
            if i > 0 {
                assert(s.drop_first()[i - 1] == s[i]);
            }
        }
        if first_index_of_id(s.drop_first(), id) < s.drop_first().len() {
            assert(s[first_index_of_id(s, id)].1 == id);
            assert(has_id(s, id));
        } else {
            if has_id(s, id) {
                let w = choose|w: int| 0 <= w < s.len() && s[w].1 == id;
                assert(s.drop_first()[w - 1] == s[w]);
                assert(has_id(s.drop_first(), id));
            }
        }
    } else if s.len() != 0 {
        assert(has_id(s, id));
    }
}

/// Any position carrying `id` with no earlier such position is
/// `first_index_of_id`.
pub proof fn lemma_first_index_of_id_unique(s: Seq<(Murmur3Token, NodeId)>, id: NodeId, k: int)
    requires
        0 <= k < s.len(),
        forall|i: int| 0 <= i < k ==> s[i].1 != id,
        s[k].1 == id,
    ensures
        k == first_index_of_id(s, id),
{
    lemma_first_index_of_id_bounds(s, id);
    let g = first_index_of_id(s, id);
    if k < g {
        assert(s[k].1 != id);
    } else if g < k {
        assert(s[g].1 != id);
    }
}

/// Whether the id list already holds `id`.
fn contains_id(v: &Vec<NodeId>, id: NodeId) -> (b: bool)
    ensures
        b == v@.contains(id),
{
    let mut i: usize = 0;
    while i < v.len()
        invariant
            i <= v@.len(),
            forall|j: int| 0 <= j < i ==> v@[j] != id,
        decreases v@.len() - i,
    {
        if v[i] == id {
            return true;
        }
        i = i + 1;
    }
    proof {
        if v@.contains(id) {
            let j = choose|j: int| 0 <= j < v@.len() && v@[j] == id;
        }
    }
    false
}

/// The first position of the token list owned by `id`.
pub(crate) fn find_first_id(toks: &Vec<(Murmur3Token, NodeId)>, id: NodeId) -> (w: usize)
    requires
        has_id(toks@, id),
    ensures
        w as int == first_index_of_id(toks@, id),
        (w as int) < toks@.len(),
{
    let mut i: usize = 0;
    while i < toks.len()
        invariant
            i <= toks@.len(),
            has_id(toks@, id),
            forall|j: int| 0 <= j < i ==> toks@[j].1 != id,
        decreases toks@.len() - i,
    {
        if toks[i].1 == id {
            proof {
                lemma_first_index_of_id_unique(toks@, id, i as int);
            }
            return i;
        }
        i = i + 1;
    }
    proof {
        let w = choose|w: int| 0 <= w < toks@.len() && toks@[w].1 == id;
        assert(false);
    }
    vstd::pervasive::unreached()
}

/// The clockwise replica walk over a sorted token list, starting from the
/// primary's first position.
pub(crate) fn replicas_walk(
    toks: &Vec<(Murmur3Token, NodeId)>,
    start: usize,
    primary: NodeId,
    factor: usize,
) -> (r: Vec<NodeId>)
    requires
        0 < factor,
        (start as int) < toks@.len(),
        toks@[start as int].1 == primary,
    ensures
        r@ == collect_replicas(toks@, start as int, 1, seq![primary], factor as nat),
        1 <= r@.len() <= factor,
        r@[0] == primary,
        forall|i: int, j: int| 0 <= i < j < r@.len() ==> r@[i] != r@[j],
        forall|i: int| 0 <= i < r@.len() ==> has_id(toks@, r@[i]),
        r@.len() == factor || forall|w: int| 0 <= w < toks@.len() ==> r@.contains(toks@[w].1),
{
    let len = toks.len();
    let mut r: Vec<NodeId> = Vec::new();
    r.push(primary);
    proof {
        assert(r@ =~= seq![primary]);
        assert(wrap_index(start as int, 0, len as int) == start as int);
        assert(r@[0] == toks@[start as int].1);
        assert(r@.contains(toks@[start as int].1));
    }
    let mut off: usize = 1;
    while off < len && r.len() < factor
        invariant
            0 < factor,
            1 <= off <= len,
            len == toks@.len(),
            (start as int) < toks@.len(),
            toks@[start as int].1 == primary,
            1 <= r@.len() <= factor,
            r@[0] == primary,
            forall|i: int, j: int| 0 <= i < j < r@.len() ==> r@[i] != r@[j],
            forall|i: int| 0 <= i < r@.len() ==> has_id(toks@, r@[i]),
            forall|o: int|
                0 <= o < off ==> r@.contains(
                    toks@[wrap_index(start as int, o, toks@.len() as int)].1,
                ),
            collect_replicas(toks@, start as int, 1, seq![primary], factor as nat)
                == collect_replicas(toks@, start as int, off as nat, r@, factor as nat),
        decreases len - off,
    {
        let idx = if start < len - off {
            start + off
        } else {
            start - (len - off)
        };
        proof {
            assert(idx as int == wrap_index(start as int, off as int, len as int));
        }
        let id = toks[idx].1;
        let ghost r_old = r@;
        if !contains_id(&r, id) {
            r.push(id);
            proof {
                assert forall|i: int| 0 <= i < r@.len() implies has_id(toks@, r@[i]) by {
                    if i == r@.len() - 1 {
                        assert(toks@[idx as int].1 == id);
                    }
                }
            }
        }
        proof {
            // The walk's one-step unfolding matches the loop body.
            assert(collect_replicas(toks@, start as int, off as nat, r_old, factor as nat)
                == collect_replicas(toks@, start as int, (off + 1) as nat, r@, factor as nat));
            // Coverage extends to the offset just visited.
            assert forall|o: int|
                0 <= o < off + 1 implies r@.contains(
                    toks@[wrap_index(start as int, o, toks@.len() as int)].1,
                ) by {
                if o < off {
                    let e = toks@[wrap_index(start as int, o, toks@.len() as int)].1;
                    assert(r_old.contains(e));
                    let m = choose|m: int| 0 <= m < r_old.len() && r_old[m] == e;
                    assert(r@[m] == e);
                } else {
                    if r_old.contains(id) {
                        let m = choose|m: int| 0 <= m < r_old.len() && r_old[m] == id;
                        assert(r@[m] == id);
                    } else {
                        assert(r@[r@.len() - 1] == id);
                    }
                }
            }
        }
        off = off + 1;
    }
    proof {
        assert(collect_replicas(toks@, start as int, off as nat, r@, factor as nat) == r@);
        if r@.len() < factor {
            assert forall|w: int| 0 <= w < toks@.len() implies r@.contains(toks@[w].1) by {
                let len_i = toks@.len() as int;
                let o = if w >= start as int {
                    w - start
                } else {
                    w + len_i - start
                };
                assert(0 <= o < len_i);
                assert(wrap_index(start as int, o, len_i) == w);
                assert(r@.contains(toks@[wrap_index(start as int, o, len_i)].1));
            }
        }
    }
    r
}

/// A rule for choosing which nodes hold the replicas of a key.
///
/// Every strategy promises an ordered list of distinct node ids, at most
/// its replication factor long, led by the plain clockwise lookup result,
/// and empty exactly when the factor is zero or the ring holds no tokens.
pub trait ReplicationStrategy: Sized {
    /// The number of replicas this strategy aims to place.
    spec fn spec_factor(&self) -> usize;

    /// The replication factor, including the primary.
    fn replication_factor(&self) -> (n: usize)
        ensures
            n == self.spec_factor(),
    ;

    /// The ordered, distinct replica-holder ids for `key`, primary first.
    fn replicas_for_key(&self, ring: &HashRing, key: &[u8]) -> (r: Vec<NodeId>)
        requires
            ring.wf(),
        ensures
            r@.len() <= self.spec_factor(),
            forall|i: int, j: int| 0 <= i < j < r@.len() ==> r@[i] != r@[j],
            forall|i: int| 0 <= i < r@.len() ==> has_id(ring.spec_tokens(), r@[i]),
            self.spec_factor() > 0 && ring.spec_tokens().len() > 0 ==> r@.len() > 0 && Some(
                r@[0],
            ) == ring_lookup(ring.spec_tokens(), sip13_of(key@)),
            self.spec_factor() == 0 || ring.spec_tokens().len() == 0 ==> r@.len() == 0,
    ;

    /// The strategy's name.
    fn name(&self) -> &'static str;
}

/// Replicas placed sequentially around the ring, clockwise from the
/// primary, with node-level distinctness and no awareness of data centers
/// or racks.
#[derive(Debug, Clone)]
pub struct SimpleStrategy {
    replication_factor: usize,
}

impl SimpleStrategy {
    /// Create a strategy with the given replication factor (including the
    /// primary).
    pub fn new(replication_factor: usize) -> (r: Self)
        ensures
            r.spec_factor() == replication_factor,
    {
        SimpleStrategy { replication_factor }
    }

    /// The default strategy: three replicas.
    pub fn default() -> (r: Self)
        ensures
            r.spec_factor() == 3,
    {
        SimpleStrategy::new(3)
    }
}

impl ReplicationStrategy for SimpleStrategy {
    closed spec fn spec_factor(&self) -> usize {
        self.replication_factor
    }

    fn replication_factor(&self) -> (n: usize)
        ensures
            n == self.spec_factor(),
    {
        self.replication_factor
    }

    fn replicas_for_key(&self, ring: &HashRing, key: &[u8]) -> (r: Vec<NodeId>)
        ensures
            r@ == spec_replicas(ring.spec_tokens(), sip13_of(key@), self.spec_factor() as nat),
            r@.len() == self.spec_factor() || forall|w: int|
                0 <= w < ring.spec_tokens().len() ==> r@.contains(ring.spec_tokens()[w].1),
    {
        if self.replication_factor == 0 {
            return Vec::new();
        }
        let primary = match ring.lookup(key) {
            Some(id) => id,
            None => {
                return Vec::new();
            },
        };
        let toks = ring.tokens();
        proof {
            let s = ring.spec_tokens();
            let t = sip13_of(key@);
            crate::ring::lemma_first_ge_bounds(s, t);
            if first_ge(s, t) < s.len() {
                assert(s[first_ge(s, t)].1 == primary);
            } else {
                assert(s[0].1 == primary);
            }
            assert(has_id(s, primary));
            lemma_first_index_of_id_bounds(s, primary);
        }
        let start = find_first_id(&toks, primary);
        replicas_walk(&toks, start, primary, self.replication_factor)
    }

    fn name(&self) -> (r: &'static str)
        ensures
            r@ == "SimpleStrategy"@,
    {
        "SimpleStrategy"
    }
}

} // verus!
