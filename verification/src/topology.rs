//! Read-only topology analysis over a ring: token ownership by node, a
//! human-readable ring description, and replica discovery for a key.
//!
//! A topology owns a ring value and never mutates it; every result is a
//! pure function of the ring's token index and registry.

use crate::digits::{dec_chars, digit_char, hex_chars_fixed, push_dec, push_hex};
use crate::hashing::sip13_of;
use crate::node::NodeId;
use crate::ring::{has_id, ring_lookup, spec_get_node, HashRing, NodeEntry};
use crate::strategy::{
    find_first_id, lemma_first_index_of_id_bounds, replicas_walk, spec_replicas,
};
use crate::token::Murmur3Token;
use vstd::prelude::*;
use vstd::string::StringExecFns;

verus! {

/// The tokens owned by `id`, in index order (so sorted by token value when
/// the index is sorted).
pub open spec fn tokens_of_id(s: Seq<(Murmur3Token, NodeId)>, id: NodeId) -> Seq<Murmur3Token>
    decreases s.len(),
{
    if s.len() == 0 {
        Seq::empty()
    } else {
        let p = tokens_of_id(s.drop_last(), id);
        if s.last().1 == id {
            p.push(s.last().0)
        } else {
            p
        }
    }
}

/// An id list sorted strictly ascending (hence duplicate-free).
pub open spec fn ids_sorted(ids: Seq<NodeId>) -> bool {
    forall|i: int, j: int| 0 <= i < j < ids.len() ==> ids[i].0 < ids[j].0
}

/// Insertion of an id into a sorted id list, keeping order and dropping a
/// duplicate.
pub open spec fn ids_insert(ids: Seq<NodeId>, id: NodeId) -> Seq<NodeId>
    decreases ids.len(),
{
    if ids.len() == 0 {
        seq![id]
    } else if ids[0].0 < id.0 {
        seq![ids[0]] + ids_insert(ids.drop_first(), id)
    } else if ids[0].0 == id.0 {
        ids
    } else {
        seq![id] + ids
    }
}

/// The distinct owner ids of a token index, sorted ascending.
pub open spec fn distinct_ids_sorted(s: Seq<(Murmur3Token, NodeId)>) -> Seq<NodeId>
    decreases s.len(),
{
    if s.len() == 0 {
        Seq::empty()
    } else {
        ids_insert(distinct_ids_sorted(s.drop_last()), s.last().1)
    }
}

/// What `ids_insert` does: order is kept and the resulting list holds
/// exactly the old ids and the new one.
pub proof fn lemma_ids_insert_props(ids: Seq<NodeId>, id: NodeId)
    requires
        ids_sorted(ids),
    ensures
        ids_sorted(ids_insert(ids, id)),
        ids_insert(ids, id).contains(id),
        forall|x: NodeId| ids_insert(ids, id).contains(x) <==> (ids.contains(x) || x == id),
    decreases ids.len(),
{
    let res = ids_insert(ids, id);
    if ids.len() == 0 {
        assert forall|x: NodeId| res.contains(x) implies (ids.contains(x) || x == id) by {
            let w = choose|w: int| 0 <= w < res.len() && res[w] == x;
        }
        assert(res[0] == id);
        assert(res.contains(id));
    } else if ids[0].0 < id.0 {
        assert(ids_sorted(ids.drop_first())) by {
            assert forall|i: int, j: int|
                0 <= i < j < ids.drop_first().len() implies ids.drop_first()[i].0
                < ids.drop_first()[j].0 by {
                assert(ids.drop_first()[i] == ids[i + 1]);
                assert(ids.drop_first()[j] == ids[j + 1]);
            }
        }
        lemma_ids_insert_props(ids.drop_first(), id);
        let rest = ids_insert(ids.drop_first(), id);
        assert(res == seq![ids[0]] + rest);
        assert(ids_sorted(res)) by {
            assert forall|i: int, j: int|
                0 <= i < j < res.len() implies res[i].0 < res[j].0 by {
                if i == 0 {
                    assert(res[j] == rest[j - 1]);
                    assert(rest.contains(rest[j - 1]));
                    if ids.drop_first().contains(rest[j - 1]) {
                        let w = choose|w: int|
                            0 <= w < ids.drop_first().len() && ids.drop_first()[w] == rest[j - 1];
                        assert(ids.drop_first()[w] == ids[w + 1]);
                    }
                } else {
                    assert(res[i] == rest[i - 1]);
                    assert(res[j] == rest[j - 1]);
                }
            }
        }
        assert forall|x: NodeId| res.contains(x) implies (ids.contains(x) || x == id) by {
            let w = choose|w: int| 0 <= w < res.len() && res[w] == x;
            if w == 0 {
                assert(ids[0] == x);
            } else {
                assert(rest.contains(res[w]));
                if ids.drop_first().contains(x) {
                    let v = choose|v: int|
                        0 <= v < ids.drop_first().len() && ids.drop_first()[v] == x;
                    assert(ids[v + 1] == x);
                }
            }
        }
        assert forall|x: NodeId| (ids.contains(x) || x == id) implies res.contains(x) by {
            if x == id {
                assert(rest.contains(id));
                let v = choose|v: int| 0 <= v < rest.len() && rest[v] == id;
                assert(res[v + 1] == id);
            } else {
                let w = choose|w: int| 0 <= w < ids.len() && ids[w] == x;
                if w == 0 {
                    assert(res[0] == x);
                } else {
                    assert(ids.drop_first()[w - 1] == x);
                    assert(ids.drop_first().contains(x));
                    assert(rest.contains(x));
                    let v = choose|v: int| 0 <= v < rest.len() && rest[v] == x;
                    assert(res[v + 1] == x);
                }
            }
        }
    } else if ids[0].0 == id.0 {
        assert(ids[0] == id);
        assert(res.contains(id));
    } else {
        assert(res == seq![id] + ids);
        assert(ids_sorted(res)) by {
            assert forall|i: int, j: int|
                0 <= i < j < res.len() implies res[i].0 < res[j].0 by {
                if i > 0 {
                    assert(res[i] == ids[i - 1]);
                }
                assert(res[j] == ids[j - 1]);
            }
        }
        assert forall|x: NodeId| res.contains(x) implies (ids.contains(x) || x == id) by {
            let w = choose|w: int| 0 <= w < res.len() && res[w] == x;
            if w > 0 {
                assert(ids[w - 1] == x);
            }
        }
        assert forall|x: NodeId| (ids.contains(x) || x == id) implies res.contains(x) by {
            if x == id {
                assert(res[0] == id);
            } else {
                let w = choose|w: int| 0 <= w < ids.len() && ids[w] == x;
                assert(res[w + 1] == x);
            }
        }
    }
}

/// The distinct sorted owner list is sorted and holds exactly the ids that
/// own some token.
pub proof fn lemma_distinct_ids_props(s: Seq<(Murmur3Token, NodeId)>)
    ensures
        ids_sorted(distinct_ids_sorted(s)),
        forall|x: NodeId| distinct_ids_sorted(s).contains(x) <==> has_id(s, x),
    decreases s.len(),
{
    let res = distinct_ids_sorted(s);
    if s.len() == 0 {
        assert forall|x: NodeId| !res.contains(x) by {
            if res.contains(x) {
                let w = choose|w: int| 0 <= w < res.len() && res[w] == x;
            }
        }
        assert forall|x: NodeId| !has_id(s, x) by {
            if has_id(s, x) {
                let w = choose|w: int| 0 <= w < s.len() && s[w].1 == x;
            }
        }
    } else {
        let d = s.drop_last();
        lemma_distinct_ids_props(d);
        lemma_ids_insert_props(distinct_ids_sorted(d), s.last().1);
        assert forall|x: NodeId| res.contains(x) implies has_id(s, x) by {
            if distinct_ids_sorted(d).contains(x) {
                assert(has_id(d, x));
                let w = choose|w: int| 0 <= w < d.len() && d[w].1 == x;
                assert(s[w].1 == x);
            } else {
                assert(x == s.last().1);
                assert(s[s.len() - 1].1 == x);
            }
        }
        assert forall|x: NodeId| has_id(s, x) implies res.contains(x) by {
            let w = choose|w: int| 0 <= w < s.len() && s[w].1 == x;
            if w < s.len() - 1 {
                assert(d[w].1 == x);
                assert(has_id(d, x));
            } else {
                assert(s.last().1 == x);
            }
        }
    }
}

/// One step of the per-id token collection along a growing prefix.
pub proof fn lemma_tokens_of_id_take_step(s: Seq<(Murmur3Token, NodeId)>, id: NodeId, i: int)
    requires
        0 <= i < s.len(),
    ensures
        tokens_of_id(s.take(i + 1), id) == if s[i].1 == id {
            tokens_of_id(s.take(i), id).push(s[i].0)
        } else {
            tokens_of_id(s.take(i), id)
        },
{
    let u = s.take(i + 1);
    assert(u.drop_last() =~= s.take(i));
    assert(u.last() == s[i]);
}

/// One step of the distinct-owner collection along a growing prefix.
pub proof fn lemma_distinct_ids_take_step(s: Seq<(Murmur3Token, NodeId)>, i: int)
    requires
        0 <= i < s.len(),
    ensures
        distinct_ids_sorted(s.take(i + 1)) == ids_insert(distinct_ids_sorted(s.take(i)), s[i].1),
{
    let u = s.take(i + 1);
    assert(u.drop_last() =~= s.take(i));
    assert(u.last() == s[i]);
}

/// A node owns as many tokens as its share of the index.
pub proof fn lemma_tokens_of_id_len(s: Seq<(Murmur3Token, NodeId)>, id: NodeId)
    ensures
        tokens_of_id(s, id).len() <= s.len(),
    decreases s.len(),
{
    if s.len() > 0 {
        lemma_tokens_of_id_len(s.drop_last(), id);
    }
}

/// Sorted insertion of an id into a sorted id list, skipping a duplicate.
fn ids_insert_exec(ids: &mut Vec<NodeId>, id: NodeId)
    requires
        ids_sorted(old(ids)@),
    ensures
        final(ids)@ == ids_insert(old(ids)@, id),
        ids_sorted(final(ids)@),
{
    proof {
        lemma_ids_insert_props(old(ids)@, id);
    }
    let mut p: usize = 0;
    while p < ids.len() && ids[p].0 < id.0
        invariant
            p <= ids@.len(),
            ids@ == old(ids)@,
            forall|i: int| 0 <= i < p ==> ids@[i].0 < id.0,
        decreases ids@.len() - p,
    {
        p = p + 1;
    }
    if p < ids.len() && ids[p].0 == id.0 {
        proof {
            lemma_ids_insert_skip(ids@, id, p as int);
        }
        return ;
    }
    ids.insert(p, id);
    proof {
        lemma_ids_insert_at(old(ids)@, id, p as int);
    }
}

/// When the insertion point carries the id already, insertion is the
/// identity.
proof fn lemma_ids_insert_skip(ids: Seq<NodeId>, id: NodeId, p: int)
    requires
        ids_sorted(ids),
        0 <= p < ids.len(),
        forall|i: int| 0 <= i < p ==> ids[i].0 < id.0,
        ids[p].0 == id.0,
    ensures
        ids_insert(ids, id) == ids,
    decreases p,
{
    if p == 0 {
    } else {
        assert(ids[0].0 < id.0);
        assert(ids_sorted(ids.drop_first())) by {
            assert forall|i: int, j: int|
                0 <= i < j < ids.drop_first().len() implies ids.drop_first()[i].0
                < ids.drop_first()[j].0 by {
                assert(ids.drop_first()[i] == ids[i + 1]);
                assert(ids.drop_first()[j] == ids[j + 1]);
            }
        }
        assert forall|i: int| 0 <= i < p - 1 implies ids.drop_first()[i].0 < id.0 by {
            assert(ids.drop_first()[i] == ids[i + 1]);
        }
        assert(ids.drop_first()[p - 1] == ids[p]);
        lemma_ids_insert_skip(ids.drop_first(), id, p - 1);
        assert(ids_insert(ids, id) =~= ids);
    }
}

/// When the insertion point does not carry the id, insertion splices it in
/// there.
proof fn lemma_ids_insert_at(ids: Seq<NodeId>, id: NodeId, p: int)
    requires
        ids_sorted(ids),
        0 <= p <= ids.len(),
        forall|i: int| 0 <= i < p ==> ids[i].0 < id.0,
        p < ids.len() ==> ids[p].0 > id.0,
    ensures
        ids_insert(ids, id) == ids.insert(p, id),
    decreases p,
{
    if ids.len() == 0 {
        assert(ids_insert(ids, id) =~= ids.insert(0, id));
    } else if p == 0 {
        assert(ids_insert(ids, id) =~= ids.insert(0, id));
    } else {
        assert(ids[0].0 < id.0);
        assert(ids_sorted(ids.drop_first())) by {
            assert forall|i: int, j: int|
                0 <= i < j < ids.drop_first().len() implies ids.drop_first()[i].0
                < ids.drop_first()[j].0 by {
                assert(ids.drop_first()[i] == ids[i + 1]);
                assert(ids.drop_first()[j] == ids[j + 1]);
            }
        }
        assert forall|i: int| 0 <= i < p - 1 implies ids.drop_first()[i].0 < id.0 by {
            assert(ids.drop_first()[i] == ids[i + 1]);
        }
        if p < ids.len() {
            assert(ids.drop_first()[p - 1] == ids[p]);
        }
        lemma_ids_insert_at(ids.drop_first(), id, p - 1);
        assert(ids_insert(ids, id) =~= ids.insert(p, id));
    }
}

/// Read-only topology view over a ring.
pub struct Topology {
    ring: HashRing,
}

impl Topology {
    /// The ring under analysis.
    pub closed spec fn spec_ring(self) -> HashRing {
        self.ring
    }

    /// Create a topology view owning the given ring.
    pub fn new(ring: HashRing) -> (r: Self)
        ensures
            r.spec_ring() == ring,
    {
        Topology { ring }
    }

    /// Borrow the underlying ring.
    pub fn ring(&self) -> (r: &HashRing)
        ensures
            *r == self.spec_ring(),
    {
        &self.ring
    }

    /// Group the stored tokens by owning node: each registered owner that
    /// holds tokens appears once, ids ascending, with its tokens in ring
    /// order.
    pub fn ownership(&self) -> (r: Vec<(NodeId, Vec<Murmur3Token>)>)
        requires
            self.spec_ring().wf(),
        ensures
            r@.len() == distinct_ids_sorted(self.spec_ring().spec_tokens()).len(),
            forall|k: int|
                0 <= k < r@.len() ==> r@[k].0 == distinct_ids_sorted(
                    self.spec_ring().spec_tokens(),
                )[k],
            forall|k: int|
                0 <= k < r@.len() ==> r@[k].1@ == tokens_of_id(
                    self.spec_ring().spec_tokens(),
                    r@[k].0,
                ),
            forall|x: NodeId|
                has_id(self.spec_ring().spec_tokens(), x) <==> distinct_ids_sorted(
                    self.spec_ring().spec_tokens(),
                ).contains(x),
    {
        let toks = self.ring.tokens();
        let ghost s = self.spec_ring().spec_tokens();
        proof {
            lemma_distinct_ids_props(s);
        }
        // First pass: the distinct owner ids, ascending.
        let mut ids: Vec<NodeId> = Vec::new();
        let mut i: usize = 0;
        while i < toks.len()
            invariant
                i <= toks@.len(),
                toks@ == s,
                ids@ == distinct_ids_sorted(s.take(i as int)),
                ids_sorted(ids@),
            decreases toks@.len() - i,
        {
            proof {
                lemma_distinct_ids_take_step(s, i as int);
            }
            ids_insert_exec(&mut ids, toks[i].1);
            i = i + 1;
        }
        proof {
            assert(s.take(s.len() as int) =~= s);
        }
        // Second pass: collect each owner's tokens in ring order.
        let mut r: Vec<(NodeId, Vec<Murmur3Token>)> = Vec::new();
        let mut k: usize = 0;
        while k < ids.len()
            invariant
                k <= ids@.len(),
                toks@ == s,
                ids@ == distinct_ids_sorted(s),
                r@.len() == k,
                forall|m: int| 0 <= m < k ==> r@[m].0 == ids@[m],
                forall|m: int| 0 <= m < k ==> r@[m].1@ == tokens_of_id(s, r@[m].0),
            decreases ids@.len() - k,
        {
            let id = ids[k];
            let mut owned: Vec<Murmur3Token> = Vec::new();
            let mut j: usize = 0;
            while j < toks.len()
                invariant
                    j <= toks@.len(),
                    toks@ == s,
                    owned@ == tokens_of_id(s.take(j as int), id),
                decreases toks@.len() - j,
            {
                proof {
                    lemma_tokens_of_id_take_step(s, id, j as int);
                }
                let e = toks[j];
                if e.1 == id {
                    owned.push(e.0);
                }
                j = j + 1;
            }
            proof {
                assert(s.take(s.len() as int) =~= s);
            }
            r.push((id, owned));
            k = k + 1;
        }
        r
    }

    /// The distinct replica-holder ids for `key`: the primary from the
    /// clockwise lookup followed by the next distinct owners clockwise,
    /// until `replica_count` ids are found or every position was visited.
    pub fn replicas_for_key(&self, key: &[u8], replica_count: usize) -> (r: Vec<NodeId>)
        requires
            self.spec_ring().wf(),
        ensures
            r@ == spec_replicas(
                self.spec_ring().spec_tokens(),
                sip13_of(key@),
                replica_count as nat,
            ),
            r@.len() <= replica_count,
            forall|i: int, j: int| 0 <= i < j < r@.len() ==> r@[i] != r@[j],
            forall|i: int| 0 <= i < r@.len() ==> has_id(self.spec_ring().spec_tokens(), r@[i]),
            replica_count > 0 && self.spec_ring().spec_tokens().len() > 0 ==> r@.len() > 0
                && Some(r@[0]) == ring_lookup(self.spec_ring().spec_tokens(), sip13_of(key@)),
            r@.len() == replica_count || forall|w: int|
                0 <= w < self.spec_ring().spec_tokens().len() ==> r@.contains(
                    self.spec_ring().spec_tokens()[w].1,
                ),
    {
        if replica_count == 0 {
            return Vec::new();
        }
        let primary = match self.ring.lookup(key) {
            Some(id) => id,
            None => {
                return Vec::new();
            },
        };
        let toks = self.ring.tokens();
        proof {
            let s = self.spec_ring().spec_tokens();
            let t = sip13_of(key@);
            crate::ring::lemma_first_ge_bounds(s, t);
            if crate::ring::first_ge(s, t) < s.len() {
                assert(s[crate::ring::first_ge(s, t)].1 == primary);
            } else {
                assert(s[0].1 == primary);
            }
            assert(has_id(s, primary));
            lemma_first_index_of_id_bounds(s, primary);
        }
        let start = find_first_id(&toks, primary);
        replicas_walk(&toks, start, primary, replica_count)
    }
}


// ---------------------------------------------------------------------------
// Ring description
// ---------------------------------------------------------------------------

/// The share of the index that `count` of `total` tokens represents, in
/// hundredths of a percent, truncated; zero when the index is empty.
pub open spec fn percent_hundredths(count: nat, total: nat) -> nat {
    if total == 0 {
        0
    } else {
        count * 10000 / total
    }
}

/// A two-digit fraction, zero-padded on the left.
pub open spec fn frac2_chars(d: nat) -> Seq<char> {
    if d < 10 {
        seq!['0', digit_char(d)]
    } else {
        dec_chars(d)
    }
}

/// A percentage in hundredths rendered as digits, a point, and a two-digit
/// fraction.
pub open spec fn pct_chars(h: nat) -> Seq<char> {
    dec_chars(h / 100) + seq!['.'] + frac2_chars(h % 100)
}

/// One ownership report line: id, name, token count and ring share.
pub open spec fn node_line_chars(
    toks: Seq<(Murmur3Token, NodeId)>,
    reg: Seq<NodeEntry>,
    id: NodeId,
) -> Seq<char> {
    let name = match spec_get_node(reg, id) {
        Some(n) => n.name@,
        None => "unknown"@,
    };
    let count = tokens_of_id(toks, id).len();
    "  Node "@ + hex_chars_fixed(id.0 as nat, 32) + " ("@ + name + "): "@ + dec_chars(count)
        + " tokens ("@ + pct_chars(percent_hundredths(count, toks.len())) + "%)\n"@
}

/// The ownership report lines, one per listed id, in order.
pub open spec fn node_lines_chars(
    toks: Seq<(Murmur3Token, NodeId)>,
    reg: Seq<NodeEntry>,
    ids: Seq<NodeId>,
) -> Seq<char>
    decreases ids.len(),
{
    if ids.len() == 0 {
        Seq::empty()
    } else {
        node_lines_chars(toks, reg, ids.drop_last()) + node_line_chars(toks, reg, ids.last())
    }
}

/// The full ring description: a header with the node count, token count
/// and partitioner name, then one ownership line per token-owning node,
/// ids ascending.
pub open spec fn describe_chars(toks: Seq<(Murmur3Token, NodeId)>, reg: Seq<NodeEntry>) -> Seq<
    char,
> {
    let header = "Ring Description:\n  Nodes: "@ + dec_chars(reg.len()) + "\n  Total Tokens: "@
        + dec_chars(toks.len()) + "\n  Partitioner: Murmur3Partitioner\n"@;
    let ids = distinct_ids_sorted(toks);
    if ids.len() == 0 {
        header
    } else {
        header + "\nNode Ownership:\n"@ + node_lines_chars(toks, reg, ids)
    }
}

impl Topology {
    /// Describe the ring in a deterministic, human-readable report.
    #[verifier::loop_isolation(false)]
    pub fn describe(&self) -> (r: String)
        requires
            self.spec_ring().wf(),
        ensures
            r@ == describe_chars(
                self.spec_ring().spec_tokens(),
                self.spec_ring().spec_registry(),
            ),
    {
        let ghost toks = self.spec_ring().spec_tokens();
        let ghost reg = self.spec_ring().spec_registry();
        let ghost ids = distinct_ids_sorted(toks);
        let total = self.ring.token_count();
        let mut out = String::new();
        out.append("Ring Description:\n  Nodes: ");
        push_dec(&mut out, self.ring.node_count());
        out.append("\n  Total Tokens: ");
        push_dec(&mut out, total);
        out.append("\n  Partitioner: Murmur3Partitioner\n");
        let ghost header = "Ring Description:\n  Nodes: "@ + dec_chars(reg.len())
            + "\n  Total Tokens: "@ + dec_chars(toks.len())
            + "\n  Partitioner: Murmur3Partitioner\n"@;
        proof {
            assert(out@ =~= header);
        }
        let ow = self.ownership();
        if ow.len() == 0 {
            return out;
        }
        out.append("\nNode Ownership:\n");
        let mut k: usize = 0;
        while k < ow.len()
            invariant
                k <= ow@.len(),
                out@ == header + "\nNode Ownership:\n"@ + node_lines_chars(
                    toks,
                    reg,
                    ids.take(k as int),
                ),
            decreases ow@.len() - k,
        {
            let id = ow[k].0;
            let count = ow[k].1.len();
            proof {
                assert(ow@[k as int].0 == distinct_ids_sorted(
                    self.spec_ring().spec_tokens(),
                )[k as int]);
                assert(ow@[k as int].1@ == tokens_of_id(
                    self.spec_ring().spec_tokens(),
                    ow@[k as int].0,
                ));
                lemma_tokens_of_id_len(toks, id);
                if total == 0 {
                    assert(ids.len() == 0);
                }
            }
            let ghost before = out@;
            push_node_line(&mut out, &self.ring, id, count, total);
            proof {
                lemma_distinct_ids_take_step_line(toks, reg, ids, k as int);
                assert(out@ =~= header + "\nNode Ownership:\n"@ + node_lines_chars(
                    toks,
                    reg,
                    ids.take(k as int),
                ) + node_line_chars(toks, reg, id));
            }
            k = k + 1;
        }
        proof {
            assert(ids.take(ids.len() as int) =~= ids);
        }
        out
    }
}

/// Appends a percentage in hundredths as digits, a point, and a two-digit
/// fraction.
fn push_pct(out: &mut String, h: usize)
    ensures
        final(out)@ == old(out)@ + pct_chars(h as nat),
{
    push_dec(out, h / 100);
    out.append(".");
    let frac = h % 100;
    if frac < 10 {
        out.append("0");
        push_dec(out, frac);
    } else {
        push_dec(out, frac);
    }
    proof {
        reveal_strlit(".");
        reveal_strlit("0");
        assert(seq!['.'] =~= "."@);
        if (h % 100) < 10 {
            assert(seq!['0', digit_char((h % 100) as nat)] =~= "0"@ + dec_chars((h % 100) as nat));
        }
        assert(out@ =~= old(out)@ + pct_chars(h as nat));
    }
}

/// Appends one ownership report line for `id` to `out`.
#[verifier::rlimit(100)]
fn push_node_line(out: &mut String, ring: &HashRing, id: NodeId, count: usize, total: usize)
    requires
        count == tokens_of_id(ring.spec_tokens(), id).len(),
        total == ring.spec_tokens().len(),
        count <= total,
        0 < total,
    ensures
        final(out)@ == old(out)@ + node_line_chars(ring.spec_tokens(), ring.spec_registry(), id),
{
    let ghost toks = ring.spec_tokens();
    let ghost reg = ring.spec_registry();
    out.append("  Node ");
    push_hex(out, id.0, 32);
    out.append(" (");
    match ring.get_node(&id) {
        Some(n) => out.append(n.name.as_str()),
        None => out.append("unknown"),
    }
    out.append("): ");
    push_dec(out, count);
    out.append(" tokens (");
    // The share in hundredths of a percent, truncated; it never exceeds
    // ten thousand because the count never exceeds the total.
    proof {
        assert(count as int * 10000 <= total as int * 10000) by (nonlinear_arith)
            requires
                count <= total,
        ;
    }
    let h128: u128 = (count as u128) * 10000 / (total as u128);
    proof {
        vstd::arithmetic::div_mod::lemma_div_is_ordered(
            count as int * 10000,
            total as int * 10000,
            total as int,
        );
        vstd::arithmetic::div_mod::lemma_div_by_multiple(10000, total as int);
        assert(h128 <= 10000);
        assert(h128 as nat == percent_hundredths(count as nat, toks.len()));
    }
    push_pct(out, h128 as usize);
    out.append("%)\n");
    proof {
        assert(out@ =~= old(out)@ + node_line_chars(toks, reg, id));
    }
}

/// Extending the reported prefix by one id appends exactly that id's line.
proof fn lemma_distinct_ids_take_step_line(
    toks: Seq<(Murmur3Token, NodeId)>,
    reg: Seq<NodeEntry>,
    ids: Seq<NodeId>,
    k: int,
)
    requires
        0 <= k < ids.len(),
    ensures
        node_lines_chars(toks, reg, ids.take(k + 1)) == node_lines_chars(toks, reg, ids.take(k))
            + node_line_chars(toks, reg, ids[k]),
{
    let u = ids.take(k + 1);
    assert(u.drop_last() =~= ids.take(k));
    assert(u.last() == ids[k]);
}

} // verus!
