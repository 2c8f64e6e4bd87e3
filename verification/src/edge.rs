//! Edges as unordered pairs of output vertex indices, and the set that
//! deduplicates them.
//!
//! An edge keeps the endpoint order in which it was first emitted, but two
//! edges count as the same whenever they join the same pair of indices:
//! `(a, b)` and `(b, a)` are one edge. The canonical form used for that
//! comparison is the pair sorted by value.

use vstd::prelude::*;

verus! {

/// One wireframe edge, as the two output vertex indices in the order the
/// emitting triangle listed them. A degenerate self-edge `(a, a)` is a valid
/// value and deduplicates like any other edge.
#[derive(Clone, Copy, PartialEq, Eq, Structural, Debug)]
pub struct Edge {
    pub a: u32,
    pub b: u32,
}

/// The canonical (smaller, larger) form of an edge; `(a, b)` and `(b, a)`
/// share one key.
pub open spec fn edge_key(e: Edge) -> (u32, u32) {
    if e.a <= e.b {
        (e.a, e.b)
    } else {
        (e.b, e.a)
    }
}

/// Whether some edge of `s` joins the same index pair as `e`.
pub open spec fn contains_edge(s: Seq<Edge>, e: Edge) -> bool {
    exists|i: int| 0 <= i < s.len() && edge_key(s[i]) == edge_key(e)
}

/// The edges of `s` with every repetition of an index pair dropped, keeping
/// the first-emitted orientation of each pair, in order of first appearance.
pub open spec fn dedup_edges(s: Seq<Edge>) -> Seq<Edge>
    decreases s.len(),
{
    if s.len() == 0 {
        Seq::empty()
    } else {
        let prefix = dedup_edges(s.drop_last());
        if contains_edge(prefix, s.last()) {
            prefix
        } else {
            prefix.push(s.last())
        }
    }
}

/// How `dedup_edges` changes when one edge is appended.
pub proof fn lemma_dedup_edges_push(s: Seq<Edge>, e: Edge)
    ensures
        dedup_edges(s.push(e)) == if contains_edge(dedup_edges(s), e) {
            dedup_edges(s)
        } else {
            dedup_edges(s).push(e)
        },
{
    assert(s.push(e).drop_last() =~= s);
    assert(s.push(e).last() == e);
}

/// No index pair appears twice among the deduplicated edges.
pub proof fn lemma_dedup_edges_distinct(s: Seq<Edge>)
    ensures
        forall|i: int, j: int|
            0 <= i < j < dedup_edges(s).len() ==> edge_key(dedup_edges(s)[i]) != edge_key(
                dedup_edges(s)[j],
            ),
    decreases s.len(),
{
    if s.len() > 0 {
        lemma_dedup_edges_distinct(s.drop_last());
        let prefix = dedup_edges(s.drop_last());
        if !contains_edge(prefix, s.last()) {
            assert forall|i: int, j: int|
                0 <= i < j < dedup_edges(s).len() implies edge_key(dedup_edges(s)[i]) != edge_key(
                dedup_edges(s)[j],
            ) by {
                if j == prefix.len() {
                    assert(prefix[i] == dedup_edges(s)[i]);
                    assert(!(edge_key(prefix[i]) == edge_key(s.last())));
                }
            }
        }
    }
}

/// Deduplication never lengthens the edge list.
pub proof fn lemma_dedup_edges_len(s: Seq<Edge>)
    ensures
        dedup_edges(s).len() <= s.len(),
    decreases s.len(),
{
    if s.len() > 0 {
        lemma_dedup_edges_len(s.drop_last());
    }
}

/// A shorter prefix of the input yields a prefix of the deduplicated output.
pub proof fn lemma_dedup_edges_take_prefix(s: Seq<Edge>, n: int)
    requires
        0 <= n <= s.len(),
    ensures
        dedup_edges(s.take(n)).is_prefix_of(dedup_edges(s)),
    decreases s.len(),
{
    if n == s.len() {
        assert(s.take(n) =~= s);
    } else {
        lemma_dedup_edges_take_prefix(s.drop_last(), n);
        assert(s.drop_last().take(n) =~= s.take(n));
        let prefix = dedup_edges(s.drop_last());
        assert(prefix.is_prefix_of(dedup_edges(s)));
    }
}

/// The edges already emitted, in emission order. Its invariant is that no
/// index pair appears twice, so membership in this sequence decides whether a
/// triangle edge still has to be emitted.
pub struct EdgeSet {
    entries: Vec<Edge>,
}

impl EdgeSet {
    pub closed spec fn view(&self) -> Seq<Edge> {
        self.entries@
    }

    pub fn new() -> (r: EdgeSet)
        ensures
            r@ == Seq::<Edge>::empty(),
    {
        EdgeSet { entries: Vec::new() }
    }

    pub fn len(&self) -> (r: usize)
        ensures
            r == self@.len(),
    {
        self.entries.len()
    }

    /// Whether an edge joining the same index pair was already emitted.
    pub fn contains(&self, e: Edge) -> (r: bool)
        ensures
            r == contains_edge(self@, e),
    {
        let n = self.entries.len();
        for i in 0..n
            invariant
                n == self@.len(),
                forall|k: int| 0 <= k < i ==> edge_key(self@[k]) != edge_key(e),
        {
            let c = self.entries[i];
            if (c.a == e.a && c.b == e.b) || (c.a == e.b && c.b == e.a) {
                assert(edge_key(self@[i as int]) == edge_key(e));
                return true;
            }
            assert(edge_key(self@[i as int]) != edge_key(e));
        }
        false
    }

    /// Record an edge whose index pair is not yet present.
    pub fn insert(&mut self, e: Edge)
        requires
            !contains_edge(old(self)@, e),
        ensures
            final(self)@ == old(self)@.push(e),
    {
        self.entries.push(e);
    }
}

} // verus!
