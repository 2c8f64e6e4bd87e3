//! Vertices as coordinate bit patterns, and the interner that deduplicates
//! them.
//!
//! Two vertices are the same exactly when every coordinate's 32-bit pattern
//! matches; there is no epsilon comparison. The interner assigns each distinct
//! vertex the next free output index, in order of first appearance.

use vstd::prelude::*;

verus! {

/// One vertex position, each coordinate held as the little-endian 32-bit
/// pattern read from the file. Equality is field equality, which is exactly
/// the bit-pattern equality the mesh deduplication is defined over.
#[derive(Clone, Copy, PartialEq, Eq, Structural, Debug)]
pub struct Vertex {
    pub x: u32,
    pub y: u32,
    pub z: u32,
}

/// The distinct elements of `s` in order of first appearance.
pub open spec fn dedup_vertices(s: Seq<Vertex>) -> Seq<Vertex>
    decreases s.len(),
{
    if s.len() == 0 {
        Seq::empty()
    } else {
        let prefix = dedup_vertices(s.drop_last());
        if prefix.contains(s.last()) {
            prefix
        } else {
            prefix.push(s.last())
        }
    }
}

/// How `dedup_vertices` changes when one element is appended.
pub proof fn lemma_dedup_vertices_push(s: Seq<Vertex>, v: Vertex)
    ensures
        dedup_vertices(s.push(v)) == if dedup_vertices(s).contains(v) {
            dedup_vertices(s)
        } else {
            dedup_vertices(s).push(v)
        },
{
    assert(s.push(v).drop_last() =~= s);
    assert(s.push(v).last() == v);
}

/// Deduplication keeps exactly the values of the input sequence.
pub proof fn lemma_dedup_vertices_contains(s: Seq<Vertex>, v: Vertex)
    ensures
        dedup_vertices(s).contains(v) <==> s.contains(v),
    decreases s.len(),
{
    if s.len() > 0 {
        lemma_dedup_vertices_contains(s.drop_last(), v);
        let d = dedup_vertices(s);
        let prefix = dedup_vertices(s.drop_last());
        if s.contains(v) {
            let i = choose|i: int| 0 <= i < s.len() && s[i] == v;
            if i < s.len() - 1 {
                assert(s.drop_last()[i] == v);
                assert(s.drop_last().contains(v));
            } else {
                assert(s.last() == v);
            }
        }
        if s.drop_last().contains(v) {
            let i = choose|i: int| 0 <= i < s.drop_last().len() && s.drop_last()[i] == v;
            assert(s[i] == v);
        }
        if s.last() == v {
            assert(s[s.len() - 1] == v);
        }
        if !prefix.contains(s.last()) {
            if prefix.contains(v) {
                let i = choose|i: int| 0 <= i < prefix.len() && prefix[i] == v;
                assert(d[i] == v);
            }
            if d.contains(v) {
                let i = choose|i: int| 0 <= i < d.len() && d[i] == v;
                if i < prefix.len() {
                    assert(prefix[i] == v);
                } else {
                    assert(v == s.last());
                }
            }
            if v == s.last() {
                assert(d[prefix.len() as int] == v);
            }
        }
    }
}

/// No value appears twice in the deduplicated sequence.
pub proof fn lemma_dedup_vertices_distinct(s: Seq<Vertex>)
    ensures
        forall|i: int, j: int|
            0 <= i < j < dedup_vertices(s).len() ==> dedup_vertices(s)[i] != dedup_vertices(s)[j],
    decreases s.len(),
{
    if s.len() > 0 {
        lemma_dedup_vertices_distinct(s.drop_last());
        let prefix = dedup_vertices(s.drop_last());
        if !prefix.contains(s.last()) {
            assert forall|i: int, j: int|
                0 <= i < j < dedup_vertices(s).len() implies dedup_vertices(s)[i]
                != dedup_vertices(s)[j] by {
                if j == prefix.len() {
                    assert(prefix[i] == dedup_vertices(s)[i]);
                }
            }
        }
    }
}

/// A shorter prefix of the input yields a prefix of the deduplicated output.
pub proof fn lemma_dedup_vertices_take_prefix(s: Seq<Vertex>, n: int)
    requires
        0 <= n <= s.len(),
    ensures
        dedup_vertices(s.take(n)).is_prefix_of(dedup_vertices(s)),
    decreases s.len(),
{
    if n == s.len() {
        assert(s.take(n) =~= s);
    } else {
        lemma_dedup_vertices_take_prefix(s.drop_last(), n);
        assert(s.drop_last().take(n) =~= s.take(n));
        let prefix = dedup_vertices(s.drop_last());
        assert(prefix.is_prefix_of(dedup_vertices(s)));
    }
}

/// The interner: the distinct vertices seen so far, in order of first
/// appearance; a vertex's position in this sequence is its assigned output
/// index.
pub struct VertexInterner {
    entries: Vec<Vertex>,
}

impl VertexInterner {
    pub closed spec fn view(&self) -> Seq<Vertex> {
        self.entries@
    }

    pub fn new() -> (r: VertexInterner)
        ensures
            r@ == Seq::<Vertex>::empty(),
    {
        VertexInterner { entries: Vec::new() }
    }

    pub fn len(&self) -> (r: usize)
        ensures
            r == self@.len(),
    {
        self.entries.len()
    }

    /// The assigned index of `v`, if `v` has been interned.
    pub fn find(&self, v: Vertex) -> (r: Option<usize>)
        ensures
            match r {
                Some(i) => i < self@.len() && self@[i as int] == v,
                None => !self@.contains(v),
            },
    {
        let n = self.entries.len();
        for i in 0..n
            invariant
                n == self@.len(),
                forall|k: int| 0 <= k < i ==> self@[k] != v,
        {
            let e = self.entries[i];
            if e.x == v.x && e.y == v.y && e.z == v.z {
                return Some(i);
            }
        }
        None
    }

    /// Intern a vertex that is not yet present, assigning it the next index.
    pub fn insert(&mut self, v: Vertex)
        requires
            !old(self)@.contains(v),
        ensures
            final(self)@ == old(self)@.push(v),
    {
        self.entries.push(v);
    }
}

} // verus!
