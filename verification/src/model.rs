//! The mathematical model of a decoded mesh, defined over the raw bytes
//! alone.
//!
//! `mesh_vertices` lists the distinct corner vertices of the file in order of
//! first appearance; a corner's output index is its position in that list.
//! `mesh_edges` lists the first-emitted orientation of each unordered index
//! pair, in order of first appearance. The decoder's contract states its
//! outputs in terms of these functions.

use vstd::prelude::*;

use crate::edge::{
    dedup_edges, edge_key, lemma_dedup_edges_distinct, lemma_dedup_edges_len, Edge,
};
use crate::stl_bytes::{corner_vertex, corners, spec_triangle_count};
use crate::vertex::{
    dedup_vertices, lemma_dedup_vertices_contains, lemma_dedup_vertices_distinct, Vertex,
};

verus! {

/// How many elements of `s` equal `v`.
pub open spec fn count_occ(s: Seq<Vertex>, v: Vertex) -> int
    decreases s.len(),
{
    if s.len() == 0 {
        0
    } else {
        count_occ(s.drop_last(), v) + if s.last() == v {
            1int
        } else {
            0int
        }
    }
}

/// Appending one element raises exactly that element's count by one.
pub proof fn lemma_count_occ_push(s: Seq<Vertex>, v: Vertex, w: Vertex)
    ensures
        count_occ(s.push(w), v) == count_occ(s, v) + if w == v {
            1int
        } else {
            0int
        },
{
    assert(s.push(w).drop_last() =~= s);
}

/// Counts are never negative and never exceed the length.
pub proof fn lemma_count_occ_bounds(s: Seq<Vertex>, v: Vertex)
    ensures
        0 <= count_occ(s, v) <= s.len(),
    decreases s.len(),
{
    if s.len() > 0 {
        lemma_count_occ_bounds(s.drop_last(), v);
    }
}

/// A value that does not occur has count zero.
pub proof fn lemma_count_occ_absent(s: Seq<Vertex>, v: Vertex)
    requires
        !s.contains(v),
    ensures
        count_occ(s, v) == 0,
    decreases s.len(),
{
    if s.len() > 0 {
        assert(!s.drop_last().contains(v)) by {
            if s.drop_last().contains(v) {
                let i = choose|i: int| 0 <= i < s.drop_last().len() && s.drop_last()[i] == v;
                assert(s[i] == v);
            }
        }
        assert(s.last() != v) by {
            assert(s[s.len() - 1] == s.last());
        }
        lemma_count_occ_absent(s.drop_last(), v);
    }
}

/// The sum of a sequence of counters, as a mathematical integer.
pub open spec fn sum_u64(s: Seq<u64>) -> int
    decreases s.len(),
{
    if s.len() == 0 {
        0
    } else {
        sum_u64(s.drop_last()) + s.last()
    }
}

/// Appending a counter adds its value to the sum.
pub proof fn lemma_sum_u64_push(s: Seq<u64>, x: u64)
    ensures
        sum_u64(s.push(x)) == sum_u64(s) + x,
{
    assert(s.push(x).drop_last() =~= s);
}

/// Replacing one counter changes the sum by the difference.
pub proof fn lemma_sum_u64_update(s: Seq<u64>, i: int, x: u64)
    requires
        0 <= i < s.len(),
    ensures
        sum_u64(s.update(i, x)) == sum_u64(s) - s[i] + x,
    decreases s.len(),
{
    if i == s.len() - 1 {
        assert(s.update(i, x).drop_last() =~= s.drop_last());
        assert(s.update(i, x).last() == x);
    } else {
        assert(s.update(i, x).drop_last() =~= s.drop_last().update(i, x));
        assert(s.update(i, x).last() == s.last());
        lemma_sum_u64_update(s.drop_last(), i, x);
    }
}

/// Whether no value appears twice in `s`.
pub open spec fn is_distinct(s: Seq<Vertex>) -> bool {
    forall|i: int, j: int| 0 <= i < j < s.len() ==> s[i] != s[j]
}

/// The position of `v` in `s`. Meaningful only when `s` contains `v`; unique
/// when `s` is distinct.
pub open spec fn index_in(s: Seq<Vertex>, v: Vertex) -> int {
    choose|i: int| 0 <= i < s.len() && s[i] == v
}

/// In a distinct sequence, `index_in` returns the one position that holds `v`.
pub proof fn lemma_index_in_unique(s: Seq<Vertex>, v: Vertex, i: int)
    requires
        is_distinct(s),
        0 <= i < s.len(),
        s[i] == v,
    ensures
        index_in(s, v) == i,
{
    assert(exists|n: int| 0 <= n < s.len() && s[n] == v);
    let n = index_in(s, v);
    assert(0 <= n < s.len() && s[n] == v);
}

/// Every corner of every declared triangle, in processing order.
pub open spec fn all_corners(b: Seq<u8>) -> Seq<Vertex> {
    corners(b, 3 * spec_triangle_count(b))
}

/// The distinct vertices of the file, in order of first appearance; a
/// vertex's position here is its assigned output index.
pub open spec fn mesh_vertices(b: Seq<u8>) -> Seq<Vertex> {
    dedup_vertices(all_corners(b))
}

/// The number of distinct vertices the file decodes to.
pub open spec fn mesh_vertex_count(b: Seq<u8>) -> int {
    mesh_vertices(b).len() as int
}

/// The output index that corner `k` resolves to.
pub open spec fn mesh_index(b: Seq<u8>, k: int) -> int {
    index_in(mesh_vertices(b), corner_vertex(b, k))
}

/// The full vertex-index output: three entries per triangle.
pub open spec fn mesh_indices(b: Seq<u8>) -> Seq<u32> {
    Seq::new((3 * spec_triangle_count(b)) as nat, |k: int| mesh_index(b, k) as u32)
}

/// Edge slot `m` of an index sequence: triangle `m / 3` contributes its three
/// corner pairs with wraparound, `(c0,c1)`, `(c1,c2)`, `(c2,c0)`.
pub open spec fn edge_slot(idx: Seq<u32>, m: int) -> Edge {
    Edge { a: idx[3 * (m / 3) + m % 3], b: idx[3 * (m / 3) + (m % 3 + 1) % 3] }
}

/// The first `n` edge slots of an index sequence, in emission order.
pub open spec fn edge_slots(idx: Seq<u32>, n: int) -> Seq<Edge> {
    Seq::new(n as nat, |m: int| edge_slot(idx, m))
}

/// The deduplicated wireframe edges of the file, in order of first emission.
pub open spec fn mesh_edges(b: Seq<u8>) -> Seq<Edge> {
    dedup_edges(edge_slots(mesh_indices(b), 3 * spec_triangle_count(b)))
}

/// The number of unique edges the file decodes to.
pub open spec fn mesh_edge_count(b: Seq<u8>) -> int {
    mesh_edges(b).len() as int
}

/// The assigned vertex indices collapse bit-identical corners and separate
/// all others: two corners resolve to the same output index exactly when
/// every coordinate's bit pattern matches.
pub proof fn lemma_bit_identical_vertices_collapse(b: Seq<u8>, k1: int, k2: int)
    requires
        0 <= k1 < 3 * spec_triangle_count(b),
        0 <= k2 < 3 * spec_triangle_count(b),
    ensures
        mesh_index(b, k1) == mesh_index(b, k2) <==> corner_vertex(b, k1) == corner_vertex(b, k2),
{
    let ac = all_corners(b);
    let mv = mesh_vertices(b);
    let c1 = corner_vertex(b, k1);
    let c2 = corner_vertex(b, k2);
    assert(ac[k1] == c1);
    assert(ac[k2] == c2);
    assert(ac.contains(c1));
    assert(ac.contains(c2));
    lemma_dedup_vertices_contains(ac, c1);
    lemma_dedup_vertices_contains(ac, c2);
    lemma_dedup_vertices_distinct(ac);
    let i1 = mesh_index(b, k1);
    let i2 = mesh_index(b, k2);
    assert(0 <= i1 < mv.len() && mv[i1] == c1);
    assert(0 <= i2 < mv.len() && mv[i2] == c2);
}

/// Each unordered index pair is recorded at most once, and no more than three
/// edges per triangle are ever recorded.
pub proof fn lemma_edges_recorded_once(b: Seq<u8>)
    ensures
        forall|m1: int, m2: int|
            0 <= m1 < m2 < mesh_edges(b).len() ==> edge_key(mesh_edges(b)[m1]) != edge_key(
                mesh_edges(b)[m2],
            ),
        mesh_edge_count(b) <= 3 * spec_triangle_count(b),
{
    let slots = edge_slots(mesh_indices(b), 3 * spec_triangle_count(b));
    lemma_dedup_edges_distinct(slots);
    lemma_dedup_edges_len(slots);
}

} // verus!
