//! The decoder: header validation, capacity preflight, and the streaming
//! per-triangle parse loop.
//!
//! One call processes one byte buffer to completion or to first failure. The
//! four caller-owned outputs are the vertex buffer (coordinate bit patterns,
//! stride 3), the per-triangle vertex-index buffer, the wireframe edge-index
//! buffer, and — validated here but filled by the caller's numeric layer —
//! the normal buffer, represented by its length. The call reports how many
//! elements of each output are meaningful, together with the per-vertex
//! adjacency counts that normal averaging divides by.

use vstd::arithmetic::div_mod::lemma_fundamental_div_mod_converse;
use vstd::prelude::*;

use crate::edge::{
    contains_edge, dedup_edges, lemma_dedup_edges_push, lemma_dedup_edges_take_prefix, Edge,
    EdgeSet,
};
use crate::error::{BufferKind, StlError};
use crate::model::{
    all_corners, count_occ, edge_slot, edge_slots, lemma_count_occ_absent,
    lemma_count_occ_bounds, lemma_count_occ_push, lemma_index_in_unique, lemma_sum_u64_push,
    lemma_sum_u64_update, mesh_edge_count, mesh_edges, mesh_index, mesh_indices,
    mesh_vertex_count, mesh_vertices, sum_u64,
};
use crate::stl_bytes::{
    corner_vertex, corners, le_u32_at, read_u32_le, read_vertex, spec_triangle_count, FRAMES_START,
    FRAME_SIZE, HEADER_LEN,
};
use crate::vertex::{
    dedup_vertices, lemma_dedup_vertices_contains, lemma_dedup_vertices_distinct,
    lemma_dedup_vertices_push, lemma_dedup_vertices_take_prefix, Vertex, VertexInterner,
};

verus! {

/// The file is long enough to hold the header and the triangle count.
pub open spec fn header_ok(b: Seq<u8>) -> bool {
    b.len() >= FRAMES_START
}

/// The file is long enough to hold every declared 50-byte triangle frame.
pub open spec fn frames_ok(b: Seq<u8>) -> bool {
    header_ok(b) && b.len() >= FRAMES_START + FRAME_SIZE * spec_triangle_count(b)
}

/// Preflight bound for the vertex and normal buffers: a capacity hint
/// assuming each vertex is shared by about two triangles, not an exact bound.
pub open spec fn vertex_buffer_required(t: int) -> int {
    3 * (t / 2 + 2)
}

/// Preflight bound for the two index buffers: exact for vertex indices, a
/// hard minimum for edge indices (the true worst case is twice as much).
pub open spec fn index_buffer_required(t: int) -> int {
    3 * t
}

/// Whether all four output buffers pass the capacity preflight for `t`
/// declared triangles.
pub open spec fn preflight_ok(t: int, v_len: int, n_len: int, vi_len: int, ei_len: int) -> bool {
    &&& v_len >= vertex_buffer_required(t)
    &&& n_len >= vertex_buffer_required(t)
    &&& vi_len >= index_buffer_required(t)
    &&& ei_len >= index_buffer_required(t)
}

/// Whether the mesh the file actually decodes to fits the buffers, so that no
/// defensive in-loop bounds check fires: the distinct vertices fit the vertex
/// and normal buffers and the index width, and the unique edges fit the
/// edge-index buffer.
pub open spec fn loop_fits(b: Seq<u8>, v_len: int, n_len: int, ei_len: int) -> bool {
    &&& 3 * mesh_vertex_count(b) <= v_len
    &&& 3 * mesh_vertex_count(b) <= n_len
    &&& mesh_vertex_count(b) <= 0x1_0000_0000
    &&& 2 * mesh_edge_count(b) <= ei_len
}

/// Exactly when a parse call succeeds: the header and every frame are
/// present, the preflight passes, and the decoded mesh fits the buffers.
pub open spec fn parse_succeeds(
    b: Seq<u8>,
    v_len: int,
    n_len: int,
    vi_len: int,
    ei_len: int,
) -> bool {
    &&& frames_ok(b)
    &&& preflight_ok(spec_triangle_count(b), v_len, n_len, vi_len, ei_len)
    &&& loop_fits(b, v_len, n_len, ei_len)
}

/// What a successful parse leaves in the outputs, stated over the mesh model
/// of the input bytes.
pub open spec fn parse_output_correct(
    b: Seq<u8>,
    old_vertices: Seq<u32>,
    new_vertices: Seq<u32>,
    normals_len: int,
    old_v_indices: Seq<u32>,
    new_v_indices: Seq<u32>,
    old_e_indices: Seq<u32>,
    new_e_indices: Seq<u32>,
    vertex_count: int,
    edge_entry_count: int,
    adjacency: Seq<u64>,
) -> bool {
    let t = spec_triangle_count(b);
    let mv = mesh_vertices(b);
    let me = mesh_edges(b);
    &&& vertex_count == mv.len()
    &&& adjacency.len() == mv.len()
    &&& forall|w: int|
        0 <= w < mv.len() ==> new_vertices[3 * w] == #[trigger] mv[w].x && new_vertices[3 * w + 1]
            == mv[w].y && new_vertices[3 * w + 2] == mv[w].z
    &&& forall|p: int|
        3 * mv.len() <= p < new_vertices.len() ==> #[trigger] new_vertices[p] == old_vertices[p]
    &&& forall|k: int| 0 <= k < 3 * t ==> #[trigger] new_v_indices[k] == mesh_indices(b)[k]
    &&& forall|k: int|
        3 * t <= k < new_v_indices.len() ==> #[trigger] new_v_indices[k] == old_v_indices[k]
    &&& forall|w: int|
        0 <= w < mv.len() ==> #[trigger] adjacency[w] as int == count_occ(all_corners(b), mv[w])
            && adjacency[w] >= 1
    &&& sum_u64(adjacency) == 3 * t
    &&& edge_entry_count == 2 * me.len()
    &&& edge_entry_count <= 6 * t
    &&& forall|m: int|
        0 <= m < me.len() ==> new_e_indices[2 * m] == #[trigger] me[m].a && new_e_indices[2 * m
            + 1] == me[m].b
    &&& forall|p: int|
        2 * me.len() <= p < new_e_indices.len() ==> #[trigger] new_e_indices[p] == old_e_indices[p]
    &&& forall|k: int|
        0 <= k < 3 * t ==> 3 * (#[trigger] new_v_indices[k] as int) + 2 < normals_len && (
        new_v_indices[k] as int) < vertex_count
}

/// The counts a successful parse reports back, so the caller need not infer
/// from buffer contents how much of each output is meaningful.
#[derive(Debug)]
pub struct ParseOutput {
    /// Number of distinct vertices assigned. Entries `[0, 3 * vertex_count)`
    /// of the vertex and normal buffers are meaningful.
    pub vertex_count: usize,
    /// Number of entries written to the edge-index buffer: two per unique
    /// edge.
    pub edge_entry_count: usize,
    /// One counter per assigned vertex: how many triangle corners resolved to
    /// it. The divisor for averaging that vertex's accumulated normal.
    pub adjacency: Vec<u64>,
}

/// Capacity preflight: reject undersized caller buffers, in a fixed order
/// (vertices, normals, vertex indices, edge indices), before anything is
/// written. Lengths count elements, not bytes.
pub fn check_sufficient_memory(
    num_triangles: u32,
    vertices_len: usize,
    normals_len: usize,
    v_indices_len: usize,
    e_indices_len: usize,
) -> (r: Option<StlError>)
    ensures
        r is None <==> preflight_ok(
            num_triangles as int,
            vertices_len as int,
            normals_len as int,
            v_indices_len as int,
            e_indices_len as int,
        ),
        vertices_len < vertex_buffer_required(num_triangles as int) ==> r == Some(
            StlError::InsufficientVertexBuffer {
                len: vertices_len as u64,
                required: vertex_buffer_required(num_triangles as int) as u64,
            },
        ),
        vertices_len >= vertex_buffer_required(num_triangles as int) && normals_len
            < vertex_buffer_required(num_triangles as int) ==> r == Some(
            StlError::InsufficientNormalBuffer {
                len: normals_len as u64,
                required: vertex_buffer_required(num_triangles as int) as u64,
            },
        ),
        vertices_len >= vertex_buffer_required(num_triangles as int) && normals_len
            >= vertex_buffer_required(num_triangles as int) && v_indices_len
            < index_buffer_required(num_triangles as int) ==> r == Some(
            StlError::InsufficientVertexIndexBuffer {
                len: v_indices_len as u64,
                required: index_buffer_required(num_triangles as int) as u64,
            },
        ),
        vertices_len >= vertex_buffer_required(num_triangles as int) && normals_len
            >= vertex_buffer_required(num_triangles as int) && v_indices_len
            >= index_buffer_required(num_triangles as int) && e_indices_len
            < index_buffer_required(num_triangles as int) ==> r == Some(
            StlError::InsufficientEdgeIndexBuffer {
                len: e_indices_len as u64,
                required: index_buffer_required(num_triangles as int) as u64,
            },
        ),
{
    let t = num_triangles as u64;
    let point_req: u64 = 3 * (t / 2 + 2);
    if (vertices_len as u64) < point_req {
        return Some(
            StlError::InsufficientVertexBuffer { len: vertices_len as u64, required: point_req },
        );
    }
    if (normals_len as u64) < point_req {
        return Some(
            StlError::InsufficientNormalBuffer { len: normals_len as u64, required: point_req },
        );
    }
    let index_req: u64 = 3 * t;
    if (v_indices_len as u64) < index_req {
        return Some(
            StlError::InsufficientVertexIndexBuffer {
                len: v_indices_len as u64,
                required: index_req,
            },
        );
    }
    if (e_indices_len as u64) < index_req {
        return Some(
            StlError::InsufficientEdgeIndexBuffer {
                len: e_indices_len as u64,
                required: index_req,
            },
        );
    }
    None
}

/// Emit one triangle edge unless an edge with the same index pair was already
/// emitted: append its endpoints at the write cursor and record it, after a
/// bounds check against the edge-index buffer.
fn emit_edge(
    eset: &mut EdgeSet,
    e_indices: &mut Vec<u32>,
    epos: &mut usize,
    e: Edge,
    tri: usize,
) -> (r: Option<StlError>)
    requires
        *old(epos) == 2 * old(eset)@.len(),
        *old(epos) <= old(e_indices)@.len(),
        forall|m: int|
            0 <= m < old(eset)@.len() ==> old(e_indices)@[2 * m]
                == (#[trigger] old(eset)@[m]).a && old(e_indices)@[2 * m + 1]
                == old(eset)@[m].b,
    ensures
        final(e_indices)@.len() == old(e_indices)@.len(),
        *final(epos) == 2 * final(eset)@.len(),
        *final(epos) <= final(e_indices)@.len(),
        forall|m: int|
            0 <= m < final(eset)@.len() ==> final(e_indices)@[2 * m]
                == (#[trigger] final(eset)@[m]).a && final(e_indices)@[2 * m + 1]
                == final(eset)@[m].b,
        forall|p: int|
            *final(epos) <= p < old(e_indices)@.len() ==> #[trigger] final(e_indices)@[p]
                == old(e_indices)@[p],
        r is None ==> final(eset)@ == if contains_edge(old(eset)@, e) {
            old(eset)@
        } else {
            old(eset)@.push(e)
        },
        r is Some ==> {
            &&& final(eset)@ == old(eset)@
            &&& final(e_indices)@ == old(e_indices)@
            &&& *final(epos) == *old(epos)
            &&& !contains_edge(old(eset)@, e)
            &&& old(e_indices)@.len() < *old(epos) + 2
            &&& r == Some(
                StlError::BoundsExceededDuringParse {
                    buffer: BufferKind::EdgeIndices,
                    index: *old(epos),
                    triangle: tri,
                },
            )
        },
{
    if eset.contains(e) {
        return None;
    }
    let p = *epos;
    if e_indices.len() - p < 2 {
        return Some(
            StlError::BoundsExceededDuringParse {
                buffer: BufferKind::EdgeIndices,
                index: p,
                triangle: tri,
            },
        );
    }
    e_indices.set(p, e.a);
    e_indices.set(p + 1, e.b);
    *epos = p + 2;
    eset.insert(e);
    None
}


/// Integrate one triangle: resolve its three corners through the interner
/// (writing any new vertex and its adjacency counter), record the three
/// resolved indices, and emit its not-yet-seen edges. Carries the parse
/// loop's state from triangle `i` to triangle `i + 1`, or stops with the
/// first defensive bounds failure.
#[verifier::loop_isolation(false)]
#[verifier::rlimit(100)]
fn process_triangle(
    buf: &Vec<u8>,
    vertices: &mut Vec<u32>,
    normals_len: usize,
    v_indices: &mut Vec<u32>,
    e_indices: &mut Vec<u32>,
    interner: &mut VertexInterner,
    eset: &mut EdgeSet,
    adjacency: &mut Vec<u64>,
    vpos: &mut usize,
    epos: &mut usize,
    i: usize,
) -> (r: Option<StlError>)
    requires
        (i as int) < spec_triangle_count(buf@),
        buf@.len() >= FRAMES_START + FRAME_SIZE * spec_triangle_count(buf@),
        old(v_indices)@.len() >= index_buffer_required(spec_triangle_count(buf@)),
        old(interner)@ == dedup_vertices(corners(buf@, 3 * (i as int))),
        old(interner)@.len() <= 0x1_0000_0000,
        *old(vpos) as int == 3 * old(interner)@.len(),
        *old(vpos) <= old(vertices)@.len(),
        *old(vpos) <= normals_len,
        forall|w: int|
            0 <= w < old(interner)@.len() ==> old(vertices)@[3 * w]
                == (#[trigger] old(interner)@[w]).x && old(vertices)@[3 * w + 1]
                == old(interner)@[w].y && old(vertices)@[3 * w + 2] == old(interner)@[w].z,
        forall|k: int|
            0 <= k < 3 * (i as int) ==> #[trigger] old(v_indices)@[k] == mesh_indices(buf@)[k],
        old(adjacency)@.len() == old(interner)@.len(),
        forall|w: int|
            0 <= w < old(interner)@.len() ==> #[trigger] old(adjacency)@[w] as int == count_occ(
                corners(buf@, 3 * (i as int)),
                old(interner)@[w],
            ),
        sum_u64(old(adjacency)@) == 3 * (i as int),
        old(eset)@ == dedup_edges(edge_slots(mesh_indices(buf@), 3 * (i as int))),
        *old(epos) as int == 2 * old(eset)@.len(),
        *old(epos) <= old(e_indices)@.len(),
        forall|m: int|
            0 <= m < old(eset)@.len() ==> old(e_indices)@[2 * m]
                == (#[trigger] old(eset)@[m]).a && old(e_indices)@[2 * m + 1]
                == old(eset)@[m].b,
    ensures
        final(vertices)@.len() == old(vertices)@.len(),
        final(v_indices)@.len() == old(v_indices)@.len(),
        final(e_indices)@.len() == old(e_indices)@.len(),
        r is None ==> {
            &&& *final(vpos) >= *old(vpos)
            &&& *final(epos) >= *old(epos)
            &&& final(interner)@ == dedup_vertices(corners(buf@, 3 * (i as int) + 3))
            &&& final(interner)@.len() <= 0x1_0000_0000
            &&& *final(vpos) as int == 3 * final(interner)@.len()
            &&& *final(vpos) <= final(vertices)@.len()
            &&& *final(vpos) <= normals_len
            &&& forall|w: int|
                0 <= w < final(interner)@.len() ==> final(vertices)@[3 * w]
                    == (#[trigger] final(interner)@[w]).x && final(vertices)@[3 * w + 1]
                    == final(interner)@[w].y && final(vertices)@[3 * w + 2]
                    == final(interner)@[w].z
            &&& forall|p: int|
                *final(vpos) <= p < final(vertices)@.len() ==> #[trigger] final(vertices)@[p]
                    == old(vertices)@[p]
            &&& forall|k: int|
                0 <= k < 3 * (i as int) + 3 ==> #[trigger] final(v_indices)@[k]
                    == mesh_indices(buf@)[k]
            &&& forall|k: int|
                3 * (i as int) + 3 <= k < final(v_indices)@.len() ==> #[trigger] final(
                    v_indices)@[k] == old(v_indices)@[k]
            &&& final(adjacency)@.len() == final(interner)@.len()
            &&& forall|w: int|
                0 <= w < final(interner)@.len() ==> #[trigger] final(adjacency)@[w] as int
                    == count_occ(corners(buf@, 3 * (i as int) + 3), final(interner)@[w])
            &&& sum_u64(final(adjacency)@) == 3 * (i as int) + 3
            &&& final(eset)@ == dedup_edges(
                edge_slots(mesh_indices(buf@), 3 * (i as int) + 3),
            )
            &&& *final(epos) as int == 2 * final(eset)@.len()
            &&& *final(epos) <= final(e_indices)@.len()
            &&& forall|m: int|
                0 <= m < final(eset)@.len() ==> final(e_indices)@[2 * m]
                    == (#[trigger] final(eset)@[m]).a && final(e_indices)@[2 * m + 1]
                    == final(eset)@[m].b
            &&& forall|p: int|
                *final(epos) <= p < final(e_indices)@.len() ==> #[trigger] final(e_indices)@[p]
                    == old(e_indices)@[p]
        },
        r is Some ==> !loop_fits(
            buf@,
            old(vertices)@.len() as int,
            normals_len as int,
            old(e_indices)@.len() as int,
        ),
        r matches Some(e) ==> e matches StlError::BoundsExceededDuringParse { .. },
{
    let _buf_n: usize = buf.len();
    let vi_n: usize = v_indices.len();
    let mut vp: usize = *vpos;
    let mut ep: usize = *epos;
    let fpos: usize = FRAMES_START + i * FRAME_SIZE;

    for j in 0..3usize
        invariant
            vp >= *old(vpos),
            interner@ == dedup_vertices(corners(buf@, 3 * (i as int) + (j as int))),
            interner@.len() <= 0x1_0000_0000,
            vp as int == 3 * interner@.len(),
            vp <= vertices@.len(),
            vp <= normals_len,
            vertices@.len() == old(vertices)@.len(),
            forall|w: int|
                0 <= w < interner@.len() ==> vertices@[3 * w] == (#[trigger] interner@[w]).x
                    && vertices@[3 * w + 1] == interner@[w].y && vertices@[3 * w + 2]
                    == interner@[w].z,
            forall|p: int|
                vp <= p < vertices@.len() ==> #[trigger] vertices@[p] == old(vertices)@[p],
            v_indices@.len() == old(v_indices)@.len(),
            forall|k: int|
                0 <= k < 3 * (i as int) + (j as int) ==> #[trigger] v_indices@[k]
                    == mesh_indices(buf@)[k],
            forall|k: int|
                3 * (i as int) + (j as int) <= k < v_indices@.len() ==> #[trigger] v_indices@[k]
                    == old(v_indices)@[k],
            adjacency@.len() == interner@.len(),
            forall|w: int|
                0 <= w < interner@.len() ==> #[trigger] adjacency@[w] as int == count_occ(
                    corners(buf@, 3 * (i as int) + (j as int)),
                    interner@[w],
                ),
            sum_u64(adjacency@) == 3 * (i as int) + (j as int),
    {
        let ghost k = 3 * (i as int) + (j as int);
        let off = fpos + 12 * (j + 1);
        let v = read_vertex(buf, off);
        proof {
            lemma_fundamental_div_mod_converse(k, 3, i as int, j as int);
            assert(v == corner_vertex(buf@, k));
        }
        let ghost cs = corners(buf@, k);
        let ghost cs1 = corners(buf@, k + 1);
        proof {
            assert(cs1 =~= cs.push(v));
        }

        let found = interner.find(v);
        let index: u32;
        match found {
            Some(fi) => {
                // Defensive re-check before accumulating into the normal
                // slot of an existing vertex; unreachable once the miss
                // path has bounds-checked every assigned slot.
                if 3 * fi + 2 >= normals_len {
                    return Some(
                        StlError::BoundsExceededDuringParse {
                            buffer: BufferKind::Normals,
                            index: 3 * fi + 2,
                            triangle: i,
                        },
                    );
                }
                index = fi as u32;
                proof {
                    assert(interner@.contains(v));
                    lemma_dedup_vertices_push(cs, v);
                }
            }
            None => {
                if vertices.len() - vp < 3 {
                    proof {
                        lemma_miss_grows(buf@, k);
                    }
                    return Some(
                        StlError::BoundsExceededDuringParse {
                            buffer: BufferKind::Vertices,
                            index: vp,
                            triangle: i,
                        },
                    );
                }
                if normals_len - vp < 3 {
                    proof {
                        lemma_miss_grows(buf@, k);
                    }
                    return Some(
                        StlError::BoundsExceededDuringParse {
                            buffer: BufferKind::Normals,
                            index: vp,
                            triangle: i,
                        },
                    );
                }
                let new_idx = interner.len();
                if new_idx > (u32::MAX as usize) {
                    proof {
                        lemma_miss_grows(buf@, k);
                    }
                    return Some(
                        StlError::BoundsExceededDuringParse {
                            buffer: BufferKind::VertexIndices,
                            index: new_idx,
                            triangle: i,
                        },
                    );
                }
                vertices.set(vp, v.x);
                vertices.set(vp + 1, v.y);
                vertices.set(vp + 2, v.z);
                proof {
                    lemma_dedup_vertices_push(cs, v);
                    lemma_dedup_vertices_contains(cs, v);
                    lemma_count_occ_absent(cs, v);
                    lemma_sum_u64_push(adjacency@, 0);
                }
                adjacency.push(0);
                interner.insert(v);
                index = new_idx as u32;
                vp = vp + 3;
            }
        }
        // The slot is inside the buffer whenever the preflight passed;
        // re-checked defensively as every in-loop write is.
        if 3 * i + j >= vi_n {
            return Some(
                StlError::BoundsExceededDuringParse {
                    buffer: BufferKind::VertexIndices,
                    index: 3 * i + j,
                    triangle: i,
                },
            );
        }
        v_indices.set(3 * i + j, index);

        let ai = index as usize;
        let cnt = adjacency[ai];
        proof {
            lemma_count_occ_bounds(cs, interner@[ai as int]);
        }
        let ghost pre_adjacency = adjacency@;
        adjacency.set(ai, cnt + 1);

        proof {
            lemma_corner_step(buf@, k, interner@, pre_adjacency, adjacency@, ai as int);
        }
    }

    let c0 = v_indices[3 * i];
    let c1 = v_indices[3 * i + 1];
    let c2 = v_indices[3 * i + 2];

    let e0 = Edge { a: c0, b: c1 };
    proof {
        let mi = mesh_indices(buf@);
        let m = 3 * (i as int);
        lemma_fundamental_div_mod_converse(m, 3, i as int, 0);
        assert(edge_slot(mi, m) == e0);
        assert(edge_slots(mi, m + 1) =~= edge_slots(mi, m).push(e0));
        lemma_dedup_edges_push(edge_slots(mi, m), e0);
    }
    if let Some(err) = emit_edge(eset, e_indices, &mut ep, e0, i) {
        proof {
            lemma_edge_overflow(buf@, 3 * (i as int), e_indices@.len() as int, ep as int);
        }
        return Some(err);
    }

    let e1 = Edge { a: c1, b: c2 };
    proof {
        let mi = mesh_indices(buf@);
        let m = 3 * (i as int) + 1;
        lemma_fundamental_div_mod_converse(m, 3, i as int, 1);
        assert(edge_slot(mi, m) == e1);
        assert(edge_slots(mi, m + 1) =~= edge_slots(mi, m).push(e1));
        lemma_dedup_edges_push(edge_slots(mi, m), e1);
    }
    if let Some(err) = emit_edge(eset, e_indices, &mut ep, e1, i) {
        proof {
            lemma_edge_overflow(buf@, 3 * (i as int) + 1, e_indices@.len() as int, ep as int);
        }
        return Some(err);
    }

    let e2 = Edge { a: c2, b: c0 };
    proof {
        let mi = mesh_indices(buf@);
        let m = 3 * (i as int) + 2;
        lemma_fundamental_div_mod_converse(m, 3, i as int, 2);
        assert(edge_slot(mi, m) == e2);
        assert(edge_slots(mi, m + 1) =~= edge_slots(mi, m).push(e2));
        lemma_dedup_edges_push(edge_slots(mi, m), e2);
    }
    if let Some(err) = emit_edge(eset, e_indices, &mut ep, e2, i) {
        proof {
            lemma_edge_overflow(buf@, 3 * (i as int) + 2, e_indices@.len() as int, ep as int);
        }
        return Some(err);
    }

    *vpos = vp;
    *epos = ep;
    None
}

/// Decode a binary STL byte buffer into the caller's output buffers.
///
/// The vertex buffer receives the distinct vertices' coordinate bit patterns
/// in order of first appearance (stride 3); the vertex-index buffer receives
/// three resolved indices per triangle; the edge-index buffer receives both
/// endpoints of each unique unordered edge, once, in first-emission order and
/// first-emitted orientation. The caller's normal buffer is only validated
/// here — `normals_len` is its length — because filling it is numeric work on
/// the face normals; the reported vertex indices and adjacency counts drive
/// it, and every index reported is small enough that all its three normal
/// slots lie inside `normals_len`.
///
/// On failure, nothing was written (header or preflight failures), or a
/// defensive in-loop check stopped the pass and whatever was already written
/// must not be relied on; the buffers' lengths are never changed.
#[verifier::loop_isolation(false)]
#[verifier::rlimit(100)]
pub fn parse_stl(
    buf: &Vec<u8>,
    vertices: &mut Vec<u32>,
    normals_len: usize,
    v_indices: &mut Vec<u32>,
    e_indices: &mut Vec<u32>,
) -> (r: Result<ParseOutput, StlError>)
    ensures
        final(vertices)@.len() == old(vertices)@.len(),
        final(v_indices)@.len() == old(v_indices)@.len(),
        final(e_indices)@.len() == old(e_indices)@.len(),
        r is Ok <==> parse_succeeds(
            buf@,
            old(vertices)@.len() as int,
            normals_len as int,
            old(v_indices)@.len() as int,
            old(e_indices)@.len() as int,
        ),
        r matches Ok(out) ==> parse_output_correct(
            buf@,
            old(vertices)@,
            final(vertices)@,
            normals_len as int,
            old(v_indices)@,
            final(v_indices)@,
            old(e_indices)@,
            final(e_indices)@,
            out.vertex_count as int,
            out.edge_entry_count as int,
            out.adjacency@,
        ),
        r == Err::<ParseOutput, StlError>(StlError::HeaderTooSmall) <==> buf@.len() < HEADER_LEN,
        r == Err::<ParseOutput, StlError>(StlError::CountFieldMissing) <==> HEADER_LEN <= buf@.len()
            < FRAMES_START,
        header_ok(buf@) ==> (r == Err::<ParseOutput, StlError>(
            StlError::DeclaredSizeMismatch {
                declared: le_u32_at(buf@, HEADER_LEN as int),
                actual: buf@.len() as u64,
            },
        ) <==> !frames_ok(buf@)),
        frames_ok(buf@) ==> {
            let t = spec_triangle_count(buf@);
            let vreq = vertex_buffer_required(t);
            let ireq = index_buffer_required(t);
            &&& (old(vertices)@.len() < vreq ==> r == Err::<ParseOutput, StlError>(
                StlError::InsufficientVertexBuffer {
                    len: old(vertices)@.len() as u64,
                    required: vreq as u64,
                },
            ))
            &&& (old(vertices)@.len() >= vreq && normals_len < vreq ==> r == Err::<
                ParseOutput,
                StlError,
            >(StlError::InsufficientNormalBuffer { len: normals_len as u64, required: vreq as u64 }))
            &&& (old(vertices)@.len() >= vreq && normals_len >= vreq && old(v_indices)@.len() < ireq
                ==> r == Err::<ParseOutput, StlError>(
                StlError::InsufficientVertexIndexBuffer {
                    len: old(v_indices)@.len() as u64,
                    required: ireq as u64,
                },
            ))
            &&& (old(vertices)@.len() >= vreq && normals_len >= vreq && old(v_indices)@.len()
                >= ireq && old(e_indices)@.len() < ireq ==> r == Err::<ParseOutput, StlError>(
                StlError::InsufficientEdgeIndexBuffer {
                    len: old(e_indices)@.len() as u64,
                    required: ireq as u64,
                },
            ))
        },
        frames_ok(buf@) && preflight_ok(
            spec_triangle_count(buf@),
            old(vertices)@.len() as int,
            normals_len as int,
            old(v_indices)@.len() as int,
            old(e_indices)@.len() as int,
        ) ==> (r is Ok || r matches Err(StlError::BoundsExceededDuringParse { .. })),
        !(frames_ok(buf@) && preflight_ok(
            spec_triangle_count(buf@),
            old(vertices)@.len() as int,
            normals_len as int,
            old(v_indices)@.len() as int,
            old(e_indices)@.len() as int,
        )) ==> final(vertices)@ == old(vertices)@ && final(v_indices)@ == old(v_indices)@
            && final(e_indices)@ == old(e_indices)@,
{
    let buf_len = buf.len();
    if buf_len < HEADER_LEN {
        return Err(StlError::HeaderTooSmall);
    }
    if buf_len < FRAMES_START {
        return Err(StlError::CountFieldMissing);
    }
    let num_triangles = read_u32_le(buf, HEADER_LEN);

    if (buf_len as u64) < (FRAMES_START as u64) + (num_triangles as u64) * (FRAME_SIZE as u64) {
        return Err(
            StlError::DeclaredSizeMismatch { declared: num_triangles, actual: buf_len as u64 },
        );
    }
    assert(frames_ok(buf@));

    if let Some(e) = check_sufficient_memory(
        num_triangles,
        vertices.len(),
        normals_len,
        v_indices.len(),
        e_indices.len(),
    ) {
        return Err(e);
    }

    let tcount = num_triangles as usize;
    let ghost t = spec_triangle_count(buf@);
    assert(tcount == t);

    let mut interner = VertexInterner::new();
    let mut eset = EdgeSet::new();
    let mut adjacency: Vec<u64> = Vec::new();
    let mut vpos: usize = 0;
    let mut epos: usize = 0;

    proof {
        assert(corners(buf@, 0) =~= Seq::<Vertex>::empty());
        assert(edge_slots(mesh_indices(buf@), 0) =~= Seq::<Edge>::empty());
    }

    for i in 0..tcount
        invariant
            interner@ == dedup_vertices(corners(buf@, 3 * (i as int))),
            interner@.len() <= 0x1_0000_0000,
            vpos as int == 3 * interner@.len(),
            vpos <= vertices@.len(),
            vpos <= normals_len,
            vertices@.len() == old(vertices)@.len(),
            forall|w: int|
                0 <= w < interner@.len() ==> vertices@[3 * w] == (#[trigger] interner@[w]).x
                    && vertices@[3 * w + 1] == interner@[w].y && vertices@[3 * w + 2]
                    == interner@[w].z,
            forall|p: int|
                vpos <= p < vertices@.len() ==> #[trigger] vertices@[p] == old(vertices)@[p],
            v_indices@.len() == old(v_indices)@.len(),
            forall|k: int|
                0 <= k < 3 * (i as int) ==> #[trigger] v_indices@[k] == mesh_indices(buf@)[k],
            forall|k: int|
                3 * (i as int) <= k < v_indices@.len() ==> #[trigger] v_indices@[k]
                    == old(v_indices)@[k],
            adjacency@.len() == interner@.len(),
            forall|w: int|
                0 <= w < interner@.len() ==> #[trigger] adjacency@[w] as int == count_occ(
                    corners(buf@, 3 * (i as int)),
                    interner@[w],
                ),
            sum_u64(adjacency@) == 3 * (i as int),
            eset@ == dedup_edges(edge_slots(mesh_indices(buf@), 3 * (i as int))),
            epos as int == 2 * eset@.len(),
            epos <= e_indices@.len(),
            e_indices@.len() == old(e_indices)@.len(),
            forall|m: int|
                0 <= m < eset@.len() ==> e_indices@[2 * m] == (#[trigger] eset@[m]).a
                    && e_indices@[2 * m + 1] == eset@[m].b,
            forall|p: int|
                epos <= p < e_indices@.len() ==> #[trigger] e_indices@[p] == old(e_indices)@[p],
    {
        let ghost pre_vertices = vertices@;
        let ghost pre_v_indices = v_indices@;
        let ghost pre_e_indices = e_indices@;
        let ghost pre_vpos = vpos as int;
        let ghost pre_epos = epos as int;
        if let Some(e) = process_triangle(
            buf,
            vertices,
            normals_len,
            v_indices,
            e_indices,
            &mut interner,
            &mut eset,
            &mut adjacency,
            &mut vpos,
            &mut epos,
            i,
        ) {
            return Err(e);
        }
        proof {
            assert forall|p: int|
                vpos <= p < vertices@.len() implies #[trigger] vertices@[p] == old(
                vertices,
            )@[p] by {
                assert(vertices@[p] == pre_vertices[p]);
                assert(pre_vertices[p] == old(vertices)@[p]);
            }
            assert forall|k: int|
                3 * (i as int) + 3 <= k < v_indices@.len() implies #[trigger] v_indices@[k]
                == old(v_indices)@[k] by {
                assert(v_indices@[k] == pre_v_indices[k]);
                assert(pre_v_indices[k] == old(v_indices)@[k]);
            }
            assert forall|p: int|
                epos <= p < e_indices@.len() implies #[trigger] e_indices@[p] == old(
                e_indices,
            )@[p] by {
                assert(e_indices@[p] == pre_e_indices[p]);
                assert(pre_e_indices[p] == old(e_indices)@[p]);
            }
        }
    }

    proof {
        assert(corners(buf@, 3 * t) =~= all_corners(buf@));
        assert(interner@ == mesh_vertices(buf@));
        lemma_adjacency_present(buf@, adjacency@);
        crate::edge::lemma_dedup_edges_len(edge_slots(mesh_indices(buf@), 3 * t));
        lemma_indices_bounded(buf@, v_indices@, normals_len as int);
    }
    let vertex_count = interner.len();
    Ok(ParseOutput { vertex_count, edge_entry_count: epos, adjacency })
}

/// A corner that the interner does not yet hold forces one more distinct
/// vertex than the interner holds so far.
proof fn lemma_miss_grows(b: Seq<u8>, k: int)
    requires
        0 <= k < 3 * spec_triangle_count(b),
        !dedup_vertices(corners(b, k)).contains(corner_vertex(b, k)),
    ensures
        mesh_vertex_count(b) >= dedup_vertices(corners(b, k)).len() + 1,
{
    let cs = corners(b, k);
    let v = corner_vertex(b, k);
    assert(corners(b, k + 1) =~= cs.push(v));
    lemma_dedup_vertices_push(cs, v);
    lemma_dedup_vertices_take_prefix(all_corners(b), k + 1);
    assert(all_corners(b).take(k + 1) =~= corners(b, k + 1));
}

/// Bookkeeping for one processed corner: with the interner advanced to one
/// more corner and that corner's counter raised by one, the counters track
/// the occurrence counts of the longer prefix, the counter sum grows by one,
/// and the corner's assigned position is its model index.
proof fn lemma_corner_step(
    b: Seq<u8>,
    k: int,
    d: Seq<Vertex>,
    pre_adj: Seq<u64>,
    post_adj: Seq<u64>,
    ai: int,
)
    requires
        0 <= k < 3 * spec_triangle_count(b),
        d == dedup_vertices(corners(b, k + 1)),
        0 <= ai < d.len(),
        ai <= u32::MAX,
        d[ai] == corner_vertex(b, k),
        pre_adj.len() == d.len(),
        forall|w: int|
            0 <= w < d.len() ==> #[trigger] pre_adj[w] as int == count_occ(corners(b, k), d[w]),
        pre_adj[ai] as int + 1 <= u64::MAX,
        post_adj == pre_adj.update(ai, (pre_adj[ai] + 1) as u64),
    ensures
        forall|w: int|
            0 <= w < d.len() ==> #[trigger] post_adj[w] as int == count_occ(
                corners(b, k + 1),
                d[w],
            ),
        sum_u64(post_adj) == sum_u64(pre_adj) + 1,
        mesh_index(b, k) == ai,
        mesh_indices(b)[k] == ai as u32,
{
    let cs = corners(b, k);
    let v = corner_vertex(b, k);
    assert(corners(b, k + 1) =~= cs.push(v));
    lemma_dedup_vertices_distinct(corners(b, k + 1));
    assert forall|w: int|
        0 <= w < d.len() implies #[trigger] post_adj[w] as int == count_occ(
        corners(b, k + 1),
        d[w],
    ) by {
        lemma_count_occ_push(cs, d[w], v);
    }
    lemma_sum_u64_update(pre_adj, ai, (pre_adj[ai] + 1) as u64);
    lemma_dedup_vertices_take_prefix(all_corners(b), k + 1);
    assert(all_corners(b).take(k + 1) =~= corners(b, k + 1));
    lemma_dedup_vertices_distinct(all_corners(b));
    assert(d =~= mesh_vertices(b).subrange(0, d.len() as int));
    assert(mesh_vertices(b)[ai] == v);
    lemma_index_in_unique(mesh_vertices(b), v, ai);
}

/// Every reported vertex index lies below the vertex count, with all three of
/// its normal slots inside the normal buffer.
proof fn lemma_indices_bounded(b: Seq<u8>, vi: Seq<u32>, n_len: int)
    requires
        3 * mesh_vertex_count(b) <= n_len,
        mesh_vertex_count(b) <= 0x1_0000_0000,
        forall|k: int|
            0 <= k < 3 * spec_triangle_count(b) ==> #[trigger] vi[k] == mesh_indices(b)[k],
    ensures
        forall|k: int|
            0 <= k < 3 * spec_triangle_count(b) ==> 3 * (#[trigger] vi[k] as int) + 2 < n_len && (
            vi[k] as int) < mesh_vertex_count(b),
{
    assert forall|k: int|
        0 <= k < 3 * spec_triangle_count(b) implies 3 * (#[trigger] vi[k] as int) + 2 < n_len && (
    vi[k] as int) < mesh_vertex_count(b) by {
        let c = corner_vertex(b, k);
        assert(all_corners(b)[k] == c);
        assert(all_corners(b).contains(c));
        lemma_dedup_vertices_contains(all_corners(b), c);
        assert(exists|n2: int| 0 <= n2 < mesh_vertices(b).len() && mesh_vertices(b)[n2] == c);
        assert(0 <= mesh_index(b, k) < mesh_vertex_count(b));
        assert(vi[k] == mesh_indices(b)[k]);
    }
}

/// When an edge must be emitted at slot `m` but the write cursor has fewer
/// than two entries of room, the full mesh cannot fit the edge-index buffer.
proof fn lemma_edge_overflow(b: Seq<u8>, m: int, ei_len: int, epos: int)
    requires
        0 <= m < 3 * spec_triangle_count(b),
        epos == 2 * dedup_edges(edge_slots(mesh_indices(b), m)).len(),
        !contains_edge(
            dedup_edges(edge_slots(mesh_indices(b), m)),
            edge_slot(mesh_indices(b), m),
        ),
        ei_len < epos + 2,
    ensures
        2 * mesh_edge_count(b) > ei_len,
{
    let mi = mesh_indices(b);
    let slots = edge_slots(mi, 3 * spec_triangle_count(b));
    lemma_dedup_edges_push(edge_slots(mi, m), edge_slot(mi, m));
    assert(edge_slots(mi, m).push(edge_slot(mi, m)) =~= edge_slots(mi, m + 1));
    lemma_dedup_edges_take_prefix(slots, m + 1);
    assert(slots.take(m + 1) =~= edge_slots(mi, m + 1));
}

/// Every assigned vertex was referenced by at least one corner.
proof fn lemma_adjacency_present(b: Seq<u8>, adjacency: Seq<u64>)
    requires
        adjacency.len() == mesh_vertices(b).len(),
        forall|w: int|
            0 <= w < mesh_vertices(b).len() ==> #[trigger] adjacency[w] as int == count_occ(
                all_corners(b),
                mesh_vertices(b)[w],
            ),
    ensures
        forall|w: int| 0 <= w < mesh_vertices(b).len() ==> #[trigger] adjacency[w] >= 1,
{
    assert forall|w: int| 0 <= w < mesh_vertices(b).len() implies #[trigger] adjacency[w] >= 1 by {
        let mv = mesh_vertices(b);
        assert(mv.contains(mv[w]));
        lemma_dedup_vertices_contains(all_corners(b), mv[w]);
        lemma_count_occ_present(all_corners(b), mv[w]);
    }
}

/// A value that occurs has a count of at least one.
proof fn lemma_count_occ_present(s: Seq<Vertex>, v: Vertex)
    requires
        s.contains(v),
    ensures
        count_occ(s, v) >= 1,
    decreases s.len(),
{
    let i = choose|i: int| 0 <= i < s.len() && s[i] == v;
    if s.last() == v {
        lemma_count_occ_bounds(s.drop_last(), v);
    } else {
        assert(i < s.len() - 1);
        assert(s.drop_last()[i] == v);
        assert(s.drop_last().contains(v));
        lemma_count_occ_present(s.drop_last(), v);
    }
}

} // verus!
