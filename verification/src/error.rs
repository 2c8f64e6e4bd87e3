//! Failure values reported by the decoder.
//!
//! Every failure is detected synchronously and carries enough context
//! (declared counts, offending buffer, offending index, offending iteration)
//! to diagnose without re-running. There is no partial-success reporting:
//! once a failure is produced, processing has stopped.

use vstd::prelude::*;

verus! {

/// The buffer (caller-owned or scratch) that a loop-time bounds failure is
/// about.
#[derive(Clone, Copy, PartialEq, Eq, Debug)]
pub enum BufferKind {
    /// The caller's flat vertex-position buffer (stride 3).
    Vertices,
    /// The caller's flat per-vertex normal buffer (stride 3).
    Normals,
    /// The caller's per-triangle vertex-index buffer (3 entries per triangle).
    VertexIndices,
    /// The caller's wireframe edge-index buffer (2 entries per unique edge).
    EdgeIndices,
}

/// A decoding failure.
///
/// The header and preflight variants are produced before any output buffer is
/// mutated. `BoundsExceededDuringParse` is produced by the defensive in-loop
/// checks; output written before such a failure is left as-is and must not be
/// relied on.
#[derive(Clone, Copy, PartialEq, Eq, Debug)]
pub enum StlError {
    /// The file holds fewer than the 80 reserved header bytes.
    HeaderTooSmall,
    /// The file ends before the 4-byte triangle count at offset 80.
    CountFieldMissing,
    /// The declared triangle count needs more frame bytes than the file holds.
    DeclaredSizeMismatch { declared: u32, actual: u64 },
    /// The vertex buffer is smaller than the preflight bound.
    InsufficientVertexBuffer { len: u64, required: u64 },
    /// The normal buffer is smaller than the preflight bound.
    InsufficientNormalBuffer { len: u64, required: u64 },
    /// The vertex-index buffer holds fewer than 3 entries per triangle.
    InsufficientVertexIndexBuffer { len: u64, required: u64 },
    /// The edge-index buffer is smaller than the preflight minimum.
    InsufficientEdgeIndexBuffer { len: u64, required: u64 },
    /// A defensive in-loop bounds check failed: writing `buffer` at `index`
    /// while integrating triangle `triangle` would fall outside the buffer.
    BoundsExceededDuringParse { buffer: BufferKind, index: usize, triangle: usize },
}

} // verus!
