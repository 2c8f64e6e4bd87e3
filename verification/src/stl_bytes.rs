//! The binary STL layout: little-endian field reads and the spec-level view
//! of a file's triangle frames.
//!
//! Layout (all little-endian):
//! - bytes 0..80: reserved header, ignored;
//! - bytes 80..84: unsigned 32-bit triangle count;
//! - from byte 84, one 50-byte frame per triangle: a face normal
//!   (3 coordinates), three vertex positions (3 coordinates each), and a
//!   2-byte attribute field that is ignored.

use vstd::prelude::*;

use crate::vertex::Vertex;

verus! {

/// Number of bytes before the first triangle frame.
pub const HEADER_LEN: usize = 80;

/// Offset of the first triangle frame (header plus the 4-byte count).
pub const FRAMES_START: usize = 84;

/// Bytes per triangle frame: 4 coordinate triples of 4 bytes each, plus the
/// 2-byte attribute count.
pub const FRAME_SIZE: usize = 50;

/// The unsigned 32-bit value stored little-endian at `off`.
pub open spec fn le_u32_at(b: Seq<u8>, off: int) -> u32 {
    (b[off] as u32) | ((b[off + 1] as u32) << 8) | ((b[off + 2] as u32) << 16) | ((b[off + 3]
        as u32) << 24)
}

/// The coordinate-bit-pattern triple stored at `off`.
pub open spec fn vertex_at(b: Seq<u8>, off: int) -> Vertex {
    Vertex { x: le_u32_at(b, off), y: le_u32_at(b, off + 4), z: le_u32_at(b, off + 8) }
}

/// The triangle count a file declares, as a mathematical integer.
pub open spec fn spec_triangle_count(b: Seq<u8>) -> int {
    le_u32_at(b, HEADER_LEN as int) as int
}

/// Corner `j` (0, 1 or 2) of triangle `i`: the vertex triples sit 12, 24 and
/// 36 bytes into the frame, after the face normal.
pub open spec fn corner_at(b: Seq<u8>, i: int, j: int) -> Vertex {
    vertex_at(b, FRAMES_START + i * FRAME_SIZE + 12 * (j + 1))
}

/// Corner number `k` of the file, counting corners across triangles in
/// processing order: corner `k` belongs to triangle `k / 3`.
pub open spec fn corner_vertex(b: Seq<u8>, k: int) -> Vertex {
    corner_at(b, k / 3, k % 3)
}

/// The first `n` corners of the file, in processing order.
pub open spec fn corners(b: Seq<u8>, n: int) -> Seq<Vertex> {
    Seq::new(n as nat, |k: int| corner_vertex(b, k))
}

/// Read the little-endian unsigned 32-bit value at `off`.
pub fn read_u32_le(buf: &Vec<u8>, off: usize) -> (r: u32)
    requires
        off + 4 <= buf@.len(),
    ensures
        r == le_u32_at(buf@, off as int),
{
    let _n: usize = buf.len();
    (buf[off] as u32) | ((buf[off + 1] as u32) << 8) | ((buf[off + 2] as u32) << 16) | ((buf[off
        + 3] as u32) << 24)
}

/// Read the coordinate triple at `off` as bit patterns.
pub fn read_vertex(buf: &Vec<u8>, off: usize) -> (r: Vertex)
    requires
        off + 12 <= buf@.len(),
    ensures
        r == vertex_at(buf@, off as int),
{
    let _n: usize = buf.len();
    Vertex {
        x: read_u32_le(buf, off),
        y: read_u32_le(buf, off + 4),
        z: read_u32_le(buf, off + 8),
    }
}

} // verus!
