//! Decoder for binary STL triangle-mesh files.
//!
//! The decoder reads a raw byte buffer and produces a deduplicated,
//! render-ready mesh: shared vertex positions, per-triangle vertex indices,
//! per-edge index pairs for wireframe rendering, and per-vertex adjacency
//! counts. Results are written into caller-owned buffers after a capacity
//! preflight; the decoder never grows or reallocates them.
//!
//! Coordinates are handled as the 32-bit little-endian bit patterns stored in
//! the file. Vertex deduplication is defined over exactly those bit patterns,
//! so no floating-point arithmetic is involved in decoding; averaging the
//! accumulated normals is numeric post-processing left to the caller, driven
//! by the index and adjacency data produced here.

pub mod edge;
pub mod error;
pub mod model;
pub mod parse;
pub mod stl_bytes;
pub mod vertex;

pub use crate::edge::Edge;
pub use crate::error::{BufferKind, StlError};
pub use crate::parse::{check_sufficient_memory, parse_stl, ParseOutput};
pub use crate::vertex::Vertex;
