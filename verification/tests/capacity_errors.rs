use stl_mesh::{check_sufficient_memory, parse_stl, BufferKind, StlError};

fn stl_bytes(tris: &[([f32; 3], [[f32; 3]; 3])]) -> Vec<u8> {
    let mut out = vec![0u8; 80];
    out.extend_from_slice(&(tris.len() as u32).to_le_bytes());
    for (normal, verts) in tris {
        for c in normal.iter() {
            out.extend_from_slice(&c.to_le_bytes());
        }
        for v in verts.iter() {
            for c in v.iter() {
                out.extend_from_slice(&c.to_le_bytes());
            }
        }
        out.extend_from_slice(&[0u8, 0u8]);
    }
    out
}

fn one_triangle() -> Vec<u8> {
    stl_bytes(&[(
        [0.0, 0.0, 1.0],
        [[0.0, 0.0, 0.0], [1.0, 0.0, 0.0], [0.0, 1.0, 0.0]],
    )])
}

fn expect_untouched(
    buf: &[u8],
    vertices_len: usize,
    normals_len: usize,
    v_indices_len: usize,
    e_indices_len: usize,
) -> StlError {
    let buf = buf.to_vec();
    let mut vertices = vec![7u32; vertices_len];
    let mut v_indices = vec![7u32; v_indices_len];
    let mut e_indices = vec![7u32; e_indices_len];
    let r = parse_stl(&buf, &mut vertices, normals_len, &mut v_indices, &mut e_indices);
    assert!(vertices.iter().all(|&x| x == 7));
    assert!(v_indices.iter().all(|&x| x == 7));
    assert!(e_indices.iter().all(|&x| x == 7));
    r.unwrap_err()
}

#[test]
fn header_too_small_below_80_bytes() {
    for len in [0usize, 1, 79] {
        let buf = vec![0u8; len];
        assert_eq!(expect_untouched(&buf, 9, 9, 3, 12), StlError::HeaderTooSmall);
    }
}

#[test]
fn count_field_missing_between_80_and_83_bytes() {
    for len in [80usize, 81, 83] {
        let buf = vec![0u8; len];
        assert_eq!(expect_untouched(&buf, 9, 9, 3, 12), StlError::CountFieldMissing);
    }
}

#[test]
fn declared_size_mismatch_when_frames_truncated() {
    let mut buf = one_triangle();
    let declared: u32 = 2;
    buf[80..84].copy_from_slice(&declared.to_le_bytes());
    assert_eq!(
        expect_untouched(&buf, 9, 9, 6, 12),
        StlError::DeclaredSizeMismatch { declared: 2, actual: 134 }
    );
}

#[test]
fn undersized_vertex_buffer_detected_before_mutation() {
    let buf = one_triangle();
    assert_eq!(
        expect_untouched(&buf, 5, 9, 3, 12),
        StlError::InsufficientVertexBuffer { len: 5, required: 6 }
    );
}

#[test]
fn undersized_normal_buffer_detected_before_mutation() {
    let buf = one_triangle();
    assert_eq!(
        expect_untouched(&buf, 9, 5, 3, 12),
        StlError::InsufficientNormalBuffer { len: 5, required: 6 }
    );
}

#[test]
fn undersized_vertex_index_buffer_detected_before_mutation() {
    let buf = one_triangle();
    assert_eq!(
        expect_untouched(&buf, 9, 9, 2, 12),
        StlError::InsufficientVertexIndexBuffer { len: 2, required: 3 }
    );
}

#[test]
fn undersized_edge_index_buffer_detected_before_mutation() {
    let buf = one_triangle();
    assert_eq!(
        expect_untouched(&buf, 9, 9, 3, 2),
        StlError::InsufficientEdgeIndexBuffer { len: 2, required: 3 }
    );
}

#[test]
fn vertex_overflow_beyond_heuristic_is_caught_in_loop() {
    // One triangle has three distinct vertices, but the heuristic bound only
    // asks for two; a buffer sized exactly to the heuristic overflows at the
    // third vertex.
    let buf = one_triangle().to_vec();
    let mut vertices = vec![0u32; 6];
    let mut v_indices = vec![0u32; 3];
    let mut e_indices = vec![0u32; 12];
    let r = parse_stl(&buf, &mut vertices, 9, &mut v_indices, &mut e_indices);
    assert_eq!(
        r.unwrap_err(),
        StlError::BoundsExceededDuringParse {
            buffer: BufferKind::Vertices,
            index: 6,
            triangle: 0
        }
    );
}

#[test]
fn normal_overflow_beyond_heuristic_is_caught_in_loop() {
    let buf = one_triangle().to_vec();
    let mut vertices = vec![0u32; 9];
    let mut v_indices = vec![0u32; 3];
    let mut e_indices = vec![0u32; 12];
    let r = parse_stl(&buf, &mut vertices, 6, &mut v_indices, &mut e_indices);
    assert_eq!(
        r.unwrap_err(),
        StlError::BoundsExceededDuringParse {
            buffer: BufferKind::Normals,
            index: 6,
            triangle: 0
        }
    );
}

#[test]
fn edge_overflow_beyond_minimum_is_caught_in_loop() {
    // Two disjoint triangles emit six unique edges (twelve entries); the
    // preflight minimum of 3T entries passes with six, and the loop-time
    // check reports the overflow on the second triangle.
    let a = [0.0f32, 0.0, 0.0];
    let b = [1.0f32, 0.0, 0.0];
    let c = [0.0f32, 1.0, 0.0];
    let d = [5.0f32, 0.0, 0.0];
    let e = [6.0f32, 0.0, 0.0];
    let f = [5.0f32, 1.0, 0.0];
    let n = [0.0f32, 0.0, 1.0];
    let buf = stl_bytes(&[(n, [a, b, c]), (n, [d, e, f])]);
    let mut vertices = vec![0u32; 18];
    let mut v_indices = vec![0u32; 6];
    let mut e_indices = vec![0u32; 6];
    let r = parse_stl(&buf, &mut vertices, 18, &mut v_indices, &mut e_indices);
    assert_eq!(
        r.unwrap_err(),
        StlError::BoundsExceededDuringParse {
            buffer: BufferKind::EdgeIndices,
            index: 6,
            triangle: 1
        }
    );
}

#[test]
fn preflight_bounds_are_exact() {
    // 10 triangles: point buffers need 3 * (10 / 2 + 2) = 21, index buffers
    // 30.
    assert_eq!(check_sufficient_memory(10, 21, 21, 30, 30), None);
    assert_eq!(
        check_sufficient_memory(10, 20, 21, 30, 30),
        Some(StlError::InsufficientVertexBuffer { len: 20, required: 21 })
    );
    assert_eq!(
        check_sufficient_memory(10, 21, 20, 30, 30),
        Some(StlError::InsufficientNormalBuffer { len: 20, required: 21 })
    );
    assert_eq!(
        check_sufficient_memory(10, 21, 21, 29, 30),
        Some(StlError::InsufficientVertexIndexBuffer { len: 29, required: 30 })
    );
    assert_eq!(
        check_sufficient_memory(10, 21, 21, 30, 29),
        Some(StlError::InsufficientEdgeIndexBuffer { len: 29, required: 30 })
    );
    // The first undersized buffer in order is the one reported.
    assert_eq!(
        check_sufficient_memory(10, 20, 20, 29, 29),
        Some(StlError::InsufficientVertexBuffer { len: 20, required: 21 })
    );
}
