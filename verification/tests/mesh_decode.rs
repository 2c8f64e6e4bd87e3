use stl_mesh::{parse_stl, StlError};

fn stl_bytes(tris: &[([f32; 3], [[f32; 3]; 3])]) -> Vec<u8> {
    let mut out = vec![0u8; 80];
    out.extend_from_slice(&(tris.len() as u32).to_le_bytes());
    for (normal, verts) in tris {
        for c in normal.iter() {
            out.extend_from_slice(&c.to_le_bytes());
        }
        for v in verts.iter() {
            for c in v.iter() {
                out.extend_from_slice(&c.to_le_bytes());
            }
        }
        out.extend_from_slice(&[0u8, 0u8]);
    }
    out
}

fn bits(coords: &[f32]) -> Vec<u32> {
    coords.iter().map(|c| c.to_bits()).collect()
}

fn run(
    buf: &[u8],
    vertices_len: usize,
    normals_len: usize,
    v_indices_len: usize,
    e_indices_len: usize,
) -> (Result<stl_mesh::ParseOutput, StlError>, Vec<u32>, Vec<u32>, Vec<u32>) {
    let buf = buf.to_vec();
    let mut vertices = vec![0u32; vertices_len];
    let mut v_indices = vec![0u32; v_indices_len];
    let mut e_indices = vec![0u32; e_indices_len];
    let r = parse_stl(&buf, &mut vertices, normals_len, &mut v_indices, &mut e_indices);
    (r, vertices, v_indices, e_indices)
}

#[test]
fn single_triangle_decodes_fully() {
    let buf = stl_bytes(&[(
        [0.0, 0.0, 1.0],
        [[0.0, 0.0, 0.0], [1.0, 0.0, 0.0], [0.0, 1.0, 0.0]],
    )]);
    let (r, vertices, v_indices, e_indices) = run(&buf, 9, 9, 3, 12);
    let out = r.unwrap();
    assert_eq!(out.vertex_count, 3);
    assert_eq!(
        &vertices[..9],
        &bits(&[0.0, 0.0, 0.0, 1.0, 0.0, 0.0, 0.0, 1.0, 0.0])[..]
    );
    assert_eq!(&v_indices[..], &[0, 1, 2]);
    assert_eq!(out.edge_entry_count, 6);
    assert_eq!(&e_indices[..6], &[0, 1, 1, 2, 2, 0]);
    assert_eq!(&out.adjacency[..], &[1, 1, 1]);
}

#[test]
fn shared_edge_opposite_winding_deduplicates() {
    let a = [0.0f32, 0.0, 0.0];
    let b = [1.0f32, 0.0, 0.0];
    let c = [0.0f32, 1.0, 0.0];
    let d = [0.0f32, 0.0, 1.0];
    // The second triangle references the shared edge as (b, a), reversed.
    let buf = stl_bytes(&[([0.0, 0.0, 1.0], [a, b, c]), ([0.0, -1.0, 0.0], [b, a, d])]);
    let (r, _vertices, v_indices, e_indices) = run(&buf, 15, 15, 6, 36);
    let out = r.unwrap();
    assert_eq!(out.vertex_count, 4);
    assert_eq!(&v_indices[..], &[0, 1, 2, 1, 0, 3]);
    // (1,0) repeats (0,1) and is skipped; 5 unique edges remain.
    assert_eq!(out.edge_entry_count, 10);
    assert_eq!(&e_indices[..10], &[0, 1, 1, 2, 2, 0, 0, 3, 3, 1]);
    assert_eq!(&out.adjacency[..], &[2, 2, 1, 1]);
}

#[test]
fn bit_identical_collapses_single_bit_separates() {
    let v = [1.5f32, -2.25, 3.0];
    let mut v_flipped = v;
    v_flipped[1] = f32::from_bits(v[1].to_bits() ^ 1);
    let p = [9.0f32, 9.0, 9.0];
    let q = [8.0f32, 8.0, 8.0];
    let buf = stl_bytes(&[
        ([0.0, 0.0, 1.0], [v, p, q]),
        ([0.0, 0.0, 1.0], [v, v_flipped, p]),
    ]);
    let (r, _vertices, v_indices, _e_indices) = run(&buf, 18, 18, 6, 36);
    let out = r.unwrap();
    // v collapses across the two triangles; the flipped copy gets its own
    // index.
    assert_eq!(out.vertex_count, 4);
    assert_eq!(&v_indices[..], &[0, 1, 2, 0, 3, 1]);
}

#[test]
fn adjacency_counters_sum_to_three_t() {
    let a = [0.0f32, 0.0, 0.0];
    let b = [1.0f32, 0.0, 0.0];
    let c = [0.0f32, 1.0, 0.0];
    let d = [0.0f32, 0.0, 1.0];
    let n = [0.0f32, 0.0, 1.0];
    // A tetrahedron: four triangles, four shared vertices.
    let buf = stl_bytes(&[(n, [a, b, c]), (n, [a, b, d]), (n, [a, c, d]), (n, [b, c, d])]);
    let (r, _vertices, _v_indices, e_indices) = run(&buf, 12, 12, 12, 36);
    let out = r.unwrap();
    assert_eq!(out.vertex_count, 4);
    let total: u64 = out.adjacency.iter().sum();
    assert_eq!(total, 12);
    assert_eq!(&out.adjacency[..], &[3, 3, 3, 3]);
    // Six unique edges, each recorded once although every edge is shared.
    assert_eq!(out.edge_entry_count, 12);
    assert_eq!(&e_indices[..12], &[0, 1, 1, 2, 2, 0, 1, 3, 3, 0, 2, 3]);
}

#[test]
fn degenerate_self_edge_kept_and_deduplicated() {
    let a = [2.0f32, 2.0, 2.0];
    let b = [3.0f32, 3.0, 3.0];
    let buf = stl_bytes(&[([0.0, 0.0, 1.0], [a, a, b])]);
    let (r, _vertices, v_indices, e_indices) = run(&buf, 9, 9, 3, 12);
    let out = r.unwrap();
    assert_eq!(out.vertex_count, 2);
    assert_eq!(&v_indices[..], &[0, 0, 1]);
    // Edges (0,0), (0,1), (1,0): the self-edge stays, the reversed pair is
    // dropped.
    assert_eq!(out.edge_entry_count, 4);
    assert_eq!(&e_indices[..4], &[0, 0, 0, 1]);
    assert_eq!(&out.adjacency[..], &[2, 1]);
}

#[test]
fn untouched_regions_keep_caller_data() {
    let buf = stl_bytes(&[(
        [0.0, 0.0, 1.0],
        [[0.0, 0.0, 0.0], [1.0, 0.0, 0.0], [0.0, 1.0, 0.0]],
    )]);
    let buf = buf.to_vec();
    let mut vertices = vec![7u32; 12];
    let mut v_indices = vec![7u32; 5];
    let mut e_indices = vec![7u32; 12];
    let r = parse_stl(&buf, &mut vertices, 9, &mut v_indices, &mut e_indices);
    let out = r.unwrap();
    assert_eq!(out.vertex_count, 3);
    assert_eq!(&vertices[9..], &[7, 7, 7]);
    assert_eq!(&v_indices[3..], &[7, 7]);
    assert_eq!(&e_indices[6..], &[7, 7, 7, 7, 7, 7]);
}

#[test]
fn empty_mesh_succeeds_and_writes_nothing() {
    let buf = stl_bytes(&[]);
    assert_eq!(buf.len(), 84);
    let buf = buf.to_vec();
    let mut vertices = vec![7u32; 6];
    let mut v_indices = vec![7u32; 1];
    let mut e_indices = vec![7u32; 1];
    let r = parse_stl(&buf, &mut vertices, 6, &mut v_indices, &mut e_indices);
    let out = r.unwrap();
    assert_eq!(out.vertex_count, 0);
    assert_eq!(out.edge_entry_count, 0);
    assert_eq!(out.adjacency.len(), 0);
    assert!(vertices.iter().all(|&x| x == 7));
    assert_eq!(&v_indices[..], &[7]);
    assert_eq!(&e_indices[..], &[7]);
}

#[test]
fn count_field_read_little_endian() {
    let mut buf = vec![0u8; 84];
    buf[80] = 0x01;
    buf[81] = 0x02;
    // Declares 0x0201 = 513 triangles; the frames are absent, so the declared
    // size cannot match.
    let mut vertices = vec![0u32; 2000];
    let mut v_indices = vec![0u32; 2000];
    let mut e_indices = vec![0u32; 2000];
    let r = parse_stl(&buf, &mut vertices, 2000, &mut v_indices, &mut e_indices);
    assert_eq!(
        r.unwrap_err(),
        StlError::DeclaredSizeMismatch { declared: 513, actual: 84 }
    );
}
