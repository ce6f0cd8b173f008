use std::collections::BTreeSet;

use xi_tinkerer::exports::ximesh::{ximesh_bytes, MeshEntry, MeshTriangle, MeshVertex};

fn vertex(x: f32, y: f32, z: f32) -> MeshVertex {
    MeshVertex {
        x: x.to_bits(),
        y: y.to_bits(),
        z: z.to_bits(),
    }
}

fn triangle(a: u32, b: u32, c: u32) -> MeshTriangle {
    MeshTriangle {
        vertex1_idx: a,
        vertex2_idx: b,
        vertex3_idx: c,
    }
}

fn key(v: &MeshVertex) -> ([u8; 4], [u8; 4], [u8; 4]) {
    (v.x.to_le_bytes(), v.y.to_le_bytes(), v.z.to_le_bytes())
}

/// The layout spelled out: counts, distinct vertices ordered by their
/// little-endian bytes, then corner indexes in the order 3, 2, 1.
fn expected(meshes: &[MeshEntry]) -> Vec<u8> {
    let vertices: Vec<_> = meshes
        .iter()
        .flat_map(|m| m.vertices.iter().map(key))
        .collect::<BTreeSet<_>>()
        .into_iter()
        .collect();
    let triangles: usize = meshes.iter().map(|m| m.triangles.len()).sum();
    let mut out = Vec::new();
    out.extend_from_slice(&(triangles as u32).to_le_bytes());
    out.extend_from_slice(&(vertices.len() as u32).to_le_bytes());
    for v in &vertices {
        out.extend_from_slice(&v.0);
        out.extend_from_slice(&v.1);
        out.extend_from_slice(&v.2);
    }
    for m in meshes {
        for t in &m.triangles {
            for i in [t.vertex3_idx, t.vertex2_idx, t.vertex1_idx] {
                let idx = vertices.binary_search(&key(&m.vertices[i as usize])).unwrap() as u32;
                out.extend_from_slice(&idx.to_le_bytes());
            }
        }
    }
    out
}

#[test]
fn shared_vertices_are_written_once_and_indexed() {
    let a = vertex(1.0, 0.0, -2.5);
    let b = vertex(0.5, 3.0, 0.0);
    let c = vertex(-1.0, -1.0, 7.0);
    let d = vertex(256.0, 0.25, 1.0);
    let meshes = vec![
        MeshEntry {
            vertices: vec![a, b, c],
            triangles: vec![triangle(0, 1, 2)],
        },
        MeshEntry {
            vertices: vec![c, d, a],
            triangles: vec![triangle(0, 1, 2), triangle(2, 2, 1)],
        },
    ];
    let bytes = ximesh_bytes(&meshes);
    assert_eq!(bytes, expected(&meshes));
    assert_eq!(&bytes[0..4], &3u32.to_le_bytes());
    assert_eq!(&bytes[4..8], &4u32.to_le_bytes());
    assert_eq!(bytes.len(), 8 + 4 * 12 + 3 * 12);
}

#[test]
fn an_empty_mesh_has_two_zero_counts() {
    assert_eq!(ximesh_bytes(&[]), vec![0u8; 8]);
}
