use voxel_core::{Chunk, Int2, Int3, QuadVertex};

fn unit_quad_vertices() -> Vec<QuadVertex> {
    vec![
        QuadVertex { position: Int3 { x: 0, y: 0, z: 0 }, tex_coords: Int2 { x: 0, y: 1 } },
        QuadVertex { position: Int3 { x: 1, y: 0, z: 0 }, tex_coords: Int2 { x: 1, y: 1 } },
        QuadVertex { position: Int3 { x: 1, y: 1, z: 0 }, tex_coords: Int2 { x: 1, y: 0 } },
        QuadVertex { position: Int3 { x: 0, y: 1, z: 0 }, tex_coords: Int2 { x: 0, y: 0 } },
    ]
}

#[test]
fn build_mesh_emits_unit_quad() {
    let mut c = Chunk::new(Int3 { x: 0, y: 0, z: 0 }, 0);
    c.build_mesh();
    assert_eq!(c.vertices, unit_quad_vertices());
    assert_eq!(c.indices, vec![0, 1, 3, 2, 3, 1]);
}

#[test]
fn build_mesh_discards_previous_contents() {
    let mut c = Chunk::new(Int3 { x: 0, y: 0, z: 0 }, 0);
    c.build_mesh();
    c.build_mesh();
    assert_eq!(c.vertices.len(), 4);
    assert_eq!(c.indices.len(), 6);
    assert_eq!(c.vertices, unit_quad_vertices());
    assert_eq!(c.indices, vec![0, 1, 3, 2, 3, 1]);
}

#[test]
fn quad_triangles_are_counter_clockwise() {
    let mut c = Chunk::new(Int3 { x: 0, y: 0, z: 0 }, 0);
    c.build_mesh();
    // The signed area (z of the cross product) of each triangle, viewed from
    // +z, must be positive for counter-clockwise winding.
    let signed_area_z = |a: usize, b: usize, d: usize| -> i64 {
        let pa = c.vertices[c.indices[a] as usize].position;
        let pb = c.vertices[c.indices[b] as usize].position;
        let pd = c.vertices[c.indices[d] as usize].position;
        let (ux, uy) = ((pb.x - pa.x) as i64, (pb.y - pa.y) as i64);
        let (vx, vy) = ((pd.x - pa.x) as i64, (pd.y - pa.y) as i64);
        ux * vy - uy * vx
    };
    assert!(signed_area_z(0, 1, 2) > 0);
    assert!(signed_area_z(3, 4, 5) > 0);
    // Every vertex lies in the z = 0 plane, on the unit square.
    for v in &c.vertices {
        assert_eq!(v.position.z, 0);
        assert!(v.position.x == 0 || v.position.x == 1);
        assert!(v.position.y == 0 || v.position.y == 1);
    }
}
