use planet_terrain::error::TerrainError;
use planet_terrain::mesh::ChunkMesh;

#[test]
fn grid_without_a_cell_is_refused() {
    assert_eq!(ChunkMesh::build(0).err(), Some(TerrainError::InvalidArgument));
    assert_eq!(ChunkMesh::build(1).err(), Some(TerrainError::InvalidArgument));
}

#[test]
fn grid_too_fine_for_its_indices_is_refused() {
    assert_eq!(ChunkMesh::build(65536).err(), Some(TerrainError::InvalidArgument));
    assert_eq!(ChunkMesh::build(u32::MAX).err(), Some(TerrainError::InvalidArgument));
}

#[test]
fn smallest_grid_is_one_cell_of_two_triangles() {
    let mesh = ChunkMesh::build(2).unwrap();
    assert_eq!(mesh.resolution, 2);
    assert_eq!(mesh.uvs, vec![(0, 0), (1, 0), (0, 1), (1, 1)]);
    assert_eq!(mesh.indices, vec![0, 1, 2, 1, 3, 2]);
}

#[test]
fn grid_of_three_has_four_cells() {
    let mesh = ChunkMesh::build(3).unwrap();
    assert_eq!(
        mesh.uvs,
        vec![(0, 0), (1, 0), (2, 0), (0, 1), (1, 1), (2, 1), (0, 2), (1, 2), (2, 2)]
    );
    assert_eq!(
        mesh.indices,
        vec![
            0, 1, 3, 1, 4, 3, //
            1, 2, 4, 2, 5, 4, //
            3, 4, 6, 4, 7, 6, //
            4, 5, 7, 5, 8, 7,
        ]
    );
}

#[test]
fn counts_follow_the_resolution() {
    for r in 2u32..=40 {
        let mesh = ChunkMesh::build(r).unwrap();
        assert_eq!(mesh.resolution, r);
        assert_eq!(mesh.uvs.len() as u32, r * r);
        assert_eq!(mesh.indices.len() as u32, 6 * (r - 1) * (r - 1));
        assert!(mesh.indices.iter().all(|&i| i < r * r));
    }
}

#[test]
fn vertices_are_stored_row_by_row() {
    let r = 7u32;
    let mesh = ChunkMesh::build(r).unwrap();
    for (i, uv) in mesh.uvs.iter().enumerate() {
        assert_eq!(*uv, (i as u32 % r, i as u32 / r));
    }
}

#[test]
fn cells_are_triangulated_one_after_the_other() {
    for r in 2u32..=9 {
        let mesh = ChunkMesh::build(r).unwrap();
        let mut expected = Vec::new();
        for quad in 0..(r - 1) * (r - 1) {
            let row = quad / (r - 1);
            for offset in [0, 1, r, 1, r + 1, r] {
                expected.push(offset + row * r + quad % (r - 1));
            }
        }
        assert_eq!(mesh.indices, expected);
    }
}

#[test]
fn all_triangles_wind_the_same_way() {
    let r = 6u32;
    let mesh = ChunkMesh::build(r).unwrap();
    for tri in mesh.indices.chunks(3) {
        let p: Vec<(i64, i64)> = tri
            .iter()
            .map(|&i| (mesh.uvs[i as usize].0 as i64, mesh.uvs[i as usize].1 as i64))
            .collect();
        let area2 = (p[1].0 - p[0].0) * (p[2].1 - p[0].1) - (p[1].1 - p[0].1) * (p[2].0 - p[0].0);
        assert_eq!(area2, 1);
    }
}

#[test]
fn largest_grid_is_built() {
    let mesh = ChunkMesh::build(1000).unwrap();
    assert_eq!(mesh.uvs.len(), 1_000_000);
    assert_eq!(mesh.indices.len(), 6 * 999 * 999);
    assert_eq!(*mesh.indices.last().unwrap(), 998 * 1000 + 998 + 1000);
    assert_eq!(mesh.indices[mesh.indices.len() - 2], 999_999);
}
