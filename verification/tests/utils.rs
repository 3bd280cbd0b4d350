use planet_terrain::chunks::chunk_set;
use planet_terrain::cubemap::{Face, PatchAddress};
use planet_terrain::error::TerrainError;
use planet_terrain::mesh::ChunkMesh;
use planet_terrain::utils::{generate_planet_chunk_models, NEIGHBOUR_RINGS};

#[test]
fn models_are_seven_rings_of_patches_with_one_mesh() {
    let base = PatchAddress { face: Face::Nz, x: 40000, y: 123 };
    let models = generate_planet_chunk_models(4, 65536, base).unwrap();
    assert_eq!(NEIGHBOUR_RINGS, 7);
    assert_eq!(models.chunks.len(), 113);
    assert_eq!(models.chunks[0], base);
    assert_eq!(models.chunks, chunk_set(base, 65536, 7));
    let mesh = ChunkMesh::build(4).unwrap();
    assert_eq!(models.mesh.resolution, 4);
    assert_eq!(models.mesh.uvs, mesh.uvs);
    assert_eq!(models.mesh.indices, mesh.indices);
    assert_eq!(models.mesh.uvs.len(), 16);
    assert_eq!(models.mesh.indices.len(), 54);
}

#[test]
fn models_near_a_cube_edge_cross_it() {
    let base = PatchAddress { face: Face::Px, x: 65535, y: 30000 };
    let models = generate_planet_chunk_models(2, 65536, base).unwrap();
    assert_eq!(models.chunks.len(), 113);
    assert!(models.chunks.iter().any(|a| a.face == Face::Pz));
    assert!(models.chunks.iter().all(|a| a.face == Face::Px || a.face == Face::Pz));
    assert!(models.chunks.contains(&PatchAddress { face: Face::Pz, x: 65535, y: 35535 }));
}

#[test]
fn models_for_a_grid_without_cells_are_refused() {
    let base = PatchAddress { face: Face::Pz, x: 0, y: 0 };
    assert_eq!(
        generate_planet_chunk_models(1, 16, base).err(),
        Some(TerrainError::InvalidArgument)
    );
    assert_eq!(
        generate_planet_chunk_models(0, 16, base).err(),
        Some(TerrainError::InvalidArgument)
    );
}

#[test]
fn models_around_a_patch_outside_the_grid_are_refused() {
    let base = PatchAddress { face: Face::Pz, x: 16, y: 0 };
    assert_eq!(
        generate_planet_chunk_models(4, 16, base).err(),
        Some(TerrainError::InvalidArgument)
    );
    let base = PatchAddress { face: Face::Pz, x: 0, y: 0 };
    assert_eq!(
        generate_planet_chunk_models(4, 0, base).err(),
        Some(TerrainError::InvalidArgument)
    );
}
