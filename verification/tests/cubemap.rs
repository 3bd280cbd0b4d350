use planet_terrain::cubemap::{Edge, Face, PatchAddress};
use planet_terrain::error::TerrainError;

const FACES: [Face; 6] = [Face::Px, Face::Nx, Face::Py, Face::Ny, Face::Pz, Face::Nz];

fn cell(face: Face, x: u32, y: u32) -> PatchAddress {
    PatchAddress { face, x, y }
}

fn all_cells(resolution: u32) -> Vec<PatchAddress> {
    let mut cells = Vec::new();
    for face in FACES {
        for y in 0..resolution {
            for x in 0..resolution {
                cells.push(cell(face, x, y));
            }
        }
    }
    cells
}

/// Centre of a cell in the lattice in which the cube spans `-r..=r`.
fn centre(a: PatchAddress, resolution: u32) -> (i64, i64, i64) {
    let r = resolution as i64;
    let u = 2 * a.x as i64 + 1 - r;
    let v = 2 * a.y as i64 + 1 - r;
    match a.face {
        Face::Px => (r, -v, u),
        Face::Nx => (-r, -v, -u),
        Face::Py => (u, r, -v),
        Face::Ny => (u, -r, v),
        Face::Pz => (u, v, r),
        Face::Nz => (-u, v, -r),
    }
}

fn distance_squared(a: (i64, i64, i64), b: (i64, i64, i64)) -> i64 {
    (a.0 - b.0).pow(2) + (a.1 - b.1).pow(2) + (a.2 - b.2).pow(2)
}

#[test]
fn interior_cell_has_the_four_cells_around_it() {
    let a = cell(Face::Py, 2, 5);
    assert_eq!(
        a.neighbors(8),
        [
            cell(Face::Py, 1, 5),
            cell(Face::Py, 3, 5),
            cell(Face::Py, 2, 4),
            cell(Face::Py, 2, 6),
        ]
    );
}

#[test]
fn across_agrees_with_neighbors() {
    let a = cell(Face::Nz, 0, 3);
    let around = a.neighbors(4);
    assert_eq!(a.across(4, Edge::Nx), around[0]);
    assert_eq!(a.across(4, Edge::Px), around[1]);
    assert_eq!(a.across(4, Edge::Ny), around[2]);
    assert_eq!(a.across(4, Edge::Py), around[3]);
}

#[test]
fn every_seam_leads_to_the_adjoining_face() {
    let r = 4;
    let expected = [
        (Face::Px, [(Face::Nz, 0, 2), (Face::Pz, 3, 2), (Face::Py, 3, 2), (Face::Ny, 3, 1)]),
        (Face::Nx, [(Face::Pz, 0, 2), (Face::Nz, 3, 2), (Face::Py, 0, 1), (Face::Ny, 0, 2)]),
        (Face::Py, [(Face::Nx, 1, 0), (Face::Px, 2, 0), (Face::Pz, 1, 3), (Face::Nz, 2, 3)]),
        (Face::Ny, [(Face::Nx, 2, 3), (Face::Px, 1, 3), (Face::Nz, 2, 0), (Face::Pz, 1, 0)]),
        (Face::Pz, [(Face::Nx, 0, 2), (Face::Px, 3, 2), (Face::Ny, 1, 3), (Face::Py, 1, 0)]),
        (Face::Nz, [(Face::Px, 0, 2), (Face::Nx, 3, 2), (Face::Ny, 2, 0), (Face::Py, 2, 3)]),
    ];
    for (face, across) in expected {
        let from = [cell(face, 0, 1), cell(face, 3, 1), cell(face, 1, 0), cell(face, 1, 3)];
        let edges = [Edge::Nx, Edge::Px, Edge::Ny, Edge::Py];
        for i in 0..4 {
            let (nf, nx, ny) = across[i];
            assert_eq!(from[i].across(r, edges[i]), cell(nf, nx, ny), "{:?} {:?}", face, edges[i]);
        }
    }
}

#[test]
fn neighbours_never_leave_the_grid() {
    for resolution in 1..=5 {
        for a in all_cells(resolution) {
            for b in a.neighbors(resolution) {
                assert!(b.x < resolution && b.y < resolution, "{:?} -> {:?}", a, b);
                assert!(b.is_valid(resolution));
            }
        }
    }
}

#[test]
fn neighbour_relation_is_symmetric() {
    for resolution in 1..=6 {
        for a in all_cells(resolution) {
            for b in a.neighbors(resolution) {
                assert!(
                    b.neighbors(resolution).contains(&a),
                    "{:?} has {:?} but not the other way round at {}",
                    a,
                    b,
                    resolution
                );
            }
        }
    }
}

#[test]
fn neighbours_are_four_different_cells_other_than_the_cell() {
    for resolution in 1..=5 {
        for a in all_cells(resolution) {
            let n = a.neighbors(resolution);
            for i in 0..4 {
                assert_ne!(n[i], a);
                for j in 0..i {
                    assert_ne!(n[i], n[j], "{:?} at {}", a, resolution);
                }
            }
        }
    }
}

#[test]
fn neighbours_touch_the_cell_on_the_cube() {
    for resolution in 1..=5 {
        for a in all_cells(resolution) {
            for b in a.neighbors(resolution) {
                let d = distance_squared(centre(a, resolution), centre(b, resolution));
                if a.face == b.face {
                    assert_eq!(d, 4, "{:?} {:?}", a, b);
                } else {
                    assert_eq!(d, 2, "{:?} {:?}", a, b);
                }
            }
        }
    }
}

#[test]
fn corner_cell_wraps_onto_two_other_faces() {
    let a = cell(Face::Pz, 0, 0);
    assert_eq!(
        a.neighbors(4),
        [
            cell(Face::Nx, 0, 3),
            cell(Face::Pz, 1, 0),
            cell(Face::Ny, 0, 3),
            cell(Face::Pz, 0, 1),
        ]
    );
    let b = cell(Face::Pz, 3, 3);
    assert_eq!(
        b.neighbors(4),
        [
            cell(Face::Pz, 2, 3),
            cell(Face::Px, 3, 0),
            cell(Face::Pz, 3, 2),
            cell(Face::Py, 3, 0),
        ]
    );
}

#[test]
fn at_resolution_one_the_neighbours_are_the_four_faces_around() {
    let a = cell(Face::Pz, 0, 0);
    assert_eq!(
        a.neighbors(1),
        [
            cell(Face::Nx, 0, 0),
            cell(Face::Px, 0, 0),
            cell(Face::Ny, 0, 0),
            cell(Face::Py, 0, 0),
        ]
    );
    for face in FACES {
        let faces: Vec<Face> = cell(face, 0, 0).neighbors(1).iter().map(|n| n.face).collect();
        assert!(!faces.contains(&face));
        let opposite = match face {
            Face::Px => Face::Nx,
            Face::Nx => Face::Px,
            Face::Py => Face::Ny,
            Face::Ny => Face::Py,
            Face::Pz => Face::Nz,
            Face::Nz => Face::Pz,
        };
        assert!(!faces.contains(&opposite));
    }
}

#[test]
fn seams_pair_up() {
    let edges = [Edge::Nx, Edge::Px, Edge::Ny, Edge::Py];
    for face in FACES {
        for edge in edges {
            let seam = face.seam(edge);
            let back = seam.face.seam(seam.edge);
            assert_eq!(back.face, face);
            assert_eq!(back.edge, edge);
            assert_eq!(back.flipped, seam.flipped);
        }
    }
}

#[test]
fn address_outside_the_grid_is_refused() {
    assert_eq!(PatchAddress::new(Face::Px, 3, 0, 4), Ok(cell(Face::Px, 3, 0)));
    assert_eq!(PatchAddress::new(Face::Px, 4, 0, 4), Err(TerrainError::InvalidArgument));
    assert_eq!(PatchAddress::new(Face::Px, 0, 4, 4), Err(TerrainError::InvalidArgument));
    assert_eq!(PatchAddress::new(Face::Px, 0, 0, 0), Err(TerrainError::InvalidArgument));
    assert!(cell(Face::Nz, 7, 7).is_valid(8));
    assert!(!cell(Face::Nz, 8, 7).is_valid(8));
    assert!(!cell(Face::Nz, 7, 8).is_valid(8));
}
