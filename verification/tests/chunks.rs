use planet_terrain::chunks::chunk_set;
use planet_terrain::cubemap::{Face, PatchAddress};
use std::collections::HashSet;

fn patch(face: Face, x: u32, y: u32) -> PatchAddress {
    PatchAddress { face, x, y }
}

/// The cells within `rings` steps of `base`, found one ring after the other.
fn by_rings(base: PatchAddress, resolution: u32, rings: u32) -> HashSet<PatchAddress> {
    let mut found: HashSet<PatchAddress> = HashSet::new();
    found.insert(base);
    let mut ring = vec![base];
    for _ in 0..rings {
        let mut next = Vec::new();
        for a in &ring {
            for b in a.neighbors(resolution) {
                if found.insert(b) {
                    next.push(b);
                }
            }
        }
        ring = next;
    }
    found
}

#[test]
fn zero_rings_give_the_base_patch_alone() {
    for base in [
        patch(Face::Pz, 3, 5),
        patch(Face::Nx, 0, 0),
        patch(Face::Py, 7, 7),
        patch(Face::Ny, 0, 7),
    ] {
        assert_eq!(chunk_set(base, 8, 0), vec![base]);
    }
    let only = patch(Face::Px, 0, 0);
    assert_eq!(chunk_set(only, 1, 0), vec![only]);
}

#[test]
fn one_ring_gives_the_base_and_its_four_neighbours() {
    let base = patch(Face::Pz, 3, 5);
    assert_eq!(
        chunk_set(base, 8, 1),
        vec![
            base,
            patch(Face::Pz, 2, 5),
            patch(Face::Pz, 4, 5),
            patch(Face::Pz, 3, 4),
            patch(Face::Pz, 3, 6),
        ]
    );
}

#[test]
fn rings_on_open_ground_form_a_diamond() {
    let base = patch(Face::Nz, 100, 100);
    for k in 0..=7u32 {
        let set = chunk_set(base, 65536, k);
        assert_eq!(set.len() as u32, 1 + 2 * k * (k + 1));
        for a in &set {
            assert_eq!(a.face, Face::Nz);
            let dx = (a.x as i64 - 100).abs();
            let dy = (a.y as i64 - 100).abs();
            assert!(dx + dy <= k as i64);
        }
    }
    assert_eq!(chunk_set(base, 65536, 7).len(), 113);
}

#[test]
fn set_has_no_duplicates_and_starts_with_the_base() {
    for resolution in [1u32, 2, 3, 5, 8] {
        for k in 0..=7 {
            let base = patch(Face::Px, resolution - 1, 0);
            let set = chunk_set(base, resolution, k);
            assert_eq!(set[0], base);
            let distinct: HashSet<PatchAddress> = set.iter().copied().collect();
            assert_eq!(distinct.len(), set.len(), "resolution {} rings {}", resolution, k);
        }
    }
}

#[test]
fn set_is_what_lies_within_the_rings() {
    for resolution in [1u32, 2, 3, 4, 7] {
        for k in 0..=7 {
            for base in [
                patch(Face::Py, 0, 0),
                patch(Face::Nz, resolution - 1, resolution / 2),
                patch(Face::Nx, resolution / 2, resolution - 1),
            ] {
                let set: HashSet<PatchAddress> =
                    chunk_set(base, resolution, k).into_iter().collect();
                assert_eq!(set, by_rings(base, resolution, k));
            }
        }
    }
}

#[test]
fn rings_around_a_cube_corner_spread_over_three_faces() {
    let base = patch(Face::Pz, 7, 7);
    let set = chunk_set(base, 8, 1);
    assert_eq!(
        set,
        vec![
            base,
            patch(Face::Pz, 6, 7),
            patch(Face::Px, 7, 0),
            patch(Face::Pz, 7, 6),
            patch(Face::Py, 7, 0),
        ]
    );
    let two = chunk_set(base, 8, 2);
    assert_eq!(two.len(), 12);
    assert!(two.contains(&patch(Face::Px, 6, 0)));
    assert!(two.contains(&patch(Face::Px, 7, 1)));
    assert!(two.contains(&patch(Face::Py, 6, 0)));
    assert!(two.contains(&patch(Face::Py, 7, 1)));
}

#[test]
fn whole_cube_is_reached_and_then_nothing_more() {
    let base = patch(Face::Ny, 0, 0);
    assert_eq!(chunk_set(base, 1, 1).len(), 5);
    assert_eq!(chunk_set(base, 1, 2).len(), 6);
    assert_eq!(chunk_set(base, 1, 7).len(), 6);
    assert_eq!(chunk_set(base, 2, 1000).len(), 24);
    assert_eq!(chunk_set(base, 3, u32::MAX).len(), 54);
}
