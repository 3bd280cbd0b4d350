use crate::error::TerrainError;
use vstd::prelude::*;

verus! {

/// A point of the integer lattice in which the cube is drawn.
///
/// At resolution `r` the cube spans `[-r, r]` on every axis, so that a cell is
/// two units wide: cell corners, edge midpoints and cell centres all have
/// integer coordinates.
pub struct LatticePoint {
    pub x: int,
    pub y: int,
    pub z: int,
}

/// One of the six faces of the cube, named by the axis it looks along.
#[derive(Clone, Copy, Debug, PartialEq, Eq, Hash, Structural)]
pub enum Face {
    Px,
    Nx,
    Py,
    Ny,
    Pz,
    Nz,
}

/// One of the four sides of a square cell, named by the face coordinate that
/// is extreme on it.
#[derive(Clone, Copy, Debug, PartialEq, Eq, Hash, Structural)]
pub enum Edge {
    Nx,
    Px,
    Ny,
    Py,
}

/// How a face continues across one of its sides.
#[derive(Clone, Copy, Debug, PartialEq, Eq, Structural)]
pub struct Seam {
    /// The face on the other side.
    pub face: Face,
    /// The side of that face which lies on the shared cube edge.
    pub edge: Edge,
    /// Whether the coordinate that runs along the shared edge is reversed.
    pub flipped: bool,
}

/// A square patch of one cube face: `x` and `y` count cells from the corner
/// of the face where both face coordinates are least.
#[derive(Clone, Copy, Debug, PartialEq, Eq, Hash, Structural)]
pub struct PatchAddress {
    pub face: Face,
    pub x: u32,
    pub y: u32,
}

impl Face {
    /// Carries a point given in face coordinates to cube coordinates.
    ///
    /// Face coordinates `(u, v, w)` have `u` along the columns of the grid,
    /// `v` along its rows and `w` pointing out of the face. The frame of `Pz`
    /// is the cube's own, and the other five are rotations of it: seen from
    /// outside, a quarter turn against the clock carries `u` to `v` on every
    /// face. The images of the three axes are
    ///
    /// | face | `u`  | `v`  | `w`  |
    /// |------|------|------|------|
    /// | `Px` | `+z` | `-y` | `+x` |
    /// | `Nx` | `-z` | `-y` | `-x` |
    /// | `Py` | `+x` | `-z` | `+y` |
    /// | `Ny` | `+x` | `+z` | `-y` |
    /// | `Pz` | `+x` | `+y` | `+z` |
    /// | `Nz` | `-x` | `+y` | `-z` |
    ///
    /// Which cells meet across a cube edge follows from these frames alone.
    pub open spec fn lift(self, u: int, v: int, w: int) -> LatticePoint {
        match self {
            Face::Px => LatticePoint { x: w, y: -v, z: u },
            Face::Nx => LatticePoint { x: -w, y: -v, z: -u },
            Face::Py => LatticePoint { x: u, y: w, z: -v },
            Face::Ny => LatticePoint { x: u, y: -w, z: v },
            Face::Pz => LatticePoint { x: u, y: v, z: w },
            Face::Nz => LatticePoint { x: -u, y: v, z: -w },
        }
    }

    /// The face, the side of it and the orientation met when leaving `self`
    /// across `edge`: the adjacency table of the cube, one row per face and
    /// one entry per side.
    pub fn seam(self, edge: Edge) -> (out: Seam)
        ensures
            out.joins(self, edge),
    {
        match self {
            Face::Px => match edge {
                Edge::Nx => Seam { face: Face::Nz, edge: Edge::Nx, flipped: true },
                Edge::Px => Seam { face: Face::Pz, edge: Edge::Px, flipped: true },
                Edge::Ny => Seam { face: Face::Py, edge: Edge::Px, flipped: true },
                Edge::Py => Seam { face: Face::Ny, edge: Edge::Px, flipped: false },
            },
            Face::Nx => match edge {
                Edge::Nx => Seam { face: Face::Pz, edge: Edge::Nx, flipped: true },
                Edge::Px => Seam { face: Face::Nz, edge: Edge::Px, flipped: true },
                Edge::Ny => Seam { face: Face::Py, edge: Edge::Nx, flipped: false },
                Edge::Py => Seam { face: Face::Ny, edge: Edge::Nx, flipped: true },
            },
            Face::Py => match edge {
                Edge::Nx => Seam { face: Face::Nx, edge: Edge::Ny, flipped: false },
                Edge::Px => Seam { face: Face::Px, edge: Edge::Ny, flipped: true },
                Edge::Ny => Seam { face: Face::Pz, edge: Edge::Py, flipped: false },
                Edge::Py => Seam { face: Face::Nz, edge: Edge::Py, flipped: true },
            },
            Face::Ny => match edge {
                Edge::Nx => Seam { face: Face::Nx, edge: Edge::Py, flipped: true },
                Edge::Px => Seam { face: Face::Px, edge: Edge::Py, flipped: false },
                Edge::Ny => Seam { face: Face::Nz, edge: Edge::Ny, flipped: true },
                Edge::Py => Seam { face: Face::Pz, edge: Edge::Ny, flipped: false },
            },
            Face::Pz => match edge {
                Edge::Nx => Seam { face: Face::Nx, edge: Edge::Nx, flipped: true },
                Edge::Px => Seam { face: Face::Px, edge: Edge::Px, flipped: true },
                Edge::Ny => Seam { face: Face::Ny, edge: Edge::Py, flipped: false },
                Edge::Py => Seam { face: Face::Py, edge: Edge::Ny, flipped: false },
            },
            Face::Nz => match edge {
                Edge::Nx => Seam { face: Face::Px, edge: Edge::Nx, flipped: true },
                Edge::Px => Seam { face: Face::Nx, edge: Edge::Px, flipped: true },
                Edge::Ny => Seam { face: Face::Ny, edge: Edge::Ny, flipped: true },
                Edge::Py => Seam { face: Face::Py, edge: Edge::Py, flipped: true },
            },
        }
    }
}

impl Seam {
    /// Where position `along` of the side left ends up on the side entered.
    pub open spec fn carry(self, along: u32, resolution: u32) -> u32 {
        if self.flipped {
            (resolution - 1 - along) as u32
        } else {
            along
        }
    }

    /// The seam leads from side `edge` of `face` to another face, and the two
    /// sides lie on each other cell by cell at every resolution.
    pub open spec fn joins(self, face: Face, edge: Edge) -> bool {
        &&& self.face != face
        &&& forall|resolution: u32, along: u32|
            along < resolution ==> #[trigger] PatchAddress::on_side(
                face,
                edge,
                along,
                resolution,
            ).edge_midpoint(resolution, edge) == PatchAddress::on_side(
                self.face,
                self.edge,
                self.carry(along, resolution),
                resolution,
            ).edge_midpoint(resolution, self.edge)
    }
}

impl PatchAddress {
    /// The address names a cell of the grid of `resolution` cells a side.
    pub open spec fn wf(self, resolution: u32) -> bool {
        self.x < resolution && self.y < resolution
    }

    /// Whether the address names a cell of the grid of `resolution` cells a
    /// side.
    pub fn is_valid(&self, resolution: u32) -> (out: bool)
        ensures
            out == self.wf(resolution),
    {
        self.x < resolution && self.y < resolution
    }

    /// The address of the cell in column `x` and row `y` of `face`, if the
    /// grid of `resolution` cells a side has such a cell.
    pub fn new(face: Face, x: u32, y: u32, resolution: u32) -> (out: Result<
        PatchAddress,
        TerrainError,
    >)
        ensures
            out is Ok <==> x < resolution && y < resolution,
            out matches Ok(a) ==> a == (PatchAddress { face, x, y }),
            out matches Err(e) ==> e == TerrainError::InvalidArgument,
    {
        if x < resolution && y < resolution {
            Ok(PatchAddress { face, x, y })
        } else {
            Err(TerrainError::InvalidArgument)
        }
    }

    /// The midpoint of one side of the cell, in cube coordinates.
    pub open spec fn edge_midpoint(self, resolution: u32, edge: Edge) -> LatticePoint {
        let r = resolution as int;
        let u = 2 * self.x + 1 - r;
        let v = 2 * self.y + 1 - r;
        match edge {
            Edge::Nx => self.face.lift(u - 1, v, r),
            Edge::Px => self.face.lift(u + 1, v, r),
            Edge::Ny => self.face.lift(u, v - 1, r),
            Edge::Py => self.face.lift(u, v + 1, r),
        }
    }

    /// One of the four sides of the cell has its midpoint at `p`.
    pub open spec fn has_edge_at(self, resolution: u32, p: LatticePoint) -> bool {
        ||| self.edge_midpoint(resolution, Edge::Nx) == p
        ||| self.edge_midpoint(resolution, Edge::Px) == p
        ||| self.edge_midpoint(resolution, Edge::Ny) == p
        ||| self.edge_midpoint(resolution, Edge::Py) == p
    }

    /// The two cells are distinct cells of the grid and have a side in
    /// common, on one face or across a cube edge.
    pub open spec fn adjacent(self, other: PatchAddress, resolution: u32) -> bool {
        &&& self.wf(resolution)
        &&& other.wf(resolution)
        &&& self != other
        &&& {
            ||| other.has_edge_at(resolution, self.edge_midpoint(resolution, Edge::Nx))
            ||| other.has_edge_at(resolution, self.edge_midpoint(resolution, Edge::Px))
            ||| other.has_edge_at(resolution, self.edge_midpoint(resolution, Edge::Ny))
            ||| other.has_edge_at(resolution, self.edge_midpoint(resolution, Edge::Py))
        }
    }

    /// The cell of `face` that lies on side `edge` of the face, at position
    /// `along` of that side.
    pub open spec fn on_side(face: Face, edge: Edge, along: u32, resolution: u32) -> PatchAddress {
        let max = (resolution - 1) as u32;
        match edge {
            Edge::Nx => PatchAddress { face, x: 0, y: along },
            Edge::Px => PatchAddress { face, x: max, y: along },
            Edge::Ny => PatchAddress { face, x: along, y: 0 },
            Edge::Py => PatchAddress { face, x: along, y: max },
        }
    }

    /// The cell on the other side of `edge`.
    pub fn across(&self, resolution: u32, edge: Edge) -> (out: PatchAddress)
        requires
            self.wf(resolution),
        ensures
            self.adjacent(out, resolution),
            out.has_edge_at(resolution, self.edge_midpoint(resolution, edge)),
    {
        let max = resolution - 1;
        let inside = match edge {
            Edge::Nx => self.x > 0,
            Edge::Px => self.x < max,
            Edge::Ny => self.y > 0,
            Edge::Py => self.y < max,
        };
        if inside {
            match edge {
                Edge::Nx => PatchAddress { face: self.face, x: self.x - 1, y: self.y },
                Edge::Px => PatchAddress { face: self.face, x: self.x + 1, y: self.y },
                Edge::Ny => PatchAddress { face: self.face, x: self.x, y: self.y - 1 },
                Edge::Py => PatchAddress { face: self.face, x: self.x, y: self.y + 1 },
            }
        } else {
            let seam = self.face.seam(edge);
            let along = match edge {
                Edge::Nx => self.y,
                Edge::Px => self.y,
                Edge::Ny => self.x,
                Edge::Py => self.x,
            };
            assert(*self == PatchAddress::on_side(self.face, edge, along, resolution));
            let along = if seam.flipped {
                max - along
            } else {
                along
            };
            match seam.edge {
                Edge::Nx => PatchAddress { face: seam.face, x: 0, y: along },
                Edge::Px => PatchAddress { face: seam.face, x: max, y: along },
                Edge::Ny => PatchAddress { face: seam.face, x: along, y: 0 },
                Edge::Py => PatchAddress { face: seam.face, x: along, y: max },
            }
        }
    }

    /// The four cells around this one, in the order of the sides `Nx`, `Px`,
    /// `Ny`, `Py`.
    pub fn neighbors(&self, resolution: u32) -> (out: [PatchAddress; 4])
        requires
            self.wf(resolution),
        ensures
            forall|b: PatchAddress| out@.contains(b) <==> self.adjacent(b, resolution),
            forall|i: int| 0 <= i < 4 ==> self.adjacent(#[trigger] out@[i], resolution),
            out@.no_duplicates(),
            out@[0].has_edge_at(resolution, self.edge_midpoint(resolution, Edge::Nx)),
            out@[1].has_edge_at(resolution, self.edge_midpoint(resolution, Edge::Px)),
            out@[2].has_edge_at(resolution, self.edge_midpoint(resolution, Edge::Ny)),
            out@[3].has_edge_at(resolution, self.edge_midpoint(resolution, Edge::Py)),
    {
        let n0 = self.across(resolution, Edge::Nx);
        let n1 = self.across(resolution, Edge::Px);
        let n2 = self.across(resolution, Edge::Ny);
        let n3 = self.across(resolution, Edge::Py);
        let out = [n0, n1, n2, n3];
        proof {
            assert forall|b: PatchAddress| self.adjacent(b, resolution) implies out@.contains(b) by {
                if b.has_edge_at(resolution, self.edge_midpoint(resolution, Edge::Nx)) {
                    lemma_edge_owners(*self, n0, b, resolution, self.edge_midpoint(resolution, Edge::Nx));
                    assert(out@[0] == b);
                } else if b.has_edge_at(resolution, self.edge_midpoint(resolution, Edge::Px)) {
                    lemma_edge_owners(*self, n1, b, resolution, self.edge_midpoint(resolution, Edge::Px));
                    assert(out@[1] == b);
                } else if b.has_edge_at(resolution, self.edge_midpoint(resolution, Edge::Ny)) {
                    lemma_edge_owners(*self, n2, b, resolution, self.edge_midpoint(resolution, Edge::Ny));
                    assert(out@[2] == b);
                } else {
                    lemma_edge_owners(*self, n3, b, resolution, self.edge_midpoint(resolution, Edge::Py));
                    assert(out@[3] == b);
                }
            }
            if n0 == n1 {
                lemma_one_shared_side(*self, n0, resolution, Edge::Nx, Edge::Px);
            }
            if n0 == n2 {
                lemma_one_shared_side(*self, n0, resolution, Edge::Nx, Edge::Ny);
            }
            if n0 == n3 {
                lemma_one_shared_side(*self, n0, resolution, Edge::Nx, Edge::Py);
            }
            if n1 == n2 {
                lemma_one_shared_side(*self, n1, resolution, Edge::Px, Edge::Ny);
            }
            if n1 == n3 {
                lemma_one_shared_side(*self, n1, resolution, Edge::Px, Edge::Py);
            }
            if n2 == n3 {
                lemma_one_shared_side(*self, n2, resolution, Edge::Ny, Edge::Py);
            }
        }
        out
    }
}

proof fn lemma_one_side_per_plane(a: PatchAddress, other: Face, resolution: u32, e1: Edge, e2: Edge)
    requires
        a.wf(resolution),
        other != a.face,
        other.plane_holds(resolution, a.edge_midpoint(resolution, e1)),
        other.plane_holds(resolution, a.edge_midpoint(resolution, e2)),
    ensures
        e1 == e2,
{
}

proof fn lemma_one_side_on_face(a: PatchAddress, n: PatchAddress, resolution: u32, e1: Edge, e2: Edge)
    requires
        a.wf(resolution),
        n.wf(resolution),
        a.face == n.face,
        a != n,
        n.has_edge_at(resolution, a.edge_midpoint(resolution, e1)),
        n.has_edge_at(resolution, a.edge_midpoint(resolution, e2)),
    ensures
        e1 == e2,
{
}

/// Two different cells have at most one side in common.
pub proof fn lemma_one_shared_side(a: PatchAddress, n: PatchAddress, resolution: u32, e1: Edge, e2: Edge)
    requires
        a.wf(resolution),
        n.wf(resolution),
        a != n,
        n.has_edge_at(resolution, a.edge_midpoint(resolution, e1)),
        n.has_edge_at(resolution, a.edge_midpoint(resolution, e2)),
    ensures
        e1 == e2,
{
    if a.face == n.face {
        lemma_one_side_on_face(a, n, resolution, e1, e2);
    } else {
        lemma_owner_in_plane(n, resolution, a.edge_midpoint(resolution, e1));
        lemma_owner_in_plane(n, resolution, a.edge_midpoint(resolution, e2));
        lemma_one_side_per_plane(a, n.face, resolution, e1, e2);
    }
}

impl Face {
    /// The point lies in the plane that carries the face.
    pub open spec fn plane_holds(self, resolution: u32, p: LatticePoint) -> bool {
        match self {
            Face::Px => p.x == resolution,
            Face::Nx => p.x == -resolution,
            Face::Py => p.y == resolution,
            Face::Ny => p.y == -resolution,
            Face::Pz => p.z == resolution,
            Face::Nz => p.z == -resolution,
        }
    }
}

proof fn lemma_owner_in_plane(a: PatchAddress, resolution: u32, p: LatticePoint)
    requires
        a.wf(resolution),
        a.has_edge_at(resolution, p),
    ensures
        a.face.plane_holds(resolution, p),
{
}

proof fn lemma_owners_on_one_face(a: PatchAddress, b: PatchAddress, c: PatchAddress, resolution: u32, p: LatticePoint)
    requires
        a.wf(resolution),
        b.wf(resolution),
        c.wf(resolution),
        a.has_edge_at(resolution, p),
        b.has_edge_at(resolution, p),
        c.has_edge_at(resolution, p),
        a.face == b.face,
        a.face == c.face,
        a != b,
        a != c,
    ensures
        b == c,
{
}

proof fn lemma_owner_on_border(a: PatchAddress, b: PatchAddress, other: Face, resolution: u32, p: LatticePoint)
    requires
        a.wf(resolution),
        b.wf(resolution),
        a.has_edge_at(resolution, p),
        b.has_edge_at(resolution, p),
        a.face == b.face,
        other != a.face,
        other.plane_holds(resolution, p),
    ensures
        a == b,
{
}

proof fn lemma_no_owner_at_corner(a: PatchAddress, second: Face, third: Face, resolution: u32, p: LatticePoint)
    requires
        a.wf(resolution),
        a.has_edge_at(resolution, p),
        second != a.face,
        third != a.face,
        second != third,
        second.plane_holds(resolution, p),
    ensures
        !third.plane_holds(resolution, p),
{
}

/// Being neighbours is mutual: `b` is adjacent to `a` exactly when `a` is
/// adjacent to `b`, so every cell is among the neighbours of each of its own
/// neighbours.
pub proof fn lemma_neighbors_symmetric(a: PatchAddress, b: PatchAddress, resolution: u32)
    ensures
        a.adjacent(b, resolution) == b.adjacent(a, resolution),
{
}

/// A side of the grid belongs to at most two cells.
pub proof fn lemma_edge_owners(a: PatchAddress, b: PatchAddress, c: PatchAddress, resolution: u32, p: LatticePoint)
    requires
        a.wf(resolution),
        b.wf(resolution),
        c.wf(resolution),
        a.has_edge_at(resolution, p),
        b.has_edge_at(resolution, p),
        c.has_edge_at(resolution, p),
        a != b,
        a != c,
    ensures
        b == c,
{
    lemma_owner_in_plane(a, resolution, p);
    lemma_owner_in_plane(b, resolution, p);
    lemma_owner_in_plane(c, resolution, p);
    if a.face == b.face {
        if a.face == c.face {
            lemma_owners_on_one_face(a, b, c, resolution, p);
        } else {
            lemma_owner_on_border(a, b, c.face, resolution, p);
        }
    } else if a.face == c.face {
        lemma_owner_on_border(a, c, b.face, resolution, p);
    } else if b.face == c.face {
        lemma_owner_on_border(b, c, a.face, resolution, p);
    } else {
        lemma_no_owner_at_corner(a, b.face, c.face, resolution, p);
    }
}

} // verus!
