use crate::cubemap::{Face, PatchAddress};
use std::collections::HashSet;
use vstd::prelude::*;
use vstd::std_specs::hash::group_hash_axioms;

verus! {

broadcast use group_hash_axioms;

/// `a` can be reached from `base` by at most `hops` steps, each from a cell
/// to one adjacent to it.
pub open spec fn within(base: PatchAddress, a: PatchAddress, resolution: u32, hops: nat) -> bool
    decreases hops,
{
    if hops == 0 {
        a == base
    } else {
        within(base, a, resolution, (hops - 1) as nat) || exists|b: PatchAddress|
            within(base, b, resolution, (hops - 1) as nat) && #[trigger] b.adjacent(
                a,
                resolution,
            )
    }
}

/// The number under which a cell is remembered while the set is built.
spec fn key(a: PatchAddress) -> u128 {
    let face: u128 = match a.face {
        Face::Px => 0,
        Face::Nx => 1,
        Face::Py => 2,
        Face::Ny => 3,
        Face::Pz => 4,
        Face::Nz => 5,
    };
    (face * 0x1_0000_0000_0000_0000 + a.x * 0x1_0000_0000 + a.y) as u128
}

fn key_of(a: PatchAddress) -> (k: u128)
    ensures
        k == key(a),
{
    let face: u128 = match a.face {
        Face::Px => 0,
        Face::Nx => 1,
        Face::Py => 2,
        Face::Ny => 3,
        Face::Pz => 4,
        Face::Nz => 5,
    };
    face * 0x1_0000_0000_0000_0000 + (a.x as u128) * 0x1_0000_0000 + (a.y as u128)
}

proof fn lemma_key_injective(a: PatchAddress, b: PatchAddress)
    requires
        key(a) == key(b),
    ensures
        a == b,
{
}

/// Whoever is within `m` hops is within any larger number of hops.
pub proof fn lemma_within_grows(base: PatchAddress, a: PatchAddress, resolution: u32, m: nat, n: nat)
    requires
        m <= n,
        within(base, a, resolution, m),
    ensures
        within(base, a, resolution, n),
    decreases n,
{
    if m < n {
        lemma_within_grows(base, a, resolution, m, (n - 1) as nat);
    }
}

/// A collection that holds `base` and, with each cell, all cells adjacent to
/// it, holds whatever is within reach of `base`.
proof fn lemma_closed_holds_all(
    cells: Seq<PatchAddress>,
    base: PatchAddress,
    a: PatchAddress,
    resolution: u32,
    hops: nat,
)
    requires
        cells.contains(base),
        forall|i: int, b: PatchAddress|
            0 <= i < cells.len() && #[trigger] cells[i].adjacent(b, resolution) ==> cells.contains(
                b,
            ),
        within(base, a, resolution, hops),
    ensures
        cells.contains(a),
    decreases hops,
{
    if hops > 0 {
        if within(base, a, resolution, (hops - 1) as nat) {
            lemma_closed_holds_all(cells, base, a, resolution, (hops - 1) as nat);
        } else {
            let b = choose|b: PatchAddress|
                within(base, b, resolution, (hops - 1) as nat) && #[trigger] b.adjacent(
                    a,
                    resolution,
                );
            lemma_closed_holds_all(cells, base, b, resolution, (hops - 1) as nat);
            let i = choose|i: int| 0 <= i < cells.len() && cells[i] == b;
            assert(cells[i].adjacent(a, resolution));
        }
    }
}

/// `seen` holds the keys of the cells of `cells`, and no other key of a cell.
spec fn tracks(seen: Set<u128>, cells: Seq<PatchAddress>) -> bool {
    forall|a: PatchAddress| #[trigger] seen.contains(key(a)) <==> cells.contains(a)
}

proof fn lemma_push_contains(cells: Seq<PatchAddress>, n: PatchAddress)
    ensures
        forall|a: PatchAddress| #[trigger]
            cells.push(n).contains(a) <==> cells.contains(a) || a == n,
{
    assert forall|a: PatchAddress| #[trigger]
        cells.push(n).contains(a) <==> cells.contains(a) || a == n by {
        if cells.contains(a) {
            let i = choose|i: int| 0 <= i < cells.len() && cells[i] == a;
            assert(cells.push(n)[i] == a);
        }
        if a == n {
            assert(cells.push(n)[cells.len() as int] == a);
        }
    }
}

/// The cells within `rings` steps of `base`, each once, `base` first.
///
/// The grid is walked breadth first, ring by ring. A hash set of cell keys
/// tells what has been met already. The walk ends early once a ring adds
/// nothing, which happens when the whole cube has been covered.
pub fn chunk_set(base: PatchAddress, resolution: u32, rings: u32) -> (out: Vec<PatchAddress>)
    requires
        base.wf(resolution),
    ensures
        out@.no_duplicates(),
        out@.len() > 0,
        out@[0] == base,
        forall|i: int| 0 <= i < out@.len() ==> (#[trigger] out@[i]).wf(resolution),
        forall|a: PatchAddress| out@.contains(a) <==> within(base, a, resolution, rings as nat),
        rings == 0 ==> out@ == seq![base],
{
    let mut out: Vec<PatchAddress> = Vec::new();
    let mut seen: HashSet<u128> = HashSet::new();
    out.push(base);
    seen.insert(key_of(base));
    proof {
        assert(out@ == seq![base]);
        assert forall|a: PatchAddress| #[trigger] seen@.contains(key(a)) <==> out@.contains(a) by {
            if seen@.contains(key(a)) {
                lemma_key_injective(a, base);
                assert(out@[0] == a);
            }
        }
    }
    // Cells before `done` have all their neighbours in `out`.
    let mut done: usize = 0;
    let mut ring: u32 = 0;
    while ring < rings && done < out.len()
        invariant
            base.wf(resolution),
            ring <= rings,
            done <= out.len(),
            out@.len() > 0,
            out@[0] == base,
            ring == 0 ==> out@ == seq![base],
            out@.no_duplicates(),
            tracks(seen@, out@),
            forall|i: int| 0 <= i < out@.len() ==> (#[trigger] out@[i]).wf(resolution),
            forall|a: PatchAddress| out@.contains(a) ==> within(base, a, resolution, ring as nat),
            forall|a: PatchAddress| within(base, a, resolution, ring as nat) ==> out@.contains(a),
            forall|i: int, b: PatchAddress|
                0 <= i < done && #[trigger] out@[i].adjacent(b, resolution) ==> out@.contains(b),
        decreases rings - ring,
    {
        let end = out.len();
        let mut i = done;
        let ghost frozen = out@;
        proof {
            assert forall|k: int| 0 <= k < end implies within(
                base,
                #[trigger] out@[k],
                resolution,
                ring as nat,
            ) by {
                assert(out@.contains(out@[k]));
            }
            assert forall|a: PatchAddress| out@.contains(a) implies within(
                base,
                a,
                resolution,
                (ring + 1) as nat,
            ) by {
                lemma_within_grows(base, a, resolution, ring as nat, (ring + 1) as nat);
            }
        }
        while i < end
            invariant
                base.wf(resolution),
                done <= i <= end,
                end <= out.len(),
                out@.len() > 0,
                out@[0] == base,
                out@.no_duplicates(),
                tracks(seen@, out@),
                forall|k: int| 0 <= k < out@.len() ==> (#[trigger] out@[k]).wf(resolution),
                forall|k: int| 0 <= k < end ==> within(base, #[trigger] out@[k], resolution, ring as nat),
                forall|a: PatchAddress|
                    out@.contains(a) ==> within(base, a, resolution, (ring + 1) as nat),
                frozen.len() == end,
                forall|k: int| 0 <= k < end ==> #[trigger] out@[k] == frozen[k],
                forall|a: PatchAddress|
                    within(base, a, resolution, ring as nat) ==> frozen.contains(a),
                forall|k: int, b: PatchAddress|
                    0 <= k < i && #[trigger] out@[k].adjacent(b, resolution) ==> out@.contains(b),
            decreases end - i,
        {
            let cell = out[i];
            let around = cell.neighbors(resolution);
            let mut j: usize = 0;
            while j < 4
                invariant
                    base.wf(resolution),
                    i < end,
                    end <= out.len(),
                    j <= 4,
                    cell == out@[i as int],
                    out@.len() > 0,
                    out@[0] == base,
                    out@.no_duplicates(),
                    tracks(seen@, out@),
                    forall|b: PatchAddress| around@.contains(b) <==> cell.adjacent(b, resolution),
                    forall|k: int| 0 <= k < out@.len() ==> (#[trigger] out@[k]).wf(resolution),
                    forall|k: int|
                        0 <= k < end ==> within(base, #[trigger] out@[k], resolution, ring as nat),
                    forall|a: PatchAddress|
                        out@.contains(a) ==> within(base, a, resolution, (ring + 1) as nat),
                    frozen.len() == end,
                    forall|k: int| 0 <= k < end ==> #[trigger] out@[k] == frozen[k],
                    forall|a: PatchAddress|
                        within(base, a, resolution, ring as nat) ==> frozen.contains(a),
                    forall|k: int, b: PatchAddress|
                        0 <= k < i && #[trigger] out@[k].adjacent(b, resolution) ==> out@.contains(
                            b,
                        ),
                    forall|k: int| 0 <= k < j ==> out@.contains(#[trigger] around@[k]),
                decreases 4 - j,
            {
                let n = around[j];
                let ghost before = out@;
                proof {
                    assert(around@.contains(n));
                    assert(cell.adjacent(n, resolution));
                    lemma_push_contains(before, n);
                }
                if seen.insert(key_of(n)) {
                    out.push(n);
                    proof {
                        assert(!before.contains(n));
                        assert(within(base, n, resolution, (ring + 1) as nat));
                        assert forall|a: PatchAddress| #[trigger]
                            seen@.contains(key(a)) <==> out@.contains(a) by {
                            if key(a) == key(n) {
                                lemma_key_injective(a, n);
                            }
                        }
                        assert forall|k: int, b: PatchAddress|
                            0 <= k < i && #[trigger] out@[k].adjacent(
                                b,
                                resolution,
                            ) implies out@.contains(b) by {
                            assert(before[k].adjacent(b, resolution));
                        }
                        assert forall|k: int| 0 <= k < j + 1 implies out@.contains(
                            #[trigger] around@[k],
                        ) by {
                            if k < j {
                                assert(before.contains(around@[k]));
                            }
                        }
                    }
                } else {
                    proof {
                        assert(before.contains(n));
                    }
                }
                j += 1;
            }
            proof {
                assert forall|k: int, b: PatchAddress|
                    0 <= k < i + 1 && #[trigger] out@[k].adjacent(
                        b,
                        resolution,
                    ) implies out@.contains(b) by {
                    if k == i {
                        assert(around@.contains(b));
                        let idx = choose|idx: int| 0 <= idx < around@.len() && around@[idx] == b;
                        assert(out@.contains(around@[idx]));
                    }
                }
            }
            i += 1;
        }
        proof {
            assert forall|a: PatchAddress|
                within(base, a, resolution, (ring + 1) as nat) implies out@.contains(a) by {
                if within(base, a, resolution, ring as nat) {
                    assert(frozen.contains(a));
                    let k = choose|k: int| 0 <= k < frozen.len() && frozen[k] == a;
                    assert(out@[k] == a);
                } else {
                    let b = choose|b: PatchAddress|
                        within(base, b, resolution, ring as nat) && #[trigger] b.adjacent(
                            a,
                            resolution,
                        );
                    assert(frozen.contains(b));
                    let k = choose|k: int| 0 <= k < frozen.len() && frozen[k] == b;
                    assert(out@[k].adjacent(a, resolution));
                }
            }
        }
        done = end;
        ring += 1;
    }
    proof {
        if ring < rings {
            assert forall|a: PatchAddress| out@.contains(a) implies within(
                base,
                a,
                resolution,
                rings as nat,
            ) by {
                lemma_within_grows(base, a, resolution, ring as nat, rings as nat);
            }
            assert forall|a: PatchAddress|
                within(base, a, resolution, rings as nat) implies out@.contains(a) by {
                assert(out@[0] == base);
                lemma_closed_holds_all(out@, base, a, resolution, rings as nat);
            }
        }
    }
    out
}

} // verus!
