//! The fusion engine's mathematical core: per-cell precedence resolution,
//! whole-grid fusion, and the row-major discovery scan that records each
//! resource or science site exactly once.
use vstd::prelude::*;
use crate::grid::{GridModel, Position};
use crate::terrain::Terrain;

verus! {

/// Per-cell resolution, first match wins. `b` is the canonical cell, `a`
/// the agent cell. Any Ground/resource disagreement resolves to Ground
/// (the resource is gone); otherwise prior canonical knowledge wins, agent
/// knowledge fills gaps, and two unknowns stay unknown.
pub open spec fn fuse_cell(b: Terrain, a: Terrain) -> Terrain {
    if b == Terrain::Science && a == Terrain::Ground {
        Terrain::Ground
    } else if b == Terrain::Ground && a == Terrain::Science {
        Terrain::Ground
    } else if b == Terrain::Energy && a == Terrain::Ground {
        Terrain::Ground
    } else if b == Terrain::Ground && a == Terrain::Energy {
        Terrain::Ground
    } else if b == Terrain::Ore && a == Terrain::Ground {
        Terrain::Ground
    } else if b == Terrain::Ground && a == Terrain::Ore {
        Terrain::Ground
    } else if b != Terrain::Void {
        b
    } else if a != Terrain::Void {
        a
    } else {
        Terrain::Void
    }
}

/// Executable per-cell resolution.
pub fn fuse_cells(b: Terrain, a: Terrain) -> (r: Terrain)
    ensures
        r == fuse_cell(b, a),
{
    match (b, a) {
        (Terrain::Science, Terrain::Ground) => Terrain::Ground,
        (Terrain::Ground, Terrain::Science) => Terrain::Ground,
        (Terrain::Energy, Terrain::Ground) => Terrain::Ground,
        (Terrain::Ground, Terrain::Energy) => Terrain::Ground,
        (Terrain::Ore, Terrain::Ground) => Terrain::Ground,
        (Terrain::Ground, Terrain::Ore) => Terrain::Ground,
        (Terrain::Void, Terrain::Void) => Terrain::Void,
        (Terrain::Void, other) => other,
        (keep, _) => keep,
    }
}

/// The fused grid: canonical dimensions, every cell resolved by
/// `fuse_cell`.
pub open spec fn fuse_grids(b: GridModel, a: GridModel) -> GridModel {
    GridModel {
        width: b.width,
        height: b.height,
        cells: Seq::new(b.cells.len(), |i: int| fuse_cell(b.cells[i], a.cells[i])),
    }
}

/// Fusing two cell-wise equal grids changes nothing.
pub proof fn lemma_identity_fusion(g: GridModel)
    ensures
        fuse_grids(g, g) == g,
{
    assert(fuse_grids(g, g).cells =~= g.cells);
    assert(fuse_grids(g, g) =~= g);
}

/// The position a row-major scan index denotes.
pub open spec fn pos_of(i: int, w: int) -> Position {
    Position { x: (i % w) as usize, y: (i / w) as usize }
}

/// The row-major scan index a position occupies.
pub open spec fn pos_index(p: Position, w: int) -> int {
    p.y * w + p.x
}

pub proof fn lemma_pos_of_index(i: int, w: int, h: int)
    requires
        0 <= w,
        0 <= h,
        0 <= i < w * h,
        w * h <= usize::MAX,
    ensures
        0 < w,
        (pos_of(i, w).x as int) == i % w,
        i % w < w,
        (pos_of(i, w).y as int) == i / w,
        i / w < h,
        pos_index(pos_of(i, w), w) == i,
{
    assert(0 < w && 0 < h) by (nonlinear_arith)
        requires 0 <= w && 0 <= h && 0 <= i < w * h;
    assert(0 <= i % w < w && 0 <= i / w < h && (i / w) * w + i % w == i) by (nonlinear_arith)
        requires 0 <= i < w * h && 0 < w && 0 < h;
    assert(w <= w * h) by (nonlinear_arith)
        requires 0 < w && 0 < h;
}

/// Positions newly discovered by a row-major scan of `g` from index `i`
/// on, gated by the discovery set `d`: a position is recorded when its
/// fused cell is a resource or science site and it was never seen before.
pub open spec fn new_discoveries(g: GridModel, d: Seq<Position>, i: int) -> Seq<Position>
    decreases g.cells.len() - i,
{
    if i < 0 || i >= g.cells.len() {
        Seq::empty()
    } else {
        let p = pos_of(i, g.width as int);
        let rest = new_discoveries(g, d, i + 1);
        if g.cells[i].spec_is_discovery() && !d.contains(p) {
            seq![p] + rest
        } else {
            rest
        }
    }
}

/// The subsequence of `new_discoveries` whose fused cell is Ore or
/// Energy: what the scan appends to the resource queue.
pub open spec fn resource_discoveries(g: GridModel, d: Seq<Position>, i: int) -> Seq<Position>
    decreases g.cells.len() - i,
{
    if i < 0 || i >= g.cells.len() {
        Seq::empty()
    } else {
        let p = pos_of(i, g.width as int);
        let rest = resource_discoveries(g, d, i + 1);
        if g.cells[i].spec_is_resource_site() && !d.contains(p) {
            seq![p] + rest
        } else {
            rest
        }
    }
}

/// The subsequence of `new_discoveries` whose fused cell is Science: what
/// the scan appends to the science queue.
pub open spec fn science_discoveries(g: GridModel, d: Seq<Position>, i: int) -> Seq<Position>
    decreases g.cells.len() - i,
{
    if i < 0 || i >= g.cells.len() {
        Seq::empty()
    } else {
        let p = pos_of(i, g.width as int);
        let rest = science_discoveries(g, d, i + 1);
        if g.cells[i] == Terrain::Science && !d.contains(p) {
            seq![p] + rest
        } else {
            rest
        }
    }
}

pub proof fn lemma_cons_contains(p: Position, rest: Seq<Position>)
    ensures
        forall|q: Position| #[trigger] (seq![p] + rest).contains(q) <==> (q == p || rest.contains(q)),
{
    assert forall|q: Position| #[trigger] (seq![p] + rest).contains(q) implies (q == p
        || rest.contains(q)) by {
        let k = choose|k: int| 0 <= k < (seq![p] + rest).len() && (seq![p] + rest)[k] == q;
        if k > 0 {
            assert(rest[k - 1] == q);
        }
    }
    assert forall|q: Position| (q == p || rest.contains(q)) implies #[trigger] (seq![p]
        + rest).contains(q) by {
        if q == p {
            assert((seq![p] + rest)[0] == q);
        } else {
            let k = choose|k: int| 0 <= k < rest.len() && rest[k] == q;
            assert((seq![p] + rest)[k + 1] == q);
        }
    }
}

pub proof fn lemma_concat_contains(a: Seq<Position>, b: Seq<Position>)
    ensures
        forall|q: Position| #[trigger] (a + b).contains(q) <==> (a.contains(q) || b.contains(q)),
{
    assert forall|q: Position| #[trigger] (a + b).contains(q) implies (a.contains(q)
        || b.contains(q)) by {
        let k = choose|k: int| 0 <= k < (a + b).len() && (a + b)[k] == q;
        if k < a.len() {
            assert(a[k] == q);
        } else {
            assert(b[k - a.len()] == q);
        }
    }
    assert forall|q: Position| (a.contains(q) || b.contains(q)) implies #[trigger] (a
        + b).contains(q) by {
        if a.contains(q) {
            let k = choose|k: int| 0 <= k < a.len() && a[k] == q;
            assert((a + b)[k] == q);
        } else {
            let k = choose|k: int| 0 <= k < b.len() && b[k] == q;
            assert((a + b)[k + a.len()] == q);
        }
    }
}

/// What the discovery scan records, where it comes from, that it records
/// nothing twice, and that it misses nothing: every recorded position is
/// an unseen site at a scan index at or past `i`, every unseen site at
/// such an index is recorded, and no sequence holds duplicates.
pub proof fn lemma_discoveries(g: GridModel, d: Seq<Position>, i: int)
    requires
        g.wf(),
        0 <= i,
    ensures
        forall|q: Position| #[trigger] new_discoveries(g, d, i).contains(q) ==> i <= pos_index(
            q,
            g.width as int,
        ) < g.cells.len() && q == pos_of(pos_index(q, g.width as int), g.width as int) && g.cells[
            pos_index(q, g.width as int)
        ].spec_is_discovery() && !d.contains(q),
        forall|q: Position| #[trigger] resource_discoveries(g, d, i).contains(q) ==> i <= pos_index(
            q,
            g.width as int,
        ) < g.cells.len() && q == pos_of(pos_index(q, g.width as int), g.width as int) && g.cells[
            pos_index(q, g.width as int)
        ].spec_is_resource_site() && !d.contains(q),
        forall|q: Position| #[trigger] science_discoveries(g, d, i).contains(q) ==> i <= pos_index(
            q,
            g.width as int,
        ) < g.cells.len() && q == pos_of(pos_index(q, g.width as int), g.width as int) && g.cells[
            pos_index(q, g.width as int)
        ] == Terrain::Science && !d.contains(q),
        forall|j: int|
            i <= j < g.cells.len() && #[trigger] g.cells[j].spec_is_discovery() && !d.contains(
                pos_of(j, g.width as int),
            ) ==> new_discoveries(g, d, i).contains(pos_of(j, g.width as int)),
        forall|j: int|
            i <= j < g.cells.len() && #[trigger] g.cells[j].spec_is_resource_site() && !d.contains(
                pos_of(j, g.width as int),
            ) ==> resource_discoveries(g, d, i).contains(pos_of(j, g.width as int)),
        forall|j: int|
            i <= j < g.cells.len() && g.cells[j] == Terrain::Science && !d.contains(
                pos_of(j, g.width as int),
            ) ==> science_discoveries(g, d, i).contains(#[trigger] pos_of(j, g.width as int)),
        new_discoveries(g, d, i).no_duplicates(),
        resource_discoveries(g, d, i).no_duplicates(),
        science_discoveries(g, d, i).no_duplicates(),
    decreases g.cells.len() - i,
{
    if i < 0 || i >= g.cells.len() {
        // all three sequences are empty
    } else {
        lemma_discoveries(g, d, i + 1);
        let w = g.width as int;
        assert(g.cells.len() == g.width * g.height);
        lemma_pos_of_index(i, w, g.height as int);
        let p = pos_of(i, w);
        let nd = new_discoveries(g, d, i + 1);
        let rd = resource_discoveries(g, d, i + 1);
        let sd = science_discoveries(g, d, i + 1);
        lemma_cons_contains(p, nd);
        lemma_cons_contains(p, rd);
        lemma_cons_contains(p, sd);
        if nd.contains(p) {
            assert(false);
        }
        if rd.contains(p) {
            assert(false);
        }
        if sd.contains(p) {
            assert(false);
        }
        assert forall|j: int|
            i <= j < g.cells.len() && #[trigger] g.cells[j].spec_is_discovery() && !d.contains(
                pos_of(j, w),
            ) implies new_discoveries(g, d, i).contains(pos_of(j, w)) by {
            if j == i {
                assert(new_discoveries(g, d, i) == seq![p] + nd);
                assert((seq![p] + nd).contains(p));
            } else {
                assert(nd.contains(pos_of(j, w)));
                if g.cells[i].spec_is_discovery() && !d.contains(p) {
                    assert((seq![p] + nd).contains(pos_of(j, w)));
                }
            }
        }
        assert forall|j: int|
            i <= j < g.cells.len() && #[trigger] g.cells[j].spec_is_resource_site() && !d.contains(
                pos_of(j, w),
            ) implies resource_discoveries(g, d, i).contains(pos_of(j, w)) by {
            if j == i {
                assert(resource_discoveries(g, d, i) == seq![p] + rd);
                assert((seq![p] + rd).contains(p));
            } else {
                assert(rd.contains(pos_of(j, w)));
                if g.cells[i].spec_is_resource_site() && !d.contains(p) {
                    assert((seq![p] + rd).contains(pos_of(j, w)));
                }
            }
        }
        assert forall|j: int|
            i <= j < g.cells.len() && g.cells[j] == Terrain::Science && !d.contains(
                pos_of(j, w),
            ) implies science_discoveries(g, d, i).contains(#[trigger] pos_of(j, w)) by {
            if j == i {
                assert(science_discoveries(g, d, i) == seq![p] + sd);
                assert((seq![p] + sd).contains(p));
            } else {
                assert(sd.contains(pos_of(j, w)));
                if g.cells[i] == Terrain::Science && !d.contains(p) {
                    assert((seq![p] + sd).contains(pos_of(j, w)));
                }
            }
        }
        if g.cells[i].spec_is_discovery() && !d.contains(p) {
            lemma_cons_no_dup(p, nd);
        }
        if g.cells[i].spec_is_resource_site() && !d.contains(p) {
            lemma_cons_no_dup(p, rd);
        }
        if g.cells[i] == Terrain::Science && !d.contains(p) {
            lemma_cons_no_dup(p, sd);
        }
    }
}

pub proof fn lemma_cons_no_dup(p: Position, rest: Seq<Position>)
    requires
        rest.no_duplicates(),
        !rest.contains(p),
    ensures
        (seq![p] + rest).no_duplicates(),
{
    let s = seq![p] + rest;
    assert forall|i: int, j: int|
        0 <= i < s.len() && 0 <= j < s.len() && i != j implies s[i] != s[j] by {
        if i == 0 {
            assert(s[j] == rest[j - 1]);
            if s[0] == s[j] {
                assert(rest.contains(p));
            }
        } else if j == 0 {
            assert(s[i] == rest[i - 1]);
            if s[0] == s[i] {
                assert(rest.contains(p));
            }
        } else {
            assert(s[i] == rest[i - 1] && s[j] == rest[j - 1]);
        }
    }
}

/// Once every site of `g` is in the discovery set, a scan records
/// nothing: the heart of fusion idempotence.
pub proof fn lemma_no_new_when_covered(g: GridModel, d: Seq<Position>, i: int)
    requires
        g.wf(),
        forall|j: int|
            0 <= j < g.cells.len() && #[trigger] g.cells[j].spec_is_discovery() ==> d.contains(
                pos_of(j, g.width as int),
            ),
    ensures
        new_discoveries(g, d, i) == Seq::<Position>::empty(),
        resource_discoveries(g, d, i) == Seq::<Position>::empty(),
        science_discoveries(g, d, i) == Seq::<Position>::empty(),
    decreases g.cells.len() - i,
{
    if i < 0 || i >= g.cells.len() {
    } else {
        lemma_no_new_when_covered(g, d, i + 1);
    }
}

} // verus!
