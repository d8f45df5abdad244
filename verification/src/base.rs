//! The home base: canonical terrain knowledge, resource counters, the
//! deduplicated discovery queues, the grid fusion engine and the
//! dock/return protocol.
use vstd::prelude::*;
use vstd::seq_lib::lemma_no_dup_in_concat;
use crate::agent::{models_of, Robot, RobotModel, RobotType};
use crate::fusion::{
    fuse_cells, fuse_grids, lemma_concat_contains, lemma_discoveries, lemma_identity_fusion,
    lemma_no_new_when_covered, lemma_pos_of_index, new_discoveries, pos_index, pos_of,
    resource_discoveries, science_discoveries,
};
use crate::grid::{lemma_idx_in_range, GridModel, Position, TerrainGrid};
use crate::terrain::Terrain;

verus! {

/// Mathematical model of the base.
#[verifier::ext_equal]
pub ghost struct BaseModel {
    pub ores: nat,
    pub energy: nat,
    pub science: nat,
    /// The canonical grid: the colony's shared terrain knowledge.
    pub grid: GridModel,
    pub coordinates: Position,
    pub science_queue: Seq<Position>,
    pub resource_queue: Seq<Position>,
    /// Every position ever recorded as a resource or science site; it
    /// only ever grows.
    pub detected: Seq<Position>,
}

impl BaseModel {
    /// Well-formedness: the grid is consistent, no queue holds a
    /// position twice, the queues are disjoint, and everything queued is
    /// in the discovery set.
    pub open spec fn inv(self) -> bool {
        &&& self.grid.wf()
        &&& self.resource_queue.no_duplicates()
        &&& self.science_queue.no_duplicates()
        &&& self.detected.no_duplicates()
        &&& forall|p: Position| #[trigger]
            self.resource_queue.contains(p) ==> self.detected.contains(p)
        &&& forall|p: Position| #[trigger]
            self.science_queue.contains(p) ==> self.detected.contains(p)
        &&& forall|p: Position|
            !(#[trigger] self.resource_queue.contains(p) && self.science_queue.contains(p))
    }
}

/// The base after one fusion: the fused grid becomes canonical, and the
/// row-major discovery scan extends the discovery set and both queues.
pub open spec fn merged_base(b: BaseModel, r: RobotModel) -> BaseModel {
    let g = fuse_grids(b.grid, r.known);
    BaseModel {
        grid: g,
        detected: b.detected + new_discoveries(g, b.detected, 0),
        resource_queue: b.resource_queue + resource_discoveries(g, b.detected, 0),
        science_queue: b.science_queue + science_discoveries(g, b.detected, 0),
        ..b
    }
}

/// The rover after one fusion: its view is forced into agreement with
/// the new canonical grid.
pub open spec fn merged_robot(b: BaseModel, r: RobotModel) -> RobotModel {
    RobotModel { known: fuse_grids(b.grid, r.known), ..r }
}

/// The rover after the dock protocol's state resets, before fusion: a
/// Scout's mission counter drops to zero, a laden non-Scout loses its
/// movement goal, and any cargo is cleared.
pub open spec fn settled_robot(r: RobotModel) -> RobotModel {
    let r1 = if r.mission == RobotType::Scout {
        RobotModel { void_terrains_discovered: 0, ..r }
    } else if r.resource != Terrain::Void {
        RobotModel { goal: None, ..r }
    } else {
        r
    };
    if r.resource != Terrain::Void {
        RobotModel { resource: Terrain::Void, ..r1 }
    } else {
        r1
    }
}

/// The base after crediting one delivered cargo unit.
pub open spec fn credited_base(b: BaseModel, cargo: Terrain) -> BaseModel {
    match cargo {
        Terrain::Ore => BaseModel { ores: b.ores + 1, ..b },
        Terrain::Energy => BaseModel { energy: b.energy + 1, ..b },
        Terrain::Science => BaseModel { science: b.science + 1, ..b },
        _ => b,
    }
}

/// The canonical grid after fusing every rover in order, each against
/// the grid already updated by its predecessors.
pub open spec fn fold_base(b: BaseModel, rs: Seq<RobotModel>) -> BaseModel
    decreases rs.len(),
{
    if rs.len() == 0 {
        b
    } else {
        fold_base(merged_base(b, rs[0]), rs.skip(1))
    }
}

/// The rovers after that same pass, in order.
pub open spec fn fold_robots(b: BaseModel, rs: Seq<RobotModel>) -> Seq<RobotModel>
    decreases rs.len(),
{
    if rs.len() == 0 {
        Seq::empty()
    } else {
        seq![merged_robot(b, rs[0])] + fold_robots(merged_base(b, rs[0]), rs.skip(1))
    }
}

/// One fusion preserves the base invariant, never shrinks the discovery
/// set, and keeps dimensions and counters.
pub proof fn lemma_merge_preserves_inv(b: BaseModel, r: RobotModel)
    requires
        b.inv(),
        r.known.wf(),
        b.grid.same_dims(r.known),
    ensures
        merged_base(b, r).inv(),
        merged_base(b, r).grid.same_dims(b.grid),
        forall|j: int|
            0 <= j < b.detected.len() ==> #[trigger] merged_base(b, r).detected[j] == b.detected[j],
        merged_base(b, r).detected.len() >= b.detected.len(),
        forall|p: Position| #[trigger]
            b.detected.contains(p) ==> merged_base(b, r).detected.contains(p),
        merged_base(b, r).ores == b.ores,
        merged_base(b, r).energy == b.energy,
        merged_base(b, r).science == b.science,
        merged_base(b, r).coordinates == b.coordinates,
{
    let g = fuse_grids(b.grid, r.known);
    let w = g.width as int;
    let d = b.detected;
    assert(g.wf());
    lemma_discoveries(g, d, 0);
    let nd = new_discoveries(g, d, 0);
    let rd = resource_discoveries(g, d, 0);
    let sd = science_discoveries(g, d, 0);
    lemma_concat_contains(d, nd);
    lemma_concat_contains(b.resource_queue, rd);
    lemma_concat_contains(b.science_queue, sd);
    // the new discovery set has no duplicates
    assert forall|i: int, j: int| 0 <= i < d.len() && 0 <= j < nd.len() implies d[i] != nd[j] by {
        assert(nd.contains(nd[j]));
        if d[i] == nd[j] {
            assert(d.contains(nd[j]));
        }
    }
    lemma_no_dup_in_concat(d, nd);
    // nor does either extended queue
    assert forall|i: int, j: int|
        0 <= i < b.resource_queue.len() && 0 <= j < rd.len() implies b.resource_queue[i]
        != rd[j] by {
        assert(rd.contains(rd[j]));
        assert(b.resource_queue.contains(b.resource_queue[i]));
        if b.resource_queue[i] == rd[j] {
            assert(d.contains(rd[j]));
        }
    }
    lemma_no_dup_in_concat(b.resource_queue, rd);
    assert forall|i: int, j: int|
        0 <= i < b.science_queue.len() && 0 <= j < sd.len() implies b.science_queue[i]
        != sd[j] by {
        assert(sd.contains(sd[j]));
        assert(b.science_queue.contains(b.science_queue[i]));
        if b.science_queue[i] == sd[j] {
            assert(d.contains(sd[j]));
        }
    }
    lemma_no_dup_in_concat(b.science_queue, sd);
    // everything queued is detected
    assert forall|p: Position| #[trigger] (b.resource_queue + rd).contains(p) implies (d
        + nd).contains(p) by {
        if rd.contains(p) {
            let k = pos_index(p, w);
            assert(g.cells[k].spec_is_discovery());
            assert(nd.contains(pos_of(k, w)));
        }
    }
    assert forall|p: Position| #[trigger] (b.science_queue + sd).contains(p) implies (d
        + nd).contains(p) by {
        if sd.contains(p) {
            let k = pos_index(p, w);
            assert(g.cells[k].spec_is_discovery());
            assert(nd.contains(pos_of(k, w)));
        }
    }
    // the queues stay disjoint
    assert forall|p: Position|
        !(#[trigger] (b.resource_queue + rd).contains(p) && (b.science_queue + sd).contains(
            p,
        )) by {
        if (b.resource_queue + rd).contains(p) && (b.science_queue + sd).contains(p) {
            if b.resource_queue.contains(p) && sd.contains(p) {
                assert(d.contains(p));
            } else if rd.contains(p) && b.science_queue.contains(p) {
                assert(d.contains(p));
            } else if rd.contains(p) && sd.contains(p) {
                assert(g.cells[pos_index(p, w)].spec_is_resource_site());
                assert(g.cells[pos_index(p, w)] == Terrain::Science);
            }
        }
    }
    // the old discovery set is a prefix of the new one
    assert forall|j: int|
        0 <= j < d.len() implies #[trigger] merged_base(b, r).detected[j] == d[j] by {
        assert((d + nd)[j] == d[j]);
    }
}

/// A whole fusion pass keeps the invariant, dimensions, counters and the
/// population size, and leaves every rover's view sized to the grid.
pub proof fn lemma_fold_properties(b: BaseModel, rs: Seq<RobotModel>)
    requires
        b.inv(),
        forall|k: int|
            0 <= k < rs.len() ==> (#[trigger] rs[k]).known.wf() && b.grid.same_dims(rs[k].known),
    ensures
        fold_base(b, rs).inv(),
        fold_base(b, rs).grid.same_dims(b.grid),
        fold_base(b, rs).ores == b.ores,
        fold_base(b, rs).energy == b.energy,
        fold_base(b, rs).science == b.science,
        fold_base(b, rs).coordinates == b.coordinates,
        fold_robots(b, rs).len() == rs.len(),
        forall|k: int|
            0 <= k < rs.len() ==> (#[trigger] fold_robots(b, rs)[k]).known.wf()
                && b.grid.same_dims(fold_robots(b, rs)[k].known),
    decreases rs.len(),
{
    if rs.len() == 0 {
    } else {
        lemma_merge_preserves_inv(b, rs[0]);
        let b1 = merged_base(b, rs[0]);
        let tail = rs.skip(1);
        assert forall|k: int|
            0 <= k < tail.len() implies (#[trigger] tail[k]).known.wf() && b1.grid.same_dims(
            tail[k].known,
        ) by {
            assert(tail[k] == rs[k + 1]);
        }
        lemma_fold_properties(b1, tail);
        let folded = fold_robots(b, rs);
        assert(folded == seq![merged_robot(b, rs[0])] + fold_robots(b1, tail));
        assert forall|k: int|
            0 <= k < rs.len() implies (#[trigger] folded[k]).known.wf() && b.grid.same_dims(
            folded[k].known,
        ) by {
            if k == 0 {
                assert(folded[0] == merged_robot(b, rs[0]));
            } else {
                assert(folded[k] == fold_robots(b1, tail)[k - 1]);
            }
        }
    }
}

/// Fusing the same canonical grid against an unchanged rover view a
/// second time yields the identical grid and adds nothing to any queue
/// or to the discovery set.
pub proof fn lemma_fusion_idempotent(b: BaseModel, r: RobotModel)
    requires
        b.inv(),
        r.known.wf(),
        b.grid.same_dims(r.known),
    ensures
        merged_base(merged_base(b, r), merged_robot(b, r)) == merged_base(b, r),
        merged_robot(merged_base(b, r), merged_robot(b, r)) == merged_robot(b, r),
{
    let b1 = merged_base(b, r);
    let r1 = merged_robot(b, r);
    let g = fuse_grids(b.grid, r.known);
    let w = g.width as int;
    assert(g.wf());
    lemma_identity_fusion(g);
    lemma_discoveries(g, b.detected, 0);
    lemma_concat_contains(b.detected, new_discoveries(g, b.detected, 0));
    assert forall|j: int|
        0 <= j < g.cells.len() && #[trigger] g.cells[j].spec_is_discovery() implies b1
            .detected.contains(pos_of(j, w)) by {
        if !b.detected.contains(pos_of(j, w)) {
            assert(new_discoveries(g, b.detected, 0).contains(pos_of(j, w)));
        }
    }
    lemma_no_new_when_covered(g, b1.detected, 0);
    assert(b1.detected + Seq::<Position>::empty() =~= b1.detected);
    assert(b1.resource_queue + Seq::<Position>::empty() =~= b1.resource_queue);
    assert(b1.science_queue + Seq::<Position>::empty() =~= b1.science_queue);
    assert(merged_base(b1, r1) =~= b1);
    assert(merged_robot(b1, r1) =~= r1);
}

/// Docking twice without moving settles cargo once: after one dock the
/// rover carries nothing and its view equals the canonical grid, so a
/// second dock at the same spot changes neither the base nor the rover —
/// in particular no counter is credited twice.
pub proof fn lemma_dock_idempotent(b: BaseModel, r: RobotModel)
    requires
        b.inv(),
        r.known.wf(),
        b.grid.same_dims(r.known),
    ensures
        ({
            let b1 = merged_base(credited_base(b, r.resource), settled_robot(r));
            let r1 = merged_robot(credited_base(b, r.resource), settled_robot(r));
            &&& merged_base(credited_base(b1, r1.resource), settled_robot(r1)) == b1
            &&& merged_robot(credited_base(b1, r1.resource), settled_robot(r1)) == r1
        }),
{
    let bc = credited_base(b, r.resource);
    let rs = settled_robot(r);
    let b1 = merged_base(bc, rs);
    let r1 = merged_robot(bc, rs);
    assert(bc.inv());
    assert(rs.known == r.known);
    assert(r1.resource == Terrain::Void);
    assert(credited_base(b1, r1.resource) == b1);
    assert(settled_robot(r1) == r1);
    lemma_fusion_idempotent(bc, rs);
}

/// Discovery is unique and permanent: fusion keeps the invariant, a
/// position already in the discovery set survives and is never enqueued
/// again, so each position enters the resource or science queue at most
/// once over the simulation's lifetime.
pub proof fn lemma_discovery_unique(b: BaseModel, r: RobotModel, p: Position)
    requires
        b.inv(),
        r.known.wf(),
        b.grid.same_dims(r.known),
    ensures
        merged_base(b, r).inv(),
        b.detected.contains(p) ==> merged_base(b, r).detected.contains(p),
        b.detected.contains(p) ==> (merged_base(b, r).resource_queue.contains(p)
            <==> b.resource_queue.contains(p)),
        b.detected.contains(p) ==> (merged_base(b, r).science_queue.contains(p)
            <==> b.science_queue.contains(p)),
{
    lemma_merge_preserves_inv(b, r);
    let g = fuse_grids(b.grid, r.known);
    lemma_discoveries(g, b.detected, 0);
    lemma_concat_contains(b.resource_queue, resource_discoveries(g, b.detected, 0));
    lemma_concat_contains(b.science_queue, science_discoveries(g, b.detected, 0));
    if b.detected.contains(p) {
        if resource_discoveries(g, b.detected, 0).contains(p) {
            assert(false);
        }
        if science_discoveries(g, b.detected, 0).contains(p) {
            assert(false);
        }
    }
}

pub struct Base {
    pub(crate) ores: usize,
    pub(crate) energy: usize,
    pub(crate) science: usize,
    shared_map: TerrainGrid,
    pub(crate) coordinates: Position,
    science_queue: Vec<Position>,
    resource_queue: Vec<Position>,
    detected_resources: Vec<Position>,
}

impl View for Base {
    type V = BaseModel;

    closed spec fn view(&self) -> BaseModel {
        BaseModel {
            ores: self.ores as nat,
            energy: self.energy as nat,
            science: self.science as nat,
            grid: self.shared_map@,
            coordinates: self.coordinates,
            science_queue: self.science_queue@,
            resource_queue: self.resource_queue@,
            detected: self.detected_resources@,
        }
    }
}

/// Linear membership scan over a recorded position list.
fn contains_pos(v: &Vec<Position>, p: Position) -> (r: bool)
    ensures
        r == v@.contains(p),
{
    let mut i: usize = 0;
    while i < v.len()
        invariant
            i <= v@.len(),
            forall|j: int| 0 <= j < i ==> v@[j] != p,
        decreases v@.len() - i,
    {
        if v[i].x == p.x && v[i].y == p.y {
            assert(v@[i as int] == p);
            return true;
        }
        i = i + 1;
    }
    false
}

impl Base {
    pub open spec fn inv(self) -> bool {
        self@.inv()
    }

    /// A base at `(center_x, center_y)` with zeroed counters, an all
    /// unknown canonical grid, and empty discovery structures.
    pub fn new(width: usize, height: usize, center_x: usize, center_y: usize) -> (b: Base)
        requires
            width * height <= usize::MAX,
        ensures
            b.inv(),
            b@.ores == 0,
            b@.energy == 0,
            b@.science == 0,
            b@.coordinates == (Position { x: center_x, y: center_y }),
            b@.grid.width == width,
            b@.grid.height == height,
            forall|i: int| 0 <= i < b@.grid.cells.len() ==> b@.grid.cells[i] == Terrain::Void,
            b@.science_queue == Seq::<Position>::empty(),
            b@.resource_queue == Seq::<Position>::empty(),
            b@.detected == Seq::<Position>::empty(),
    {
        let b = Base {
            ores: 0,
            energy: 0,
            science: 0,
            shared_map: TerrainGrid::new(width, height, Terrain::Void),
            coordinates: Position { x: center_x, y: center_y },
            science_queue: Vec::new(),
            resource_queue: Vec::new(),
            detected_resources: Vec::new(),
        };
        proof {
            assert(b@.science_queue =~= Seq::<Position>::empty());
            assert(b@.resource_queue =~= Seq::<Position>::empty());
            assert(b@.detected =~= Seq::<Position>::empty());
        }
        b
    }

    pub fn ores(&self) -> (n: usize)
        ensures
            n == self@.ores,
    {
        self.ores
    }

    pub fn energy(&self) -> (n: usize)
        ensures
            n == self@.energy,
    {
        self.energy
    }

    pub fn science(&self) -> (n: usize)
        ensures
            n == self@.science,
    {
        self.science
    }

    pub fn coordinates(&self) -> (p: Position)
        ensures
            p == self@.coordinates,
    {
        self.coordinates
    }

    /// The canonical grid.
    pub fn shared_map(&self) -> (m: &TerrainGrid)
        ensures
            m@ == self@.grid,
    {
        &self.shared_map
    }

    /// Replaces the canonical grid wholesale.
    pub fn set_shared_map(&mut self, map: TerrainGrid)
        requires
            old(self).inv(),
            map@.wf(),
        ensures
            final(self).inv(),
            final(self)@ == (BaseModel { grid: map@, ..old(self)@ }),
    {
        self.shared_map = map;
    }

    pub fn pop_science_queue(&mut self) -> (r: Option<Position>)
        requires
            old(self).inv(),
        ensures
            final(self).inv(),
            old(self)@.science_queue.len() == 0 ==> r is None && final(self)@ == old(self)@,
            old(self)@.science_queue.len() > 0 ==> r == Some(old(self)@.science_queue[0])
                && final(self)@ == (BaseModel {
                science_queue: old(self)@.science_queue.skip(1),
                ..old(self)@
            }),
    {
        if self.science_queue.len() == 0 {
            None
        } else {
            let p = self.science_queue.remove(0);
            proof {
                let oldq = old(self)@.science_queue;
                assert(self@.science_queue =~= oldq.skip(1));
                assert forall|q: Position| #[trigger]
                    self@.science_queue.contains(q) implies oldq.contains(q) by {
                    let k = choose|k: int|
                        0 <= k < self@.science_queue.len() && self@.science_queue[k] == q;
                    assert(oldq[k + 1] == q);
                }
            }
            Some(p)
        }
    }

    pub fn pop_resource_queue(&mut self) -> (r: Option<Position>)
        requires
            old(self).inv(),
        ensures
            final(self).inv(),
            old(self)@.resource_queue.len() == 0 ==> r is None && final(self)@ == old(self)@,
            old(self)@.resource_queue.len() > 0 ==> r == Some(old(self)@.resource_queue[0])
                && final(self)@ == (BaseModel {
                resource_queue: old(self)@.resource_queue.skip(1),
                ..old(self)@
            }),
    {
        if self.resource_queue.len() == 0 {
            None
        } else {
            let p = self.resource_queue.remove(0);
            proof {
                let oldq = old(self)@.resource_queue;
                assert(self@.resource_queue =~= oldq.skip(1));
                assert forall|q: Position| #[trigger]
                    self@.resource_queue.contains(q) implies oldq.contains(q) by {
                    let k = choose|k: int|
                        0 <= k < self@.resource_queue.len() && self@.resource_queue[k] == q;
                    assert(oldq[k + 1] == q);
                }
            }
            Some(p)
        }
    }

    /// The pending resource discoveries, oldest first.
    pub fn resource_queue(&self) -> (q: &Vec<Position>)
        ensures
            q@ == self@.resource_queue,
    {
        &self.resource_queue
    }

    /// The pending science discoveries, oldest first.
    pub fn science_queue(&self) -> (q: &Vec<Position>)
        ensures
            q@ == self@.science_queue,
    {
        &self.science_queue
    }

    /// Every position ever discovered, in discovery order.
    pub fn detected_resources(&self) -> (v: &Vec<Position>)
        ensures
            v@ == self@.detected,
    {
        &self.detected_resources
    }

    pub fn add_ores(&mut self)
        requires
            old(self)@.ores < usize::MAX,
        ensures
            final(self)@ == (BaseModel { ores: old(self)@.ores + 1, ..old(self)@ }),
    {
        self.ores = self.ores + 1;
    }

    pub fn add_energy(&mut self)
        requires
            old(self)@.energy < usize::MAX,
        ensures
            final(self)@ == (BaseModel { energy: old(self)@.energy + 1, ..old(self)@ }),
    {
        self.energy = self.energy + 1;
    }

    pub fn add_science(&mut self)
        requires
            old(self)@.science < usize::MAX,
        ensures
            final(self)@ == (BaseModel { science: old(self)@.science + 1, ..old(self)@ }),
    {
        self.science = self.science + 1;
    }

    /// Deducts one spawn price from both funding counters.
    pub fn spend(&mut self, cost: usize)
        requires
            old(self)@.ores >= cost,
            old(self)@.energy >= cost,
        ensures
            final(self)@ == (BaseModel {
                ores: (old(self)@.ores - cost) as nat,
                energy: (old(self)@.energy - cost) as nat,
                ..old(self)@
            }),
    {
        self.ores = self.ores - cost;
        self.energy = self.energy - cost;
    }

    /// The fusion engine. Reconciles the canonical grid and this rover's
    /// view cell by cell, scans the fused grid once in row-major order to
    /// record never-seen resource and science sites, and forces both
    /// surfaces into agreement with the result.
    pub fn merge_map(&mut self, robot: &mut Robot)
        requires
            old(self).inv(),
            old(robot)@.known.wf(),
            old(self)@.grid.same_dims(old(robot)@.known),
        ensures
            final(self).inv(),
            final(self)@ == merged_base(old(self)@, old(robot)@),
            final(robot)@ == merged_robot(old(self)@, old(robot)@),
    {
        let width = self.shared_map.width();
        let height = self.shared_map.height();
        let total = width * height;
        let ghost fused = fuse_grids(old(self)@.grid, old(robot)@.known);
        let ghost d0 = old(self)@.detected;
        let mut new_map = TerrainGrid::new(width, height, Terrain::Void);

        let mut i: usize = 0;
        while i < total
            invariant
                i <= total,
                total == width * height,
                self == old(self),
                robot == old(robot),
                self.inv(),
                robot@.known.wf(),
                self@.grid.same_dims(robot@.known),
                width == self@.grid.width,
                height == self@.grid.height,
                fused == fuse_grids(self@.grid, robot@.known),
                fused.cells.len() == total,
                new_map@.wf(),
                new_map@.width == width,
                new_map@.height == height,
                forall|j: int| 0 <= j < i ==> new_map@.cells[j] == fused.cells[j],
            decreases total - i,
        {
            assert(width > 0) by (nonlinear_arith)
                requires i < total && total == width * height && i >= 0;
            let x = i % width;
            let y = i / width;
            proof {
                lemma_pos_of_index(i as int, width as int, height as int);
                lemma_idx_in_range(width as int, height as int, x as int, y as int);
            }
            let b_cell = match self.shared_map.get_cell(x, y) {
                Some(c) => c,
                None => Terrain::Void,
            };
            let a_cell = match robot.known_map().get_cell(x, y) {
                Some(c) => c,
                None => Terrain::Void,
            };
            let cell = fuse_cells(b_cell, a_cell);
            assert(cell == fused.cells[i as int]);
            new_map.set_cell(Position { x, y }, cell);
            i = i + 1;
        }
        proof {
            assert(new_map@.cells =~= fused.cells);
            assert(new_map@ =~= fused);
        }

        let ghost rq0 = old(self)@.resource_queue;
        let ghost sq0 = old(self)@.science_queue;
        let mut i: usize = 0;
        while i < total
            invariant
                i <= total,
                total == width * height,
                robot == old(robot),
                self@.ores == old(self)@.ores,
                self@.energy == old(self)@.energy,
                self@.science == old(self)@.science,
                self@.coordinates == old(self)@.coordinates,
                self@.grid == old(self)@.grid,
                self@.grid.wf(),
                width == self@.grid.width,
                height == self@.grid.height,
                fused.wf(),
                fused.width == width,
                fused.height == height,
                fused.cells.len() == total,
                new_map@ == fused,
                d0 == old(self)@.detected,
                rq0 == old(self)@.resource_queue,
                sq0 == old(self)@.science_queue,
                d0 + new_discoveries(fused, d0, 0) == self@.detected + new_discoveries(
                    fused,
                    d0,
                    i as int,
                ),
                rq0 + resource_discoveries(fused, d0, 0) == self@.resource_queue
                    + resource_discoveries(fused, d0, i as int),
                sq0 + science_discoveries(fused, d0, 0) == self@.science_queue
                    + science_discoveries(fused, d0, i as int),
                self@.detected.len() >= d0.len(),
                forall|j: int| 0 <= j < d0.len() ==> self@.detected[j] == d0[j],
                forall|j: int|
                    d0.len() <= j < self@.detected.len() ==> pos_index(
                        #[trigger] self@.detected[j],
                        width as int,
                    ) < i,
            decreases total - i,
        {
            assert(width > 0) by (nonlinear_arith)
                requires i < total && total == width * height && i >= 0;
            let x = i % width;
            let y = i / width;
            proof {
                lemma_pos_of_index(i as int, width as int, height as int);
            }
            let p = Position { x, y };
            assert(p == pos_of(i as int, width as int));
            let cell = match new_map.get_cell(x, y) {
                Some(c) => c,
                None => Terrain::Void,
            };
            assert(cell == fused.cells[i as int]);
            let already = contains_pos(&self.detected_resources, p);
            proof {
                if d0.contains(p) {
                    let k = choose|k: int| 0 <= k < d0.len() && d0[k] == p;
                    assert(self@.detected[k] == p);
                    assert(self@.detected.contains(p));
                }
                if self@.detected.contains(p) && !d0.contains(p) {
                    let k = choose|k: int|
                        0 <= k < self@.detected.len() && self@.detected[k] == p;
                    assert(k >= d0.len()) by {
                        if k < d0.len() {
                            assert(d0[k] == p);
                        }
                    }
                    assert(pos_index(self@.detected[k], width as int) < i);
                    assert(pos_index(p, width as int) == i);
                    assert(false);
                }
            }
            assert(already == d0.contains(p));
            let ghost det_before = self@.detected;
            let ghost rq_before = self@.resource_queue;
            let ghost sq_before = self@.science_queue;
            let is_resource = matches!(cell, Terrain::Energy | Terrain::Ore);
            let is_science = matches!(cell, Terrain::Science);
            if is_resource && !already {
                self.detected_resources.push(p);
                self.resource_queue.push(p);
                proof {
                    assert(new_discoveries(fused, d0, i as int) == seq![p] + new_discoveries(
                        fused,
                        d0,
                        i as int + 1,
                    ));
                    assert(resource_discoveries(fused, d0, i as int) == seq![p]
                        + resource_discoveries(fused, d0, i as int + 1));
                    assert(science_discoveries(fused, d0, i as int) == science_discoveries(
                        fused,
                        d0,
                        i as int + 1,
                    ));
                    assert(self@.detected =~= det_before + seq![p]);
                    assert(self@.resource_queue =~= rq_before + seq![p]);
                    assert(det_before + (seq![p] + new_discoveries(fused, d0, i as int + 1))
                        =~= (det_before + seq![p]) + new_discoveries(fused, d0, i as int + 1));
                    assert(rq_before + (seq![p] + resource_discoveries(fused, d0, i as int + 1))
                        =~= (rq_before + seq![p]) + resource_discoveries(
                        fused,
                        d0,
                        i as int + 1,
                    ));
                    assert(pos_index(p, width as int) == i);
                }
            } else if is_science && !already {
                self.detected_resources.push(p);
                self.science_queue.push(p);
                proof {
                    assert(new_discoveries(fused, d0, i as int) == seq![p] + new_discoveries(
                        fused,
                        d0,
                        i as int + 1,
                    ));
                    assert(science_discoveries(fused, d0, i as int) == seq![p]
                        + science_discoveries(fused, d0, i as int + 1));
                    assert(resource_discoveries(fused, d0, i as int) == resource_discoveries(
                        fused,
                        d0,
                        i as int + 1,
                    ));
                    assert(self@.detected =~= det_before + seq![p]);
                    assert(self@.science_queue =~= sq_before + seq![p]);
                    assert(det_before + (seq![p] + new_discoveries(fused, d0, i as int + 1))
                        =~= (det_before + seq![p]) + new_discoveries(fused, d0, i as int + 1));
                    assert(sq_before + (seq![p] + science_discoveries(fused, d0, i as int + 1))
                        =~= (sq_before + seq![p]) + science_discoveries(
                        fused,
                        d0,
                        i as int + 1,
                    ));
                    assert(pos_index(p, width as int) == i);
                }
            } else {
                proof {
                    assert(new_discoveries(fused, d0, i as int) == new_discoveries(
                        fused,
                        d0,
                        i as int + 1,
                    ));
                    assert(resource_discoveries(fused, d0, i as int) == resource_discoveries(
                        fused,
                        d0,
                        i as int + 1,
                    ));
                    assert(science_discoveries(fused, d0, i as int) == science_discoveries(
                        fused,
                        d0,
                        i as int + 1,
                    ));
                }
            }
            i = i + 1;
        }
        proof {
            assert(new_discoveries(fused, d0, total as int) =~= Seq::<Position>::empty());
            assert(resource_discoveries(fused, d0, total as int) =~= Seq::<Position>::empty());
            assert(science_discoveries(fused, d0, total as int) =~= Seq::<Position>::empty());
            assert(self@.detected + new_discoveries(fused, d0, total as int) =~= self@.detected);
            assert(self@.resource_queue + resource_discoveries(fused, d0, total as int)
                =~= self@.resource_queue);
            assert(self@.science_queue + science_discoveries(fused, d0, total as int)
                =~= self@.science_queue);
        }

        let robot_copy = new_map.duplicate();
        self.shared_map = new_map;
        robot.set_known_map(robot_copy);
        proof {
            lemma_merge_preserves_inv(old(self)@, old(robot)@);
            assert(self@ =~= merged_base(old(self)@, old(robot)@));
            assert(robot@ =~= merged_robot(old(self)@, old(robot)@));
        }
    }

    /// One full pass: every rover is fused in order against the grid
    /// already updated by its predecessors, so iteration order is part
    /// of the observable contract.
    pub fn merge_maps(&mut self, robots: &mut Vec<Robot>)
        requires
            old(self).inv(),
            forall|k: int|
                0 <= k < old(robots)@.len() ==> (#[trigger] old(robots)@[k])@.known.wf() && old(
                    self,
                )@.grid.same_dims(old(robots)@[k]@.known),
        ensures
            final(self).inv(),
            final(self)@ == fold_base(old(self)@, models_of(old(robots)@)),
            models_of(final(robots)@) == fold_robots(old(self)@, models_of(old(robots)@)),
    {
        let ghost b0 = old(self)@;
        let ghost rs0 = models_of(old(robots)@);
        let mut done: Vec<Robot> = Vec::new();
        proof {
            assert(models_of(done@) + fold_robots(self@, models_of(robots@)) =~= fold_robots(
                b0,
                rs0,
            ));
        }
        while robots.len() > 0
            invariant
                self.inv(),
                forall|k: int|
                    0 <= k < robots@.len() ==> (#[trigger] robots@[k])@.known.wf()
                        && self@.grid.same_dims(robots@[k]@.known),
                fold_base(b0, rs0) == fold_base(self@, models_of(robots@)),
                models_of(done@) + fold_robots(self@, models_of(robots@)) == fold_robots(b0, rs0),
            decreases robots.len(),
        {
            let ghost self_before = self@;
            let ghost rem = models_of(robots@);
            let mut r = robots.remove(0);
            proof {
                assert(rem[0] == r@);
                assert(models_of(robots@) =~= rem.skip(1));
            }
            self.merge_map(&mut r);
            let ghost done_before = models_of(done@);
            done.push(r);
            proof {
                assert(fold_base(self_before, rem) == fold_base(
                    merged_base(self_before, rem[0]),
                    rem.skip(1),
                ));
                assert(fold_robots(self_before, rem) == seq![merged_robot(self_before, rem[0])]
                    + fold_robots(merged_base(self_before, rem[0]), rem.skip(1)));
                assert(models_of(done@) =~= done_before.push(r@));
                assert(done_before.push(r@) + fold_robots(self@, models_of(robots@))
                    =~= done_before + (seq![r@] + fold_robots(self@, models_of(robots@))));
                assert(seq![r@] + fold_robots(self@, models_of(robots@)) == fold_robots(
                    self_before,
                    rem,
                ));
            }
        }
        proof {
            assert(models_of(robots@) =~= Seq::<RobotModel>::empty());
            assert(fold_base(self@, models_of(robots@)) == self@);
            assert(fold_robots(self@, models_of(robots@)) =~= Seq::<RobotModel>::empty());
            assert(models_of(done@) + Seq::<RobotModel>::empty() =~= models_of(done@));
        }
        *robots = done;
    }

    /// The dock/return protocol. When the rover stands on the base, its
    /// mission state is settled, any cargo credits the matching counter
    /// exactly once and is cleared, and a fusion always follows; away
    /// from the base nothing happens.
    pub fn release_energy_and_merge(&mut self, robot: &mut Robot)
        requires
            old(self).inv(),
            old(robot)@.known.wf(),
            old(self)@.grid.same_dims(old(robot)@.known),
            old(robot)@.position == old(self)@.coordinates && old(robot)@.resource == Terrain::Ore
                ==> old(self)@.ores < usize::MAX,
            old(robot)@.position == old(self)@.coordinates && old(robot)@.resource
                == Terrain::Energy ==> old(self)@.energy < usize::MAX,
            old(robot)@.position == old(self)@.coordinates && old(robot)@.resource
                == Terrain::Science ==> old(self)@.science < usize::MAX,
        ensures
            final(self).inv(),
            old(robot)@.position != old(self)@.coordinates ==> final(self)@ == old(self)@
                && final(robot)@ == old(robot)@,
            old(robot)@.position == old(self)@.coordinates ==> final(self)@ == merged_base(
                credited_base(old(self)@, old(robot)@.resource),
                settled_robot(old(robot)@),
            ) && final(robot)@ == merged_robot(
                credited_base(old(self)@, old(robot)@.resource),
                settled_robot(old(robot)@),
            ),
    {
        if robot.is_on_base(self) {
            match robot.mission() {
                RobotType::Scout => {
                    robot.set_void_terrains_discovered(0);
                },
                _ => {
                    if robot.is_carrying() {
                        robot.set_goal(None);
                    }
                },
            }
            if robot.is_carrying() {
                match robot.resource() {
                    Terrain::Ore => {
                        self.ores = self.ores + 1;
                    },
                    Terrain::Energy => {
                        self.energy = self.energy + 1;
                    },
                    Terrain::Science => {
                        self.science = self.science + 1;
                    },
                    _ => {},
                }
                robot.set_resource(Terrain::Void);
            }
            proof {
                assert(self@ =~= credited_base(old(self)@, old(robot)@.resource));
                assert(robot@ =~= settled_robot(old(robot)@));
            }
            self.merge_map(robot);
        }
    }
}

} // verus!
