//! The simulation aggregate: the true terrain map, the rover population
//! and the base, with terrain classification, the spawn balancer and the
//! per-tick entry points.
use vstd::prelude::*;
use crate::agent::{models_of, Robot, RobotModel, RobotType};
use crate::base::{
    credited_base, fold_base, fold_robots, lemma_fold_properties, merged_base, merged_robot,
    settled_robot, Base, BaseModel,
};
use crate::grid::{GridModel, Position, TerrainGrid};
use crate::terrain::Terrain;

verus! {

/// Side length of the guaranteed clearing of Ground stamped around the
/// world center after terrain classification.
pub const CLEARING_SIDE: usize = 7;

/// Terrain classification by fixed thresholds on the absolute noise
/// sample, expressed in millionths (1_000_000 stands for an absolute
/// sample of 1.0).
pub open spec fn spec_classify(sample: u64) -> Terrain {
    if 0 < sample && sample < 5000 {
        Terrain::Energy
    } else if 5000 <= sample && sample < 10000 {
        Terrain::Ore
    } else if sample < 250000 {
        Terrain::Ground
    } else if sample < 500000 {
        Terrain::Wall
    } else {
        Terrain::Mountain
    }
}

pub fn classify_sample(sample: u64) -> (t: Terrain)
    ensures
        t == spec_classify(sample),
{
    if 0 < sample && sample < 5000 {
        Terrain::Energy
    } else if 5000 <= sample && sample < 10000 {
        Terrain::Ore
    } else if sample < 250000 {
        Terrain::Ground
    } else if sample < 500000 {
        Terrain::Wall
    } else {
        Terrain::Mountain
    }
}

/// Whether (x, y) lies in the centered clearing of a width x height
/// world.
pub open spec fn in_clearing(width: int, height: int, x: int, y: int) -> bool {
    let half = (CLEARING_SIDE / 2) as int;
    &&& width / 2 - half <= x <= width / 2 + half
    &&& height / 2 - half <= y <= height / 2 + half
}

/// Builds the world from one noise sample per cell (row-major, in
/// millionths of the absolute value): every cell is classified by the
/// fixed thresholds, then a centered square clearing of Ground is
/// stamped unconditionally, clipped to the grid, so the terrain under
/// the base is buildable for any seed.
pub fn generate_map(width: usize, height: usize, samples: &Vec<u64>) -> (m: TerrainGrid)
    requires
        width * height <= usize::MAX,
        samples@.len() == width * height,
    ensures
        m@.wf(),
        m@.width == width,
        m@.height == height,
        forall|x: int, y: int|
            m@.in_bounds(x, y) && in_clearing(width as int, height as int, x, y)
                ==> m@.cell(x, y) == Terrain::Ground,
        forall|x: int, y: int|
            m@.in_bounds(x, y) && !in_clearing(width as int, height as int, x, y)
                ==> m@.cell(x, y) == spec_classify(samples@[y * width + x]),
{
    let mut m = TerrainGrid::new(width, height, Terrain::Ground);
    let total = width * height;
    let cx = width / 2;
    let cy = height / 2;
    let half = CLEARING_SIDE / 2;
    let mut i: usize = 0;
    while i < total
        invariant
            i <= total,
            total == width * height,
            samples@.len() == total,
            m@.wf(),
            m@.width == width,
            m@.height == height,
            cx == width / 2,
            cy == height / 2,
            half == CLEARING_SIDE / 2,
            forall|j: int|
                0 <= j < i ==> #[trigger] m@.cells[j] == (if in_clearing(
                    width as int,
                    height as int,
                    j % (width as int),
                    j / (width as int),
                ) {
                    Terrain::Ground
                } else {
                    spec_classify(samples@[j])
                }),
        decreases total - i,
    {
        assert(width > 0) by (nonlinear_arith)
            requires i < total && total == width * height && i >= 0;
        let x = i % width;
        let y = i / width;
        proof {
            crate::fusion::lemma_pos_of_index(i as int, width as int, height as int);
            crate::grid::lemma_idx_in_range(width as int, height as int, x as int, y as int);
        }
        let dx = if x >= cx {
            x - cx
        } else {
            cx - x
        };
        let dy = if y >= cy {
            y - cy
        } else {
            cy - y
        };
        let cell = if dx <= half && dy <= half {
            Terrain::Ground
        } else {
            classify_sample(samples[i])
        };
        m.set_cell(Position { x, y }, cell);
        i = i + 1;
    }
    proof {
        assert forall|x: int, y: int|
            m@.in_bounds(x, y) && in_clearing(width as int, height as int, x, y) implies m@.cell(
            x,
            y,
        ) == Terrain::Ground by {
            crate::grid::lemma_idx_in_range(width as int, height as int, x, y);
            crate::fusion::lemma_pos_of_index(y * width + x, width as int, height as int);
        }
        assert forall|x: int, y: int|
            m@.in_bounds(x, y) && !in_clearing(width as int, height as int, x, y) implies m@.cell(
            x,
            y,
        ) == spec_classify(samples@[y * width + x]) by {
            crate::grid::lemma_idx_in_range(width as int, height as int, x, y);
            crate::fusion::lemma_pos_of_index(y * width + x, width as int, height as int);
        }
    }
    m
}

/// True at a Ground cell none of whose existing neighbours is a Wall:
/// where a rover can safely stand or spawn.
pub open spec fn spec_safe_spawn_spot(g: GridModel, x: int, y: int) -> bool {
    &&& g.in_bounds(x, y)
    &&& g.cell(x, y) == Terrain::Ground
    &&& (x > 0 ==> g.cell(x - 1, y) != Terrain::Wall)
    &&& (x + 1 < g.width ==> g.cell(x + 1, y) != Terrain::Wall)
    &&& (y > 0 ==> g.cell(x, y - 1) != Terrain::Wall)
    &&& (y + 1 < g.height ==> g.cell(x, y + 1) != Terrain::Wall)
    &&& (x > 0 && y > 0 ==> g.cell(x - 1, y - 1) != Terrain::Wall)
    &&& (x > 0 && y + 1 < g.height ==> g.cell(x - 1, y + 1) != Terrain::Wall)
    &&& (x + 1 < g.width && y > 0 ==> g.cell(x + 1, y - 1) != Terrain::Wall)
    &&& (x + 1 < g.width && y + 1 < g.height ==> g.cell(x + 1, y + 1) != Terrain::Wall)
}

pub fn not_near_a_wall_and_valid(
    width: usize,
    height: usize,
    x: usize,
    y: usize,
    map: &TerrainGrid,
) -> (r: bool)
    requires
        map@.wf(),
        width == map@.width,
        height == map@.height,
    ensures
        r == spec_safe_spawn_spot(map@, x as int, y as int),
{
    match map.get_cell(x, y) {
        Some(Terrain::Ground) => {},
        _ => {
            return false;
        },
    }
    if x > 0 {
        if let Some(t) = map.get_cell(x - 1, y) {
            if matches!(t, Terrain::Wall) {
                return false;
            }
        }
    }
    if x + 1 < width {
        if let Some(t) = map.get_cell(x + 1, y) {
            if matches!(t, Terrain::Wall) {
                return false;
            }
        }
    }
    if y > 0 {
        if let Some(t) = map.get_cell(x, y - 1) {
            if matches!(t, Terrain::Wall) {
                return false;
            }
        }
    }
    if y + 1 < height {
        if let Some(t) = map.get_cell(x, y + 1) {
            if matches!(t, Terrain::Wall) {
                return false;
            }
        }
    }
    if x > 0 && y > 0 {
        if let Some(t) = map.get_cell(x - 1, y - 1) {
            if matches!(t, Terrain::Wall) {
                return false;
            }
        }
    }
    if x > 0 && y + 1 < height {
        if let Some(t) = map.get_cell(x - 1, y + 1) {
            if matches!(t, Terrain::Wall) {
                return false;
            }
        }
    }
    if x + 1 < width && y > 0 {
        if let Some(t) = map.get_cell(x + 1, y - 1) {
            if matches!(t, Terrain::Wall) {
                return false;
            }
        }
    }
    if x + 1 < width && y + 1 < height {
        if let Some(t) = map.get_cell(x + 1, y + 1) {
            if matches!(t, Terrain::Wall) {
                return false;
            }
        }
    }
    true
}

/// How many rovers of a role a population holds.
pub open spec fn count_role(rs: Seq<RobotModel>, t: RobotType) -> nat
    decreases rs.len(),
{
    if rs.len() == 0 {
        0
    } else {
        count_role(rs.drop_last(), t) + if rs.last().mission == t {
            1nat
        } else {
            0
        }
    }
}

/// The role the spawn balancer picks: the strictly fewest, ties broken
/// by the fixed precedence Scout over Scientist over Harvester.
pub open spec fn chosen_role(scouts: nat, harvesters: nat, scientists: nat) -> RobotType {
    if scouts <= harvesters && scouts <= scientists {
        RobotType::Scout
    } else if scientists <= scouts && scientists <= harvesters {
        RobotType::Scientist
    } else {
        RobotType::Harvester
    }
}

pub open spec fn spawn_role(rs: Seq<RobotModel>) -> RobotType {
    chosen_role(
        count_role(rs, RobotType::Scout),
        count_role(rs, RobotType::Harvester),
        count_role(rs, RobotType::Scientist),
    )
}

/// The rover a successful spawn creates: at the base, chosen role, empty
/// cargo, zeroed counter, fully unknown view of the world.
pub open spec fn spawned_robot(g: GameModel) -> RobotModel {
    RobotModel {
        position: g.base.coordinates,
        mission: spawn_role(g.robots),
        resource: Terrain::Void,
        void_terrains_discovered: 0,
        known: GridModel {
            width: g.base.grid.width,
            height: g.base.grid.height,
            cells: Seq::new((g.base.grid.width * g.base.grid.height) as nat, |i: int| Terrain::Void),
        },
        goal: None,
    }
}

/// Mathematical model of the whole simulation state.
#[verifier::ext_equal]
pub ghost struct GameModel {
    /// The true terrain, as generation produced it.
    pub map: GridModel,
    pub robots: Seq<RobotModel>,
    pub base: BaseModel,
    pub seed: u32,
    /// The escalating price of the next spawn.
    pub resources_to_create: nat,
}

pub struct Game {
    map: TerrainGrid,
    robots: Vec<Robot>,
    base: Base,
    seed: u32,
    resources_to_create: usize,
}

impl View for Game {
    type V = GameModel;

    closed spec fn view(&self) -> GameModel {
        GameModel {
            map: self.map@,
            robots: models_of(self.robots@),
            base: self.base@,
            seed: self.seed,
            resources_to_create: self.resources_to_create as nat,
        }
    }
}

impl Game {
    /// Everything is sized alike: the true map, the canonical grid and
    /// every rover's view share dimensions, and the base invariant holds.
    pub open spec fn inv(self) -> bool {
        &&& self@.base.inv()
        &&& self@.map.wf()
        &&& self@.map.same_dims(self@.base.grid)
        &&& forall|k: int|
            0 <= k < self@.robots.len() ==> (#[trigger] self@.robots[k]).known.wf()
                && self@.base.grid.same_dims(self@.robots[k].known)
    }

    /// A fresh simulation over an already generated map, with the base
    /// at the world center and no rovers yet.
    pub fn new(map: TerrainGrid, seed: u32) -> (g: Game)
        requires
            map@.wf(),
        ensures
            g.inv(),
            g@.map == map@,
            g@.robots == Seq::<RobotModel>::empty(),
            g@.seed == seed,
            g@.resources_to_create == 1,
            g@.base.ores == 0,
            g@.base.energy == 0,
            g@.base.science == 0,
            g@.base.coordinates == (Position { x: map@.width as usize / 2, y: map@.height as usize / 2 }),
            g@.base.grid.same_dims(map@),
            forall|i: int|
                0 <= i < g@.base.grid.cells.len() ==> g@.base.grid.cells[i] == Terrain::Void,
            g@.base.resource_queue == Seq::<Position>::empty(),
            g@.base.science_queue == Seq::<Position>::empty(),
            g@.base.detected == Seq::<Position>::empty(),
    {
        let width = map.width();
        let height = map.height();
        let base = Base::new(width, height, width / 2, height / 2);
        let g = Game { map, robots: Vec::new(), base, seed, resources_to_create: 1 };
        proof {
            assert(g@.robots =~= Seq::<RobotModel>::empty());
        }
        g
    }

    pub fn add_robot(&mut self, robot: Robot)
        requires
            old(self).inv(),
            robot@.known.wf(),
            old(self)@.base.grid.same_dims(robot@.known),
        ensures
            final(self).inv(),
            final(self)@ == (GameModel { robots: old(self)@.robots.push(robot@), ..old(self)@ }),
    {
        self.robots.push(robot);
        proof {
            assert(self@.robots =~= old(self)@.robots.push(robot@));
        }
    }

    /// The true terrain at (x, y), or nothing out of range.
    pub fn get_cell(&self, x: usize, y: usize) -> (r: Option<Terrain>)
        requires
            self.inv(),
        ensures
            r == (if self@.map.in_bounds(x as int, y as int) {
                Some(self@.map.cell(x as int, y as int))
            } else {
                None::<Terrain>
            }),
    {
        self.map.get_cell(x, y)
    }

    pub fn width(&self) -> (w: usize)
        ensures
            w == self@.map.width,
    {
        self.map.width()
    }

    pub fn height(&self) -> (h: usize)
        ensures
            h == self@.map.height,
    {
        self.map.height()
    }

    pub fn robots(&self) -> (rs: &Vec<Robot>)
        ensures
            models_of(rs@) == self@.robots,
    {
        &self.robots
    }

    pub fn base(&self) -> (b: &Base)
        ensures
            b@ == self@.base,
    {
        &self.base
    }

    pub fn seed(&self) -> (s: u32)
        ensures
            s == self@.seed,
    {
        self.seed
    }

    /// The price of the next spawn attempt.
    pub fn resources_to_create(&self) -> (n: usize)
        ensures
            n == self@.resources_to_create,
    {
        self.resources_to_create
    }

    pub fn count_robots(&self, robot_type: RobotType) -> (n: usize)
        ensures
            n == count_role(self@.robots, robot_type),
    {
        let mut n: usize = 0;
        let mut k: usize = 0;
        let ghost rs = self@.robots;
        while k < self.robots.len()
            invariant
                k <= self.robots@.len(),
                rs == models_of(self.robots@),
                rs.len() == self.robots@.len(),
                n <= k,
                n == count_role(rs.take(k as int), robot_type),
            decreases self.robots@.len() - k,
        {
            let hit = matches!(
                (self.robots[k].mission(), robot_type),
                (RobotType::Scout, RobotType::Scout)
                | (RobotType::Harvester, RobotType::Harvester)
                | (RobotType::Scientist, RobotType::Scientist)
            );
            proof {
                assert(rs.take(k as int + 1).drop_last() =~= rs.take(k as int));
                assert(rs.take(k as int + 1).last() == rs[k as int]);
                assert(rs[k as int] == self.robots@[k as int]@);
            }
            if hit {
                n = n + 1;
            }
            k = k + 1;
        }
        proof {
            assert(rs.take(rs.len() as int) =~= rs);
        }
        n
    }

    /// The spawn balancer. When both counters cover the current price, a
    /// rover of the least-populated role (ties: Scout over Scientist
    /// over Harvester) appears at the base, the price is deducted from
    /// both counters and the next price rises by one; otherwise nothing
    /// changes.
    pub fn create_robot(&mut self)
        requires
            old(self).inv(),
            old(self)@.base.energy >= old(self)@.resources_to_create && old(self)@.base.ores
                >= old(self)@.resources_to_create ==> old(self)@.resources_to_create < usize::MAX,
        ensures
            final(self).inv(),
            !(old(self)@.base.energy >= old(self)@.resources_to_create && old(self)@.base.ores
                >= old(self)@.resources_to_create) ==> final(self)@ == old(self)@,
            old(self)@.base.energy >= old(self)@.resources_to_create && old(self)@.base.ores
                >= old(self)@.resources_to_create ==> final(self)@ == (GameModel {
                robots: old(self)@.robots.push(spawned_robot(old(self)@)),
                base: BaseModel {
                    ores: (old(self)@.base.ores - old(self)@.resources_to_create) as nat,
                    energy: (old(self)@.base.energy - old(self)@.resources_to_create) as nat,
                    ..old(self)@.base
                },
                resources_to_create: old(self)@.resources_to_create + 1,
                ..old(self)@
            }),
    {
        let cost = self.resources_to_create;
        if self.base.energy() >= cost && self.base.ores() >= cost {
            let scout_count = self.count_robots(RobotType::Scout);
            let harvester_count = self.count_robots(RobotType::Harvester);
            let scientist_count = self.count_robots(RobotType::Scientist);
            let robot_type = if scout_count <= harvester_count && scout_count <= scientist_count {
                RobotType::Scout
            } else if scientist_count <= scout_count && scientist_count <= harvester_count {
                RobotType::Scientist
            } else {
                RobotType::Harvester
            };
            let width = self.map.width();
            let height = self.map.height();
            let c = self.base.coordinates();
            let new_robot = Robot::new(c.x, c.y, robot_type, width, height);
            proof {
                assert(new_robot@.known =~= spawned_robot(old(self)@).known);
                assert(new_robot@ =~= spawned_robot(old(self)@));
            }
            self.robots.push(new_robot);
            self.base.spend(cost);
            self.resources_to_create = cost + 1;
            proof {
                assert(self@.robots =~= old(self)@.robots.push(spawned_robot(old(self)@)));
                assert(self@ =~= (GameModel {
                    robots: old(self)@.robots.push(spawned_robot(old(self)@)),
                    base: BaseModel {
                        ores: (old(self)@.base.ores - old(self)@.resources_to_create) as nat,
                        energy: (old(self)@.base.energy - old(self)@.resources_to_create) as nat,
                        ..old(self)@.base
                    },
                    resources_to_create: old(self)@.resources_to_create + 1,
                    ..old(self)@
                }));
            }
        }
    }

    /// Fuses every rover, in order, against the already-updated
    /// canonical grid.
    pub fn merge_all(&mut self)
        requires
            old(self).inv(),
        ensures
            final(self).inv(),
            final(self)@ == (GameModel {
                base: fold_base(old(self)@.base, old(self)@.robots),
                robots: fold_robots(old(self)@.base, old(self)@.robots),
                ..old(self)@
            }),
    {
        proof {
            lemma_fold_properties(self@.base, self@.robots);
            assert forall|k: int|
                0 <= k < self.robots@.len() implies (#[trigger] self.robots@[k])@.known.wf()
                && self@.base.grid.same_dims(self.robots@[k]@.known) by {
                assert(self@.robots[k] == self.robots@[k]@);
            }
        }
        self.base.merge_maps(&mut self.robots);
        proof {
            assert(self@ =~= (GameModel {
                base: fold_base(old(self)@.base, old(self)@.robots),
                robots: fold_robots(old(self)@.base, old(self)@.robots),
                ..old(self)@
            }));
        }
    }

    /// Runs the dock/return protocol for rover `i`: settlement and
    /// fusion when it stands on the base, a fusion-free no-op otherwise.
    pub fn settle_robot(&mut self, i: usize)
        requires
            old(self).inv(),
            i < old(self)@.robots.len(),
            old(self)@.robots[i as int].position == old(self)@.base.coordinates && old(
                self,
            )@.robots[i as int].resource == Terrain::Ore ==> old(self)@.base.ores < usize::MAX,
            old(self)@.robots[i as int].position == old(self)@.base.coordinates && old(
                self,
            )@.robots[i as int].resource == Terrain::Energy ==> old(self)@.base.energy
                < usize::MAX,
            old(self)@.robots[i as int].position == old(self)@.base.coordinates && old(
                self,
            )@.robots[i as int].resource == Terrain::Science ==> old(self)@.base.science
                < usize::MAX,
        ensures
            final(self).inv(),
            old(self)@.robots[i as int].position != old(self)@.base.coordinates ==> final(self)@
                == old(self)@,
            old(self)@.robots[i as int].position == old(self)@.base.coordinates ==> final(self)@
                == (GameModel {
                base: merged_base(
                    credited_base(old(self)@.base, old(self)@.robots[i as int].resource),
                    settled_robot(old(self)@.robots[i as int]),
                ),
                robots: old(self)@.robots.update(
                    i as int,
                    merged_robot(
                        credited_base(old(self)@.base, old(self)@.robots[i as int].resource),
                        settled_robot(old(self)@.robots[i as int]),
                    ),
                ),
                ..old(self)@
            }),
    {
        let mut r = self.robots.remove(i);
        self.base.release_energy_and_merge(&mut r);
        self.robots.insert(i, r);
        proof {
            assert(self@.robots =~= old(self)@.robots.update(i as int, r@));
            if old(self)@.robots[i as int].position != old(self)@.base.coordinates {
                assert(self@.robots =~= old(self)@.robots);
                assert(self@ =~= old(self)@);
            }
        }
    }

    /// Records the true cell at (x, y) in rover `i`'s own view: the
    /// perception primitive an external movement policy drives.
    pub fn observe(&mut self, i: usize, x: usize, y: usize)
        requires
            old(self).inv(),
            i < old(self)@.robots.len(),
        ensures
            final(self).inv(),
            !old(self)@.map.in_bounds(x as int, y as int) ==> final(self)@ == old(self)@,
            old(self)@.map.in_bounds(x as int, y as int) ==> final(self)@ == (GameModel {
                robots: old(self)@.robots.update(
                    i as int,
                    RobotModel {
                        known: GridModel {
                            cells: old(self)@.robots[i as int].known.cells.update(
                                old(self)@.robots[i as int].known.idx(x as int, y as int),
                                old(self)@.map.cell(x as int, y as int),
                            ),
                            ..old(self)@.robots[i as int].known
                        },
                        ..old(self)@.robots[i as int]
                    },
                ),
                ..old(self)@
            }),
    {
        match self.map.get_cell(x, y) {
            Some(c) => {
                let mut r = self.robots.remove(i);
                r.observe_cell(Position { x, y }, c);
                self.robots.insert(i, r);
                proof {
                    assert(self@.robots =~= old(self)@.robots.update(i as int, r@));
                    assert(self@ =~= (GameModel {
                        robots: old(self)@.robots.update(i as int, r@),
                        ..old(self)@
                    }));
                }
            },
            None => {},
        }
    }

    /// Loads or clears rover `i`'s cargo slot: the pickup primitive an
    /// external harvesting policy drives.
    pub fn set_robot_resource(&mut self, i: usize, resource: Terrain)
        requires
            old(self).inv(),
            i < old(self)@.robots.len(),
        ensures
            final(self).inv(),
            final(self)@ == (GameModel {
                robots: old(self)@.robots.update(
                    i as int,
                    RobotModel { resource, ..old(self)@.robots[i as int] },
                ),
                ..old(self)@
            }),
    {
        let mut r = self.robots.remove(i);
        r.set_resource(resource);
        self.robots.insert(i, r);
        proof {
            assert(self@.robots =~= old(self)@.robots.update(i as int, r@));
            assert(self@ =~= (GameModel {
                robots: old(self)@.robots.update(i as int, r@),
                ..old(self)@
            }));
        }
    }

    /// Moves rover `i`: the placement primitive an external movement
    /// policy drives.
    pub fn set_robot_position(&mut self, i: usize, position: Position)
        requires
            old(self).inv(),
            i < old(self)@.robots.len(),
        ensures
            final(self).inv(),
            final(self)@ == (GameModel {
                robots: old(self)@.robots.update(
                    i as int,
                    RobotModel { position, ..old(self)@.robots[i as int] },
                ),
                ..old(self)@
            }),
    {
        let mut r = self.robots.remove(i);
        r.set_position(position);
        self.robots.insert(i, r);
        proof {
            assert(self@.robots =~= old(self)@.robots.update(i as int, r@));
            assert(self@ =~= (GameModel {
                robots: old(self)@.robots.update(i as int, r@),
                ..old(self)@
            }));
        }
    }
}

} // verus!
