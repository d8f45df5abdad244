//! A rover: position, mission role, cargo slot, mission counter and its
//! privately owned partial view of the terrain.
use vstd::prelude::*;
use crate::base::Base;
use crate::grid::{GridModel, Position, TerrainGrid};
use crate::terrain::Terrain;

verus! {

/// The closed set of mission roles.
#[derive(Clone, Copy, PartialEq, Eq, Structural, Debug)]
pub enum RobotType {
    Scout,
    Harvester,
    Scientist,
}

/// Mathematical model of a rover.
#[verifier::ext_equal]
pub ghost struct RobotModel {
    pub position: Position,
    pub mission: RobotType,
    /// The cargo slot: `Void` means empty, anything else is one unit.
    pub resource: Terrain,
    /// Mission-specific counter; only the Scout role uses it.
    pub void_terrains_discovered: nat,
    /// The rover's partial view of the world.
    pub known: GridModel,
    pub goal: Option<Position>,
}

pub struct Robot {
    position: Position,
    mission: RobotType,
    resource: Terrain,
    void_terrains_discovered: usize,
    known_map: TerrainGrid,
    goal: Option<Position>,
}

impl View for Robot {
    type V = RobotModel;

    closed spec fn view(&self) -> RobotModel {
        RobotModel {
            position: self.position,
            mission: self.mission,
            resource: self.resource,
            void_terrains_discovered: self.void_terrains_discovered as nat,
            known: self.known_map@,
            goal: self.goal,
        }
    }
}

/// The models of a sequence of rovers.
pub open spec fn models_of(rs: Seq<Robot>) -> Seq<RobotModel> {
    rs.map_values(|r: Robot| r@)
}

impl Robot {
    /// A fresh rover: empty cargo, zeroed counter, no goal, and a fully
    /// unknown view of a `width` x `height` world.
    pub fn new(x: usize, y: usize, mission: RobotType, width: usize, height: usize) -> (r: Robot)
        requires
            width * height <= usize::MAX,
        ensures
            r@.position == (Position { x, y }),
            r@.mission == mission,
            r@.resource == Terrain::Void,
            r@.void_terrains_discovered == 0,
            r@.goal is None,
            r@.known.wf(),
            r@.known.width == width,
            r@.known.height == height,
            forall|i: int| 0 <= i < r@.known.cells.len() ==> r@.known.cells[i] == Terrain::Void,
    {
        Robot {
            position: Position { x, y },
            mission,
            resource: Terrain::Void,
            void_terrains_discovered: 0,
            known_map: TerrainGrid::new(width, height, Terrain::Void),
            goal: None,
        }
    }

    pub fn position(&self) -> (p: Position)
        ensures
            p == self@.position,
    {
        self.position
    }

    pub fn mission(&self) -> (m: RobotType)
        ensures
            m == self@.mission,
    {
        self.mission
    }

    pub fn resource(&self) -> (t: Terrain)
        ensures
            t == self@.resource,
    {
        self.resource
    }

    /// Whether the cargo slot holds a unit.
    pub fn is_carrying(&self) -> (b: bool)
        ensures
            b == (self@.resource != Terrain::Void),
    {
        !matches!(self.resource, Terrain::Void)
    }

    pub fn known_map(&self) -> (m: &TerrainGrid)
        ensures
            m@ == self@.known,
    {
        &self.known_map
    }

    pub fn set_known_map(&mut self, map: TerrainGrid)
        ensures
            final(self)@ == (RobotModel { known: map@, ..old(self)@ }),
    {
        self.known_map = map;
    }

    pub fn set_position(&mut self, position: Position)
        ensures
            final(self)@ == (RobotModel { position, ..old(self)@ }),
    {
        self.position = position;
    }

    pub fn set_resource(&mut self, resource: Terrain)
        ensures
            final(self)@ == (RobotModel { resource, ..old(self)@ }),
    {
        self.resource = resource;
    }

    pub fn set_goal(&mut self, goal: Option<Position>)
        ensures
            final(self)@ == (RobotModel { goal, ..old(self)@ }),
    {
        self.goal = goal;
    }

    pub fn goal(&self) -> (g: Option<Position>)
        ensures
            g == self@.goal,
    {
        self.goal
    }

    pub fn void_terrains_discovered(&self) -> (n: usize)
        ensures
            n == self@.void_terrains_discovered,
    {
        self.void_terrains_discovered
    }

    pub fn set_void_terrains_discovered(&mut self, n: usize)
        ensures
            final(self)@ == (RobotModel { void_terrains_discovered: n as nat, ..old(self)@ }),
    {
        self.void_terrains_discovered = n;
    }

    /// Records one observed cell in the rover's own view; out of range,
    /// the view is unchanged.
    pub fn observe_cell(&mut self, position: Position, cell: Terrain)
        requires
            old(self)@.known.wf(),
        ensures
            final(self)@.known.wf(),
            final(self)@.known.same_dims(old(self)@.known),
            old(self)@.known.pos_in_bounds(position) ==> final(self)@ == (RobotModel {
                known: GridModel {
                    cells: old(self)@.known.cells.update(
                        old(self)@.known.idx(position.x as int, position.y as int),
                        cell,
                    ),
                    ..old(self)@.known
                },
                ..old(self)@
            }),
            !old(self)@.known.pos_in_bounds(position) ==> final(self)@ == old(self)@,
    {
        self.known_map.set_cell(position, cell);
    }

    /// Docked means physically at the base's coordinates.
    pub fn is_on_base(&self, base: &Base) -> (b: bool)
        ensures
            b == (self@.position == base@.coordinates),
    {
        let c = base.coordinates();
        self.position.x == c.x && self.position.y == c.y
    }
}

} // verus!
