//! Terrain kinds, their display encoding, and membership tests.
use vstd::prelude::*;

verus! {

/// One cell of the world. `Void` stands for "unknown"; the remaining kinds
/// are mutually exclusive ground truth. `Robot` and `CarryingRobot` are
/// display markers only and never part of generated ground truth.
#[derive(Clone, Copy, PartialEq, Eq, Structural, Debug)]
pub enum Terrain {
    Void,
    Ground,
    Wall,
    Mountain,
    Ore,
    Energy,
    Science,
    Robot,
    CarryingRobot,
}

impl Terrain {
    /// The character this kind is drawn and stored as.
    pub open spec fn spec_char(self) -> char {
        match self {
            Terrain::Void => ' ',
            Terrain::Ground => '.',
            Terrain::Wall => '#',
            Terrain::Mountain => '^',
            Terrain::Ore => 'o',
            Terrain::Energy => 'e',
            Terrain::Science => 's',
            Terrain::Robot => 'R',
            Terrain::CarryingRobot => 'C',
        }
    }

    pub fn to_char(self) -> (c: char)
        ensures
            c == self.spec_char(),
    {
        match self {
            Terrain::Void => ' ',
            Terrain::Ground => '.',
            Terrain::Wall => '#',
            Terrain::Mountain => '^',
            Terrain::Ore => 'o',
            Terrain::Energy => 'e',
            Terrain::Science => 's',
            Terrain::Robot => 'R',
            Terrain::CarryingRobot => 'C',
        }
    }

    /// Membership test against the encoding: does the (possibly absent)
    /// character denote this terrain kind?
    pub fn is_char(self, c: Option<char>) -> (r: bool)
        ensures
            r == (c == Some(self.spec_char())),
    {
        match c {
            Some(cc) => cc == self.to_char(),
            None => false,
        }
    }

    /// A cell that counts as a harvestable resource site.
    pub open spec fn spec_is_resource_site(self) -> bool {
        self == Terrain::Ore || self == Terrain::Energy
    }

    /// A cell that is recorded by the discovery scan at all.
    pub open spec fn spec_is_discovery(self) -> bool {
        self == Terrain::Ore || self == Terrain::Energy || self == Terrain::Science
    }
}

} // verus!
