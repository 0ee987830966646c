//! The catalogue of building types and the parts of a building and of its preview.

use vstd::prelude::*;
use vstd::string::*;
use crate::grid::TilePos;

verus! {

/// Marks a building that stands on the grid.
#[derive(Debug, Clone, Copy, PartialEq, Eq, Default)]
pub struct Building;

/// A footprint: the number of tiles along x and along y.
#[derive(Debug, Clone, Copy, PartialEq, Eq)]
pub struct BuildingSize(pub (u32, u32));

impl BuildingSize {
    /// The number of tiles along x.
    pub open spec fn spec_width(self) -> u32 {
        self.0.0
    }

    /// The number of tiles along y.
    pub open spec fn spec_height(self) -> u32 {
        self.0.1
    }

    /// The number of tiles of the footprint.
    pub open spec fn area(self) -> nat {
        (self.0.0 * self.0.1) as nat
    }
}

/// The kinds of building that can be placed.
#[derive(Debug, Clone, Copy, PartialEq, Eq, Structural)]
pub enum BuildingType {
    Theatre,
}

impl BuildingType {
    /// The number of people that work in a building of this type.
    pub open spec fn spec_occupation(self) -> u32 {
        match self {
            BuildingType::Theatre => 4,
        }
    }

    /// The gold that a building of this type costs.
    pub open spec fn spec_cost(self) -> u32 {
        match self {
            BuildingType::Theatre => 10,
        }
    }

    /// The footprint of a building of this type.
    pub open spec fn spec_size(self) -> BuildingSize {
        match self {
            BuildingType::Theatre => BuildingSize((2, 2)),
        }
    }

    /// The name shown for this type.
    pub open spec fn spec_name(self) -> Seq<char> {
        match self {
            BuildingType::Theatre => "Theatre"@,
        }
    }

    /// The path of the picture of this type.
    pub open spec fn spec_sprite(self) -> Seq<char> {
        match self {
            BuildingType::Theatre => "buildings/theatre.png"@,
        }
    }

    /// The number of people that work in a building of this type.
    pub fn occupation(&self) -> (r: u32)
        ensures
            r == self.spec_occupation(),
    {
        match self {
            BuildingType::Theatre => 4,
        }
    }

    /// The gold that a building of this type costs.
    pub fn cost(&self) -> (r: u32)
        ensures
            r == self.spec_cost(),
    {
        match self {
            BuildingType::Theatre => 10,
        }
    }

    /// The name shown for this type.
    pub fn name(&self) -> (r: String)
        ensures
            r@ == self.spec_name(),
    {
        match self {
            BuildingType::Theatre => String::from_str("Theatre"),
        }
    }

    /// The footprint of a building of this type: its tiles along x and along y.
    pub fn size(&self) -> (r: (u32, u32))
        ensures
            BuildingSize(r) == self.spec_size(),
    {
        match self {
            BuildingType::Theatre => (2, 2),
        }
    }

    /// The path of the picture of this type.
    pub fn sprite(&self) -> (r: String)
        ensures
            r@ == self.spec_sprite(),
    {
        match self {
            BuildingType::Theatre => String::from_str("buildings/theatre.png"),
        }
    }
}

/// Every footprint of the catalogue has at least one tile in each direction.
pub proof fn lemma_catalogue_footprints(building_type: BuildingType)
    ensures
        building_type.spec_size().spec_width() >= 1,
        building_type.spec_size().spec_height() >= 1,
{
}

/// The tiles under a preview that qualify for the building.
#[derive(Debug, Clone, PartialEq, Eq)]
pub struct CoveringTiles(pub Vec<TilePos>);

/// Marks the preview of a building that is not built yet.
#[derive(Debug, Clone, Copy, PartialEq, Eq, Default)]
pub struct BuildingTemplateMarker;

/// Whether the previewed building may be built where it is.
#[derive(Debug, Clone, Copy, PartialEq, Eq)]
pub struct CanBuild(pub bool);

} // verus!
