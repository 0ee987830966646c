//! A building that stands on the grid, and the preview of one that is being placed.

use vstd::prelude::*;
use crate::building::components::Building;
use crate::building::components::BuildingTemplateMarker;
use crate::building::components::BuildingType;
use crate::building::components::CanBuild;
use crate::building::components::CoveringTiles;
use crate::grid::TilePos;

verus! {

/// A building on the grid: its type, the tile of its corner with the smallest
/// coordinates, and the tiles it stands on.
#[derive(Debug, Clone, PartialEq, Eq)]
pub struct BuildingBundle {
    pub building: Building,
    pub building_type: BuildingType,
    pub position: TilePos,
    pub covering_tiles: CoveringTiles,
}

impl BuildingBundle {
    /// A building of the given type at `position` that stands on `covering_tiles`.
    pub fn build(building_type: BuildingType, position: TilePos, covering_tiles: CoveringTiles) -> (r:
        Self)
        ensures
            r.building_type == building_type,
            r.position == position,
            r.covering_tiles == covering_tiles,
    {
        Self { building: Building, building_type, position, covering_tiles }
    }
}

/// The preview of a building while the player chooses its place: the type, the
/// tile it was last checked at, the tiles there that qualify, and whether the
/// building may be built there.
#[derive(Debug, Clone, PartialEq, Eq)]
pub struct BuildingMarkerBundle {
    pub marker: BuildingTemplateMarker,
    pub can_build: CanBuild,
    pub marker_type: BuildingType,
    pub covering_tiles: CoveringTiles,
    pub anchor: Option<TilePos>,
}

impl BuildingMarkerBundle {
    /// A new preview: it has been checked nowhere, covers nothing and cannot be built.
    pub open spec fn is_new(&self, marker_type: BuildingType) -> bool {
        &&& self.marker_type == marker_type
        &&& !self.can_build.0
        &&& self.covering_tiles.0@ == Seq::<TilePos>::empty()
        &&& self.anchor is None
    }

    /// Starts the preview of a building of the given type.
    pub fn build_marker(marker_type: BuildingType) -> (r: Self)
        ensures
            r.is_new(marker_type),
    {
        BuildingMarkerBundle {
            marker: BuildingTemplateMarker,
            marker_type,
            can_build: CanBuild(false),
            covering_tiles: CoveringTiles(Vec::new()),
            anchor: None,
        }
    }

    /// Starts the preview of a theatre.
    pub fn theatre() -> (r: Self)
        ensures
            r.is_new(BuildingType::Theatre),
    {
        Self::build_marker(BuildingType::Theatre)
    }
}

} // verus!
