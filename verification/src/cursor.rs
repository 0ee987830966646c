//! The tile under the cursor.

use vstd::prelude::*;
use crate::grid::Grid;
use crate::grid::TilePos;

verus! {

/// The tile that the cursor hovers over, if any.
#[derive(Debug, Clone, Copy, PartialEq, Eq, Default)]
pub struct SelectedTile(pub Option<TilePos>);

/// What the selection becomes when the cursor is over the coordinate `cursor`,
/// or over none: a coordinate with a tile selects it, one without a tile clears
/// the selection, and no coordinate leaves the selection as it was.
pub open spec fn hovered(tiles: Map<TilePos, crate::grid::Tile>, cursor: Option<TilePos>, before: SelectedTile) -> SelectedTile {
    match cursor {
        Some(pos) => if tiles.contains_key(pos) {
            SelectedTile(Some(pos))
        } else {
            SelectedTile(None)
        },
        None => before,
    }
}

/// Updates the selection from the coordinate under the cursor.
pub fn hover_tile(grid: &Grid, cursor: Option<TilePos>, tile_selected: &mut SelectedTile)
    requires
        grid.wf(),
    ensures
        *final(tile_selected) == hovered(grid@, cursor, *old(tile_selected)),
{
    if let Some(tile_pos) = cursor {
        if grid.contains(tile_pos) {
            tile_selected.0 = Some(tile_pos);
        } else {
            tile_selected.0 = None;
        }
    }
}

} // verus!
