//! Whether a building may be placed, and on which tiles.

use vstd::prelude::*;
use crate::building::components::BuildingSize;
use crate::building::components::CanBuild;
use crate::building::components::CoveringTiles;
use crate::building::region::clipped_end;
use crate::building::region::covered_region;
use crate::building::region::in_region;
use crate::building::region::lemma_block_cells;
use crate::building::region::lemma_region_tiles;
use crate::building::region::region_tiles;
use crate::grid::Grid;
use crate::grid::Tile;
use crate::grid::TilePos;

verus! {

/// Whether a coordinate has a tile that qualifies for a new building: the tile
/// exists, its terrain allows building and nothing stands on it.
pub open spec fn qualifies(tiles: Map<TilePos, Tile>, p: TilePos) -> bool {
    tiles.contains_key(p) && tiles[p].is_free()
}

/// The test that `qualifies` makes on the given tiles.
pub open spec fn qualifies_on(tiles: Map<TilePos, Tile>) -> spec_fn(TilePos) -> bool {
    |p: TilePos| qualifies(tiles, p)
}

/// Those of `cells` that qualify for a new building, in the order of `cells`.
pub open spec fn qualifying(tiles: Map<TilePos, Tile>, cells: Seq<TilePos>) -> Seq<TilePos> {
    cells.filter(qualifies_on(tiles))
}

/// The tiles that a preview covers: without a hovered tile or without the gold
/// for the building none, and else the qualifying tiles under the footprint.
pub open spec fn placement_cover(
    grid: &Grid,
    gold: i32,
    hovered: Option<TilePos>,
    size: BuildingSize,
    cost: u32,
) -> Seq<TilePos> {
    match hovered {
        Some(anchor) => if gold >= cost {
            qualifying(grid@, region_tiles(grid, anchor, size))
        } else {
            Seq::empty()
        },
        None => Seq::empty(),
    }
}

/// Whether a building may be placed: a tile is hovered, the gold suffices, and
/// as many tiles qualify as the footprint has.
pub open spec fn placement_allowed(
    grid: &Grid,
    gold: i32,
    hovered: Option<TilePos>,
    size: BuildingSize,
    cost: u32,
) -> bool {
    &&& hovered is Some
    &&& gold >= cost
    &&& placement_cover(grid, gold, hovered, size, cost).len() == size.area()
}

proof fn lemma_qualifying_push(tiles: Map<TilePos, Tile>, cells: Seq<TilePos>, p: TilePos)
    ensures
        qualifying(tiles, cells.push(p)) == if qualifies(tiles, p) {
            qualifying(tiles, cells).push(p)
        } else {
            qualifying(tiles, cells)
        },
{
    reveal(Seq::filter);
    assert(cells.push(p).drop_last() =~= cells);
}

/// The qualifying cells are those of the cells that qualify; they are all of
/// the cells exactly if every cell qualifies.
pub proof fn lemma_qualifying(tiles: Map<TilePos, Tile>, cells: Seq<TilePos>)
    ensures
        qualifying(tiles, cells).len() <= cells.len(),
        qualifying(tiles, cells).len() == cells.len() <==> forall|i: int|
            0 <= i < cells.len() ==> qualifies(tiles, #[trigger] cells[i]),
        qualifying(tiles, cells).len() == cells.len() ==> qualifying(tiles, cells) == cells,
        forall|p: TilePos| #[trigger]
            qualifying(tiles, cells).contains(p) <==> cells.contains(p) && qualifies(tiles, p),
        cells.no_duplicates() ==> qualifying(tiles, cells).no_duplicates(),
    decreases cells.len(),
{
    if cells.len() == 0 {
        reveal(Seq::filter);
        assert(qualifying(tiles, cells) =~= cells);
    } else {
        let front = cells.drop_last();
        let last = cells.last();
        lemma_qualifying(tiles, front);
        assert(front.push(last) =~= cells);
        lemma_qualifying_push(tiles, front, last);
        let kept = qualifying(tiles, cells);
        let kept_front = qualifying(tiles, front);
        assert forall|p: TilePos| #[trigger] kept.contains(p) <==> cells.contains(p) && qualifies(
            tiles,
            p,
        ) by {
            if kept.contains(p) {
                let i = choose|i: int| 0 <= i < kept.len() && kept[i] == p;
                if i < kept_front.len() {
                    assert(kept_front[i] == p);
                    assert(kept_front.contains(p));
                    let j = choose|j: int| 0 <= j < front.len() && front[j] == p;
                    assert(cells[j] == p);
                } else {
                    assert(cells[cells.len() - 1] == p);
                }
            }
            if cells.contains(p) && qualifies(tiles, p) {
                let j = choose|j: int| 0 <= j < cells.len() && cells[j] == p;
                if j < front.len() {
                    assert(front[j] == p);
                    assert(front.contains(p));
                    assert(kept_front.contains(p));
                    let i = choose|i: int| 0 <= i < kept_front.len() && kept_front[i] == p;
                    assert(kept[i] == p);
                } else {
                    assert(kept[kept.len() - 1] == p);
                }
            }
        }
        if cells.no_duplicates() {
            assert(front.no_duplicates());
            if qualifies(tiles, last) {
                assert forall|i: int| 0 <= i < kept_front.len() implies kept_front[i] != last by {
                    assert(kept_front.contains(kept_front[i]));
                    let j = choose|j: int| 0 <= j < front.len() && front[j] == kept_front[i];
                    assert(cells[j] == front[j]);
                }
            }
        }
        if kept.len() == cells.len() {
            assert(kept_front.len() == front.len());
            assert forall|i: int| 0 <= i < cells.len() implies qualifies(
                tiles,
                #[trigger] cells[i],
            ) by {
                if i < front.len() {
                    assert(front[i] == cells[i]);
                }
            }
            assert(kept =~= cells);
        }
        if forall|i: int| 0 <= i < cells.len() ==> qualifies(tiles, #[trigger] cells[i]) {
            assert forall|i: int| 0 <= i < front.len() implies qualifies(
                tiles,
                #[trigger] front[i],
            ) by {
                assert(front[i] == cells[i]);
            }
            assert(qualifies(tiles, cells[cells.len() - 1]));
        }
    }
}

/// A building may be placed exactly if a tile is hovered, the gold suffices, and
/// every coordinate of the footprint's rectangle has a tile with buildable
/// terrain on which nothing stands.
pub proof fn lemma_placement_allowed(
    grid: &Grid,
    gold: i32,
    hovered: Option<TilePos>,
    size: BuildingSize,
    cost: u32,
)
    requires
        grid.wf(),
    ensures
        placement_allowed(grid, gold, hovered, size, cost) <==> (hovered is Some && gold >= cost
            && forall|p: TilePos|
            in_region(hovered->0, size.0.0, size.0.1, p) ==> #[trigger] qualifies(grid@, p)),
{
    if hovered is Some && gold >= cost {
        let anchor = hovered->0;
        let (w, h) = (size.0.0 as int, size.0.1 as int);
        let (ax, ay) = (anchor.x as int, anchor.y as int);
        let x_hi = clipped_end(ax, w, grid.spec_width() as int);
        let y_hi = clipped_end(ay, h, grid.spec_height() as int);
        let cells = region_tiles(grid, anchor, size);
        let kept = qualifying(grid@, cells);
        grid.lemma_wf();
        grid.lemma_dimensions();
        lemma_block_cells(ax, x_hi, ay, y_hi);
        lemma_region_tiles(grid, anchor, size);
        lemma_qualifying(grid@, cells);
        let all = forall|p: TilePos|
            in_region(anchor, size.0.0, size.0.1, p) ==> #[trigger] qualifies(grid@, p);
        if w == 0 || h == 0 {
            assert(w * h == 0) by (nonlinear_arith)
                requires
                    w == 0 || h == 0,
            ;
            assert(cells.len() == 0);
        } else if kept.len() == w * h {
            // No more tiles can qualify than the grid has under the footprint, so
            // the footprint lies on the grid and all its tiles qualify.
            let cw = if x_hi > ax {
                x_hi - ax
            } else {
                0
            };
            let ch = if y_hi > ay {
                y_hi - ay
            } else {
                0
            };
            assert(cells.len() == cw * ch) by (nonlinear_arith)
                requires
                    x_hi > ax && y_hi > ay ==> cells.len() == (x_hi - ax) * (y_hi - ay),
                    x_hi <= ax || y_hi <= ay ==> cells.len() == 0,
                    cw == if x_hi > ax {
                        x_hi - ax
                    } else {
                        0
                    },
                    ch == if y_hi > ay {
                        y_hi - ay
                    } else {
                        0
                    },
            ;
            assert(cw == w && ch == h) by (nonlinear_arith)
                requires
                    0 <= cw <= w,
                    0 <= ch <= h,
                    w > 0,
                    h > 0,
                    w * h <= cw * ch,
            ;
            assert forall|p: TilePos| in_region(anchor, size.0.0, size.0.1, p) implies #[trigger] qualifies(
                grid@,
                p,
            ) by {
                assert(grid.in_bounds(p));
                assert(cells.contains(p));
                let i = choose|i: int| 0 <= i < cells.len() && cells[i] == p;
                assert(qualifies(grid@, cells[i]));
            }
        } else if all {
            // The far corner of the footprint has a tile, so the footprint lies on
            // the grid.
            if ax + w - 1 > u32::MAX {
                let edge = TilePos { x: u32::MAX, y: anchor.y };
                assert(in_region(anchor, size.0.0, size.0.1, edge));
                assert(qualifies(grid@, edge));
                assert(grid.in_bounds(edge));
            }
            if ay + h - 1 > u32::MAX {
                let edge = TilePos { x: anchor.x, y: u32::MAX };
                assert(in_region(anchor, size.0.0, size.0.1, edge));
                assert(qualifies(grid@, edge));
                assert(grid.in_bounds(edge));
            }
            let far = TilePos { x: (ax + w - 1) as u32, y: (ay + h - 1) as u32 };
            assert(in_region(anchor, size.0.0, size.0.1, far));
            assert(qualifies(grid@, far));
            assert(grid.in_bounds(far));
            assert(x_hi == ax + w && y_hi == ay + h);
            assert(cells.len() == w * h);
            assert forall|i: int| 0 <= i < cells.len() implies qualifies(
                grid@,
                #[trigger] cells[i],
            ) by {
                assert(cells.contains(cells[i]));
            }
        }
    }
}

/// Those of `cells` on which a building can stand.
fn free_tiles(grid: &Grid, cells: &Vec<TilePos>) -> (r: Vec<TilePos>)
    requires
        grid.wf(),
    ensures
        r@ == qualifying(grid@, cells@),
{
    let mut out: Vec<TilePos> = Vec::new();
    let mut i: usize = 0;
    proof {
        lemma_qualifying(grid@, cells@.take(0));
    }
    while i < cells.len()
        invariant
            grid.wf(),
            i <= cells.len(),
            out@ == qualifying(grid@, cells@.take(i as int)),
        decreases cells.len() - i,
    {
        let pos = cells[i];
        let keep = match grid.tile(pos) {
            Some(tile) => tile.terrain.is_buildable && tile.occupied.0.is_none(),
            None => false,
        };
        proof {
            assert(cells@.take(i + 1) =~= cells@.take(i as int).push(pos));
            lemma_qualifying_push(grid@, cells@.take(i as int), pos);
        }
        if keep {
            out.push(pos);
        }
        i = i + 1;
    }
    proof {
        assert(cells@.take(cells.len() as int) =~= cells@);
    }
    out
}

/// Decides whether a building with the given footprint and cost may be placed
/// with its smallest corner on the hovered tile, and finds the tiles it would
/// cover. Nothing is changed.
pub fn validate_placement(
    grid: &Grid,
    gold: i32,
    hovered: Option<TilePos>,
    size: BuildingSize,
    cost: u32,
) -> (r: (CanBuild, CoveringTiles))
    requires
        grid.wf(),
    ensures
        r.0.0 == placement_allowed(grid, gold, hovered, size, cost),
        r.1.0@ == placement_cover(grid, gold, hovered, size, cost),
{
    match hovered {
        Some(anchor) => {
            if (gold as i64) < (cost as i64) {
                return (CanBuild(false), CoveringTiles(Vec::new()));
            }
            let cells = covered_region(grid, anchor, size);
            let kept = free_tiles(grid, &cells);
            assert(size.0.0 * size.0.1 <= u64::MAX) by (nonlinear_arith)
                requires
                    size.0.0 <= u32::MAX,
                    size.0.1 <= u32::MAX,
            ;
            let wanted: u64 = size.0.0 as u64 * size.0.1 as u64;
            let can_build = kept.len() as u64 == wanted;
            (CanBuild(can_build), CoveringTiles(kept))
        },
        None => (CanBuild(false), CoveringTiles(Vec::new())),
    }
}

/// The tiles that a preview covers are the coordinates of the footprint's
/// rectangle that have a tile on which a building can stand, each once. If the
/// building may be placed, they are the whole rectangle, column after column.
pub proof fn lemma_placement_cover(
    grid: &Grid,
    gold: i32,
    hovered: Option<TilePos>,
    size: BuildingSize,
    cost: u32,
)
    requires
        grid.wf(),
    ensures
        forall|p: TilePos| #[trigger]
            placement_cover(grid, gold, hovered, size, cost).contains(p) <==> (hovered is Some
                && gold >= cost && in_region(hovered->0, size.0.0, size.0.1, p) && qualifies(
                grid@,
                p,
            )),
        placement_cover(grid, gold, hovered, size, cost).no_duplicates(),
        placement_allowed(grid, gold, hovered, size, cost) ==> placement_cover(
            grid,
            gold,
            hovered,
            size,
            cost,
        ) == region_tiles(grid, hovered->0, size),
{
    let cover = placement_cover(grid, gold, hovered, size, cost);
    if hovered is Some && gold >= cost {
        let cells = region_tiles(grid, hovered->0, size);
        lemma_region_tiles(grid, hovered->0, size);
        lemma_qualifying(grid@, cells);
        assert forall|p: TilePos| #[trigger] cover.contains(p) <==> (in_region(
            hovered->0,
            size.0.0,
            size.0.1,
            p,
        ) && qualifies(grid@, p)) by {
            assert(cover.contains(p) <==> cells.contains(p) && qualifies(grid@, p));
        }
        lemma_block_cells_len(grid, hovered->0, size);
    }
}

proof fn lemma_block_cells_len(grid: &Grid, anchor: TilePos, size: BuildingSize)
    requires
        grid.wf(),
    ensures
        region_tiles(grid, anchor, size).len() <= size.area(),
{
    grid.lemma_dimensions();
    let (w, h) = (size.0.0 as int, size.0.1 as int);
    let (ax, ay) = (anchor.x as int, anchor.y as int);
    let x_hi = clipped_end(ax, w, grid.spec_width() as int);
    let y_hi = clipped_end(ay, h, grid.spec_height() as int);
    lemma_block_cells(ax, x_hi, ay, y_hi);
    if x_hi > ax && y_hi > ay {
        assert((x_hi - ax) * (y_hi - ay) <= w * h) by (nonlinear_arith)
            requires
                0 < x_hi - ax <= w,
                0 < y_hi - ay <= h,
        ;
    } else {
        assert(0 <= w * h) by (nonlinear_arith)
            requires
                0 <= w,
                0 <= h,
        ;
    }
}

} // verus!
