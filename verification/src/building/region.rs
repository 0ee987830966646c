//! The tiles under a footprint.

use vstd::prelude::*;
use vstd::seq_lib::lemma_no_dup_in_concat;
use crate::building::components::BuildingSize;
use crate::grid::Grid;
use crate::grid::TilePos;

verus! {

/// Whether `pos` lies in the rectangle of `width` by `height` tiles whose corner
/// with the smallest coordinates is `start`.
pub open spec fn in_region(start: TilePos, width: u32, height: u32, pos: TilePos) -> bool {
    &&& start.x <= pos.x < start.x + width
    &&& start.y <= pos.y < start.y + height
}

/// Whether `pos` lies in the region of `width` by `height` tiles that starts at
/// `start`. The region may reach beyond the largest coordinate.
pub fn position_is_in_region(start: &TilePos, width: u32, height: u32, pos: &TilePos) -> (r: bool)
    ensures
        r == in_region(*start, width, height, *pos),
{
    let x_end: u64 = start.x as u64 + width as u64;
    let y_end: u64 = start.y as u64 + height as u64;
    pos.x >= start.x && (pos.x as u64) < x_end && pos.y >= start.y && (pos.y as u64) < y_end
}

/// The end of the range of `len` coordinates from `lo`, cut off at `limit`.
pub open spec fn clipped_end(lo: int, len: int, limit: int) -> int {
    if lo + len < limit {
        lo + len
    } else {
        limit
    }
}

/// The coordinates `(x, y_lo)` to `(x, y_hi - 1)`, in this order.
pub open spec fn column_cells(x: int, y_lo: int, y_hi: int) -> Seq<TilePos> {
    Seq::new(
        if y_hi > y_lo {
            (y_hi - y_lo) as nat
        } else {
            0
        },
        |j: int| TilePos { x: x as u32, y: (y_lo + j) as u32 },
    )
}

/// The coordinates with `x_lo <= x < x_hi` and `y_lo <= y < y_hi`, column after
/// column, each from its smallest y upwards.
pub open spec fn block_cells(x_lo: int, x_hi: int, y_lo: int, y_hi: int) -> Seq<TilePos>
    decreases x_hi - x_lo,
{
    if x_hi <= x_lo {
        Seq::empty()
    } else {
        block_cells(x_lo, x_hi - 1, y_lo, y_hi) + column_cells(x_hi - 1, y_lo, y_hi)
    }
}

/// The coordinates of the grid that lie under a footprint of the given size with
/// its smallest corner at `anchor`.
pub open spec fn region_tiles(grid: &Grid, anchor: TilePos, size: BuildingSize) -> Seq<TilePos> {
    block_cells(
        anchor.x as int,
        clipped_end(anchor.x as int, size.0.0 as int, grid.spec_width() as int),
        anchor.y as int,
        clipped_end(anchor.y as int, size.0.1 as int, grid.spec_height() as int),
    )
}

/// A block of coordinates holds each coordinate of its rectangle once.
pub proof fn lemma_block_cells(x_lo: int, x_hi: int, y_lo: int, y_hi: int)
    requires
        0 <= x_lo,
        x_hi <= u32::MAX + 1,
        0 <= y_lo,
        y_hi <= u32::MAX + 1,
    ensures
        x_lo <= x_hi && y_lo <= y_hi ==> block_cells(x_lo, x_hi, y_lo, y_hi).len() == (x_hi - x_lo)
            * (y_hi - y_lo),
        x_hi <= x_lo || y_hi <= y_lo ==> block_cells(x_lo, x_hi, y_lo, y_hi).len() == 0,
        forall|p: TilePos| #[trigger]
            block_cells(x_lo, x_hi, y_lo, y_hi).contains(p) <==> (x_lo <= p.x < x_hi && y_lo <= p.y
                < y_hi),
        block_cells(x_lo, x_hi, y_lo, y_hi).no_duplicates(),
    decreases x_hi - x_lo,
{
    let block = block_cells(x_lo, x_hi, y_lo, y_hi);
    if x_hi > x_lo {
        let before = block_cells(x_lo, x_hi - 1, y_lo, y_hi);
        let column = column_cells(x_hi - 1, y_lo, y_hi);
        lemma_block_cells(x_lo, x_hi - 1, y_lo, y_hi);
        assert(block == before + column);
        assert forall|p: TilePos| #[trigger] block.contains(p) <==> (x_lo <= p.x < x_hi && y_lo
            <= p.y < y_hi) by {
            if block.contains(p) {
                let i = choose|i: int| 0 <= i < block.len() && block[i] == p;
                if i < before.len() {
                    assert(before[i] == p);
                    assert(before.contains(p));
                } else {
                    assert(column[i - before.len()] == p);
                }
            }
            if x_lo <= p.x < x_hi && y_lo <= p.y < y_hi {
                if p.x < x_hi - 1 {
                    assert(before.contains(p));
                    let i = choose|i: int| 0 <= i < before.len() && before[i] == p;
                    assert(block[i] == p);
                } else {
                    assert(column[p.y - y_lo] == p);
                    assert(block[before.len() + (p.y - y_lo)] == p);
                }
            }
        }
        assert(column.no_duplicates());
        assert forall|i: int, j: int| 0 <= i < before.len() && 0 <= j < column.len() implies before[i]
            != column[j] by {
            assert(before.contains(before[i]));
        }
        lemma_no_dup_in_concat(before, column);
        if y_lo <= y_hi {
            assert((x_hi - 1 - x_lo) * (y_hi - y_lo) + (y_hi - y_lo) == (x_hi - x_lo) * (y_hi
                - y_lo)) by (nonlinear_arith);
        }
    } else {
        if x_lo == x_hi && y_lo <= y_hi {
            assert((x_hi - x_lo) * (y_hi - y_lo) == 0) by (nonlinear_arith)
                requires
                    x_hi - x_lo == 0,
            ;
        }
    }
}

/// The coordinates under a footprint that the grid has are exactly those of
/// the footprint's rectangle that have a tile, each once.
pub proof fn lemma_region_tiles(grid: &Grid, anchor: TilePos, size: BuildingSize)
    requires
        grid.wf(),
    ensures
        forall|p: TilePos| #[trigger]
            region_tiles(grid, anchor, size).contains(p) <==> (in_region(
                anchor,
                size.0.0,
                size.0.1,
                p,
            ) && grid@.contains_key(p)),
        region_tiles(grid, anchor, size).no_duplicates(),
{
    grid.lemma_wf();
    grid.lemma_dimensions();
    lemma_block_cells(
        anchor.x as int,
        clipped_end(anchor.x as int, size.0.0 as int, grid.spec_width() as int),
        anchor.y as int,
        clipped_end(anchor.y as int, size.0.1 as int, grid.spec_height() as int),
    );
    let cells = region_tiles(grid, anchor, size);
    assert forall|p: TilePos| #[trigger] cells.contains(p) <==> (in_region(
        anchor,
        size.0.0,
        size.0.1,
        p,
    ) && grid@.contains_key(p)) by {
        assert(grid@.contains_key(p) <==> grid.in_bounds(p));
    }
}

/// The tiles of the grid under a footprint with its smallest corner at `anchor`:
/// every coordinate of the footprint's rectangle that has a tile, column after
/// column.
pub fn covered_region(grid: &Grid, anchor: TilePos, size: BuildingSize) -> (r: Vec<TilePos>)
    requires
        grid.wf(),
    ensures
        r@ == region_tiles(grid, anchor, size),
{
    let x_far: u64 = anchor.x as u64 + size.0.0 as u64;
    let y_far: u64 = anchor.y as u64 + size.0.1 as u64;
    let x_end: u64 = if x_far < grid.width() as u64 {
        x_far
    } else {
        grid.width() as u64
    };
    let y_end: u64 = if y_far < grid.height() as u64 {
        y_far
    } else {
        grid.height() as u64
    };
    let mut out: Vec<TilePos> = Vec::new();
    let mut x: u64 = anchor.x as u64;
    while x < x_end
        invariant
            anchor.x <= x,
            x <= x_end || x == anchor.x,
            x_end <= u32::MAX,
            y_end <= u32::MAX,
            out@ == block_cells(anchor.x as int, x as int, anchor.y as int, y_end as int),
        decreases x_end - x,
    {
        let mut y: u64 = anchor.y as u64;
        let ghost before = out@;
        while y < y_end
            invariant
                anchor.y <= y,
                y <= y_end || y == anchor.y,
                x < x_end <= u32::MAX,
                y_end <= u32::MAX,
                out@ == before + column_cells(x as int, anchor.y as int, y as int),
            decreases y_end - y,
        {
            out.push(TilePos { x: x as u32, y: y as u32 });
            proof {
                assert(column_cells(x as int, anchor.y as int, y + 1) =~= column_cells(
                    x as int,
                    anchor.y as int,
                    y as int,
                ).push(TilePos { x: x as u32, y: y as u32 }));
            }
            y = y + 1;
        }
        proof {
            assert(column_cells(x as int, anchor.y as int, y as int) =~= column_cells(
                x as int,
                anchor.y as int,
                y_end as int,
            ));
        }
        x = x + 1;
    }
    proof {
        if x_end <= anchor.x {
            assert(block_cells(anchor.x as int, x_end as int, anchor.y as int, y_end as int)
                =~= Seq::empty());
        }
    }
    out
}

} // verus!
