//! The tiles of a region: a center tile with the layers of tiles around it.
use vstd::prelude::*;
use vstd::arithmetic::div_mod::lemma_fundamental_div_mod_converse;
use crate::coordinates::SlippyTileCoordinates;
use crate::types::Radius;

verus! {

/// The lowest index of a region along one axis: `radius` below the center,
/// and 0 where that would fall below 0.
pub open spec fn region_min(center: u32, radius: u8) -> int {
    if center >= radius {
        center - radius
    } else {
        0
    }
}

/// The highest index of a region along one axis: `radius` above the center,
/// and the largest index there is where that would lie beyond it.
pub open spec fn region_max(center: u32, radius: u8) -> int {
    if center + radius <= u32::MAX {
        center + radius
    } else {
        u32::MAX as int
    }
}

/// The number of indices of a region along one axis.
pub open spec fn region_side(center: u32, radius: u8) -> int {
    region_max(center, radius) - region_min(center, radius) + 1
}

/// The tiles of the region around `center`, column by column from the lowest
/// column, and within a column from the lowest row.
pub open spec fn region(center: SlippyTileCoordinates, radius: u8) -> Seq<SlippyTileCoordinates> {
    let rows = region_side(center.y, radius);
    Seq::new(
        (region_side(center.x, radius) * rows) as nat,
        |i: int|
            SlippyTileCoordinates {
                x: (region_min(center.x, radius) + i / rows) as u32,
                y: (region_min(center.y, radius) + i % rows) as u32,
            },
    )
}

/// Whether a tile lies in the square of the region.
pub open spec fn in_region(
    tile: SlippyTileCoordinates,
    center: SlippyTileCoordinates,
    radius: u8,
) -> bool {
    &&& region_min(center.x, radius) <= tile.x <= region_max(center.x, radius)
    &&& region_min(center.y, radius) <= tile.y <= region_max(center.y, radius)
}

/// A side of a region has between 1 and `2 * radius + 1` indices, and exactly
/// `2 * radius + 1` where the center is at least `radius` away from both ends
/// of the axis.
pub proof fn lemma_region_side(center: u32, radius: u8)
    ensures
        1 <= region_side(center, radius) <= 2 * radius + 1,
        radius <= center <= u32::MAX - radius ==> region_side(center, radius) == 2 * radius + 1,
        0 <= region_min(center, radius) <= center <= region_max(center, radius) <= u32::MAX,
{
}

/// The position of tile `(column, row)` of a region, counted from the lowest
/// column and row, is `column * rows + row`.
proof fn lemma_position(rows: int, column: int, row: int)
    requires
        0 <= row < rows,
        0 <= column,
    ensures
        (column * rows + row) / rows == column,
        (column * rows + row) % rows == row,
        0 <= column * rows + row < (column + 1) * rows,
{
    lemma_fundamental_div_mod_converse(column * rows + row, rows, column, row);
    assert(0 <= column * rows) by (nonlinear_arith)
        requires
            0 <= column,
            0 < rows,
    ;
    assert((column + 1) * rows == column * rows + rows) by (nonlinear_arith);
}

/// A position in a region lies in one of its columns and rows, and is given
/// again by the two.
proof fn lemma_column_and_row(rows: int, columns: int, i: int)
    requires
        rows >= 1,
        0 <= i < columns * rows,
    ensures
        0 <= i / rows < columns,
        0 <= i % rows < rows,
        i == rows * (i / rows) + i % rows,
{
    vstd::arithmetic::div_mod::lemma_fundamental_div_mod(i, rows);
    vstd::arithmetic::div_mod::lemma_mod_bound(i, rows);
    assert(0 <= i / rows < columns) by (nonlinear_arith)
        requires
            0 <= i < columns * rows,
            i == rows * (i / rows) + i % rows,
            0 <= i % rows < rows,
            rows >= 1,
    ;
}

/// The tiles of a region are those of its square, each of them once: a region
/// of radius `r` whose center is at least `r` away from the ends of both axes
/// has exactly `(2r + 1)²` tiles, and no tile occurs twice in any region.
pub proof fn lemma_region_tiles_are_distinct(center: SlippyTileCoordinates, radius: u8)
    ensures
        region(center, radius).len() == region_side(center.x, radius) * region_side(
            center.y,
            radius,
        ),
        radius <= center.x <= u32::MAX - radius && radius <= center.y <= u32::MAX - radius
            ==> region(center, radius).len() == (2 * radius + 1) * (2 * radius + 1),
        forall|i: int, j: int|
            0 <= i < j < region(center, radius).len() ==> region(center, radius)[i] != region(
                center,
                radius,
            )[j],
        forall|i: int|
            0 <= i < region(center, radius).len() ==> in_region(
                #[trigger] region(center, radius)[i],
                center,
                radius,
            ),
        forall|tile: SlippyTileCoordinates|
            in_region(tile, center, radius) ==> region(center, radius).contains(tile),
{
    let rows = region_side(center.y, radius);
    let columns = region_side(center.x, radius);
    let tiles = region(center, radius);
    lemma_region_side(center.x, radius);
    lemma_region_side(center.y, radius);
    assert(columns * rows >= 1) by (nonlinear_arith)
        requires
            columns >= 1,
            rows >= 1,
    ;
    assert forall|i: int, j: int| 0 <= i < j < tiles.len() implies tiles[i] != tiles[j] by {
        lemma_column_and_row(rows, columns, i);
        lemma_column_and_row(rows, columns, j);
    }
    assert forall|i: int| 0 <= i < tiles.len() implies in_region(
        #[trigger] tiles[i],
        center,
        radius,
    ) by {
        lemma_column_and_row(rows, columns, i);
    }
    assert forall|tile: SlippyTileCoordinates| in_region(tile, center, radius) implies tiles.contains(
        tile,
    ) by {
        let column = tile.x - region_min(center.x, radius);
        let row = tile.y - region_min(center.y, radius);
        lemma_position(rows, column, row);
        let i = column * rows + row;
        assert((column + 1) * rows <= columns * rows) by (nonlinear_arith)
            requires
                column + 1 <= columns,
                rows >= 1,
        ;
        assert(tiles[i] == tile);
    }
}

/// The coordinates of all tiles of the region around `center`. At the ends of
/// an axis the region is cut off: no index falls below 0 or wraps around.
pub fn region_tiles(center: SlippyTileCoordinates, radius: &Radius) -> (tiles: Vec<
    SlippyTileCoordinates,
>)
    ensures
        tiles@ == region(center, radius.0),
{
    let reach: u32 = radius.0 as u32;
    let min_x: u32 = center.x.saturating_sub(reach);
    let min_y: u32 = center.y.saturating_sub(reach);
    let max_x: u32 = center.x.saturating_add(reach);
    let max_y: u32 = center.y.saturating_add(reach);
    let columns: u32 = max_x - min_x + 1;
    let rows: u32 = max_y - min_y + 1;
    proof {
        lemma_region_side(center.x, radius.0);
        lemma_region_side(center.y, radius.0);
    }
    let ghost wanted = region(center, radius.0);
    let mut tiles: Vec<SlippyTileCoordinates> = Vec::new();
    let mut column: u32 = 0;
    while column < columns
        invariant
            column <= columns,
            columns == region_side(center.x, radius.0),
            rows == region_side(center.y, radius.0),
            min_x == region_min(center.x, radius.0),
            min_y == region_min(center.y, radius.0),
            1 <= rows <= 511,
            1 <= columns <= 511,
            min_x + columns - 1 <= u32::MAX,
            min_y + rows - 1 <= u32::MAX,
            wanted == region(center, radius.0),
            tiles@.len() == column * rows,
            forall|i: int| 0 <= i < tiles@.len() ==> tiles@[i] == wanted[i],
        decreases columns - column,
    {
        let mut row: u32 = 0;
        while row < rows
            invariant
                row <= rows,
                column < columns,
                columns == region_side(center.x, radius.0),
                rows == region_side(center.y, radius.0),
                min_x == region_min(center.x, radius.0),
                min_y == region_min(center.y, radius.0),
                1 <= rows <= 511,
                1 <= columns <= 511,
                min_x + columns - 1 <= u32::MAX,
                min_y + rows - 1 <= u32::MAX,
                wanted == region(center, radius.0),
                tiles@.len() == column * rows + row,
                forall|i: int| 0 <= i < tiles@.len() ==> tiles@[i] == wanted[i],
            decreases rows - row,
        {
            proof {
                lemma_position(rows as int, column as int, row as int);
                assert((column + 1) * rows <= columns * rows) by (nonlinear_arith)
                    requires
                        column + 1 <= columns,
                        rows >= 1,
                ;
            }
            tiles.push(SlippyTileCoordinates { x: min_x + column, y: min_y + row });
            row = row + 1;
        }
        proof {
            assert((column + 1) * rows == column * rows + rows) by (nonlinear_arith);
        }
        column = column + 1;
    }
    assert(tiles@ =~= wanted);
    tiles
}

} // verus!
