//! How the tiles of a sheet are laid out in its pixel grid.
//!
//! A sheet has two pages of 256 tiles. The grid is 256 pixels wide and 128
//! high: page 0 on the left, page 1 on the right, sixteen tiles to a page
//! row, every tile an 8 by 8 block. Each pixel of each tile has one place in
//! the grid, and each place in the grid belongs to one pixel of one tile.

use vstd::prelude::*;
use vstd::relations::injective_on;
use vstd::set_lib::{lemma_int_range, lemma_map_size, set_int_range};

verus! {

/// Bytes in a tile sheet.
pub const SHEET_BYTES: usize = 8192;

/// Bytes in one page of a sheet.
pub const PAGE_BYTES: usize = 4096;

/// Bytes in one tile: two planes of eight rows.
pub const TILE_BYTES: usize = 16;

/// Pages in a sheet.
pub const PAGES: usize = 2;

/// Tiles in a page.
pub const TILES_PER_PAGE: usize = 256;

/// Pixels along one side of a tile.
pub const TILE_SIZE: usize = 8;

/// Pixels across one page.
pub const PAGE_WIDTH: usize = 128;

/// Pixels across the grid: both pages side by side.
pub const GRID_WIDTH: usize = 256;

/// Pixel rows in the grid.
pub const GRID_HEIGHT: usize = 128;

/// Pixels in the grid.
pub const GRID_PIXELS: usize = 32768;

/// Whether `page`, `tile`, `x` and `y` name a pixel of the sheet.
pub open spec fn in_sheet(page: int, tile: int, x: int, y: int) -> bool {
    &&& 0 <= page < 2
    &&& 0 <= tile < 256
    &&& 0 <= x < 8
    &&& 0 <= y < 8
}

/// Where in the grid pixel (`x`, `y`) of a tile lands. Rows of the grid are
/// 256 pixels long whichever page the tile is on.
pub open spec fn grid_position(page: int, tile: int, x: int, y: int) -> int {
    (tile / 16 * 8 + y) * 256 + page * 128 + tile % 16 * 8 + x
}

/// The page that grid entry `i` shows.
pub open spec fn page_at(i: int) -> int {
    i % 256 / 128
}

/// The tile, within its page, that grid entry `i` shows.
pub open spec fn tile_at(i: int) -> int {
    i / 256 / 8 * 16 + i % 128 / 8
}

/// The column within its tile of grid entry `i`.
pub open spec fn column_at(i: int) -> int {
    i % 8
}

/// The row within its tile of grid entry `i`.
pub open spec fn row_at(i: int) -> int {
    i / 256 % 8
}

/// Every pixel of the sheet lands inside the grid, and the four `_at`
/// functions find it again from where it landed.
pub proof fn lemma_position_inverts(page: int, tile: int, x: int, y: int)
    requires
        in_sheet(page, tile, x, y),
    ensures
        0 <= grid_position(page, tile, x, y) < 32768,
        page_at(grid_position(page, tile, x, y)) == page,
        tile_at(grid_position(page, tile, x, y)) == tile,
        column_at(grid_position(page, tile, x, y)) == x,
        row_at(grid_position(page, tile, x, y)) == y,
{
    let tile_row = tile / 16;
    let tile_column = tile % 16;
    let row = tile_row * 8 + y;
    let column = page * 128 + tile_column * 8 + x;
    let i = grid_position(page, tile, x, y);
    assert(i == row * 256 + column);
    assert(0 <= row < 128 && 0 <= column < 256);
    assert(i / 256 == row && i % 256 == column);
    assert(row / 8 == tile_row && row % 8 == y);
    assert(column / 128 == page && column % 128 == tile_column * 8 + x);
    assert(i % 128 == tile_column * 8 + x);
    assert((tile_column * 8 + x) / 8 == tile_column && (tile_column * 8 + x) % 8 == x);
    assert(i % 8 == x);
}

/// A tile is an 8 by 8 block of the grid: its pixel (`x`, `y`) stands in
/// grid row `tile / 16 * 8 + y`, at column `tile % 16 * 8 + x` of its page,
/// and the columns of page 1 begin where those of page 0 end.
pub proof fn lemma_position_row_and_column(page: int, tile: int, x: int, y: int)
    requires
        in_sheet(page, tile, x, y),
    ensures
        grid_position(page, tile, x, y) / 256 == tile / 16 * 8 + y,
        grid_position(page, tile, x, y) % 256 == page * 128 + tile % 16 * 8 + x,
        0 <= tile / 16 * 8 + y < 128,
        page * 128 <= grid_position(page, tile, x, y) % 256 < page * 128 + 128,
{
    let row = tile / 16 * 8 + y;
    let column = page * 128 + tile % 16 * 8 + x;
    assert(grid_position(page, tile, x, y) == row * 256 + column);
    assert(0 <= row < 128 && 0 <= column < 256);
}

/// Every grid entry is the landing place of exactly the pixel that the four
/// `_at` functions name.
pub proof fn lemma_entry_is_covered(i: int)
    requires
        0 <= i < 32768,
    ensures
        in_sheet(page_at(i), tile_at(i), column_at(i), row_at(i)),
        grid_position(page_at(i), tile_at(i), column_at(i), row_at(i)) == i,
{
    let row = i / 256;
    let column = i % 256;
    let tile_row = row / 8;
    let tile_column = column % 128 / 8;
    let tile = tile_row * 16 + tile_column;
    assert(i == row * 256 + column);
    assert(0 <= row < 128 && 0 <= column < 256);
    assert(i % 128 == column % 128);
    assert(i % 8 == column % 128 % 8);
    assert(tile_at(i) == tile);
    assert(0 <= tile_row < 16 && 0 <= tile_column < 16);
    assert(tile / 16 == tile_row && tile % 16 == tile_column);
    assert(row == tile_row * 8 + row_at(i));
    assert(column == page_at(i) * 128 + tile_column * 8 + column_at(i));
}

/// Whether grid entry `i` lies in the 8 by 8 block of a tile.
pub open spec fn in_tile(i: int, page: int, tile: int) -> bool {
    0 <= i < 32768 && page_at(i) == page && tile_at(i) == tile
}

/// The grid entries that a tile fills: where its 64 pixels land.
pub open spec fn tile_block(page: int, tile: int) -> Set<int> {
    Set::new(
        |i: int|
            exists|x: int, y: int|
                0 <= x < 8 && 0 <= y < 8 && i == #[trigger] grid_position(page, tile, x, y),
    )
}

/// No grid entry is written twice: two pixels of the sheet that land on the
/// same entry are the same pixel of the same tile.
pub proof fn lemma_positions_distinct(
    page1: int,
    tile1: int,
    x1: int,
    y1: int,
    page2: int,
    tile2: int,
    x2: int,
    y2: int,
)
    requires
        in_sheet(page1, tile1, x1, y1),
        in_sheet(page2, tile2, x2, y2),
        grid_position(page1, tile1, x1, y1) == grid_position(page2, tile2, x2, y2),
    ensures
        page1 == page2,
        tile1 == tile2,
        x1 == x2,
        y1 == y2,
{
    lemma_position_inverts(page1, tile1, x1, y1);
    lemma_position_inverts(page2, tile2, x2, y2);
}

/// The block of a tile is the set of entries that `in_tile` assigns to it.
pub proof fn lemma_tile_block_is_in_tile(page: int, tile: int, i: int)
    requires
        0 <= page < 2,
        0 <= tile < 256,
    ensures
        tile_block(page, tile).contains(i) <==> in_tile(i, page, tile),
{
    if tile_block(page, tile).contains(i) {
        let (x, y) = choose|x: int, y: int|
            0 <= x < 8 && 0 <= y < 8 && i == #[trigger] grid_position(page, tile, x, y);
        lemma_position_inverts(page, tile, x, y);
    }
    if in_tile(i, page, tile) {
        lemma_entry_is_covered(i);
        assert(i == grid_position(page, tile, column_at(i), row_at(i)));
    }
}

/// The block of a tile holds 64 grid entries.
pub proof fn lemma_tile_block_size(page: int, tile: int)
    requires
        0 <= page < 2,
        0 <= tile < 256,
    ensures
        tile_block(page, tile).finite(),
        tile_block(page, tile).len() == 64,
{
    let cells = set_int_range(0, 64);
    let place = |k: int| grid_position(page, tile, k % 8, k / 8);
    lemma_int_range(0, 64);
    assert(injective_on(place, cells)) by {
        assert forall|k1: int, k2: int|
            cells.contains(k1) && cells.contains(k2) && #[trigger] place(k1) == #[trigger] place(
                k2,
            ) implies k1 == k2 by {
            lemma_positions_distinct(page, tile, k1 % 8, k1 / 8, page, tile, k2 % 8, k2 / 8);
        }
    }
    assert(cells.map(place) =~= tile_block(page, tile)) by {
        assert forall|i: int| tile_block(page, tile).contains(i) implies cells.map(place).contains(
            i,
        ) by {
            let (x, y) = choose|x: int, y: int|
                0 <= x < 8 && 0 <= y < 8 && i == #[trigger] grid_position(page, tile, x, y);
            let k = y * 8 + x;
            assert(cells.contains(k) && place(k) == i);
        }
        assert forall|i: int| cells.map(place).contains(i) implies tile_block(page, tile).contains(
            i,
        ) by {
            let k = choose|k: int| cells.contains(k) && i == place(k);
            assert(i == grid_position(page, tile, k % 8, k / 8));
        }
    }
    lemma_map_size(cells, tile_block(page, tile), place);
}

/// The blocks of two different tiles, of the 512 in a sheet, share no grid
/// entry.
pub proof fn lemma_tile_blocks_disjoint(page1: int, tile1: int, page2: int, tile2: int)
    requires
        0 <= page1 < 2,
        0 <= tile1 < 256,
        0 <= page2 < 2,
        0 <= tile2 < 256,
        page1 != page2 || tile1 != tile2,
    ensures
        tile_block(page1, tile1).disjoint(tile_block(page2, tile2)),
{
    assert forall|i: int|
        tile_block(page1, tile1).contains(i) implies !tile_block(page2, tile2).contains(i) by {
        lemma_tile_block_is_in_tile(page1, tile1, i);
        lemma_tile_block_is_in_tile(page2, tile2, i);
    }
}

/// Every grid entry lies in the block of some tile of the sheet.
pub proof fn lemma_tile_blocks_cover(i: int)
    requires
        0 <= i < 32768,
    ensures
        0 <= page_at(i) < 2,
        0 <= tile_at(i) < 256,
        tile_block(page_at(i), tile_at(i)).contains(i),
{
    lemma_entry_is_covered(i);
    lemma_tile_block_is_in_tile(page_at(i), tile_at(i), i);
}

} // verus!
