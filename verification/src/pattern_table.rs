//! The CHR tile sheet and the pixel grid that is decoded from it.
//!
//! A sheet is 8192 bytes: two pages of 256 tiles, 16 bytes per tile. A tile
//! is two bit planes of eight bytes each, one byte per row, most significant
//! bit leftmost. Where each pixel goes in the grid is the business of
//! `layout`.

use crate::error::AssetError;
use crate::layout::{
    column_at, grid_position, in_sheet, in_tile, lemma_entry_is_covered, lemma_position_inverts,
    page_at, row_at, tile_at, GRID_HEIGHT, GRID_PIXELS, GRID_WIDTH, PAGE_BYTES, PAGE_WIDTH,
    SHEET_BYTES, TILE_BYTES, TILE_SIZE,
};
use vstd::prelude::*;

verus! {

/// Whether a plane byte has the bit of column `x` set, column 0 being the
/// leftmost pixel and the most significant bit.
pub open spec fn plane_bit(byte: u8, x: int) -> bool {
    byte & (0x80u8 >> (x as u8)) != 0
}

/// The colour index that a pair of plane bits stands for.
pub open spec fn color_index(low: bool, high: bool) -> u8 {
    if high {
        if low {
            3
        } else {
            2
        }
    } else {
        if low {
            1
        } else {
            0
        }
    }
}

/// Where in the sheet the sixteen bytes of a tile begin.
pub open spec fn tile_start(page: int, tile: int) -> int {
    page * 4096 + tile * 16
}

/// The colour index of pixel (`x`, `y`) of a tile, read from the two planes.
pub open spec fn tile_pixel(raw: Seq<u8>, page: int, tile: int, x: int, y: int) -> u8 {
    color_index(
        plane_bit(raw[tile_start(page, tile) + y], x),
        plane_bit(raw[tile_start(page, tile) + 8 + y], x),
    )
}

/// The grid that a sheet decodes to: every entry is the pixel of the tile
/// that covers it.
pub open spec fn decoded(raw: Seq<u8>) -> Seq<u8> {
    Seq::new(
        32768,
        |i: int| tile_pixel(raw, page_at(i), tile_at(i), column_at(i), row_at(i)),
    )
}

/// The grey level that shows a colour index on screen: the index times
/// 63.75, rounded down.
pub open spec fn intensity(index: u8) -> u8 {
    (index * 255 / 4) as u8
}

/// A tile sheet as it is stored: 8192 bytes, always.
pub struct RawTileSheet {
    pub bytes: [u8; SHEET_BYTES],
}

impl View for RawTileSheet {
    type V = Seq<u8>;

    open spec fn view(&self) -> Seq<u8> {
        self.bytes@
    }
}

impl RawTileSheet {
    /// A sheet of 8192 zero bytes: every pixel of every tile is colour 0.
    pub fn zero() -> (sheet: Self)
        ensures
            forall|i: int| 0 <= i < 8192 ==> sheet@[i] == 0,
    {
        RawTileSheet { bytes: [0u8; SHEET_BYTES] }
    }

    /// Takes a sheet from the bytes of a file. The bytes are a sheet only if
    /// there are exactly 8192 of them; any other length is refused, and no
    /// sheet is made from part of the data.
    pub fn from_bytes(data: &[u8]) -> (r: Result<Self, AssetError>)
        ensures
            data@.len() == 8192 ==> r is Ok && r->Ok_0@ == data@,
            data@.len() != 8192 ==> r is Err && r->Err_0 == AssetError::TruncatedInput,
    {
        if data.len() != SHEET_BYTES {
            return Err(AssetError::TruncatedInput);
        }
        let mut bytes: [u8; SHEET_BYTES] = [0u8; SHEET_BYTES];
        let mut i: usize = 0;
        while i < SHEET_BYTES
            invariant
                i <= 8192,
                data@.len() == 8192,
                forall|j: int| 0 <= j < i ==> bytes@[j] == data@[j],
            decreases 8192 - i,
        {
            bytes[i] = data[i];
            i += 1;
        }
        assert(bytes@ =~= data@);
        Ok(RawTileSheet { bytes })
    }
}

/// A decoded sheet: 32768 colour indices, row by row, each from 0 to 3.
pub struct PixelGrid {
    pixels: [u8; GRID_PIXELS],
}

impl View for PixelGrid {
    type V = Seq<u8>;

    closed spec fn view(&self) -> Seq<u8> {
        self.pixels@
    }
}

impl PixelGrid {
    #[verifier::type_invariant]
    spec fn indices_in_range(self) -> bool {
        forall|i: int| 0 <= i < 32768 ==> self.pixels@[i] < 4
    }

    /// The whole grid, row by row, 256 entries to a row.
    pub fn pixels(&self) -> (pixels: &[u8; GRID_PIXELS])
        ensures
            pixels@ == self@,
            forall|i: int| 0 <= i < 32768 ==> pixels@[i] < 4,
    {
        proof {
            use_type_invariant(self);
        }
        &self.pixels
    }

    /// The grid as the bytes of a 256 by 128 image with one channel: each
    /// colour index becomes its grey level, 0, 63, 127 or 191.
    pub fn image_data(&self) -> (image: [u8; GRID_PIXELS])
        ensures
            forall|i: int| 0 <= i < 32768 ==> image@[i] == intensity(self@[i]),
    {
        proof {
            use_type_invariant(self);
        }
        let mut image: [u8; GRID_PIXELS] = [0u8; GRID_PIXELS];
        let mut i: usize = 0;
        while i < GRID_PIXELS
            invariant
                i <= 32768,
                forall|j: int| 0 <= j < 32768 ==> self.pixels@[j] < 4,
                forall|j: int| 0 <= j < i ==> image@[j] == intensity(self.pixels@[j]),
            decreases 32768 - i,
        {
            let index: u16 = self.pixels[i] as u16;
            image[i] = (index * 255 / 4) as u8;
            i += 1;
        }
        image
    }

    /// The colour index at column `x` of row `y`, or nothing where the grid
    /// has no such pixel.
    pub fn get(&self, x: usize, y: usize) -> (index: Option<u8>)
        ensures
            x < 256 && y < 128 ==> index == Some(self@[y * 256 + x]) && self@[y * 256 + x] < 4,
            !(x < 256 && y < 128) ==> index is None,
    {
        proof {
            use_type_invariant(self);
        }
        if x < GRID_WIDTH && y < GRID_HEIGHT {
            Some(self.pixels[y * GRID_WIDTH + x])
        } else {
            None
        }
    }
}

/// The colour index at column `x` of a tile row, from the row's byte in the
/// low plane and its byte in the high plane.
pub fn pixel_index(low: u8, high: u8, x: u8) -> (index: u8)
    requires
        x < 8,
    ensures
        index == color_index(plane_bit(low, x as int), plane_bit(high, x as int)),
        index < 4,
{
    let mask: u8 = 0x80u8 >> x;
    let low_bit = low & mask != 0;
    let high_bit = high & mask != 0;
    match (low_bit, high_bit) {
        (true, true) => 3,
        (false, true) => 2,
        (true, false) => 1,
        (false, false) => 0,
    }
}

/// Decodes one tile into its block of the grid and leaves the rest of the
/// grid as it was.
fn decode_tile(raw: &RawTileSheet, page: usize, tile: usize, pixels: &mut [u8; GRID_PIXELS])
    requires
        page < 2,
        tile < 256,
    ensures
        forall|i: int|
            in_tile(i, page as int, tile as int) ==> final(pixels)@[i] == decoded(raw@)[i],
        forall|i: int|
            0 <= i < 32768 && !in_tile(i, page as int, tile as int) ==> final(pixels)@[i]
                == old(pixels)@[i],
{
    let start: usize = page * PAGE_BYTES + tile * TILE_BYTES;
    let page_offset: usize = page * PAGE_WIDTH;
    let tile_x_offset: usize = tile % 16 * TILE_SIZE;
    let tile_y_offset: usize = tile / 16 * GRID_WIDTH * TILE_SIZE;
    let mut y: usize = 0;
    while y < 8
        invariant
            page < 2,
            tile < 256,
            y <= 8,
            start == tile_start(page as int, tile as int),
            page_offset == page * 128,
            tile_x_offset == tile % 16 * 8,
            tile_y_offset == tile / 16 * 2048,
            forall|i: int|
                in_tile(i, page as int, tile as int) && row_at(i) < y ==> pixels@[i]
                    == decoded(raw@)[i],
            forall|i: int|
                0 <= i < 32768 && !in_tile(i, page as int, tile as int) ==> pixels@[i]
                    == old(pixels)@[i],
        decreases 8 - y,
    {
        let low: u8 = raw.bytes[start + y];
        let high: u8 = raw.bytes[start + y + 8];
        let mut x: usize = 0;
        while x < 8
            invariant
                page < 2,
                tile < 256,
                y < 8,
                x <= 8,
                low == raw@[tile_start(page as int, tile as int) + y],
                high == raw@[tile_start(page as int, tile as int) + 8 + y],
                page_offset == page * 128,
                tile_x_offset == tile % 16 * 8,
                tile_y_offset == tile / 16 * 2048,
                forall|i: int|
                    in_tile(i, page as int, tile as int) && (row_at(i) < y || (row_at(i) == y
                        && column_at(i) < x)) ==> pixels@[i] == decoded(raw@)[i],
                forall|i: int|
                    0 <= i < 32768 && !in_tile(i, page as int, tile as int) ==> pixels@[i]
                        == old(pixels)@[i],
            decreases 8 - x,
        {
            let position: usize = page_offset + tile_y_offset + tile_x_offset + y * GRID_WIDTH + x;
            proof {
                lemma_position_inverts(page as int, tile as int, x as int, y as int);
                assert(position == grid_position(page as int, tile as int, x as int, y as int));
                assert forall|i: int|
                    in_tile(i, page as int, tile as int) && row_at(i) == y && column_at(i) == x
                    implies i == position by {
                    lemma_entry_is_covered(i);
                }
            }
            pixels[position] = pixel_index(low, high, x as u8);
            x += 1;
        }
        y += 1;
    }
}

/// Decodes a tile sheet into its pixel grid. Each of the 512 tiles fills its
/// own 8 by 8 block; together the blocks cover the grid.
pub fn decode(raw: &RawTileSheet) -> (grid: PixelGrid)
    ensures
        grid@ == decoded(raw@),
        grid@.len() == 32768,
        forall|i: int| 0 <= i < 32768 ==> grid@[i] < 4,
        forall|page: int, tile: int, x: int, y: int|
            in_sheet(page, tile, x, y) ==> #[trigger] grid@[grid_position(page, tile, x, y)]
                == tile_pixel(raw@, page, tile, x, y),
{
    let mut pixels: [u8; GRID_PIXELS] = [0u8; GRID_PIXELS];
    let mut page: usize = 0;
    while page < 2
        invariant
            page <= 2,
            forall|i: int| 0 <= i < 32768 && page_at(i) < page ==> pixels@[i] == decoded(raw@)[i],
        decreases 2 - page,
    {
        let mut tile: usize = 0;
        while tile < 256
            invariant
                page < 2,
                tile <= 256,
                forall|i: int|
                    0 <= i < 32768 && (page_at(i) < page || (page_at(i) == page && tile_at(i)
                        < tile)) ==> pixels@[i] == decoded(raw@)[i],
            decreases 256 - tile,
        {
            let ghost before = pixels@;
            decode_tile(raw, page, tile, &mut pixels);
            proof {
                assert forall|i: int|
                    0 <= i < 32768 && (page_at(i) < page || (page_at(i) == page && tile_at(i)
                        <= tile)) implies pixels@[i] == decoded(raw@)[i] by {
                    if !in_tile(i, page as int, tile as int) {
                        assert(pixels@[i] == before[i]);
                    }
                }
            }
            tile += 1;
        }
        proof {
            assert forall|i: int| 0 <= i < 32768 implies tile_at(i) < 256 by {
                lemma_entry_is_covered(i);
            }
        }
        page += 1;
    }
    proof {
        assert forall|i: int| 0 <= i < 32768 implies pixels@[i] == decoded(raw@)[i] by {
            lemma_entry_is_covered(i);
        }
        assert(pixels@ =~= decoded(raw@));
        assert forall|page: int, tile: int, x: int, y: int|
            in_sheet(page, tile, x, y) implies #[trigger] pixels@[grid_position(page, tile, x, y)]
            == tile_pixel(raw@, page, tile, x, y) by {
            lemma_position_inverts(page, tile, x, y);
        }
    }
    PixelGrid { pixels }
}

/// A tile sheet together with the grid decoded from it. The grid is always
/// the decoding of the bytes that stand beside it.
pub struct PatternTable {
    bytes: RawTileSheet,
    pixels: PixelGrid,
}

impl PatternTable {
    #[verifier::type_invariant]
    spec fn grid_matches_sheet(self) -> bool {
        self.pixels@ == decoded(self.bytes@)
    }

    /// The bytes of the sheet.
    pub closed spec fn sheet(&self) -> Seq<u8> {
        self.bytes@
    }

    /// The colour indices of the grid.
    pub closed spec fn grid(&self) -> Seq<u8> {
        self.pixels@
    }

    /// A table over a sheet of zero bytes. Its grid is colour 0 throughout.
    pub fn new() -> (table: Self)
        ensures
            table.sheet().len() == 8192,
            forall|i: int| 0 <= i < 8192 ==> table.sheet()[i] == 0,
            table.grid() == decoded(table.sheet()),
            table.grid().len() == 32768,
            forall|i: int| 0 <= i < 32768 ==> table.grid()[i] == 0,
    {
        let bytes = RawTileSheet::zero();
        let pixels = decode(&bytes);
        proof {
            lemma_zero_sheet_decodes_to_zero(bytes@);
        }
        PatternTable { bytes, pixels }
    }

    /// The sheet as it was loaded.
    pub fn bytes(&self) -> (bytes: &RawTileSheet)
        ensures
            bytes@ == self.sheet(),
    {
        &self.bytes
    }

    /// The grid decoded from the sheet.
    pub fn pixels(&self) -> (pixels: &PixelGrid)
        ensures
            pixels@ == self.grid(),
            pixels@ == decoded(self.sheet()),
    {
        proof {
            use_type_invariant(self);
        }
        &self.pixels
    }

    /// Replaces sheet and grid by those of `data`, or, where `data` is not
    /// 8192 bytes long, reports that and leaves the table as it was.
    pub fn load_from_bytes(&mut self, data: &[u8]) -> (r: Result<(), AssetError>)
        ensures
            data@.len() == 8192 ==> r is Ok && final(self).sheet() == data@,
            data@.len() == 8192 ==> final(self).grid() == decoded(data@),
            data@.len() != 8192 ==> r is Err && r->Err_0 == AssetError::TruncatedInput,
            data@.len() != 8192 ==> *final(self) == *old(self),
    {
        match RawTileSheet::from_bytes(data) {
            Ok(bytes) => {
                let pixels = decode(&bytes);
                *self = PatternTable { bytes, pixels };
                Ok(())
            },
            Err(e) => Err(e),
        }
    }
}

/// The planes are read most significant bit first: column `x` of a row is
/// bit `7 - x` of the row's byte, the binary digit worth 128, 64, 32 and so
/// on down to 1 as `x` goes from 0 to 7.
pub proof fn lemma_plane_bit_is_msb_first(byte: u8, x: u8)
    requires
        x < 8,
    ensures
        plane_bit(byte, x as int) <==> (byte >> ((7 - x) as u8)) % 2 == 1,
        x == 0 ==> (plane_bit(byte, 0) <==> byte >= 128),
        x == 7 ==> (plane_bit(byte, 7) <==> byte % 2 == 1),
{
    assert(x < 8 ==> ((byte & (0x80u8 >> x) != 0) <==> (byte >> ((7 - x) as u8)) % 2 == 1))
        by (bit_vector);
    assert((byte & (0x80u8 >> 0u8) != 0) <==> byte >= 128) by (bit_vector);
    assert((byte & (0x80u8 >> 7u8) != 0) <==> byte % 2 == 1) by (bit_vector);
}

/// A sheet of zero bytes decodes to a grid of colour 0.
pub proof fn lemma_zero_sheet_decodes_to_zero(raw: Seq<u8>)
    requires
        raw.len() == 8192,
        forall|i: int| 0 <= i < 8192 ==> raw[i] == 0,
    ensures
        forall|i: int| 0 <= i < 32768 ==> decoded(raw)[i] == 0,
{
    assert forall|i: int| 0 <= i < 32768 implies decoded(raw)[i] == 0 by {
        lemma_entry_is_covered(i);
        let x = column_at(i) as u8;
        assert(0u8 & (0x80u8 >> x) == 0) by (bit_vector);
    }
}

/// Decoding has no hidden state: the grid depends on the bytes of the sheet
/// and on nothing else, so two decodings of the same bytes are equal, entry
/// for entry.
pub proof fn lemma_decode_deterministic(
    first_sheet: RawTileSheet,
    second_sheet: RawTileSheet,
    first: PixelGrid,
    second: PixelGrid,
)
    requires
        first_sheet@ == second_sheet@,
        first@ == decoded(first_sheet@),
        second@ == decoded(second_sheet@),
    ensures
        first@ == second@,
        first == second,
{
    assert(first.pixels =~= second.pixels);
}

} // verus!
