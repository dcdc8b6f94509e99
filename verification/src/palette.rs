//! The colour table of the console: 64 entries of red, green and blue, laid out
//! as four rows of sixteen. The last entries of each row are black fillers
//! that no picture should use; they stay in the table so that an index means
//! the same colour everywhere.

use crate::error::AssetError;
use vstd::prelude::*;

verus! {

/// Entries in the colour table.
pub const PALETTE_ENTRIES: usize = 64;

/// Entries in one row of the table.
pub const PALETTE_ROW: usize = 16;

/// The colour table, three bytes per entry: red, green, blue.
pub const FULL_PALETTE: [u8; 192] = [
    101, 101, 101,  3, 47, 103,  21, 35, 125,  60, 26, 122,
    95, 18, 97,  114, 14, 55,  112, 16, 13,  89, 26, 5,
    52, 40, 3,  13, 51, 3,  3, 59, 4,  4, 60, 19,
    3, 56, 63,  0, 0, 0,  0, 0, 0,  0, 0, 0,
    //
    174, 174, 174,  15, 99, 179,  64, 81, 208,  120, 65, 204,
    167, 54, 169,  192, 52, 112,  189, 60, 48,  159, 74, 0,
    109, 92, 0,  54, 109, 0,  7, 119, 4,  0, 121, 61,
    0, 114, 125,  0, 0, 0,  0, 0, 0,  0, 0, 0,
    //
    254, 254, 255,  93, 179, 255,  143, 161, 255,  200, 144, 255,
    247, 133, 250,  255, 131, 192,  255, 138, 127,  239, 154, 73,
    189, 172, 44,  133, 188, 47,  85, 199, 83,  60, 201, 140,
    62, 194, 205,  78, 78, 78,  0, 0, 0,  0, 0, 0,
    //
    254, 254, 255,  188, 223, 255,  209, 216, 255,  232, 209, 255,
    251, 205, 253,  255, 204, 229,  255, 207, 202,  248, 213, 180,
    228, 220, 168,  204, 227, 169,  185, 232, 184,  174, 232, 208,
    175, 229, 234,  182, 182, 182,  0, 0, 0,  0, 0, 0,
];

/// A colour: red, green and blue, each from 0 to 255.
#[derive(Clone, Copy, Debug, PartialEq, Eq, Structural)]
pub struct Rgb {
    pub r: u8,
    pub g: u8,
    pub b: u8,
}

/// The colour that the table holds at `index`.
pub open spec fn palette_entry(index: int) -> Rgb {
    Rgb {
        r: FULL_PALETTE@[3 * index],
        g: FULL_PALETTE@[3 * index + 1],
        b: FULL_PALETTE@[3 * index + 2],
    }
}

/// The bytes of an image with four channels that shows `colors` from left to
/// right: red, green, blue, then 255 for a pixel that hides nothing behind it.
pub open spec fn rgba_bytes(colors: Seq<Rgb>) -> Seq<u8> {
    Seq::new(
        4 * colors.len(),
        |k: int|
            if k % 4 == 0 {
                colors[k / 4].r
            } else if k % 4 == 1 {
                colors[k / 4].g
            } else if k % 4 == 2 {
                colors[k / 4].b
            } else {
                255u8
            },
    )
}

/// The whole table as colours, in index order.
pub open spec fn palette_colors() -> Seq<Rgb> {
    Seq::new(64, |i: int| palette_entry(i))
}

/// Appends the four bytes of one opaque pixel.
pub(crate) fn push_rgba(image: &mut Vec<u8>, color: Rgb)
    ensures
        final(image)@ == old(image)@.push(color.r).push(color.g).push(color.b).push(255u8),
{
    image.push(color.r);
    image.push(color.g);
    image.push(color.b);
    image.push(255u8);
}

/// Reads one entry of the table.
pub(crate) fn entry(index: usize) -> (color: Rgb)
    requires
        index < 64,
    ensures
        color == palette_entry(index as int),
{
    Rgb {
        r: FULL_PALETTE[3 * index],
        g: FULL_PALETTE[3 * index + 1],
        b: FULL_PALETTE[3 * index + 2],
    }
}

/// The colour at `index`, for an index below 64; past the end of the table
/// there is nothing to read.
pub fn lookup(index: usize) -> (r: Result<Rgb, AssetError>)
    ensures
        index < 64 ==> r is Ok && r->Ok_0 == palette_entry(index as int),
        index >= 64 ==> r is Err && r->Err_0 == AssetError::IndexOutOfRange,
{
    if index < PALETTE_ENTRIES {
        Ok(entry(index))
    } else {
        Err(AssetError::IndexOutOfRange)
    }
}

/// The table as the bytes of a 16 by 4 image with four channels, one pixel
/// per entry, in index order.
pub fn image_data() -> (image: Vec<u8>)
    ensures
        image@ == rgba_bytes(palette_colors()),
        image@.len() == 256,
{
    let mut image: Vec<u8> = Vec::new();
    let mut i: usize = 0;
    while i < PALETTE_ENTRIES
        invariant
            i <= 64,
            image@ == rgba_bytes(palette_colors().take(i as int)),
        decreases 64 - i,
    {
        let color = entry(i);
        proof {
            lemma_rgba_bytes_push(palette_colors().take(i as int), color);
            assert(palette_colors().take(i as int).push(color) =~= palette_colors().take(i + 1));
        }
        push_rgba(&mut image, color);
        i += 1;
    }
    assert(palette_colors().take(64) =~= palette_colors());
    image
}

/// The last two entries of each row of sixteen are black fillers, and so is
/// the entry before them in the first two rows.
pub proof fn lemma_row_fillers_are_black(row: int)
    requires
        0 <= row < 4,
    ensures
        palette_entry(row * 16 + 14) == (Rgb { r: 0, g: 0, b: 0 }),
        palette_entry(row * 16 + 15) == (Rgb { r: 0, g: 0, b: 0 }),
        row < 2 ==> palette_entry(row * 16 + 13) == (Rgb { r: 0, g: 0, b: 0 }),
{
}

/// One more colour at the end of the list is four more bytes at the end of
/// the image.
pub proof fn lemma_rgba_bytes_push(colors: Seq<Rgb>, color: Rgb)
    ensures
        rgba_bytes(colors.push(color)) == rgba_bytes(colors).push(color.r).push(color.g).push(
            color.b,
        ).push(255u8),
{
    assert(rgba_bytes(colors.push(color)) =~= rgba_bytes(colors).push(color.r).push(color.g).push(
        color.b,
    ).push(255u8));
}

} // verus!
