use nes_tool::error::AssetError;
use nes_tool::layout::{
    GRID_HEIGHT, GRID_PIXELS, GRID_WIDTH, PAGES, PAGE_BYTES, PAGE_WIDTH, SHEET_BYTES,
    TILES_PER_PAGE, TILE_BYTES, TILE_SIZE,
};
use nes_tool::pattern_table::{decode, pixel_index, PatternTable, PixelGrid, RawTileSheet};

/// A sheet whose bytes follow a fixed scramble, so that every tile differs.
fn scrambled_sheet() -> RawTileSheet {
    let mut bytes = [0u8; SHEET_BYTES];
    let mut state: u32 = 0x2545_F491;
    for byte in bytes.iter_mut() {
        state ^= state << 13;
        state ^= state >> 17;
        state ^= state << 5;
        *byte = (state >> 11) as u8;
    }
    RawTileSheet { bytes }
}

/// The colour index that the planes of a sheet give to one grid pixel, worked
/// out from the grid's side: which page, which tile, which bit.
fn expected_pixel(bytes: &[u8; SHEET_BYTES], px: usize, py: usize) -> u8 {
    let page = px / PAGE_WIDTH;
    let column = (px % PAGE_WIDTH) / TILE_SIZE;
    let row = py / TILE_SIZE;
    let tile = row * 16 + column;
    let start = page * PAGE_BYTES + tile * TILE_BYTES;
    let x = px % TILE_SIZE;
    let y = py % TILE_SIZE;
    let low = (bytes[start + y] >> (7 - x)) & 1;
    let high = (bytes[start + 8 + y] >> (7 - x)) & 1;
    high * 2 + low
}

fn sheet_with_tile(page: usize, tile: usize, low: [u8; 8], high: [u8; 8]) -> RawTileSheet {
    let mut bytes = [0u8; SHEET_BYTES];
    let start = page * PAGE_BYTES + tile * TILE_BYTES;
    bytes[start..start + 8].copy_from_slice(&low);
    bytes[start + 8..start + 16].copy_from_slice(&high);
    RawTileSheet { bytes }
}

#[test]
fn constants_describe_the_sheet() {
    assert_eq!(SHEET_BYTES, 8192);
    assert_eq!(PAGES * PAGE_BYTES, SHEET_BYTES);
    assert_eq!(TILES_PER_PAGE * TILE_BYTES, PAGE_BYTES);
    assert_eq!(GRID_WIDTH, 2 * PAGE_WIDTH);
    assert_eq!(GRID_WIDTH * GRID_HEIGHT, GRID_PIXELS);
    assert_eq!(PAGES * TILES_PER_PAGE * TILE_SIZE * TILE_SIZE, GRID_PIXELS);
}

#[test]
fn decode_gives_32768_indices_below_four() {
    let grid = decode(&scrambled_sheet());
    let pixels = grid.pixels();
    assert_eq!(pixels.len(), 32768);
    assert!(pixels.iter().all(|&p| p < 4));
    let mut seen = [false; 4];
    for &p in pixels.iter() {
        seen[p as usize] = true;
    }
    assert_eq!(seen, [true; 4]);
}

#[test]
fn decode_twice_gives_the_same_grid() {
    let sheet = scrambled_sheet();
    let first = decode(&sheet);
    let second = decode(&sheet);
    assert_eq!(first.pixels()[..], second.pixels()[..]);
    let copy = RawTileSheet { bytes: sheet.bytes };
    let third = decode(&copy);
    assert_eq!(first.pixels()[..], third.pixels()[..]);
}

#[test]
fn decode_matches_the_planes_pixel_by_pixel() {
    let sheet = scrambled_sheet();
    let grid = decode(&sheet);
    for py in 0..GRID_HEIGHT {
        for px in 0..GRID_WIDTH {
            assert_eq!(
                grid.pixels()[py * GRID_WIDTH + px],
                expected_pixel(&sheet.bytes, px, py),
                "pixel ({}, {})",
                px,
                py
            );
        }
    }
}

#[test]
fn known_pattern_row() {
    let sheet = sheet_with_tile(
        0,
        0,
        [0b1100_0000, 0, 0, 0, 0, 0, 0, 0],
        [0b1000_0000, 0, 0, 0, 0, 0, 0, 0],
    );
    let grid = decode(&sheet);
    assert_eq!(grid.pixels()[0..8], [3, 1, 0, 0, 0, 0, 0, 0]);
    assert!(grid.pixels()[8..].iter().all(|&p| p == 0));
}

#[test]
fn plane_bits_combine_by_the_truth_table() {
    assert_eq!(pixel_index(0x00, 0x00, 0), 0);
    assert_eq!(pixel_index(0x80, 0x00, 0), 1);
    assert_eq!(pixel_index(0x00, 0x80, 0), 2);
    assert_eq!(pixel_index(0x80, 0x80, 0), 3);
}

#[test]
fn most_significant_bit_is_the_leftmost_pixel() {
    for x in 0..8u8 {
        let mask = 0x80u8 >> x;
        for other in 0..8u8 {
            let expected_low = if other == x { 1 } else { 0 };
            assert_eq!(pixel_index(mask, 0, other), expected_low);
            assert_eq!(pixel_index(0, mask, other), 2 * expected_low);
        }
    }
    assert_eq!(pixel_index(0x01, 0x01, 7), 3);
    assert_eq!(pixel_index(0x01, 0x01, 0), 0);
}

#[test]
fn rows_of_a_tile_are_256_entries_apart() {
    let low = [0x80, 0x40, 0x20, 0x10, 0x08, 0x04, 0x02, 0x01];
    let grid = decode(&sheet_with_tile(0, 0, low, [0; 8]));
    for y in 0..8 {
        for x in 0..8 {
            let expected = if x == y { 1 } else { 0 };
            assert_eq!(grid.pixels()[y * 256 + x], expected);
        }
    }
    assert_eq!(grid.pixels().iter().filter(|&&p| p != 0).count(), 8);
}

#[test]
fn tiles_run_sixteen_to_a_page_row() {
    let full = [0xFF; 8];
    let second = decode(&sheet_with_tile(0, 1, full, full));
    assert_eq!(second.get(8, 0), Some(3));
    assert_eq!(second.get(15, 7), Some(3));
    assert_eq!(second.get(7, 0), Some(0));
    assert_eq!(second.get(16, 0), Some(0));
    assert_eq!(second.get(8, 8), Some(0));

    let seventeenth = decode(&sheet_with_tile(0, 16, full, full));
    assert_eq!(seventeenth.get(0, 8), Some(3));
    assert_eq!(seventeenth.get(7, 15), Some(3));
    assert_eq!(seventeenth.get(0, 7), Some(0));
    assert_eq!(seventeenth.get(8, 8), Some(0));
    assert_eq!(seventeenth.pixels()[8 * 256], 3);

    let last = decode(&sheet_with_tile(0, 255, full, full));
    assert_eq!(last.get(120, 120), Some(3));
    assert_eq!(last.get(127, 127), Some(3));
    assert_eq!(last.get(128, 127), Some(0));
}

#[test]
fn second_page_sits_to_the_right_of_the_first() {
    let full = [0xFF; 8];
    let grid = decode(&sheet_with_tile(1, 0, full, [0; 8]));
    assert_eq!(grid.get(128, 0), Some(1));
    assert_eq!(grid.get(135, 7), Some(1));
    assert_eq!(grid.get(127, 0), Some(0));
    assert_eq!(grid.get(0, 0), Some(0));
    assert_eq!(grid.pixels()[128], 1);

    let last = decode(&sheet_with_tile(1, 255, [0; 8], full));
    assert_eq!(last.get(255, 127), Some(2));
    assert_eq!(last.get(248, 120), Some(2));
    assert_eq!(last.pixels()[GRID_PIXELS - 1], 2);
    assert_eq!(last.pixels().iter().filter(|&&p| p != 0).count(), 64);
}

#[test]
fn every_tile_fills_its_own_block_and_no_other() {
    let full = [0xFF; 8];
    let mut times_written = vec![0u32; GRID_PIXELS];
    for page in 0..PAGES {
        for tile in 0..TILES_PER_PAGE {
            let grid = decode(&sheet_with_tile(page, tile, full, full));
            let left = page * PAGE_WIDTH + tile % 16 * TILE_SIZE;
            let top = tile / 16 * TILE_SIZE;
            let mut written = 0;
            for (i, &p) in grid.pixels().iter().enumerate() {
                if p != 0 {
                    assert_eq!(p, 3);
                    let (px, py) = (i % GRID_WIDTH, i / GRID_WIDTH);
                    assert!(left <= px && px < left + 8, "page {} tile {}", page, tile);
                    assert!(top <= py && py < top + 8, "page {} tile {}", page, tile);
                    times_written[i] += 1;
                    written += 1;
                }
            }
            assert_eq!(written, 64);
        }
    }
    assert!(times_written.iter().all(|&n| n == 1));
}

#[test]
fn get_is_none_outside_the_grid() {
    let grid = decode(&scrambled_sheet());
    assert_eq!(grid.get(256, 0), None);
    assert_eq!(grid.get(0, 128), None);
    assert_eq!(grid.get(usize::MAX, usize::MAX), None);
    assert_eq!(grid.get(255, 127), Some(grid.pixels()[GRID_PIXELS - 1]));
    assert_eq!(grid.get(3, 2), Some(grid.pixels()[2 * 256 + 3]));
}

#[test]
fn zero_sheet_is_all_zero() {
    let sheet = RawTileSheet::zero();
    assert!(sheet.bytes.iter().all(|&b| b == 0));
    let grid = decode(&sheet);
    assert!(grid.pixels().iter().all(|&p| p == 0));
}

#[test]
fn from_bytes_takes_exactly_8192_bytes() {
    let data: Vec<u8> = (0..8192u32).map(|i| (i * 7 % 251) as u8).collect();
    let sheet = match RawTileSheet::from_bytes(&data) {
        Ok(sheet) => sheet,
        Err(e) => panic!("a full sheet was refused: {:?}", e),
    };
    assert_eq!(sheet.bytes[..], data[..]);
}

#[test]
fn from_bytes_refuses_other_lengths() {
    let data = vec![0xAAu8; 8193];
    assert!(matches!(RawTileSheet::from_bytes(&data[..8191]), Err(AssetError::TruncatedInput)));
    assert!(matches!(RawTileSheet::from_bytes(&data[..4096]), Err(AssetError::TruncatedInput)));
    assert!(matches!(RawTileSheet::from_bytes(&data[..0]), Err(AssetError::TruncatedInput)));
    assert!(matches!(RawTileSheet::from_bytes(&data), Err(AssetError::TruncatedInput)));
    assert!(RawTileSheet::from_bytes(&data[..8192]).is_ok());
}

#[test]
fn grey_levels_are_index_times_63_75_rounded_down() {
    let low = [0b0101_0101; 8];
    let high = [0b0011_0011; 8];
    let grid: PixelGrid = decode(&sheet_with_tile(0, 0, low, high));
    assert_eq!(grid.pixels()[0..4], [0, 1, 2, 3]);
    let image = grid.image_data();
    assert_eq!(image.len(), 32768);
    assert_eq!(image[0..8], [0, 63, 127, 191, 0, 63, 127, 191]);
    for (i, &level) in image.iter().enumerate() {
        let index = grid.pixels()[i];
        assert_eq!(level, (index as f32 * (255.0 / 4.0)) as u8);
    }
}

#[test]
fn new_table_is_blank() {
    let table = PatternTable::new();
    assert!(table.bytes().bytes.iter().all(|&b| b == 0));
    assert!(table.pixels().pixels().iter().all(|&p| p == 0));
}

#[test]
fn table_loads_sheet_and_grid_together() {
    let sheet = scrambled_sheet();
    let mut table = PatternTable::new();
    assert_eq!(table.load_from_bytes(&sheet.bytes), Ok(()));
    assert_eq!(table.bytes().bytes[..], sheet.bytes[..]);
    assert_eq!(table.pixels().pixels()[..], decode(&sheet).pixels()[..]);
}

#[test]
fn failed_load_leaves_the_table_untouched() {
    let sheet = scrambled_sheet();
    let mut table = PatternTable::new();
    assert_eq!(table.load_from_bytes(&sheet.bytes), Ok(()));
    let before = *table.pixels().pixels();

    let short = vec![0xFFu8; 8191];
    assert_eq!(table.load_from_bytes(&short), Err(AssetError::TruncatedInput));
    assert_eq!(table.bytes().bytes[..], sheet.bytes[..]);
    assert_eq!(table.pixels().pixels()[..], before[..]);

    let long = vec![0xFFu8; 10000];
    assert_eq!(table.load_from_bytes(&long), Err(AssetError::TruncatedInput));
    assert_eq!(table.bytes().bytes[..], sheet.bytes[..]);
    assert_eq!(table.pixels().pixels()[..], before[..]);
}

#[test]
fn reload_replaces_the_whole_grid() {
    let full = [0xFF; 8];
    let mut table = PatternTable::new();
    assert_eq!(table.load_from_bytes(&sheet_with_tile(0, 0, full, full).bytes), Ok(()));
    assert_eq!(table.pixels().get(0, 0), Some(3));
    assert_eq!(table.load_from_bytes(&sheet_with_tile(1, 5, full, [0; 8]).bytes), Ok(()));
    assert_eq!(table.pixels().get(0, 0), Some(0));
    assert_eq!(table.pixels().get(128 + 40, 0), Some(1));
    assert_eq!(table.pixels().pixels().iter().filter(|&&p| p != 0).count(), 64);
}
