//! Data model of an editor for NES graphics.
//!
//! - `pattern_table`: the CHR tile sheet, the pixel grid decoded from it, and
//!   the decoder that unpacks the two bit planes of each tile.
//! - `layout`: where the pixels of each tile stand in the grid, and the proof
//!   that the 512 tiles tile it without gap or overlap.
//! - `palette`: the console's table of 64 colours.
//! - `samples`: the 26 editable swatches, each naming an entry of the table.
//! - `media`: from the bytes of an asset file to the editor's data.
//! - `error`: what loading and lookup can report.
//!
//! Everything here works on bytes and integers. Files, the window, the GPU
//! and the camera's geometry belong to the program that uses the library.

pub mod error;
pub mod layout;
pub mod media;
pub mod palette;
pub mod pattern_table;
pub mod samples;
