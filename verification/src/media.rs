//! Turning the bytes of asset files into the editor's data.
//!
//! Reading the files themselves is left to the caller: `load_pattern_table`
//! takes the bytes that were read. The editor keeps its edits in memory; the
//! four `save_` functions write nothing and report success.

use crate::error::AssetError;
use crate::pattern_table::{decoded, PatternTable};
use vstd::prelude::*;

verus! {

/// Builds a pattern table from the bytes of a CHR file: the sheet as it was
/// read and the grid decoded from it. The file must hold exactly 8192 bytes;
/// nothing is decoded from a file of another length.
pub fn load_pattern_table(data: &[u8]) -> (r: Result<PatternTable, AssetError>)
    ensures
        data@.len() == 8192 ==> r is Ok && r->Ok_0.sheet() == data@,
        data@.len() == 8192 ==> r is Ok && r->Ok_0.grid() == decoded(data@),
        data@.len() != 8192 ==> r is Err && r->Err_0 == AssetError::TruncatedInput,
{
    let mut table = PatternTable::new();
    match table.load_from_bytes(data) {
        Ok(()) => Ok(table),
        Err(e) => Err(e),
    }
}

/// Accepts a request to save the tiles to `path`. Nothing is written, and the
/// request always succeeds.
#[allow(unused_variables)]
pub fn save_character(path: &str) -> (r: Result<(), AssetError>)
    ensures
        r is Ok,
{
    Ok(())
}

/// Accepts a request to save the swatches. Nothing is written, and the
/// request always succeeds.
pub fn save_samples() -> (r: Result<(), AssetError>)
    ensures
        r is Ok,
{
    Ok(())
}

/// Accepts a request to save the name table. Nothing is written, and the
/// request always succeeds.
pub fn save_nametable() -> (r: Result<(), AssetError>)
    ensures
        r is Ok,
{
    Ok(())
}

/// Accepts a request to save the attribute table. Nothing is written, and
/// the request always succeeds.
pub fn save_attributes() -> (r: Result<(), AssetError>)
    ensures
        r is Ok,
{
    Ok(())
}

} // verus!
