use vstd::prelude::*;

verus! {

/// What can go wrong while an asset is loaded or an entry is looked up.
#[derive(Clone, Copy, Debug, PartialEq, Eq, Structural)]
pub enum AssetError {
    /// The data handed in does not have the length the format fixes.
    TruncatedInput,
    /// The file could not be opened or read. Nothing in this library reads
    /// files; the variant is for the caller that does, so that one type
    /// covers a whole load.
    IoError,
    /// A palette index or a swatch slot lies past the end of its table.
    IndexOutOfRange,
}

} // verus!
