use vstd::prelude::*;

verus! {

/// The failures that encoding and decoding can report.
#[derive(Debug, Clone, Copy, PartialEq, Eq, Structural)]
pub enum Error {
    /// The image's dimensions are not multiples of the split counts.
    DimensionMismatch { width: u32, height: u32, x_split: u32, y_split: u32 },
    /// A tile could not be copied: the image does not match the geometry or
    /// the permutation names a tile outside the grid.
    Convert,
    /// The operating system could not supply seed bytes for the shuffle.
    EntropyUnavailable,
}

} // verus!
