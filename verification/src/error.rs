//! The errors the readers report.
use vstd::prelude::*;

verus! {

/// Why a read failed.
#[derive(Debug, Clone, Copy, PartialEq, Eq, Structural)]
pub enum ReadError {
    /// The data ended before the value did.
    Incomplete,
    /// A read was asked to start past the end of the data, at this offset.
    BadOffset(usize),
    /// The data holds something the format does not allow (a bad signature, a string
    /// that is not UTF-8).
    BadInput,
    /// An action, shape or sprite definition kind, or a part index, that the format does
    /// not define ("Index not found").
    IndexNotFound,
    /// A frame data element width that the format does not define ("Type not found").
    TypeNotFound,
    /// A blend mode number that is not one of the blend modes.
    BlendModeNotFound,
    /// Random animation percentages that do not add up to 100.
    BadTotalPercentage,
    /// A named entry that the data does not hold.
    NotFound,
    /// A sprite definition of the single kind (kind 1), whose layout this library does
    /// not know.
    Unsupported,
}

/// Why a file could not be had from an archive.
#[derive(Debug, Clone, Copy, PartialEq, Eq, Structural)]
pub enum LoadError {
    /// The `zip` crate refused the archive, one of its entries, or the entry's contents.
    Unzip,
    /// The archive holds no entry of the name looked for.
    Missing,
    /// The entry was had, but its contents do not read.
    Read(ReadError),
}

} // verus!
