use vstd::prelude::*;

verus! {

/// Why a DAT could not be decoded or encoded.
#[derive(Clone, Copy, Debug, PartialEq, Eq, Structural)]
pub enum DatError {
    /// The bytes do not hold a well-formed DAT of the format.
    Malformed,
    /// The value cannot be written in the format.
    Unwritable,
    /// The byte count is no whole number of item table records.
    ItemTableLength(usize),
    /// A four-byte dialog DAT whose only word is not the empty marker zero.
    DialogEmptyMarker(u32),
    /// A dialog DAT whose size word is zero.
    DialogEmpty,
    /// A dialog DAT whose header declares a size (first) other than its
    /// byte count (second).
    DialogFileSize(u64, usize),
    /// A dialog DAT whose table of string ends (its byte count first, the
    /// file's byte count second) is not whole, empty, or larger than the file.
    DialogStringCount(u32, usize),
    /// An entity-name DAT whose bytes after the marker are no 28-byte header
    /// followed by whole 28-byte records.
    EntityRecords,
    /// A string table whose metadata size is not twelve bytes per entry, or
    /// whose sizes do not add up to the file's size.
    XiStringHeader,
    /// A string table whose reserved header word (carried) is not zero.
    XiStringUnknown1(u32),
    /// A status info table (its byte count carried) that reads in neither
    /// entry layout.
    StatusInfoLength(usize),
    /// A status info table (its byte count carried) that reads in both entry
    /// layouts.
    StatusInfoLayouts(usize),
}

} // verus!
