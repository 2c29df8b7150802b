use vstd::prelude::*;

verus! {

/// A capability of a file that only some revisions of the format offer.
#[derive(Clone, Copy, Debug, PartialEq, Eq, Structural)]
pub enum Feature {
    /// A file source id other than zero.
    FileSourceId,
    /// GPS standard (adjusted) time instead of GPS week time.
    GpsStandardTime,
    /// Point formats that carry a color.
    Color,
    /// The extended point formats, ids six and above.
    ExtendedFormat,
    /// Extended variable-length records.
    ExtendedVlr,
}

/// Everything that can go wrong inside the library.
#[derive(Clone, Copy, Debug, PartialEq, Eq, Structural)]
pub enum Error {
    /// A rounded coordinate lies above the largest storable integer.
    Overflow(i64),
    /// A rounded coordinate is no number.
    NotANumber,
    /// The point format with this id is not a known one, or a point does not fit it.
    InvalidFormat(u8),
    /// The header uses a feature that the given revision does not offer.
    VersionMismatch(Feature),
    /// The header holds what no file can hold: a plain record with more
    /// data than its 16-bit length field can state, a number that its field
    /// in the file cannot state, or a scale that is zero or not finite.
    InvalidHeader,
    /// The input ends before the structure that it should hold.
    Truncated,
    /// The input is long enough but does not hold a valid structure.
    Malformed,
    /// The session has been closed already.
    Closed,
    /// The session cannot count another point.
    TooManyPoints,
}

} // verus!
