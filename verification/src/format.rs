use vstd::prelude::*;
use crate::error::Error;

verus! {

/// The largest point format id.
pub const MAX_FORMAT_ID: u8 = 10;

/// Whether records of the format with this id carry a GPS time.
pub open spec fn id_has_gps_time(id: u8) -> bool {
    id == 1 || (3 <= id <= 10)
}

/// Whether records of the format with this id carry a color.
pub open spec fn id_has_color(id: u8) -> bool {
    id == 2 || id == 3 || id == 5 || id == 7 || id == 8 || id == 10
}

/// Describes the layout of the point records of one file.
#[derive(Clone, Copy, Debug, PartialEq, Eq, Structural)]
pub struct PointFormat {
    /// Which of the eleven record layouts is used.
    pub id: u8,
    /// How many user bytes follow each record.
    pub extra_bytes: u16,
}

impl PointFormat {
    /// The id is one of the known ones.
    pub open spec fn wf(self) -> bool {
        self.id <= MAX_FORMAT_ID
    }

    /// The format with the given id and without extra bytes.
    pub fn new(id: u8) -> (r: Result<PointFormat, Error>)
        ensures
            id <= MAX_FORMAT_ID ==> r == Ok::<PointFormat, Error>(
                (PointFormat { id, extra_bytes: 0 }),
            ),
            id > MAX_FORMAT_ID ==> r == Err::<PointFormat, Error>(Error::InvalidFormat(id)),
    {
        if id > MAX_FORMAT_ID {
            Err(Error::InvalidFormat(id))
        } else {
            Ok(PointFormat { id, extra_bytes: 0 })
        }
    }

    /// Whether each record carries a GPS time.
    pub fn has_gps_time(&self) -> (r: bool)
        ensures
            r == id_has_gps_time(self.id),
    {
        self.id == 1 || (3 <= self.id && self.id <= 10)
    }

    /// Whether each record carries a color.
    pub fn has_color(&self) -> (r: bool)
        ensures
            r == id_has_color(self.id),
    {
        self.id == 2 || self.id == 3 || self.id == 5 || self.id == 7 || self.id == 8
            || self.id == 10
    }

    /// Whether the format is one of the extended ones, which need the latest revision.
    pub fn is_extended(&self) -> (r: bool)
        ensures
            r == (self.id >= 6),
    {
        self.id >= 6
    }
}

} // verus!
