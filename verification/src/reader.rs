use vstd::prelude::*;
use crate::codec::{decode, decoding, record_len, record_length};
use crate::error::Error;
use crate::format::PointFormat;
use crate::point::Point;

verus! {

/// How many points a session expects: as many as the header declares, or,
/// where it declares none, as many records as the region has room for.
pub open spec fn expected(format: PointFormat, number_of_points: u64, region: u64) -> nat {
    if number_of_points > 0 {
        number_of_points as nat
    } else {
        (region as nat) / record_len(format)
    }
}

/// The bookkeeping of one reading session.
///
/// The session knows the point format and the number of points to expect. The caller fetches the bytes of one record at a time and
/// hands them in; the session decodes them and says when the points have
/// come to their end.
pub struct Reader {
    format: PointFormat,
    number_of_points: u64,
    index: u64,
}

impl Reader {
    /// The point format of the file.
    pub closed spec fn format(self) -> PointFormat {
        self.format
    }

    /// How many points the session expects.
    pub closed spec fn declared(self) -> nat {
        self.number_of_points as nat
    }

    /// How many points have been read.
    pub closed spec fn position(self) -> nat {
        self.index as nat
    }

    /// No more points have been read than are declared, and the format is a known one.
    pub closed spec fn wf(self) -> bool {
        self.index <= self.number_of_points && self.format.wf()
    }

    /// Starts at the first point of a file with the given format.
    ///
    /// `region` is the length of the part of the file that holds the points:
    /// from the start of the point data to the extended records, or to the
    /// end of the file where there are none. Where the header declares no
    /// points, the session expects as many as the region has room for.
    pub fn new(format: PointFormat, number_of_points: u64, region: u64) -> (r: Result<
        Reader,
        Error,
    >)
        ensures
            format.wf() ==> r is Ok && r->Ok_0.wf() && r->Ok_0.format() == format
                && r->Ok_0.declared() == expected(format, number_of_points, region)
                && r->Ok_0.position() == 0,
            !format.wf() ==> r is Err && r->Err_0 == Error::InvalidFormat(format.id),
    {
        if format.id > crate::format::MAX_FORMAT_ID {
            return Err(Error::InvalidFormat(format.id));
        }
        let count = if number_of_points > 0 {
            number_of_points
        } else {
            region / (record_length(&format) as u64)
        };
        Ok(Reader { format, number_of_points: count, index: 0 })
    }

    /// How many bytes the caller is to fetch for the next point, or `None`
    /// where all declared points have been read.
    pub fn wants(&self) -> (r: Option<usize>)
        requires
            self.wf(),
        ensures
            self.position() == self.declared() ==> r is None,
            self.position() < self.declared() ==> r == Some(record_len(self.format()) as usize),
    {
        if self.index == self.number_of_points {
            None
        } else {
            Some(record_length(&self.format))
        }
    }

    /// How many points are still to be read.
    pub fn remaining(&self) -> (r: u64)
        requires
            self.wf(),
        ensures
            r == self.declared() - self.position(),
    {
        self.number_of_points - self.index
    }

    /// Reads the next point from the bytes of its record.
    ///
    /// Once all declared points have been read the answer is `Ok(None)`,
    /// whatever the bytes are. Before that, bytes that are not one record
    /// are an error, and the session stays where it is.
    pub fn read(&mut self, record: &[u8]) -> (r: Result<Option<Point>, Error>)
        requires
            old(self).wf(),
        ensures
            final(self).wf(),
            final(self).format() == old(self).format(),
            final(self).declared() == old(self).declared(),
            old(self).position() == old(self).declared() ==> r is Ok && r->Ok_0 is None
                && final(self).position() == old(self).position(),
            old(self).position() < old(self).declared() ==> {
                let n = record_len(old(self).format());
                &&& record@.len() < n ==> r is Err && r->Err_0 == Error::Truncated
                &&& record@.len() > n ==> r is Err && r->Err_0 == Error::Malformed
                &&& record@.len() == n ==> r is Ok && r->Ok_0 is Some && r->Ok_0->Some_0@
                    == decoding(record@, old(self).format())
                &&& r is Ok ==> final(self).position() == old(self).position() + 1
                &&& r is Err ==> final(self).position() == old(self).position()
            },
    {
        if self.index == self.number_of_points {
            return Ok(None);
        }
        match decode(record, &self.format) {
            Err(e) => Err(e),
            Ok(p) => {
                self.index = self.index + 1;
                Ok(Some(p))
            },
        }
    }
}

} // verus!
