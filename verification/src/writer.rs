use vstd::prelude::*;
use crate::codec::{decoding, encode, encoding, fits, lemma_decode_encoded};
use crate::error::Error;
use crate::header::{Bounds, Header};
use crate::point::{Point, PointView};
use crate::summary::{
    bounds_at, bounds_of, count_with_return, lemma_count_is_bounded, lemma_single_point, widen,
    MAX_RETURN,
};

verus! {

/// Whether `out` is `header` with its derived fields set to what `points` give.
pub open spec fn completes(header: Header, points: Seq<PointView>, out: Header) -> bool {
    &&& out.version == header.version
    &&& out.guid == header.guid
    &&& out.file_source_id == header.file_source_id
    &&& out.gps_time_type == header.gps_time_type
    &&& out.system_identifier == header.system_identifier
    &&& out.generating_software == header.generating_software
    &&& out.day == header.day
    &&& out.year == header.year
    &&& out.transforms == header.transforms
    &&& out.point_format == header.point_format
    &&& out.vlrs == header.vlrs
    &&& out.evlrs == header.evlrs
    &&& out.padding == header.padding
    &&& out.vlr_padding == header.vlr_padding
    &&& out.number_of_points == points.len()
    &&& out.bounds == bounds_of(points)
    &&& forall|n: u8|
        1 <= n <= MAX_RETURN ==> out.number_of_points_by_return@[n - 1] == #[trigger] count_with_return(
            points,
            n,
        )
}

/// The bookkeeping of one writing session.
///
/// The session starts from a header that its revision accepts, takes the
/// points one by one and, when it is closed, hands out the header with the
/// point count, the counts by return number and the bounds of exactly the
/// points that it took. The caller moves the bytes.
pub struct Writer {
    header: Option<Header>,
    count: u64,
    by_return: [u64; 15],
    bounds: Option<Bounds>,
    taken: Ghost<Seq<PointView>>,
}

impl Writer {
    /// The points that the session has taken, in order.
    pub closed spec fn points(self) -> Seq<PointView> {
        self.taken@
    }

    /// Whether the session has been closed.
    pub closed spec fn is_closed(self) -> bool {
        self.header is None
    }

    /// The header that the session started from, while it is open.
    pub closed spec fn header(self) -> Header
        recommends
            !self.is_closed(),
    {
        self.header->Some_0
    }

    /// The running statistics are those of the points taken.
    pub closed spec fn wf(self) -> bool {
        &&& self.count == self.taken@.len()
        &&& self.bounds == bounds_of(self.taken@)
        &&& forall|n: u8|
            1 <= n <= MAX_RETURN ==> self.by_return@[n - 1] == #[trigger] count_with_return(
                self.taken@,
                n,
            )
    }

    /// Why the session would not take `point` in this state, if it would not.
    pub open spec fn refusal(self, point: PointView) -> Option<Error> {
        if self.is_closed() {
            Some(Error::Closed)
        } else if !fits(point, self.header().point_format) {
            Some(Error::InvalidFormat(self.header().point_format.id))
        } else if self.points().len() >= u64::MAX {
            Some(Error::TooManyPoints)
        } else {
            None
        }
    }

    /// Opens a session, if the header's own revision accepts the header
    /// and the scales of its transforms are finite and not zero.
    ///
    /// The error is the first rule of the revision that the header breaks.
    /// Where it breaks none, and a scale cannot be used, it is `InvalidHeader`.
    pub fn new(header: Header) -> (r: Result<Writer, Error>)
        ensures
            r is Ok <==> header.valid_for(header.version) && header.scales_usable(),
            r is Err ==> r->Err_0 == match header.verdict(header.version) {
                Err(e) => e,
                Ok(_) => Error::InvalidHeader,
            },
            r is Ok ==> {
                let w = r->Ok_0;
                &&& w.wf()
                &&& !w.is_closed()
                &&& w.header() == header
                &&& w.points() == Seq::<PointView>::empty()
            },
    {
        match header.validate(header.version) {
            Err(e) => Err(e),
            Ok(()) => {
                if !header.has_usable_scales() {
                    return Err(Error::InvalidHeader);
                }
                let w = Writer {
                    header: Some(header),
                    count: 0,
                    by_return: [0u64; 15],
                    bounds: None,
                    taken: Ghost(Seq::empty()),
                };
                Ok(w)
            },
        }
    }

    /// How many points the session has taken.
    pub fn number_of_points(&self) -> (r: u64)
        requires
            self.wf(),
        ensures
            r == self.points().len(),
    {
        self.count
    }

    /// Takes one point into the statistics and hands out its record, which
    /// the caller appends to the file.
    ///
    /// Fails, and changes nothing, where the session is closed, where the
    /// point does not fit the header's point format, or where the count of
    /// points is at its limit.
    pub fn write(&mut self, point: &Point) -> (r: Result<Vec<u8>, Error>)
        requires
            old(self).wf(),
        ensures
            final(self).wf(),
            final(self).is_closed() == old(self).is_closed(),
            !old(self).is_closed() ==> final(self).header() == old(self).header(),
            match old(self).refusal(point@) {
                Some(e) => r is Err && r->Err_0 == e && final(self).points() == old(self).points(),
                None => r is Ok && r->Ok_0@ == encoding(point@) && final(self).points() == old(
                    self,
                ).points().push(point@),
            },
    {
        let encoded = match &self.header {
            None => {
                return Err(Error::Closed);
            },
            Some(h) => encode(point, &h.point_format),
        };
        let bytes = match encoded {
            Err(e) => {
                return Err(e);
            },
            Ok(bytes) => bytes,
        };
        if self.count == u64::MAX {
            return Err(Error::TooManyPoints);
        }
        let ghost before = self.taken@;
        let ghost after = before.push(point@);
        proof {
            assert(after.drop_last() =~= before);
            assert(after.last() == point@);
            assert forall|n: u8| 1 <= n <= MAX_RETURN implies count_with_return(after, n)
                == count_with_return(before, n) + if point.return_number == n {
                1nat
            } else {
                0nat
            } by {}
            lemma_count_is_bounded(before, point.return_number);
        }
        self.count = self.count + 1;
        let n = point.return_number;
        if 1 <= n && n <= MAX_RETURN {
            let i: usize = (n - 1) as usize;
            let mut counts = self.by_return;
            counts[i] = counts[i] + 1;
            self.by_return = counts;
        }
        self.bounds = Some(
            match self.bounds {
                None => Bounds {
                    min_x: point.x,
                    min_y: point.y,
                    min_z: point.z,
                    max_x: point.x,
                    max_y: point.y,
                    max_z: point.z,
                },
                Some(b) => widen(b, point),
            },
        );
        self.taken = Ghost(after);
        Ok(bytes)
    }

    /// Closes the session and hands out the header with the final statistics.
    ///
    /// A second call fails.
    pub fn close(&mut self) -> (r: Result<Header, Error>)
        requires
            old(self).wf(),
        ensures
            final(self).wf(),
            final(self).is_closed(),
            final(self).points() == old(self).points(),
            old(self).is_closed() ==> r is Err && r->Err_0 == Error::Closed,
            !old(self).is_closed() ==> r is Ok && completes(
                old(self).header(),
                old(self).points(),
                r->Ok_0,
            ),
    {
        match self.header.take() {
            None => Err(Error::Closed),
            Some(h) => {
                let mut out = h;
                out.number_of_points = self.count;
                out.number_of_points_by_return = self.by_return;
                out.bounds = self.bounds;
                Ok(out)
            },
        }
    }
}

/// A file of one point that fits its format: the point is read back from
/// its record, and the header that the session hands out counts one point,
/// counts it under its return number, has the point's coordinates as both
/// ends of its bounds, and is the header that the session started from in
/// everything that is not derived from the points.
pub proof fn lemma_one_point_file(header: Header, p: PointView, out: Header)
    requires
        fits(p, header.point_format),
        completes(header, seq![p], out),
    ensures
        decoding(encoding(p), out.point_format) == p,
        out.number_of_points == 1,
        out.bounds == Some(bounds_at(p)),
        1 <= p.return_number <= MAX_RETURN ==> out.number_of_points_by_return@[p.return_number
            - 1] == 1,
        out.guid == header.guid,
        out.version == header.version,
        out.transforms == header.transforms,
        out.point_format == header.point_format,
        out.vlrs == header.vlrs,
{
    lemma_decode_encoded(p, header.point_format);
    lemma_single_point(p, p.return_number);
}

} // verus!
