use vstd::prelude::*;
use crate::error::{Error, Feature};
use crate::format::{id_has_color, PointFormat};
use crate::transform::{
    is_usable_scale, lemma_default_scale_usable, usable_scale, DEFAULT_OFFSET, DEFAULT_SCALE,
};
use crate::version::Version;
use crate::vlr::{
    any_extended, any_oversized, any_plain, holds_extended, holds_oversized, holds_plain, Vlr,
};

verus! {

/// How the GPS time of a point is to be read.
#[derive(Clone, Copy, Debug, PartialEq, Eq, Structural)]
pub enum GpsTimeType {
    /// Seconds since the start of the GPS week.
    Week,
    /// Adjusted standard GPS time.
    Standard,
}

/// The smallest and largest stored coordinate on each axis.
#[derive(Clone, Copy, Debug, PartialEq, Eq, Structural)]
pub struct Bounds {
    pub min_x: i32,
    pub min_y: i32,
    pub min_z: i32,
    pub max_x: i32,
    pub max_y: i32,
    pub max_z: i32,
}

/// What a file says about itself before its points.
///
/// The point count, the counts by return number and the bounds are derived
/// from the points of the file. A writing session computes them itself and
/// does not rely on what a header holds when it is handed over.
#[derive(Clone, Debug, PartialEq, Eq)]
pub struct Header {
    pub version: Version,
    pub guid: [u8; 16],
    pub file_source_id: u16,
    pub gps_time_type: GpsTimeType,
    pub system_identifier: [u8; 32],
    pub generating_software: [u8; 32],
    /// The day of the year on which the file was made.
    pub day: u16,
    pub year: u16,
    /// The scales of x, y and z and then the offsets of x, y and z, each as
    /// the bits of a double.
    pub transforms: [u64; 6],
    pub point_format: PointFormat,
    pub number_of_points: u64,
    /// The number of points with return number `i + 1`, at index `i`.
    pub number_of_points_by_return: [u64; 15],
    /// The bounds of the points, if the file holds at least one.
    pub bounds: Option<Bounds>,
    /// The records that stand before the point data.
    pub vlrs: Vec<Vlr>,
    /// The records that stand behind the point data.
    pub evlrs: Vec<Vlr>,
    /// Bytes between the fixed fields and the first record, kept as they are.
    pub padding: Vec<u8>,
    /// Bytes between the last record and the point data, kept as they are.
    pub vlr_padding: Vec<u8>,
}

impl Header {
    /// A header of the given revision and point format with nothing else
    /// set: no identity, no date, GPS week time, the scale 0.001 and the
    /// offset 0 on each axis, no points, no records, no padding.
    pub fn new(version: Version, point_format: PointFormat) -> (r: Header)
        ensures
            r.version == version,
            r.point_format == point_format,
            r.guid@ == Seq::new(16, |i: int| 0u8),
            r.file_source_id == 0,
            r.gps_time_type == GpsTimeType::Week,
            r.system_identifier@ == Seq::new(32, |i: int| 0u8),
            r.generating_software@ == Seq::new(32, |i: int| 0u8),
            r.day == 0,
            r.year == 0,
            r.transforms@ == seq![
                DEFAULT_SCALE,
                DEFAULT_SCALE,
                DEFAULT_SCALE,
                DEFAULT_OFFSET,
                DEFAULT_OFFSET,
                DEFAULT_OFFSET,
            ],
            r.number_of_points == 0,
            r.number_of_points_by_return@ == Seq::new(15, |i: int| 0u64),
            r.bounds is None,
            r.vlrs@.len() == 0,
            r.evlrs@.len() == 0,
            r.padding@.len() == 0,
            r.vlr_padding@.len() == 0,
            point_format.wf() && (id_has_color(point_format.id) ==> version.reaches(1, 2)) && (
            point_format.id >= 6 ==> version.reaches(1, 4)) ==> r.valid_for(version),
            r.scales_usable(),
    {
        let r = Header {
            version,
            guid: [0u8; 16],
            file_source_id: 0,
            gps_time_type: GpsTimeType::Week,
            system_identifier: [0u8; 32],
            generating_software: [0u8; 32],
            day: 0,
            year: 0,
            transforms: [
                DEFAULT_SCALE,
                DEFAULT_SCALE,
                DEFAULT_SCALE,
                DEFAULT_OFFSET,
                DEFAULT_OFFSET,
                DEFAULT_OFFSET,
            ],
            point_format,
            number_of_points: 0,
            number_of_points_by_return: [0u64; 15],
            bounds: None,
            vlrs: Vec::new(),
            evlrs: Vec::new(),
            padding: Vec::new(),
            vlr_padding: Vec::new(),
        };
        proof {
            lemma_default_scale_usable();
        }
        assert(r.guid@ =~= Seq::new(16, |i: int| 0u8));
        assert(r.system_identifier@ =~= Seq::new(32, |i: int| 0u8));
        assert(r.generating_software@ =~= Seq::new(32, |i: int| 0u8));
        assert(r.transforms@ =~= seq![
            DEFAULT_SCALE,
            DEFAULT_SCALE,
            DEFAULT_SCALE,
            DEFAULT_OFFSET,
            DEFAULT_OFFSET,
            DEFAULT_OFFSET,
        ]);
        assert(r.number_of_points_by_return@ =~= Seq::new(15, |i: int| 0u64));
        r
    }

    /// The first rule that the header breaks in a file of the given revision,
    /// or `Ok` where it breaks none.
    ///
    /// The rules, in the order in which they are tried: a file source id
    /// other than zero needs revision 1.1; GPS standard time and a point
    /// format with color need 1.2; an extended point format and an extended
    /// record need 1.4; and in no revision may an extended record stand
    /// among the records before the point data, a plain record among those
    /// behind them, or a plain record hold more data than its length field
    /// can state.
    pub open spec fn verdict(self, version: Version) -> Result<(), Error> {
        if !self.point_format.wf() {
            Err(Error::InvalidFormat(self.point_format.id))
        } else if self.file_source_id != 0 && !version.offers(Feature::FileSourceId) {
            Err(Error::VersionMismatch(Feature::FileSourceId))
        } else if self.gps_time_type == GpsTimeType::Standard && !version.offers(
            Feature::GpsStandardTime,
        ) {
            Err(Error::VersionMismatch(Feature::GpsStandardTime))
        } else if id_has_color(self.point_format.id) && !version.offers(Feature::Color) {
            Err(Error::VersionMismatch(Feature::Color))
        } else if self.point_format.id >= 6 && !version.offers(Feature::ExtendedFormat) {
            Err(Error::VersionMismatch(Feature::ExtendedFormat))
        } else if (any_extended(self.vlrs@) || any_extended(self.evlrs@)) && !version.offers(
            Feature::ExtendedVlr,
        ) {
            Err(Error::VersionMismatch(Feature::ExtendedVlr))
        } else if any_extended(self.vlrs@) || any_plain(self.evlrs@) || any_oversized(self.vlrs@) {
            Err(Error::InvalidHeader)
        } else {
            Ok(())
        }
    }

    /// Whether a file of the given revision may start with this header.
    pub open spec fn valid_for(self, version: Version) -> bool {
        &&& self.point_format.wf()
        &&& self.file_source_id != 0 ==> version.reaches(1, 1)
        &&& self.gps_time_type == GpsTimeType::Standard ==> version.reaches(1, 2)
        &&& id_has_color(self.point_format.id) ==> version.reaches(1, 2)
        &&& self.point_format.id >= 6 ==> version.reaches(1, 4)
        &&& forall|i: int|
            0 <= i < self.vlrs@.len() ==> (#[trigger] self.vlrs@[i]).fits_section(version, false)
        &&& forall|i: int|
            0 <= i < self.evlrs@.len() ==> (#[trigger] self.evlrs@[i]).fits_section(version, true)
    }

    /// Whether the scales of x, y and z are finite and not zero.
    pub open spec fn scales_usable(self) -> bool {
        usable_scale(self.transforms@[0]) && usable_scale(self.transforms@[1]) && usable_scale(
            self.transforms@[2],
        )
    }

    /// Whether the scales of x, y and z are finite and not zero.
    pub fn has_usable_scales(&self) -> (r: bool)
        ensures
            r == self.scales_usable(),
    {
        is_usable_scale(self.transforms[0]) && is_usable_scale(self.transforms[1])
            && is_usable_scale(self.transforms[2])
    }

    /// Checks the header against the rules of the given revision.
    pub fn validate(&self, version: Version) -> (r: Result<(), Error>)
        ensures
            r == self.verdict(version),
            r is Ok <==> self.valid_for(version),
    {
        let format = self.point_format;
        if format.id > crate::format::MAX_FORMAT_ID {
            return Err(Error::InvalidFormat(format.id));
        }
        if self.file_source_id != 0 && !version.supports(Feature::FileSourceId) {
            return Err(Error::VersionMismatch(Feature::FileSourceId));
        }
        if self.gps_time_type == GpsTimeType::Standard && !version.supports(
            Feature::GpsStandardTime,
        ) {
            return Err(Error::VersionMismatch(Feature::GpsStandardTime));
        }
        if format.has_color() && !version.supports(Feature::Color) {
            return Err(Error::VersionMismatch(Feature::Color));
        }
        if format.is_extended() && !version.supports(Feature::ExtendedFormat) {
            return Err(Error::VersionMismatch(Feature::ExtendedFormat));
        }
        if !version.supports(Feature::ExtendedVlr) {
            if holds_extended(&self.vlrs) || holds_extended(&self.evlrs) {
                return Err(Error::VersionMismatch(Feature::ExtendedVlr));
            }
        }
        if holds_extended(&self.vlrs) || holds_plain(&self.evlrs) || holds_oversized(&self.vlrs) {
            return Err(Error::InvalidHeader);
        }
        proof {
            lemma_verdict_is_validity(*self, version);
        }
        Ok(())
    }
}

/// A header that a revision accepts is accepted by every later revision.
pub proof fn lemma_later_revision_accepts(header: Header, earlier: Version, later: Version)
    requires
        later.reaches(earlier.major, earlier.minor),
        header.valid_for(earlier),
    ensures
        header.valid_for(later),
        header.verdict(later) is Ok,
{
    assert forall|i: int| 0 <= i < header.vlrs@.len() implies (
    #[trigger] header.vlrs@[i]).fits_section(later, false) by {
        assert(header.vlrs@[i].fits_section(earlier, false));
    }
    assert forall|i: int| 0 <= i < header.evlrs@.len() implies (
    #[trigger] header.evlrs@[i]).fits_section(later, true) by {
        assert(header.evlrs@[i].fits_section(earlier, true));
    }
    lemma_verdict_is_validity(header, later);
}

/// The verdict is `Ok` exactly for the headers that the revision accepts.
pub proof fn lemma_verdict_is_validity(header: Header, version: Version)
    ensures
        header.verdict(version) is Ok <==> header.valid_for(version),
{
    let vlrs = header.vlrs@;
    let evlrs = header.evlrs@;
    if header.valid_for(version) {
        if any_extended(vlrs) {
            let i = choose|i: int| 0 <= i < vlrs.len() && (#[trigger] vlrs[i]).is_extended;
            assert(vlrs[i].fits_section(version, false));
        }
        if any_extended(evlrs) {
            let i = choose|i: int| 0 <= i < evlrs.len() && (#[trigger] evlrs[i]).is_extended;
            assert(evlrs[i].fits_section(version, true));
        }
        if any_plain(evlrs) {
            let i = choose|i: int| 0 <= i < evlrs.len() && !(#[trigger] evlrs[i]).is_extended;
            assert(evlrs[i].fits_section(version, true));
        }
        if any_oversized(vlrs) {
            let i = choose|i: int| 0 <= i < vlrs.len() && (#[trigger] vlrs[i]).oversized();
            assert(vlrs[i].fits_section(version, false));
        }
    }
    if header.verdict(version) is Ok {
        assert forall|i: int| 0 <= i < vlrs.len() implies (#[trigger] vlrs[i]).fits_section(
            version,
            false,
        ) by {
            let v = vlrs[i];
            if v.is_extended {
                assert(any_extended(vlrs));
            }
            if v.oversized() {
                assert(any_oversized(vlrs));
            }
        }
        assert forall|i: int| 0 <= i < evlrs.len() implies (#[trigger] evlrs[i]).fits_section(
            version,
            true,
        ) by {
            let v = evlrs[i];
            if v.is_extended {
                assert(any_extended(evlrs));
            } else {
                assert(any_plain(evlrs));
            }
        }
    }
}

/// The gates, each on its own: whatever else a header of a known point
/// format holds, it is refused with a file source id other than zero before
/// revision 1.1, with GPS standard time or a point format with color before
/// revision 1.2, with an extended point format or an extended record before
/// revision 1.4, and in every revision with an extended record before the
/// point data, a plain record behind them, or an oversized record. From
/// revision 1.4 on, where every feature is offered, the last three are
/// refused as an invalid header.
pub proof fn lemma_gates(header: Header, version: Version)
    requires
        header.point_format.wf(),
    ensures
        header.file_source_id != 0 && !version.reaches(1, 1) ==> header.verdict(version) is Err,
        header.gps_time_type == GpsTimeType::Standard && !version.reaches(1, 2)
            ==> header.verdict(version) is Err,
        id_has_color(header.point_format.id) && !version.reaches(1, 2) ==> header.verdict(
            version,
        ) is Err,
        header.point_format.id >= 6 && !version.reaches(1, 4) ==> header.verdict(version) is Err,
        (any_extended(header.vlrs@) || any_extended(header.evlrs@)) && !version.reaches(1, 4)
            ==> header.verdict(version) is Err,
        any_extended(header.vlrs@) || any_plain(header.evlrs@) || any_oversized(header.vlrs@)
            || any_oversized(header.evlrs@) ==> header.verdict(version) is Err,
        version.reaches(1, 4) && (any_extended(header.vlrs@) || any_plain(header.evlrs@)
            || any_oversized(header.vlrs@)) ==> header.verdict(version) == Err::<(), Error>(
            Error::InvalidHeader,
        ),
{
    if any_oversized(header.evlrs@) {
        let i = choose|i: int|
            0 <= i < header.evlrs@.len() && (#[trigger] header.evlrs@[i]).oversized();
        assert(!header.evlrs@[i].is_extended);
        assert(any_plain(header.evlrs@));
    }
}

/// A header with nothing but a file source id, a GPS time type and a point
/// format is accepted from the revision on that offers all that it uses.
pub proof fn lemma_plain_header_accepted(header: Header, version: Version)
    requires
        header.point_format.wf(),
        header.vlrs@.len() == 0,
        header.evlrs@.len() == 0,
        header.file_source_id != 0 ==> version.reaches(1, 1),
        header.gps_time_type == GpsTimeType::Standard ==> version.reaches(1, 2),
        id_has_color(header.point_format.id) ==> version.reaches(1, 2),
        header.point_format.id >= 6 ==> version.reaches(1, 4),
    ensures
        header.valid_for(version),
        header.verdict(version) is Ok,
{
    lemma_verdict_is_validity(header, version);
}

} // verus!
