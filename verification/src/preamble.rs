use vstd::prelude::*;
use crate::buffer::append;
use crate::error::Error;
use crate::codec::{base_len, record_length};
use crate::fixed::{encoding, fixed_of, lemma_parse_encoded, obstacle, unfit, FixedFields, FixedView};
use crate::format::{PointFormat, MAX_FORMAT_ID};
use crate::header::{GpsTimeType, Header};
use crate::layout::{
    fixed_len, fixed_length, lemma_framing_len, point_data_start, table_len,
};
use crate::vlr::{
    any_extended, any_oversized, declared_len, framing, holds_extended, holds_record, lead_len,
    lemma_parse_framed, parsing, Vlr, VlrView,
};
use vstd::slice::{slice_subrange, slice_to_vec};

verus! {

/// The bytes of a table of records: those of each record, in order.
pub open spec fn table_bytes(vlrs: Seq<Vlr>) -> Seq<u8>
    decreases vlrs.len(),
{
    if vlrs.len() == 0 {
        Seq::empty()
    } else {
        table_bytes(vlrs.drop_last()) + framing(vlrs.last()@)
    }
}

/// Everything that a file holds before its point data: the fixed fields,
/// the padding, the plain records, and the padding behind them.
pub open spec fn preamble(h: Header, extent: Seq<u64>) -> Seq<u8> {
    encoding(fixed_of(h, extent)) + h.padding@ + table_bytes(h.vlrs@) + h.vlr_padding@
}

/// Whether the header cannot be written: the fixed fields cannot state what
/// it holds, or one of the records before the point data is extended or
/// oversized.
pub open spec fn unwritable(h: Header) -> bool {
    unfit(h) || any_extended(h.vlrs@) || any_oversized(h.vlrs@)
}

/// The bytes of a table of plain records that are not oversized are as many
/// as the layout counts for it.
pub proof fn lemma_table_bytes_len(vlrs: Seq<Vlr>)
    requires
        !any_oversized(vlrs),
    ensures
        table_bytes(vlrs).len() == table_len(vlrs),
    decreases vlrs.len(),
{
    if vlrs.len() > 0 {
        let front = vlrs.drop_last();
        assert forall|i: int| 0 <= i < front.len() implies !(#[trigger] front[i]).oversized() by {
            assert(front[i] == vlrs[i]);
        }
        lemma_table_bytes_len(front);
        assert(vlrs.last() == vlrs[vlrs.len() - 1]);
        lemma_framing_len(vlrs.last());
    }
}

/// The bytes of a table of records.
///
/// Fails where one of the records is oversized.
pub fn table_to_bytes(vlrs: &Vec<Vlr>) -> (r: Result<Vec<u8>, Error>)
    ensures
        any_oversized(vlrs@) ==> r is Err && r->Err_0 == Error::InvalidHeader,
        !any_oversized(vlrs@) ==> r is Ok && r->Ok_0@ == table_bytes(vlrs@),
{
    let mut out: Vec<u8> = Vec::new();
    let mut i: usize = 0;
    assert(table_bytes(vlrs@.take(0)) =~= Seq::<u8>::empty());
    while i < vlrs.len()
        invariant
            i <= vlrs.len(),
            out@ == table_bytes(vlrs@.take(i as int)),
            forall|j: int| 0 <= j < i ==> !(#[trigger] vlrs@[j]).oversized(),
        decreases vlrs.len() - i,
    {
        match vlrs[i].to_bytes() {
            Err(e) => {
                return Err(e);
            },
            Ok(bytes) => {
                append(&mut out, bytes.as_slice());
            },
        }
        proof {
            assert(vlrs@.take(i + 1).drop_last() =~= vlrs@.take(i as int));
            assert(vlrs@.take(i + 1).last() == vlrs@[i as int]);
        }
        i += 1;
    }
    assert(vlrs@.take(i as int) =~= vlrs@);
    Ok(out)
}

/// The views of the records of a table.
pub open spec fn views(vlrs: Seq<Vlr>) -> Seq<VlrView> {
    Seq::new(vlrs.len(), |i: int| vlrs[i]@)
}

/// Whether every record of `vlrs` is extended, or every one plain, as
/// `is_extended` says.
pub open spec fn all_of_kind(vlrs: Seq<Vlr>, is_extended: bool) -> bool {
    forall|i: int| 0 <= i < vlrs.len() ==> (#[trigger] vlrs[i]).is_extended == is_extended
}

/// The first `n` records that `b` holds, one behind the other, all extended
/// or all plain, and how many bytes they take; nothing where `b` ends
/// before they do.
pub open spec fn table_parsing(b: Seq<u8>, n: nat, is_extended: bool) -> Option<
    (Seq<VlrView>, nat),
>
    decreases n,
{
    if n == 0 {
        Some((Seq::empty(), 0))
    } else {
        match table_parsing(b, (n - 1) as nat, is_extended) {
            None => None,
            Some((front, used)) => {
                let tail = b.subrange(used as int, b.len() as int);
                if used <= b.len() && holds_record(tail, is_extended) {
                    Some(
                        (
                            front.push(parsing(tail, is_extended)),
                            used + lead_len(is_extended) + declared_len(tail, is_extended),
                        ),
                    )
                } else {
                    None
                }
            },
        }
    }
}

/// A table of records of one kind, none of them oversized, is read back
/// from its bytes, whatever follows them, and the reading ends where its
/// bytes end.
pub proof fn lemma_parse_table(vlrs: Seq<Vlr>, is_extended: bool, rest: Seq<u8>)
    requires
        all_of_kind(vlrs, is_extended),
        !any_oversized(vlrs),
    ensures
        table_parsing(table_bytes(vlrs) + rest, vlrs.len(), is_extended) == Some(
            (views(vlrs), table_bytes(vlrs).len()),
        ),
    decreases vlrs.len(),
{
    let b = table_bytes(vlrs) + rest;
    if vlrs.len() == 0 {
        assert(views(vlrs) =~= Seq::<VlrView>::empty());
    } else {
        let front = vlrs.drop_last();
        let last = vlrs.last();
        assert(last == vlrs[vlrs.len() - 1]);
        assert forall|i: int| 0 <= i < front.len() implies !(#[trigger] front[i]).oversized() && (
        front[i]).is_extended == is_extended by {
            assert(front[i] == vlrs[i]);
        }
        lemma_parse_table(front, is_extended, framing(last@) + rest);
        assert(table_bytes(front) + (framing(last@) + rest) =~= b);
        let used = table_bytes(front).len();
        let tail = b.subrange(used as int, b.len() as int);
        assert(tail =~= framing(last@) + rest);
        lemma_parse_framed(last, rest);
        assert(views(front).push(last@) =~= views(vlrs));
    }
}

/// Reads `count` records, all extended or all plain, from the head of
/// `bytes` and says how many bytes they take.
///
/// Fails where `bytes` ends before the records do.
pub fn read_table(bytes: &[u8], count: u32, is_extended: bool) -> (r: Result<
    (Vec<Vlr>, usize),
    Error,
>)
    ensures
        match table_parsing(bytes@, count as nat, is_extended) {
            None => r is Err && r->Err_0 == Error::Truncated,
            Some((table, used)) => r is Ok && views(r->Ok_0.0@) == table && r->Ok_0.1 == used
                && used <= bytes@.len(),
        },
{
    let mut out: Vec<Vlr> = Vec::new();
    let mut at: usize = 0;
    let mut i: u32 = 0;
    assert(views(out@) =~= Seq::<VlrView>::empty());
    while i < count
        invariant
            i <= count,
            at <= bytes.len(),
            table_parsing(bytes@, i as nat, is_extended) == Some((views(out@), at as nat)),
        decreases count - i,
    {
        let ghost before = out@;
        match Vlr::from_bytes(slice_subrange(bytes, at, bytes.len()), is_extended) {
            Err(e) => {
                proof {
                    lemma_parsing_stays_failed(bytes@, (i + 1) as nat, count as nat, is_extended);
                }
                return Err(e);
            },
            Ok((v, used)) => {
                proof {
                    assert(views(before.push(v)) =~= views(before).push(v@));
                }
                out.push(v);
                at = at + used;
            },
        }
        i += 1;
    }
    Ok((out, at))
}

/// Once the reading of a table has failed, it fails for every larger count.
pub proof fn lemma_parsing_stays_failed(b: Seq<u8>, n: nat, m: nat, is_extended: bool)
    requires
        n <= m,
        table_parsing(b, n, is_extended) is None,
    ensures
        table_parsing(b, m, is_extended) is None,
    decreases m,
{
    if n < m {
        lemma_parsing_stays_failed(b, n, (m - 1) as nat, is_extended);
    }
}

impl Header {
    /// Everything that a file with this header holds before its point data.
    ///
    /// `extent` holds the largest and the smallest x, y and z, in the order
    /// of the file, as the bits of doubles. Fails where the header cannot be
    /// written. The bytes end where the header says that the point data start.
    pub fn to_bytes(&self, extent: &[u64; 6]) -> (r: Result<Vec<u8>, Error>)
        ensures
            unwritable(*self) ==> r is Err && r->Err_0 == Error::InvalidHeader,
            !unwritable(*self) ==> r is Ok && r->Ok_0@ == preamble(*self, extent@) && r->Ok_0@.len()
                == point_data_start(*self),
    {
        let fixed = match self.fixed_fields(extent) {
            Err(e) => {
                return Err(e);
            },
            Ok(f) => f,
        };
        if holds_extended(&self.vlrs) {
            return Err(Error::InvalidHeader);
        }
        let table = match table_to_bytes(&self.vlrs) {
            Err(e) => {
                return Err(e);
            },
            Ok(t) => t,
        };
        let mut out = fixed.to_bytes();
        append(&mut out, self.padding.as_slice());
        append(&mut out, table.as_slice());
        append(&mut out, self.vlr_padding.as_slice());
        proof {
            lemma_parse_encoded(fixed@, Seq::empty());
            lemma_table_bytes_len(self.vlrs@);
        }
        Ok(out)
    }
}

/// Why `b` does not start with the preamble of a file, if it does not.
///
/// The fixed fields must be there, the point format must be a known one,
/// the record length must not be below that of the format, the header size
/// must not be below that of the revision, and the point data must not
/// start before the header ends: else the bytes are malformed. They are
/// truncated where they end before the point data start, and where the
/// records before the point data do not end before the point data start.
pub open spec fn read_obstacle(b: Seq<u8>) -> Option<Error> {
    match obstacle(b) {
        Some(e) => Some(e),
        None => {
            let f = crate::fixed::parsing(b);
            if f.point_format_id > MAX_FORMAT_ID {
                Some(Error::InvalidFormat(f.point_format_id))
            } else if f.record_length < base_len(f.point_format_id) {
                Some(Error::Malformed)
            } else if f.header_size < fixed_len(f.version) || f.offset_to_point_data
                < f.header_size {
                Some(Error::Malformed)
            } else if b.len() < f.offset_to_point_data {
                Some(Error::Truncated)
            } else if table_parsing(
                b.subrange(f.header_size as int, f.offset_to_point_data as int),
                f.number_of_vlrs as nat,
                false,
            ) is None {
                Some(Error::Truncated)
            } else {
                None
            }
        },
    }
}

/// The counts by return number that the fixed fields state: the 64-bit
/// counts where the revision has them, else the five 32-bit counts and zero
/// for the other return numbers.
pub open spec fn counts_of(f: FixedView) -> Seq<u64> {
    if f.version.reaches(1, 4) {
        f.by_return
    } else {
        Seq::new(
            15,
            |k: int|
                if k < 5 {
                    f.legacy_by_return[k] as u64
                } else {
                    0u64
                },
        )
    }
}

/// Whether `h` and `extent` are what the preamble at the head of `b`
/// states. Nothing is asked of the extended records of `h` and of its
/// bounds, which no preamble holds.
pub open spec fn reads_as(b: Seq<u8>, h: Header, extent: Seq<u64>) -> bool {
    let f = crate::fixed::parsing(b);
    let between = b.subrange(f.header_size as int, f.offset_to_point_data as int);
    let table = table_parsing(between, f.number_of_vlrs as nat, false)->Some_0;
    &&& h.version == f.version
    &&& h.guid@ == f.guid
    &&& h.file_source_id == f.file_source_id
    &&& h.gps_time_type == if f.global_encoding & 1 == 1 {
        GpsTimeType::Standard
    } else {
        GpsTimeType::Week
    }
    &&& h.system_identifier@ == f.system_identifier
    &&& h.generating_software@ == f.generating_software
    &&& h.day == f.day
    &&& h.year == f.year
    &&& h.transforms@ == f.doubles.subrange(0, 6)
    &&& extent == f.doubles.subrange(6, 12)
    &&& h.point_format.id == f.point_format_id
    &&& h.point_format.extra_bytes == f.record_length - base_len(f.point_format_id)
    &&& h.number_of_points == if f.version.reaches(1, 4) {
        f.number_of_points
    } else {
        f.legacy_number_of_points as u64
    }
    &&& h.number_of_points_by_return@ == counts_of(f)
    &&& views(h.vlrs@) == table.0
    &&& h.padding@ == b.subrange(fixed_len(f.version) as int, f.header_size as int)
    &&& h.vlr_padding@ == between.subrange(table.1 as int, between.len() as int)
}

impl Header {
    /// Reads the preamble of a file: the header and its extent, the largest
    /// and the smallest x, y and z as the bits of doubles.
    ///
    /// The header that comes back has no extended records and no bounds:
    /// the first stand behind the point data, the second are the caller's
    /// to compute from the extent.
    pub fn from_bytes(bytes: &[u8]) -> (r: Result<(Header, [u64; 6]), Error>)
        ensures
            match read_obstacle(bytes@) {
                Some(e) => r is Err && r->Err_0 == e,
                None => r is Ok && reads_as(bytes@, r->Ok_0.0, r->Ok_0.1@) && r->Ok_0.0.evlrs@.len()
                    == 0 && r->Ok_0.0.bounds is None,
            },
    {
        let f = match FixedFields::from_bytes(bytes) {
            Err(e) => {
                return Err(e);
            },
            Ok(f) => f,
        };
        if f.point_format_id > MAX_FORMAT_ID {
            return Err(Error::InvalidFormat(f.point_format_id));
        }
        let bare = PointFormat { id: f.point_format_id, extra_bytes: 0 };
        let base = record_length(&bare);
        if (f.record_length as usize) < base {
            return Err(Error::Malformed);
        }
        let fixed = fixed_length(f.version);
        if f.header_size < fixed || f.offset_to_point_data < f.header_size as u32 {
            return Err(Error::Malformed);
        }
        if bytes.len() < f.offset_to_point_data as usize {
            return Err(Error::Truncated);
        }
        let between = slice_subrange(
            bytes,
            f.header_size as usize,
            f.offset_to_point_data as usize,
        );
        let (vlrs, used) = match read_table(between, f.number_of_vlrs, false) {
            Err(e) => {
                return Err(e);
            },
            Ok(t) => t,
        };
        let fourth = f.version.at_least(1, 4);
        let mut counts = [0u64; 15];
        if fourth {
            counts = f.by_return;
        } else {
            let mut i: usize = 0;
            while i < 5
                invariant
                    i <= 5,
                    forall|k: int| 0 <= k < i ==> counts@[k] == f.legacy_by_return@[k] as u64,
                    forall|k: int| i <= k < 15 ==> counts@[k] == 0,
                decreases 5 - i,
            {
                counts[i] = f.legacy_by_return[i] as u64;
                i += 1;
            }
        }
        assert(counts@ =~= counts_of(f@));
        let mut transforms = [0u64; 6];
        let mut extent = [0u64; 6];
        let mut j: usize = 0;
        while j < 6
            invariant
                j <= 6,
                forall|k: int| 0 <= k < j ==> transforms@[k] == f.doubles@[k],
                forall|k: int| 0 <= k < j ==> extent@[k] == f.doubles@[6 + k],
            decreases 6 - j,
        {
            transforms[j] = f.doubles[j];
            extent[j] = f.doubles[6 + j];
            j += 1;
        }
        assert(transforms@ =~= f.doubles@.subrange(0, 6));
        assert(extent@ =~= f.doubles@.subrange(6, 12));
        let h = Header {
            version: f.version,
            guid: f.guid,
            file_source_id: f.file_source_id,
            gps_time_type: if f.global_encoding & 1 == 1 {
                GpsTimeType::Standard
            } else {
                GpsTimeType::Week
            },
            system_identifier: f.system_identifier,
            generating_software: f.generating_software,
            day: f.day,
            year: f.year,
            transforms,
            point_format: PointFormat {
                id: f.point_format_id,
                extra_bytes: (f.record_length as usize - base) as u16,
            },
            number_of_points: if fourth {
                f.number_of_points
            } else {
                f.legacy_number_of_points as u64
            },
            number_of_points_by_return: counts,
            bounds: None,
            vlrs,
            evlrs: Vec::new(),
            padding: slice_to_vec(slice_subrange(bytes, fixed as usize, f.header_size as usize)),
            vlr_padding: slice_to_vec(slice_subrange(between, used, between.len())),
        };
        Ok((h, extent))
    }
}

/// What was written as the preamble of a file is read back, whatever
/// follows it: the header but for its extended records and its bounds, and
/// the extent. Where the revision has no 64-bit counts, this holds of the
/// headers that count no return number above five and whose five counts fit
/// into 32 bits.
pub proof fn lemma_read_written(h: Header, extent: Seq<u64>, rest: Seq<u8>)
    requires
        !unwritable(h),
        h.point_format.wf(),
        extent.len() == 6,
        !h.version.reaches(1, 4) ==> forall|k: int|
            0 <= k < 15 ==> if k < 5 {
                (#[trigger] h.number_of_points_by_return@[k]) <= u32::MAX
            } else {
                h.number_of_points_by_return@[k] == 0
            },
    ensures
        read_obstacle(preamble(h, extent) + rest) is None,
        reads_as(preamble(h, extent) + rest, h, extent),
{
    let v = fixed_of(h, extent);
    let e = encoding(v);
    let t = table_bytes(h.vlrs@);
    let b = preamble(h, extent) + rest;
    assert(h.guid@.len() == 16 && h.system_identifier@.len() == 32 && h.generating_software@.len()
        == 32 && h.transforms@.len() == 6 && h.number_of_points_by_return@.len() == 15);
    lemma_parse_encoded(v, h.padding@ + t + h.vlr_padding@ + rest);
    assert(e + (h.padding@ + t + h.vlr_padding@ + rest) =~= b);
    lemma_table_bytes_len(h.vlrs@);
    let f = crate::fixed::parsing(b);
    assert(f == v);
    let between = b.subrange(f.header_size as int, f.offset_to_point_data as int);
    assert(between =~= t + h.vlr_padding@);
    assert(all_of_kind(h.vlrs@, false)) by {
        assert forall|i: int| 0 <= i < h.vlrs@.len() implies !(#[trigger] h.vlrs@[i]).is_extended by {}
    }
    lemma_parse_table(h.vlrs@, false, h.vlr_padding@);
    assert(f.global_encoding & 1 == 1 <==> h.gps_time_type == GpsTimeType::Standard) by {
        assert(1u16 & 1 == 1 && 0u16 & 1 == 0) by (bit_vector);
    }
    assert(f.doubles.subrange(0, 6) =~= h.transforms@);
    assert(f.doubles.subrange(6, 12) =~= extent);
    assert(counts_of(f) =~= h.number_of_points_by_return@);
    assert(b.subrange(fixed_len(f.version) as int, f.header_size as int) =~= h.padding@);
    assert(between.subrange(t.len() as int, between.len() as int) =~= h.vlr_padding@);
}

} // verus!
