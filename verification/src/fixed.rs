use vstd::prelude::*;
use vstd::bytes::*;
use crate::buffer::{append, bytes16_at, bytes32_at};
use crate::codec::{record_len, record_length};
use crate::error::Error;
use crate::header::{GpsTimeType, Header};
use crate::layout::{fixed_len, fixed_length, point_data_end, point_data_start};
use crate::version::Version;
use crate::words::{
    get_u16, get_u32, get_u64, lemma_u32s, lemma_u64s, put_u32s, put_u64s, u16_at, u32_at,
    u32s_at, u32s_bytes, u64_at, u64s_at, u64s_bytes,
};

verus! {

/// The fixed fields of a header, as a file holds them.
///
/// The twelve doubles are held as their bits, in the order of the file: the
/// scales of x, y and z, the offsets of x, y and z, then the largest and the
/// smallest x, y and z. The fields from `waveform_start` on exist in the
/// file from revision 1.3, those from `evlr_start` on from revision 1.4.
#[derive(Clone, Copy, Debug, PartialEq, Eq)]
pub struct FixedFields {
    pub file_source_id: u16,
    pub global_encoding: u16,
    pub guid: [u8; 16],
    pub version: Version,
    pub system_identifier: [u8; 32],
    pub generating_software: [u8; 32],
    pub day: u16,
    pub year: u16,
    pub header_size: u16,
    pub offset_to_point_data: u32,
    pub number_of_vlrs: u32,
    pub point_format_id: u8,
    pub record_length: u16,
    pub legacy_number_of_points: u32,
    pub legacy_by_return: [u32; 5],
    pub doubles: [u64; 12],
    pub waveform_start: u64,
    pub evlr_start: u64,
    pub number_of_evlrs: u32,
    pub number_of_points: u64,
    pub by_return: [u64; 15],
}

/// The fixed fields as contracts see them: each array as a sequence.
pub struct FixedView {
    pub file_source_id: u16,
    pub global_encoding: u16,
    pub guid: Seq<u8>,
    pub version: Version,
    pub system_identifier: Seq<u8>,
    pub generating_software: Seq<u8>,
    pub day: u16,
    pub year: u16,
    pub header_size: u16,
    pub offset_to_point_data: u32,
    pub number_of_vlrs: u32,
    pub point_format_id: u8,
    pub record_length: u16,
    pub legacy_number_of_points: u32,
    pub legacy_by_return: Seq<u32>,
    pub doubles: Seq<u64>,
    pub waveform_start: u64,
    pub evlr_start: u64,
    pub number_of_evlrs: u32,
    pub number_of_points: u64,
    pub by_return: Seq<u64>,
}

impl View for FixedFields {
    type V = FixedView;

    open spec fn view(&self) -> FixedView {
        FixedView {
            file_source_id: self.file_source_id,
            global_encoding: self.global_encoding,
            guid: self.guid@,
            version: self.version,
            system_identifier: self.system_identifier@,
            generating_software: self.generating_software@,
            day: self.day,
            year: self.year,
            header_size: self.header_size,
            offset_to_point_data: self.offset_to_point_data,
            number_of_vlrs: self.number_of_vlrs,
            point_format_id: self.point_format_id,
            record_length: self.record_length,
            legacy_number_of_points: self.legacy_number_of_points,
            legacy_by_return: self.legacy_by_return@,
            doubles: self.doubles@,
            waveform_start: self.waveform_start,
            evlr_start: self.evlr_start,
            number_of_evlrs: self.number_of_evlrs,
            number_of_points: self.number_of_points,
            by_return: self.by_return@,
        }
    }
}

/// The four bytes that every file starts with: the letters LASF.
pub open spec fn signature() -> Seq<u8> {
    seq![0x4cu8, 0x41u8, 0x53u8, 0x46u8]
}

/// The first 107 bytes: everything before the point counts.
pub open spec fn lead(f: FixedView) -> Seq<u8> {
    signature() + spec_u16_to_le_bytes(f.file_source_id) + spec_u16_to_le_bytes(f.global_encoding)
        + f.guid + seq![f.version.major, f.version.minor] + f.system_identifier
        + f.generating_software + spec_u16_to_le_bytes(f.day) + spec_u16_to_le_bytes(f.year)
        + spec_u16_to_le_bytes(f.header_size) + spec_u32_to_le_bytes(f.offset_to_point_data)
        + spec_u32_to_le_bytes(f.number_of_vlrs) + seq![f.point_format_id] + spec_u16_to_le_bytes(
        f.record_length,
    )
}

/// The bytes that exist from revision 1.3 on.
pub open spec fn waveform_part(f: FixedView) -> Seq<u8> {
    if f.version.reaches(1, 3) {
        spec_u64_to_le_bytes(f.waveform_start)
    } else {
        Seq::empty()
    }
}

/// The bytes that exist from revision 1.4 on.
pub open spec fn extended_part(f: FixedView) -> Seq<u8> {
    if f.version.reaches(1, 4) {
        spec_u64_to_le_bytes(f.evlr_start) + spec_u32_to_le_bytes(f.number_of_evlrs)
            + spec_u64_to_le_bytes(f.number_of_points) + u64s_bytes(f.by_return)
    } else {
        Seq::empty()
    }
}

/// The fixed fields in a file. All numbers are little-endian.
#[verifier::opaque]
pub open spec fn encoding(f: FixedView) -> Seq<u8> {
    lead(f) + spec_u32_to_le_bytes(f.legacy_number_of_points) + u32s_bytes(f.legacy_by_return)
        + u64s_bytes(f.doubles) + waveform_part(f) + extended_part(f)
}

/// Why `b` does not start with the fixed fields of a header, if it does not.
pub open spec fn obstacle(b: Seq<u8>) -> Option<Error> {
    if b.len() < 4 {
        Some(Error::Truncated)
    } else if b.subrange(0, 4) != signature() {
        Some(Error::Malformed)
    } else if b.len() < 227 {
        Some(Error::Truncated)
    } else if b.len() < fixed_len(Version { major: b[24], minor: b[25] }) {
        Some(Error::Truncated)
    } else {
        None
    }
}

/// The fixed fields that `b` starts with. A field that the revision of `b`
/// does not have is zero.
#[verifier::opaque]
pub open spec fn parsing(b: Seq<u8>) -> FixedView
    recommends
        obstacle(b) is None,
{
    let version = Version { major: b[24], minor: b[25] };
    let third = version.reaches(1, 3);
    let fourth = version.reaches(1, 4);
    FixedView {
        file_source_id: u16_at(b, 4),
        global_encoding: u16_at(b, 6),
        guid: b.subrange(8, 24),
        version,
        system_identifier: b.subrange(26, 58),
        generating_software: b.subrange(58, 90),
        day: u16_at(b, 90),
        year: u16_at(b, 92),
        header_size: u16_at(b, 94),
        offset_to_point_data: u32_at(b, 96),
        number_of_vlrs: u32_at(b, 100),
        point_format_id: b[104],
        record_length: u16_at(b, 105),
        legacy_number_of_points: u32_at(b, 107),
        legacy_by_return: u32s_at(b, 111, 5),
        doubles: u64s_at(b, 131, 12),
        waveform_start: if third {
            u64_at(b, 227)
        } else {
            0
        },
        evlr_start: if fourth {
            u64_at(b, 235)
        } else {
            0
        },
        number_of_evlrs: if fourth {
            u32_at(b, 243)
        } else {
            0
        },
        number_of_points: if fourth {
            u64_at(b, 247)
        } else {
            0
        },
        by_return: if fourth {
            u64s_at(b, 255, 15)
        } else {
            Seq::new(15, |k: int| 0u64)
        },
    }
}

/// Whether each array has its length.
pub open spec fn shaped(f: FixedView) -> bool {
    &&& f.guid.len() == 16
    &&& f.system_identifier.len() == 32
    &&& f.generating_software.len() == 32
    &&& f.legacy_by_return.len() == 5
    &&& f.doubles.len() == 12
    &&& f.by_return.len() == 15
}

/// Whether every field that the revision does not have is zero.
pub open spec fn plain(f: FixedView) -> bool {
    &&& !f.version.reaches(1, 3) ==> f.waveform_start == 0
    &&& !f.version.reaches(1, 4) ==> f.evlr_start == 0 && f.number_of_evlrs == 0
        && f.number_of_points == 0 && f.by_return == Seq::new(15, |k: int| 0u64)
}

/// The bytes of the fixed fields are as many as the revision takes, and
/// reading them gives back the fields, whatever follows them, as long as
/// each array has its length and every field that the revision does not
/// have is zero.
pub proof fn lemma_parse_encoded(v: FixedView, rest: Seq<u8>)
    requires
        shaped(v),
        plain(v),
    ensures
        encoding(v).len() == fixed_len(v.version),
        obstacle(encoding(v) + rest) is None,
        parsing(encoding(v) + rest) == v,
{
    lemma_auto_spec_u16_to_from_le_bytes();
    lemma_auto_spec_u32_to_from_le_bytes();
    lemma_auto_spec_u64_to_from_le_bytes();
    reveal(encoding);
    reveal(parsing);
    let b = encoding(v) + rest;
    let l = lead(v);
    let n = spec_u32_to_le_bytes(v.legacy_number_of_points);
    let r = u32s_bytes(v.legacy_by_return);
    let d = u64s_bytes(v.doubles);
    let w = waveform_part(v);
    let e = extended_part(v);
    assert(v.guid.len() == 16 && v.system_identifier.len() == 32 && v.generating_software.len()
        == 32);
    assert(v.legacy_by_return.len() == 5 && v.doubles.len() == 12 && v.by_return.len() == 15);
    assert(l.len() == 107);
    lemma_u32s(l + n, v.legacy_by_return, d + w + e + rest);
    lemma_u64s(l + n + r, v.doubles, w + e + rest);
    assert(l + n + r + (d + w + e + rest) =~= b);
    assert(l + n + r + d + (w + e + rest) =~= b);
    assert(b.subrange(0, 4) =~= signature());
    assert(b.subrange(4, 6) =~= spec_u16_to_le_bytes(v.file_source_id));
    assert(b.subrange(6, 8) =~= spec_u16_to_le_bytes(v.global_encoding));
    assert(b.subrange(8, 24) =~= v.guid);
    assert(b[24] == v.version.major && b[25] == v.version.minor);
    assert(b.subrange(26, 58) =~= v.system_identifier);
    assert(b.subrange(58, 90) =~= v.generating_software);
    assert(b.subrange(90, 92) =~= spec_u16_to_le_bytes(v.day));
    assert(b.subrange(92, 94) =~= spec_u16_to_le_bytes(v.year));
    assert(b.subrange(94, 96) =~= spec_u16_to_le_bytes(v.header_size));
    assert(b.subrange(96, 100) =~= spec_u32_to_le_bytes(v.offset_to_point_data));
    assert(b.subrange(100, 104) =~= spec_u32_to_le_bytes(v.number_of_vlrs));
    assert(b[104] == v.point_format_id);
    assert(b.subrange(105, 107) =~= spec_u16_to_le_bytes(v.record_length));
    assert(b.subrange(107, 111) =~= n);
    if v.version.reaches(1, 3) {
        assert(b.subrange(227, 235) =~= spec_u64_to_le_bytes(v.waveform_start));
    }
    if v.version.reaches(1, 4) {
        let c = u64s_bytes(v.by_return);
        let head = l + n + r + d + w + spec_u64_to_le_bytes(v.evlr_start) + spec_u32_to_le_bytes(
            v.number_of_evlrs,
        ) + spec_u64_to_le_bytes(v.number_of_points);
        lemma_u64s(head, v.by_return, rest);
        assert(head + c + rest =~= b);
        assert(b.subrange(235, 243) =~= spec_u64_to_le_bytes(v.evlr_start));
        assert(b.subrange(243, 247) =~= spec_u32_to_le_bytes(v.number_of_evlrs));
        assert(b.subrange(247, 255) =~= spec_u64_to_le_bytes(v.number_of_points));
    }
    let p = parsing(b);
    assert(p.by_return =~= v.by_return);
}

/// The five 32-bit numbers that `bytes` holds from `at` on.
fn five_u32s_at(bytes: &[u8], at: usize) -> (r: [u32; 5])
    requires
        at + 20 <= bytes.len(),
    ensures
        r@ == u32s_at(bytes@, at as int, 5),
{
    let mut r = [0u32; 5];
    let mut i: usize = 0;
    while i < 5
        invariant
            i <= 5,
            at + 20 <= bytes.len(),
            forall|k: int| 0 <= k < i ==> r@[k] == u32_at(bytes@, at + 4 * k),
        decreases 5 - i,
    {
        r[i] = get_u32(bytes, at + 4 * i);
        i += 1;
    }
    assert(r@ =~= u32s_at(bytes@, at as int, 5));
    r
}

/// The twelve 64-bit numbers that `bytes` holds from `at` on.
fn twelve_u64s_at(bytes: &[u8], at: usize) -> (r: [u64; 12])
    requires
        at + 96 <= bytes.len(),
    ensures
        r@ == u64s_at(bytes@, at as int, 12),
{
    let mut r = [0u64; 12];
    let mut i: usize = 0;
    while i < 12
        invariant
            i <= 12,
            at + 96 <= bytes.len(),
            forall|k: int| 0 <= k < i ==> r@[k] == u64_at(bytes@, at + 8 * k),
        decreases 12 - i,
    {
        r[i] = get_u64(bytes, at + 8 * i);
        i += 1;
    }
    assert(r@ =~= u64s_at(bytes@, at as int, 12));
    r
}

/// The fifteen 64-bit numbers that `bytes` holds from `at` on.
fn fifteen_u64s_at(bytes: &[u8], at: usize) -> (r: [u64; 15])
    requires
        at + 120 <= bytes.len(),
    ensures
        r@ == u64s_at(bytes@, at as int, 15),
{
    let mut r = [0u64; 15];
    let mut i: usize = 0;
    while i < 15
        invariant
            i <= 15,
            at + 120 <= bytes.len(),
            forall|k: int| 0 <= k < i ==> r@[k] == u64_at(bytes@, at + 8 * k),
        decreases 15 - i,
    {
        r[i] = get_u64(bytes, at + 8 * i);
        i += 1;
    }
    assert(r@ =~= u64s_at(bytes@, at as int, 15));
    r
}

impl FixedFields {
    /// The bytes of the fixed fields as a file of their revision holds them.
    pub fn to_bytes(&self) -> (r: Vec<u8>)
        ensures
            r@ == encoding(self@),
    {
        proof {
            reveal(encoding);
        }
        let mut out: Vec<u8> = Vec::new();
        out.push(0x4c);
        out.push(0x41);
        out.push(0x53);
        out.push(0x46);
        append(&mut out, u16_to_le_bytes(self.file_source_id).as_slice());
        append(&mut out, u16_to_le_bytes(self.global_encoding).as_slice());
        append(&mut out, self.guid.as_slice());
        out.push(self.version.major);
        out.push(self.version.minor);
        append(&mut out, self.system_identifier.as_slice());
        append(&mut out, self.generating_software.as_slice());
        append(&mut out, u16_to_le_bytes(self.day).as_slice());
        append(&mut out, u16_to_le_bytes(self.year).as_slice());
        append(&mut out, u16_to_le_bytes(self.header_size).as_slice());
        append(&mut out, u32_to_le_bytes(self.offset_to_point_data).as_slice());
        append(&mut out, u32_to_le_bytes(self.number_of_vlrs).as_slice());
        out.push(self.point_format_id);
        append(&mut out, u16_to_le_bytes(self.record_length).as_slice());
        assert(out@ =~= lead(self@));
        append(&mut out, u32_to_le_bytes(self.legacy_number_of_points).as_slice());
        put_u32s(&mut out, self.legacy_by_return.as_slice());
        put_u64s(&mut out, self.doubles.as_slice());
        if self.version.at_least(1, 3) {
            append(&mut out, u64_to_le_bytes(self.waveform_start).as_slice());
        }
        assert(out@ =~= lead(self@) + spec_u32_to_le_bytes(self.legacy_number_of_points)
            + u32s_bytes(self@.legacy_by_return) + u64s_bytes(self@.doubles) + waveform_part(
            self@,
        ));
        let ghost before = out@;
        if self.version.at_least(1, 4) {
            append(&mut out, u64_to_le_bytes(self.evlr_start).as_slice());
            append(&mut out, u32_to_le_bytes(self.number_of_evlrs).as_slice());
            append(&mut out, u64_to_le_bytes(self.number_of_points).as_slice());
            put_u64s(&mut out, self.by_return.as_slice());
        }
        assert(out@ =~= before + extended_part(self@));
        out
    }

    /// Reads the fixed fields that `bytes` starts with.
    ///
    /// Fails with `Malformed` where `bytes` does not start with the
    /// signature, and with `Truncated` where it ends before the fields of
    /// its revision do.
    pub fn from_bytes(bytes: &[u8]) -> (r: Result<FixedFields, Error>)
        ensures
            match obstacle(bytes@) {
                Some(e) => r is Err && r->Err_0 == e,
                None => r is Ok && r->Ok_0@ == parsing(bytes@),
            },
    {
        proof {
            reveal(parsing);
        }
        if bytes.len() < 4 {
            return Err(Error::Truncated);
        }
        assert(bytes@.subrange(0, 4) =~= seq![bytes@[0], bytes@[1], bytes@[2], bytes@[3]]);
        if bytes[0] != 0x4c || bytes[1] != 0x41 || bytes[2] != 0x53 || bytes[3] != 0x46 {
            assert(bytes@.subrange(0, 4) != signature()) by {
                if bytes@.subrange(0, 4) == signature() {
                    assert(signature()[0] == 0x4c && signature()[1] == 0x41 && signature()[2]
                        == 0x53 && signature()[3] == 0x46);
                }
            }
            return Err(Error::Malformed);
        }
        assert(bytes@.subrange(0, 4) =~= signature());
        if bytes.len() < 227 {
            return Err(Error::Truncated);
        }
        let version = Version { major: bytes[24], minor: bytes[25] };
        if bytes.len() < fixed_length(version) as usize {
            return Err(Error::Truncated);
        }
        let third = version.at_least(1, 3);
        let fourth = version.at_least(1, 4);
        let by_return = if fourth {
            fifteen_u64s_at(bytes, 255)
        } else {
            [0u64; 15]
        };
        assert(!fourth ==> by_return@ =~= Seq::new(15, |k: int| 0u64));
        Ok(
            FixedFields {
                file_source_id: get_u16(bytes, 4),
                global_encoding: get_u16(bytes, 6),
                guid: bytes16_at(bytes, 8),
                version,
                system_identifier: bytes32_at(bytes, 26),
                generating_software: bytes32_at(bytes, 58),
                day: get_u16(bytes, 90),
                year: get_u16(bytes, 92),
                header_size: get_u16(bytes, 94),
                offset_to_point_data: get_u32(bytes, 96),
                number_of_vlrs: get_u32(bytes, 100),
                point_format_id: bytes[104],
                record_length: get_u16(bytes, 105),
                legacy_number_of_points: get_u32(bytes, 107),
                legacy_by_return: five_u32s_at(bytes, 111),
                doubles: twelve_u64s_at(bytes, 131),
                waveform_start: if third { get_u64(bytes, 227) } else { 0 },
                evlr_start: if fourth { get_u64(bytes, 235) } else { 0 },
                number_of_evlrs: if fourth { get_u32(bytes, 243) } else { 0 },
                number_of_points: if fourth { get_u64(bytes, 247) } else { 0 },
                by_return,
            },
        )
    }
}

/// The count as the 32-bit fields of a header state it: the count itself
/// where it fits, else zero.
pub open spec fn legacy(count: u64) -> u32 {
    if count <= u32::MAX {
        count as u32
    } else {
        0
    }
}

/// The count as the 32-bit fields of a header state it.
pub fn legacy_count(count: u64) -> (r: u32)
    ensures
        r == legacy(count),
{
    if count <= 0xffff_ffff {
        count as u32
    } else {
        0
    }
}

/// Whether the fixed fields cannot state what the header holds: the fixed
/// fields and the padding behind them take more bytes than 16 bits can
/// state, the start of the point data or the number of records does not fit
/// into 32 bits, the
/// record length does not fit into 16 bits, the revision has no 64-bit point
/// count and the number of points does not fit into 32 bits, or the end of
/// the point data does not fit into 64 bits.
pub open spec fn unfit(h: Header) -> bool {
    ||| fixed_len(h.version) + h.padding@.len() > u16::MAX
    ||| point_data_start(h) > u32::MAX
    ||| h.vlrs@.len() > u32::MAX
    ||| h.evlrs@.len() > u32::MAX
    ||| record_len(h.point_format) > u16::MAX
    ||| !h.version.reaches(1, 4) && h.number_of_points > u32::MAX
    ||| point_data_end(h, h.number_of_points as nat) > u64::MAX
}

/// The fixed fields of a header whose extent, the largest and the smallest
/// x, y and z as the bits of doubles, is `extent`.
pub open spec fn fixed_of(h: Header, extent: Seq<u64>) -> FixedView {
    let fourth = h.version.reaches(1, 4);
    FixedView {
        file_source_id: h.file_source_id,
        global_encoding: if h.gps_time_type == GpsTimeType::Standard {
            1
        } else {
            0
        },
        guid: h.guid@,
        version: h.version,
        system_identifier: h.system_identifier@,
        generating_software: h.generating_software@,
        day: h.day,
        year: h.year,
        header_size: (fixed_len(h.version) + h.padding@.len()) as u16,
        offset_to_point_data: point_data_start(h) as u32,
        number_of_vlrs: h.vlrs@.len() as u32,
        point_format_id: h.point_format.id,
        record_length: record_len(h.point_format) as u16,
        legacy_number_of_points: legacy(h.number_of_points),
        legacy_by_return: Seq::new(5, |k: int| legacy(h.number_of_points_by_return@[k])),
        doubles: h.transforms@ + extent,
        waveform_start: 0,
        evlr_start: if fourth && h.evlrs@.len() > 0 {
            point_data_end(h, h.number_of_points as nat) as u64
        } else {
            0
        },
        number_of_evlrs: if fourth {
            h.evlrs@.len() as u32
        } else {
            0
        },
        number_of_points: if fourth {
            h.number_of_points
        } else {
            0
        },
        by_return: if fourth {
            h.number_of_points_by_return@
        } else {
            Seq::new(15, |k: int| 0u64)
        },
    }
}

impl Header {
    /// The fixed fields that a file with this header starts with.
    ///
    /// `extent` holds the largest and the smallest x, y and z, in the order
    /// of the file, as the bits of doubles. Fails where the fields cannot
    /// state what the header holds.
    pub fn fixed_fields(&self, extent: &[u64; 6]) -> (r: Result<FixedFields, Error>)
        ensures
            unfit(*self) ==> r is Err && r->Err_0 == Error::InvalidHeader,
            !unfit(*self) ==> r is Ok && r->Ok_0@ == fixed_of(*self, extent@) && plain(r->Ok_0@)
                && shaped(r->Ok_0@),
    {
        let fourth = self.version.at_least(1, 4);
        let start = match self.point_data_offset() {
            None => {
                return Err(Error::InvalidHeader);
            },
            Some(s) => s,
        };
        let end = match self.point_data_end_offset(self.number_of_points) {
            None => {
                return Err(Error::InvalidHeader);
            },
            Some(e) => e,
        };
        let each = record_length(&self.point_format);
        let size = fixed_length(self.version);
        if self.padding.len() > (0xffff - size) as usize {
            return Err(Error::InvalidHeader);
        }
        if start > 0xffff_ffff || self.vlrs.len() > 0xffff_ffff || self.evlrs.len() > 0xffff_ffff
            || each > 0xffff || (!fourth && self.number_of_points > 0xffff_ffff) {
            return Err(Error::InvalidHeader);
        }
        let mut legacy_by_return = [0u32; 5];
        let mut i: usize = 0;
        while i < 5
            invariant
                i <= 5,
                forall|k: int|
                    0 <= k < i ==> legacy_by_return@[k] == legacy(
                        self.number_of_points_by_return@[k],
                    ),
            decreases 5 - i,
        {
            legacy_by_return[i] = legacy_count(self.number_of_points_by_return[i]);
            i += 1;
        }
        let mut doubles = [0u64; 12];
        let mut j: usize = 0;
        while j < 6
            invariant
                j <= 6,
                forall|k: int| 0 <= k < j ==> doubles@[k] == self.transforms@[k],
                forall|k: int| 0 <= k < j ==> doubles@[6 + k] == extent@[k],
            decreases 6 - j,
        {
            doubles[j] = self.transforms[j];
            doubles[6 + j] = extent[j];
            j += 1;
        }
        let r = FixedFields {
            file_source_id: self.file_source_id,
            global_encoding: if self.gps_time_type == GpsTimeType::Standard { 1 } else { 0 },
            guid: self.guid,
            version: self.version,
            system_identifier: self.system_identifier,
            generating_software: self.generating_software,
            day: self.day,
            year: self.year,
            header_size: size + self.padding.len() as u16,
            offset_to_point_data: start as u32,
            number_of_vlrs: self.vlrs.len() as u32,
            point_format_id: self.point_format.id,
            record_length: each as u16,
            legacy_number_of_points: legacy_count(self.number_of_points),
            legacy_by_return,
            doubles,
            waveform_start: 0,
            evlr_start: if fourth && self.evlrs.len() > 0 { end } else { 0 },
            number_of_evlrs: if fourth { self.evlrs.len() as u32 } else { 0 },
            number_of_points: if fourth { self.number_of_points } else { 0 },
            by_return: if fourth { self.number_of_points_by_return } else { [0u64; 15] },
        };
        proof {
            let v = fixed_of(*self, extent@);
            assert(r@.legacy_by_return =~= v.legacy_by_return);
            assert(r@.doubles =~= v.doubles);
            assert(r@.by_return =~= v.by_return);
        }
        Ok(r)
    }
}

} // verus!
