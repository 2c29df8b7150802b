use vstd::prelude::*;
use vstd::bytes::*;
use vstd::slice::{slice_subrange, slice_to_vec};
use crate::buffer::append;
use crate::error::Error;
use crate::format::{id_has_color, id_has_gps_time, PointFormat};
use crate::point::{Color, Point, PointView};

verus! {

/// The length of the part of a record that every format has.
pub const CORE_LEN: usize = 20;

/// The largest return number, and number of returns, that a record can state.
pub const MAX_RECORD_RETURN: u8 = 7;

/// The byte that packs the return number into bits 0 to 2, the number of
/// returns into bits 3 to 5, the scan direction into bit 6 and the edge flag
/// into bit 7.
pub open spec fn packed(return_number: u8, number_of_returns: u8, direction: bool, edge: bool) -> u8 {
    (return_number & 7) | ((number_of_returns & 7) << 3) | (if direction {
        0x40u8
    } else {
        0u8
    }) | (if edge {
        0x80u8
    } else {
        0u8
    })
}

/// Packs the four bit fields of a record into one byte.
pub fn pack(return_number: u8, number_of_returns: u8, direction: bool, edge: bool) -> (r: u8)
    ensures
        r == packed(return_number, number_of_returns, direction, edge),
{
    let d: u8 = if direction { 0x40 } else { 0 };
    let e: u8 = if edge { 0x80 } else { 0 };
    (return_number & 7) | ((number_of_returns & 7) << 3) | d | e
}

/// What was packed into a byte comes out of it again, as long as both
/// numbers fit into three bits.
pub proof fn lemma_unpack_packed(return_number: u8, number_of_returns: u8, direction: bool, edge: bool)
    requires
        return_number <= MAX_RECORD_RETURN,
        number_of_returns <= MAX_RECORD_RETURN,
    ensures
        ({
            let b = packed(return_number, number_of_returns, direction, edge);
            &&& b & 7 == return_number
            &&& (b >> 3) & 7 == number_of_returns
            &&& (b & 0x40 != 0) == direction
            &&& (b & 0x80 != 0) == edge
        }),
{
    let d: u8 = if direction { 0x40 } else { 0 };
    let e: u8 = if edge { 0x80 } else { 0 };
    let b: u8 = (return_number & 7) | ((number_of_returns & 7) << 3) | d | e;
    assert(b & 7 == return_number && (b >> 3) & 7 == number_of_returns && (b & 0x40 != 0) == (d
        != 0) && (b & 0x80 != 0) == (e != 0)) by (bit_vector)
        requires
            return_number <= 7,
            number_of_returns <= 7,
            d == 0x40 || d == 0,
            e == 0x80 || e == 0,
            b == (return_number & 7) | ((number_of_returns & 7) << 3) | d | e,
    ;
}

/// The length of a record of the given format without its extra bytes.
pub open spec fn base_len(id: u8) -> nat {
    CORE_LEN as nat + if id_has_gps_time(id) {
        8nat
    } else {
        0nat
    } + if id_has_color(id) {
        6nat
    } else {
        0nat
    }
}

/// The length of a record of the given format.
pub open spec fn record_len(format: PointFormat) -> nat {
    base_len(format.id) + format.extra_bytes as nat
}

/// Whether the point has exactly what a record of the format holds: the
/// optional attributes of the format and no others, as many extra bytes as
/// the format declares, and return numbers that fit into their bit fields.
pub open spec fn fits(point: PointView, format: PointFormat) -> bool {
    &&& format.wf()
    &&& point.return_number <= MAX_RECORD_RETURN
    &&& point.number_of_returns <= MAX_RECORD_RETURN
    &&& point.gps_time is Some <==> id_has_gps_time(format.id)
    &&& point.color is Some <==> id_has_color(format.id)
    &&& point.extra_bytes.len() == format.extra_bytes
}

/// The first twenty bytes of the record of a point.
pub open spec fn core_bytes(p: PointView) -> Seq<u8> {
    spec_u32_to_le_bytes(p.x as u32) + spec_u32_to_le_bytes(p.y as u32) + spec_u32_to_le_bytes(
        p.z as u32,
    ) + spec_u16_to_le_bytes(p.intensity) + seq![
        packed(p.return_number, p.number_of_returns, p.scan_direction, p.is_edge_of_flight_line),
        p.classification,
        p.scan_angle as u8,
        p.user_data,
    ] + spec_u16_to_le_bytes(p.point_source_id)
}

/// The bytes of a GPS time, none where there is no time.
pub open spec fn gps_bytes(t: Option<u64>) -> Seq<u8> {
    match t {
        Some(t) => spec_u64_to_le_bytes(t),
        None => Seq::empty(),
    }
}

/// The bytes of a color, none where there is no color.
pub open spec fn color_bytes(c: Option<Color>) -> Seq<u8> {
    match c {
        Some(c) => spec_u16_to_le_bytes(c.red) + spec_u16_to_le_bytes(c.green)
            + spec_u16_to_le_bytes(c.blue),
        None => Seq::empty(),
    }
}

/// The record of a point: its core, its GPS time and its color where it has
/// them, and its extra bytes. All numbers are little-endian.
pub open spec fn encoding(p: PointView) -> Seq<u8> {
    core_bytes(p) + gps_bytes(p.gps_time) + color_bytes(p.color) + p.extra_bytes
}

/// The point that a record of the given format holds.
pub open spec fn decoding(b: Seq<u8>, format: PointFormat) -> PointView
    recommends
        b.len() == record_len(format),
{
    let flags = b[14];
    let gps: int = if id_has_gps_time(format.id) {
        8
    } else {
        0
    };
    let at = CORE_LEN + gps;
    PointView {
        x: spec_u32_from_le_bytes(b.subrange(0, 4)) as i32,
        y: spec_u32_from_le_bytes(b.subrange(4, 8)) as i32,
        z: spec_u32_from_le_bytes(b.subrange(8, 12)) as i32,
        intensity: spec_u16_from_le_bytes(b.subrange(12, 14)),
        return_number: flags & 7,
        number_of_returns: (flags >> 3) & 7,
        scan_direction: flags & 0x40 != 0,
        is_edge_of_flight_line: flags & 0x80 != 0,
        classification: b[15],
        scan_angle: b[16] as i8,
        user_data: b[17],
        point_source_id: spec_u16_from_le_bytes(b.subrange(18, 20)),
        gps_time: if id_has_gps_time(format.id) {
            Some(spec_u64_from_le_bytes(b.subrange(20, 28)))
        } else {
            None
        },
        color: if id_has_color(format.id) {
            Some(
                Color {
                    red: spec_u16_from_le_bytes(b.subrange(at, at + 2)),
                    green: spec_u16_from_le_bytes(b.subrange(at + 2, at + 4)),
                    blue: spec_u16_from_le_bytes(b.subrange(at + 4, at + 6)),
                },
            )
        } else {
            None
        },
        extra_bytes: b.subrange(base_len(format.id) as int, b.len() as int),
    }
}

/// Casting a signed number to the unsigned type of its width and back gives the number.
pub proof fn lemma_cast_and_back(x: i32, a: i8)
    ensures
        (x as u32) as i32 == x,
        (a as u8) as i8 == a,
{
    assert((x as u32) as i32 == x) by (bit_vector);
    assert((a as u8) as i8 == a) by (bit_vector);
}

/// The record of a point that fits a format has the format's record length.
pub proof fn lemma_encoding_len(p: PointView, format: PointFormat)
    requires
        fits(p, format),
    ensures
        encoding(p).len() == record_len(format),
        core_bytes(p).len() == CORE_LEN,
{
    lemma_auto_spec_u16_to_from_le_bytes();
    lemma_auto_spec_u32_to_from_le_bytes();
    lemma_auto_spec_u64_to_from_le_bytes();
}

/// Decoding the record of a point that fits the format gives the point back.
pub proof fn lemma_decode_encoded(p: PointView, format: PointFormat)
    requires
        fits(p, format),
    ensures
        decoding(encoding(p), format) == p,
{
    lemma_auto_spec_u16_to_from_le_bytes();
    lemma_auto_spec_u32_to_from_le_bytes();
    lemma_auto_spec_u64_to_from_le_bytes();
    lemma_encoding_len(p, format);
    lemma_cast_and_back(p.x, p.scan_angle);
    lemma_cast_and_back(p.y, p.scan_angle);
    lemma_cast_and_back(p.z, p.scan_angle);
    lemma_unpack_packed(p.return_number, p.number_of_returns, p.scan_direction, p.is_edge_of_flight_line);
    let b = encoding(p);
    let q = decoding(b, format);
    assert(b.subrange(0, 4) =~= spec_u32_to_le_bytes(p.x as u32));
    assert(b.subrange(4, 8) =~= spec_u32_to_le_bytes(p.y as u32));
    assert(b.subrange(8, 12) =~= spec_u32_to_le_bytes(p.z as u32));
    assert(b.subrange(12, 14) =~= spec_u16_to_le_bytes(p.intensity));
    assert(b.subrange(18, 20) =~= spec_u16_to_le_bytes(p.point_source_id));
    assert(b[14] == packed(p.return_number, p.number_of_returns, p.scan_direction, p.is_edge_of_flight_line));
    assert(b[15] == p.classification);
    assert(b[16] == p.scan_angle as u8);
    assert(b[17] == p.user_data);
    let gps: int = if id_has_gps_time(format.id) { 8 } else { 0 };
    let at = CORE_LEN + gps;
    if id_has_gps_time(format.id) {
        assert(b.subrange(20, 28) =~= spec_u64_to_le_bytes(p.gps_time->Some_0));
    }
    if id_has_color(format.id) {
        let c = p.color->Some_0;
        assert(color_bytes(p.color).len() == 6);
        assert(b.subrange(at, at + 2) =~= spec_u16_to_le_bytes(c.red));
        assert(b.subrange(at + 2, at + 4) =~= spec_u16_to_le_bytes(c.green));
        assert(b.subrange(at + 4, at + 6) =~= spec_u16_to_le_bytes(c.blue));
    }
    assert(b.subrange(base_len(format.id) as int, b.len() as int) =~= p.extra_bytes);
    assert(q.gps_time == p.gps_time);
    assert(q.color == p.color);
}

/// Every byte string of the length of a record is the record of the point
/// that it decodes to, and that point fits the format.
pub proof fn lemma_encode_decoded(b: Seq<u8>, format: PointFormat)
    requires
        format.wf(),
        b.len() == record_len(format),
    ensures
        fits(decoding(b, format), format),
        encoding(decoding(b, format)) == b,
{
    lemma_auto_spec_u16_to_from_le_bytes();
    lemma_auto_spec_u32_to_from_le_bytes();
    lemma_auto_spec_u64_to_from_le_bytes();
    let p = decoding(b, format);
    let f = b[14];
    let x = spec_u32_from_le_bytes(b.subrange(0, 4));
    let y = spec_u32_from_le_bytes(b.subrange(4, 8));
    let z = spec_u32_from_le_bytes(b.subrange(8, 12));
    let a = b[16];
    assert((x as i32) as u32 == x && (y as i32) as u32 == y && (z as i32) as u32 == z) by (bit_vector);
    assert((a as i8) as u8 == a) by (bit_vector);
    assert(f & 7 <= 7 && (f >> 3) & 7 <= 7) by (bit_vector);
    let d: u8 = if f & 0x40 != 0 { 0x40 } else { 0 };
    let e: u8 = if f & 0x80 != 0 { 0x80 } else { 0 };
    assert(((f & 7) & 7) | ((((f >> 3) & 7) & 7) << 3) | d | e == f) by (bit_vector)
        requires
            d == if f & 0x40 != 0 { 0x40u8 } else { 0u8 },
            e == if f & 0x80 != 0 { 0x80u8 } else { 0u8 },
    ;
    assert(packed(p.return_number, p.number_of_returns, p.scan_direction, p.is_edge_of_flight_line)
        == f);
    assert(core_bytes(p) =~= b.subrange(0, 20)) by {
        assert(spec_u32_to_le_bytes(p.x as u32) == b.subrange(0, 4));
        assert(spec_u32_to_le_bytes(p.y as u32) == b.subrange(4, 8));
        assert(spec_u32_to_le_bytes(p.z as u32) == b.subrange(8, 12));
        assert(spec_u16_to_le_bytes(p.intensity) == b.subrange(12, 14));
        assert(spec_u16_to_le_bytes(p.point_source_id) == b.subrange(18, 20));
    }
    let gps: int = if id_has_gps_time(format.id) { 8 } else { 0 };
    let at = CORE_LEN + gps;
    assert(gps_bytes(p.gps_time) =~= b.subrange(20, at)) by {
        if id_has_gps_time(format.id) {
            assert(spec_u64_to_le_bytes(p.gps_time->Some_0) == b.subrange(20, 28));
        }
    }
    let base = base_len(format.id) as int;
    assert(color_bytes(p.color) =~= b.subrange(at, base)) by {
        if id_has_color(format.id) {
            let c = p.color->Some_0;
            assert(spec_u16_to_le_bytes(c.red) == b.subrange(at, at + 2));
            assert(spec_u16_to_le_bytes(c.green) == b.subrange(at + 2, at + 4));
            assert(spec_u16_to_le_bytes(c.blue) == b.subrange(at + 4, at + 6));
        }
    }
    assert(encoding(p) =~= b);
}

/// Whether the point has exactly what a record of the format holds.
pub fn check_fit(point: &Point, format: &PointFormat) -> (r: bool)
    ensures
        r == fits(point@, *format),
{
    format.id <= crate::format::MAX_FORMAT_ID && point.return_number <= MAX_RECORD_RETURN
        && point.number_of_returns <= MAX_RECORD_RETURN && point.gps_time.is_some()
        == format.has_gps_time() && point.color.is_some() == format.has_color()
        && point.extra_bytes.len() == format.extra_bytes as usize
}

/// The length of a record of the given format.
pub fn record_length(format: &PointFormat) -> (r: usize)
    ensures
        r == record_len(*format),
{
    let gps: usize = if format.has_gps_time() { 8 } else { 0 };
    let color: usize = if format.has_color() { 6 } else { 0 };
    CORE_LEN + gps + color + format.extra_bytes as usize
}

/// Writes the record of a point.
///
/// Fails where the point does not fit the format.
pub fn encode(point: &Point, format: &PointFormat) -> (r: Result<Vec<u8>, Error>)
    ensures
        fits(point@, *format) ==> r is Ok && r->Ok_0@ == encoding(point@) && r->Ok_0@.len()
            == record_len(*format),
        !fits(point@, *format) ==> r is Err && r->Err_0 == Error::InvalidFormat(format.id),
{
    if !check_fit(point, format) {
        return Err(Error::InvalidFormat(format.id));
    }
    let mut out: Vec<u8> = Vec::new();
    append(&mut out, u32_to_le_bytes(point.x as u32).as_slice());
    append(&mut out, u32_to_le_bytes(point.y as u32).as_slice());
    append(&mut out, u32_to_le_bytes(point.z as u32).as_slice());
    append(&mut out, u16_to_le_bytes(point.intensity).as_slice());
    out.push(
        pack(
            point.return_number,
            point.number_of_returns,
            point.scan_direction,
            point.is_edge_of_flight_line,
        ),
    );
    out.push(point.classification);
    out.push(point.scan_angle as u8);
    out.push(point.user_data);
    append(&mut out, u16_to_le_bytes(point.point_source_id).as_slice());
    assert(out@ =~= core_bytes(point@));
    match point.gps_time {
        Some(t) => {
            append(&mut out, u64_to_le_bytes(t).as_slice());
        },
        None => {},
    }
    assert(out@ =~= core_bytes(point@) + gps_bytes(point@.gps_time));
    match point.color {
        Some(c) => {
            append(&mut out, u16_to_le_bytes(c.red).as_slice());
            append(&mut out, u16_to_le_bytes(c.green).as_slice());
            append(&mut out, u16_to_le_bytes(c.blue).as_slice());
        },
        None => {},
    }
    assert(out@ =~= core_bytes(point@) + gps_bytes(point@.gps_time) + color_bytes(point@.color));
    append(&mut out, point.extra_bytes.as_slice());
    proof {
        lemma_encoding_len(point@, *format);
    }
    Ok(out)
}

/// Reads a point from its record.
///
/// Fails where the format is not a known one, and where the input is
/// shorter or longer than a record of the format.
pub fn decode(bytes: &[u8], format: &PointFormat) -> (r: Result<Point, Error>)
    ensures
        !format.wf() ==> r is Err && r->Err_0 == Error::InvalidFormat(format.id),
        format.wf() && bytes@.len() < record_len(*format) ==> r is Err && r->Err_0
            == Error::Truncated,
        format.wf() && bytes@.len() > record_len(*format) ==> r is Err && r->Err_0
            == Error::Malformed,
        format.wf() && bytes@.len() == record_len(*format) ==> r is Ok && r->Ok_0@ == decoding(
            bytes@,
            *format,
        ),
{
    if format.id > crate::format::MAX_FORMAT_ID {
        return Err(Error::InvalidFormat(format.id));
    }
    let n = record_length(format);
    if bytes.len() < n {
        return Err(Error::Truncated);
    }
    if bytes.len() > n {
        return Err(Error::Malformed);
    }
    let flags = bytes[14];
    let mut at: usize = CORE_LEN;
    let gps_time = if format.has_gps_time() {
        at = at + 8;
        Some(u64_from_le_bytes(slice_subrange(bytes, 20, 28)))
    } else {
        None
    };
    let color = if format.has_color() {
        let c = Color {
            red: u16_from_le_bytes(slice_subrange(bytes, at, at + 2)),
            green: u16_from_le_bytes(slice_subrange(bytes, at + 2, at + 4)),
            blue: u16_from_le_bytes(slice_subrange(bytes, at + 4, at + 6)),
        };
        at = at + 6;
        Some(c)
    } else {
        None
    };
    Ok(
        Point {
            x: u32_from_le_bytes(slice_subrange(bytes, 0, 4)) as i32,
            y: u32_from_le_bytes(slice_subrange(bytes, 4, 8)) as i32,
            z: u32_from_le_bytes(slice_subrange(bytes, 8, 12)) as i32,
            intensity: u16_from_le_bytes(slice_subrange(bytes, 12, 14)),
            return_number: flags & 7,
            number_of_returns: (flags >> 3) & 7,
            scan_direction: flags & 0x40 != 0,
            is_edge_of_flight_line: flags & 0x80 != 0,
            classification: bytes[15],
            scan_angle: bytes[16] as i8,
            user_data: bytes[17],
            point_source_id: u16_from_le_bytes(slice_subrange(bytes, 18, 20)),
            gps_time,
            color,
            extra_bytes: slice_to_vec(slice_subrange(bytes, at, n)),
        },
    )
}

} // verus!
