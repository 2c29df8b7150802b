use las::error::Error;
use las::fixed::{legacy_count, FixedFields};
use las::format::PointFormat;
use las::header::{GpsTimeType, Header};
use las::layout::{fixed_length, table_length};
use las::version::Version;
use las::vlr::Vlr;
use las::words::{get_u16, get_u32, get_u64, put_u32s, put_u64s};

fn vlr(is_extended: bool, data: Vec<u8>) -> Vlr {
    let mut user_id = [0u8; 16];
    user_id[..4].copy_from_slice(b"user");
    let mut description = [0u8; 32];
    description[..5].copy_from_slice(b"about");
    Vlr {
        is_extended,
        user_id,
        record_id: 0x0102,
        description,
        data,
    }
}

fn fields(minor: u8) -> FixedFields {
    let mut doubles = [0u64; 12];
    for (i, d) in doubles.iter_mut().enumerate() {
        *d = (i as f64 + 0.5).to_bits();
    }
    FixedFields {
        file_source_id: 0x1122,
        global_encoding: 1,
        guid: [0xab; 16],
        version: Version::new(1, minor),
        system_identifier: [0x11; 32],
        generating_software: [0x22; 32],
        day: 300,
        year: 2026,
        header_size: fixed_length(Version::new(1, minor)),
        offset_to_point_data: 0x01020304,
        number_of_vlrs: 3,
        point_format_id: 1,
        record_length: 28,
        legacy_number_of_points: 7,
        legacy_by_return: [1, 2, 3, 4, 5],
        doubles,
        waveform_start: if minor >= 3 { 0x0a0b } else { 0 },
        evlr_start: if minor >= 4 { 0x0c0d } else { 0 },
        number_of_evlrs: if minor >= 4 { 2 } else { 0 },
        number_of_points: if minor >= 4 { 7 } else { 0 },
        by_return: if minor >= 4 {
            [1, 2, 3, 4, 5, 6, 7, 8, 9, 10, 11, 12, 13, 14, 15]
        } else {
            [0; 15]
        },
    }
}

#[test]
fn plain_record_bytes() {
    let bytes = vlr(false, vec![9, 8, 7]).to_bytes().unwrap();
    assert_eq!(57, bytes.len());
    assert_eq!(vec![0, 0], bytes[0..2].to_vec());
    assert_eq!(b"user".to_vec(), bytes[2..6].to_vec());
    assert_eq!(vec![0; 12], bytes[6..18].to_vec());
    assert_eq!(vec![2, 1], bytes[18..20].to_vec());
    assert_eq!(vec![3, 0], bytes[20..22].to_vec());
    assert_eq!(b"about".to_vec(), bytes[22..27].to_vec());
    assert_eq!(vec![0; 27], bytes[27..54].to_vec());
    assert_eq!(vec![9, 8, 7], bytes[54..].to_vec());
}

#[test]
fn extended_record_bytes() {
    let bytes = vlr(true, vec![9, 8, 7]).to_bytes().unwrap();
    assert_eq!(63, bytes.len());
    assert_eq!(vec![2, 1], bytes[18..20].to_vec());
    assert_eq!(vec![3, 0, 0, 0, 0, 0, 0, 0], bytes[20..28].to_vec());
    assert_eq!(b"about".to_vec(), bytes[28..33].to_vec());
    assert_eq!(vec![9, 8, 7], bytes[60..].to_vec());
}

#[test]
fn records_round_trip() {
    for is_extended in [false, true] {
        for len in [0usize, 1, 255, 256, 65_535] {
            let v = vlr(is_extended, vec![0x5a; len]);
            let mut bytes = v.to_bytes().unwrap();
            let used = bytes.len();
            bytes.extend_from_slice(&[1, 2, 3]);
            assert_eq!(Ok((v, used)), Vlr::from_bytes(&bytes, is_extended));
        }
    }
}

#[test]
fn large_extended_record_round_trips() {
    let v = vlr(true, vec![0x77; 65_536]);
    let bytes = v.to_bytes().unwrap();
    assert_eq!(60 + 65_536, bytes.len());
    assert_eq!(Ok((v, 60 + 65_536)), Vlr::from_bytes(&bytes, true));
}

#[test]
fn oversized_plain_record_has_no_bytes() {
    assert_eq!(Err(Error::InvalidHeader), vlr(false, vec![0; 65_536]).to_bytes());
}

#[test]
fn short_record_bytes_are_truncated() {
    let bytes = vlr(false, vec![1, 2, 3]).to_bytes().unwrap();
    assert_eq!(Err(Error::Truncated), Vlr::from_bytes(&bytes[..53], false));
    assert_eq!(Err(Error::Truncated), Vlr::from_bytes(&bytes[..56], false));
    assert_eq!(Err(Error::Truncated), Vlr::from_bytes(&[], true));
    let bytes = vlr(true, vec![1, 2, 3]).to_bytes().unwrap();
    assert_eq!(Err(Error::Truncated), Vlr::from_bytes(&bytes[..59], true));
    assert_eq!(Err(Error::Truncated), Vlr::from_bytes(&bytes[..62], true));
    assert!(Vlr::from_bytes(&bytes, true).is_ok());
}

#[test]
fn fixed_lengths_by_revision() {
    assert_eq!(227, fixed_length(Version::new(1, 0)));
    assert_eq!(227, fixed_length(Version::new(1, 1)));
    assert_eq!(227, fixed_length(Version::new(1, 2)));
    assert_eq!(235, fixed_length(Version::new(1, 3)));
    assert_eq!(375, fixed_length(Version::new(1, 4)));
}

#[test]
fn table_lengths() {
    assert_eq!(Some(0), table_length(&vec![]));
    let table = vec![vlr(false, vec![0; 10]), vlr(true, vec![0; 100]), vlr(false, vec![])];
    assert_eq!(Some(64 + 160 + 54), table_length(&table));
}

#[test]
fn point_data_offsets() {
    let mut h = Header::new(Version::new(1, 2), PointFormat::new(1).unwrap());
    assert_eq!(Some(227), h.point_data_offset());
    h.padding = vec![0; 3];
    h.vlrs.push(vlr(false, vec![0; 10]));
    h.vlr_padding = vec![0; 2];
    assert_eq!(Some(227 + 3 + 64 + 2), h.point_data_offset());
    assert_eq!(Some(296 + 5 * 28), h.point_data_end_offset(5));
    assert_eq!(None, h.point_data_end_offset(u64::MAX));
    h.version = Version::new(1, 4);
    assert_eq!(Some(375 + 3 + 64 + 2), h.point_data_offset());
}

#[test]
fn little_endian_rows() {
    let mut out = vec![0xff];
    put_u32s(&mut out, &[1, 0x01020304]);
    put_u64s(&mut out, &[0x0102030405060708]);
    assert_eq!(
        vec![0xff, 1, 0, 0, 0, 4, 3, 2, 1, 8, 7, 6, 5, 4, 3, 2, 1],
        out
    );
    assert_eq!(0x0001, get_u16(&out, 1));
    assert_eq!(0x01020304, get_u32(&out, 5));
    assert_eq!(0x0102030405060708, get_u64(&out, 9));
}

#[test]
fn fixed_fields_bytes() {
    let bytes = fields(4).to_bytes();
    assert_eq!(375, bytes.len());
    assert_eq!(b"LASF".to_vec(), bytes[0..4].to_vec());
    assert_eq!(vec![0x22, 0x11], bytes[4..6].to_vec());
    assert_eq!(vec![1, 0], bytes[6..8].to_vec());
    assert_eq!(vec![0xab; 16], bytes[8..24].to_vec());
    assert_eq!(vec![1, 4], bytes[24..26].to_vec());
    assert_eq!(vec![0x11; 32], bytes[26..58].to_vec());
    assert_eq!(vec![0x22; 32], bytes[58..90].to_vec());
    assert_eq!(300u16.to_le_bytes().to_vec(), bytes[90..92].to_vec());
    assert_eq!(2026u16.to_le_bytes().to_vec(), bytes[92..94].to_vec());
    assert_eq!(375u16.to_le_bytes().to_vec(), bytes[94..96].to_vec());
    assert_eq!(vec![4, 3, 2, 1], bytes[96..100].to_vec());
    assert_eq!(vec![3, 0, 0, 0], bytes[100..104].to_vec());
    assert_eq!(1, bytes[104]);
    assert_eq!(vec![28, 0], bytes[105..107].to_vec());
    assert_eq!(vec![7, 0, 0, 0], bytes[107..111].to_vec());
    assert_eq!(vec![1, 0, 0, 0, 2, 0, 0, 0], bytes[111..119].to_vec());
    assert_eq!(0.5f64.to_le_bytes().to_vec(), bytes[131..139].to_vec());
    assert_eq!(11.5f64.to_le_bytes().to_vec(), bytes[219..227].to_vec());
    assert_eq!(vec![0x0b, 0x0a, 0, 0, 0, 0, 0, 0], bytes[227..235].to_vec());
    assert_eq!(vec![0x0d, 0x0c, 0, 0, 0, 0, 0, 0], bytes[235..243].to_vec());
    assert_eq!(vec![2, 0, 0, 0], bytes[243..247].to_vec());
    assert_eq!(vec![7, 0, 0, 0, 0, 0, 0, 0], bytes[247..255].to_vec());
    assert_eq!(vec![15, 0, 0, 0, 0, 0, 0, 0], bytes[367..375].to_vec());
}

#[test]
fn fixed_fields_round_trip_on_every_revision() {
    let sizes = [227, 227, 227, 235, 375];
    for minor in 0..=4u8 {
        let f = fields(minor);
        let mut bytes = f.to_bytes();
        assert_eq!(sizes[minor as usize], bytes.len());
        assert_eq!(Ok(f), FixedFields::from_bytes(&bytes));
        bytes.extend_from_slice(&[1, 2, 3]);
        assert_eq!(Ok(f), FixedFields::from_bytes(&bytes));
    }
}

#[test]
fn wrong_signature_is_malformed() {
    let mut bytes = fields(2).to_bytes();
    bytes[3] = b'X';
    assert_eq!(Err(Error::Malformed), FixedFields::from_bytes(&bytes));
    assert_eq!(Err(Error::Malformed), FixedFields::from_bytes(b"LASX"));
}

#[test]
fn short_fixed_fields_are_truncated() {
    assert_eq!(Err(Error::Truncated), FixedFields::from_bytes(&[]));
    assert_eq!(Err(Error::Truncated), FixedFields::from_bytes(b"LAS"));
    assert_eq!(Err(Error::Truncated), FixedFields::from_bytes(b"LASF"));
    let bytes = fields(4).to_bytes();
    assert_eq!(Err(Error::Truncated), FixedFields::from_bytes(&bytes[..226]));
    assert_eq!(Err(Error::Truncated), FixedFields::from_bytes(&bytes[..374]));
    let bytes = fields(3).to_bytes();
    assert_eq!(Err(Error::Truncated), FixedFields::from_bytes(&bytes[..234]));
}

#[test]
fn legacy_counts() {
    assert_eq!(0, legacy_count(0));
    assert_eq!(u32::MAX, legacy_count(u32::MAX as u64));
    assert_eq!(0, legacy_count(u32::MAX as u64 + 1));
}

#[test]
fn fixed_fields_of_a_header() {
    let mut h = Header::new(Version::new(1, 4), PointFormat::new(3).unwrap());
    h.file_source_id = 9;
    h.gps_time_type = GpsTimeType::Standard;
    h.guid = [4; 16];
    h.day = 12;
    h.year = 2020;
    h.transforms = [1, 2, 3, 4, 5, 6];
    h.point_format.extra_bytes = 2;
    h.number_of_points = 10;
    h.number_of_points_by_return = [6, 4, 0, 0, 0, 0, 0, 0, 0, 0, 0, 0, 0, 0, 0];
    h.vlrs.push(vlr(false, vec![0; 10]));
    h.evlrs.push(vlr(true, vec![0; 10]));
    h.vlr_padding = vec![0; 2];
    let f = h.fixed_fields(&[7, 8, 9, 10, 11, 12]).unwrap();
    assert_eq!(9, f.file_source_id);
    assert_eq!(1, f.global_encoding);
    assert_eq!([4; 16], f.guid);
    assert_eq!(Version::new(1, 4), f.version);
    assert_eq!((12, 2020), (f.day, f.year));
    assert_eq!(375, f.header_size);
    assert_eq!(375 + 64 + 2, f.offset_to_point_data);
    assert_eq!(1, f.number_of_vlrs);
    assert_eq!(3, f.point_format_id);
    assert_eq!(36, f.record_length);
    assert_eq!(10, f.legacy_number_of_points);
    assert_eq!([6, 4, 0, 0, 0], f.legacy_by_return);
    assert_eq!([1, 2, 3, 4, 5, 6, 7, 8, 9, 10, 11, 12], f.doubles);
    assert_eq!(0, f.waveform_start);
    assert_eq!(441 + 360, f.evlr_start);
    assert_eq!(1, f.number_of_evlrs);
    assert_eq!(10, f.number_of_points);
    assert_eq!(h.number_of_points_by_return, f.by_return);

    h.version = Version::new(1, 2);
    h.evlrs.clear();
    let f = h.fixed_fields(&[7, 8, 9, 10, 11, 12]).unwrap();
    assert_eq!(227, f.header_size);
    assert_eq!(0, f.number_of_points);
    assert_eq!([0; 15], f.by_return);
    assert_eq!(10, f.legacy_number_of_points);
}

#[test]
fn header_that_the_fixed_fields_cannot_state() {
    let mut h = Header::new(Version::new(1, 2), PointFormat::new(0).unwrap());
    h.number_of_points = u32::MAX as u64 + 1;
    assert_eq!(Err(Error::InvalidHeader), h.fixed_fields(&[0; 6]));
    h.version = Version::new(1, 4);
    let f = h.fixed_fields(&[0; 6]).unwrap();
    assert_eq!(0, f.legacy_number_of_points);
    assert_eq!(u32::MAX as u64 + 1, f.number_of_points);

    let mut h = Header::new(Version::new(1, 2), PointFormat::new(3).unwrap());
    h.point_format.extra_bytes = u16::MAX;
    assert_eq!(Err(Error::InvalidHeader), h.fixed_fields(&[0; 6]));
}
