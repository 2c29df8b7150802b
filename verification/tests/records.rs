use las::codec::{check_fit, decode, encode, pack, record_length};
use las::error::Error;
use las::format::PointFormat;
use las::point::{Color, Point};

fn sample(format: &PointFormat) -> Point {
    Point {
        x: 1,
        y: -2,
        z: 0x01020304,
        intensity: 0x0506,
        return_number: 2,
        number_of_returns: 3,
        scan_direction: true,
        is_edge_of_flight_line: false,
        classification: 9,
        scan_angle: -3,
        user_data: 11,
        point_source_id: 0x0c0d,
        gps_time: if format.has_gps_time() {
            Some(0x4045_0000_0000_0000)
        } else {
            None
        },
        color: if format.has_color() {
            Some(Color {
                red: 0x0102,
                green: 0x0304,
                blue: 0x0506,
            })
        } else {
            None
        },
        extra_bytes: vec![0xaa; format.extra_bytes as usize],
    }
}

#[test]
fn packed_byte() {
    assert_eq!(0, pack(0, 0, false, false));
    assert_eq!(0b0000_0111, pack(7, 0, false, false));
    assert_eq!(0b0011_1000, pack(0, 7, false, false));
    assert_eq!(0b0100_0000, pack(0, 0, true, false));
    assert_eq!(0b1000_0000, pack(0, 0, false, true));
    assert_eq!(0b1101_1010, pack(2, 3, true, true));
}

#[test]
fn record_lengths() {
    let expected = [20, 28, 26, 34, 28, 34, 28, 34, 34, 28, 34];
    for id in 0..=10u8 {
        let mut f = PointFormat::new(id).unwrap();
        assert_eq!(expected[id as usize], record_length(&f));
        f.extra_bytes = 5;
        assert_eq!(expected[id as usize] + 5, record_length(&f));
    }
}

#[test]
fn record_of_format_zero() {
    let f = PointFormat::new(0).unwrap();
    let bytes = encode(&sample(&f), &f).unwrap();
    assert_eq!(
        vec![
            1, 0, 0, 0, 0xfe, 0xff, 0xff, 0xff, 4, 3, 2, 1, 6, 5, 0b0101_1010, 9, 0xfd, 11, 0x0d,
            0x0c
        ],
        bytes
    );
}

#[test]
fn record_of_format_three_with_extra_bytes() {
    let mut f = PointFormat::new(3).unwrap();
    f.extra_bytes = 2;
    let bytes = encode(&sample(&f), &f).unwrap();
    assert_eq!(36, bytes.len());
    assert_eq!(
        vec![0, 0, 0, 0, 0, 0, 0x45, 0x40, 2, 1, 4, 3, 6, 5, 0xaa, 0xaa],
        bytes[20..].to_vec()
    );
}

#[test]
fn gps_time_is_the_bits_of_a_double() {
    let f = PointFormat::new(1).unwrap();
    let mut p = sample(&f);
    p.gps_time = Some(42.0f64.to_bits());
    let bytes = encode(&p, &f).unwrap();
    assert_eq!(42.0f64.to_le_bytes().to_vec(), bytes[20..28].to_vec());
    let q = decode(&bytes, &f).unwrap();
    assert_eq!(42.0, f64::from_bits(q.gps_time.unwrap()));
}

#[test]
fn every_format_round_trips() {
    for id in 0..=10u8 {
        for extra in [0u16, 1, 7] {
            let mut f = PointFormat::new(id).unwrap();
            f.extra_bytes = extra;
            let p = sample(&f);
            assert!(check_fit(&p, &f));
            let bytes = encode(&p, &f).unwrap();
            assert_eq!(record_length(&f), bytes.len());
            assert_eq!(Ok(p), decode(&bytes, &f));
        }
    }
}

#[test]
fn extreme_values_round_trip() {
    let f = PointFormat::new(3).unwrap();
    let p = Point {
        x: i32::MIN,
        y: i32::MAX,
        z: -1,
        intensity: u16::MAX,
        return_number: 7,
        number_of_returns: 7,
        scan_direction: false,
        is_edge_of_flight_line: true,
        classification: 255,
        scan_angle: i8::MIN,
        user_data: 255,
        point_source_id: u16::MAX,
        gps_time: Some(u64::MAX),
        color: Some(Color {
            red: u16::MAX,
            green: 0,
            blue: 1,
        }),
        extra_bytes: vec![],
    };
    let bytes = encode(&p, &f).unwrap();
    assert_eq!(Ok(p), decode(&bytes, &f));
}

#[test]
fn every_record_of_the_right_length_decodes_and_comes_back() {
    let f = PointFormat::new(2).unwrap();
    let bytes: Vec<u8> = (0..26u8).map(|i| i.wrapping_mul(37).wrapping_add(200)).collect();
    let p = decode(&bytes, &f).unwrap();
    assert_eq!(Ok(bytes), encode(&p, &f));
}

#[test]
fn point_that_does_not_fit_is_refused() {
    let f = PointFormat::new(1).unwrap();
    let good = sample(&f);

    let mut p = good.clone();
    p.gps_time = None;
    assert_eq!(Err(Error::InvalidFormat(1)), encode(&p, &f));

    let mut p = good.clone();
    p.color = Some(Color {
        red: 1,
        green: 2,
        blue: 3,
    });
    assert_eq!(Err(Error::InvalidFormat(1)), encode(&p, &f));

    let mut p = good.clone();
    p.extra_bytes = vec![1];
    assert_eq!(Err(Error::InvalidFormat(1)), encode(&p, &f));

    let mut p = good.clone();
    p.return_number = 8;
    assert_eq!(Err(Error::InvalidFormat(1)), encode(&p, &f));

    let mut p = good.clone();
    p.number_of_returns = 8;
    assert_eq!(Err(Error::InvalidFormat(1)), encode(&p, &f));

    let unknown = PointFormat {
        id: 11,
        extra_bytes: 0,
    };
    assert_eq!(Err(Error::InvalidFormat(11)), encode(&Point::new(0, 0, 0), &unknown));
    assert!(encode(&good, &f).is_ok());
}

#[test]
fn short_record_is_truncated() {
    let f = PointFormat::new(0).unwrap();
    assert_eq!(Err(Error::Truncated), decode(&[0; 19], &f));
    assert_eq!(Err(Error::Truncated), decode(&[], &f));
}

#[test]
fn long_record_is_malformed() {
    let f = PointFormat::new(0).unwrap();
    assert_eq!(Err(Error::Malformed), decode(&[0; 21], &f));
}

#[test]
fn unknown_format_does_not_decode() {
    let f = PointFormat {
        id: 12,
        extra_bytes: 0,
    };
    assert_eq!(Err(Error::InvalidFormat(12)), decode(&[0; 20], &f));
}

#[test]
fn new_point_has_nothing_set() {
    let p = Point::new(1, 2, 3);
    assert_eq!((1, 2, 3), (p.x, p.y, p.z));
    assert_eq!(None, p.gps_time);
    assert_eq!(None, p.color);
    assert!(p.extra_bytes.is_empty());
    let f = PointFormat::new(0).unwrap();
    assert_eq!(
        vec![1, 0, 0, 0, 2, 0, 0, 0, 3, 0, 0, 0, 0, 0, 0, 0, 0, 0, 0, 0],
        encode(&p, &f).unwrap()
    );
}
