use las::codec::{decode, encode};
use las::error::Error;
use las::format::PointFormat;
use las::header::{Bounds, Header};
use las::point::{Color, Point};
use las::reader::Reader;
use las::version::Version;
use las::writer::Writer;

fn header(minor: u8, format: u8) -> Header {
    Header::new(Version::new(1, minor), PointFormat::new(format).unwrap())
}

fn point(x: i32, y: i32, z: i32, return_number: u8) -> Point {
    let mut p = Point::new(x, y, z);
    p.return_number = return_number;
    p
}

#[test]
fn one_point_round_trips_on_every_revision() {
    for minor in 0..=4u8 {
        let mut h = header(minor, 0);
        h.guid = [minor + 1; 16];
        let mut w = Writer::new(h.clone()).unwrap();
        let p = point(1, 2, 3, 1);
        let bytes = w.write(&p).unwrap();
        let out = w.close().unwrap();

        assert_eq!(h.guid, out.guid);
        assert_eq!(h.version, out.version);
        assert_eq!(h.point_format, out.point_format);
        assert_eq!(h.vlrs, out.vlrs);
        assert_eq!(1, out.number_of_points);
        assert_eq!(1, out.number_of_points_by_return[0]);
        assert_eq!(
            Some(Bounds {
                min_x: 1,
                min_y: 2,
                min_z: 3,
                max_x: 1,
                max_y: 2,
                max_z: 3
            }),
            out.bounds
        );

        let mut r = Reader::new(out.point_format, out.number_of_points, 20).unwrap();
        assert_eq!(Some(20), r.wants());
        assert_eq!(Ok(Some(p)), r.read(&bytes));
        assert_eq!(None, r.wants());
        assert_eq!(Ok(None), r.read(&[]));
        assert_eq!(Ok(None), r.read(&bytes));
    }
}

#[test]
fn color_round_trips_from_1_2() {
    for minor in 2..=4u8 {
        let mut w = Writer::new(header(minor, 2)).unwrap();
        let mut p = Point::new(1, 2, 3);
        p.color = Some(Color {
            red: 1,
            green: 2,
            blue: 3,
        });
        let bytes = w.write(&p).unwrap();
        let out = w.close().unwrap();
        let q = decode(&bytes, &out.point_format).unwrap();
        assert_eq!(
            Some(Color {
                red: 1,
                green: 2,
                blue: 3
            }),
            q.color
        );
    }
}

#[test]
fn statistics_of_five_points() {
    let mut w = Writer::new(header(2, 0)).unwrap();
    let points = [
        point(5, -1, 10, 1),
        point(-3, 4, 10, 2),
        point(7, 0, -20, 1),
        point(0, 0, 0, 0),
        point(1, 9, 3, 1),
    ];
    for p in &points {
        w.write(p).unwrap();
    }
    assert_eq!(5, w.number_of_points());
    let out = w.close().unwrap();
    assert_eq!(5, out.number_of_points);
    assert_eq!(3, out.number_of_points_by_return[0]);
    assert_eq!(1, out.number_of_points_by_return[1]);
    assert_eq!([0u64; 13].to_vec(), out.number_of_points_by_return[2..].to_vec());
    assert_eq!(
        Some(Bounds {
            min_x: -3,
            min_y: -1,
            min_z: -20,
            max_x: 7,
            max_y: 9,
            max_z: 10
        }),
        out.bounds
    );
}

#[test]
fn derived_fields_of_the_given_header_are_not_trusted() {
    let mut h = header(2, 0);
    h.number_of_points = 77;
    h.number_of_points_by_return = [5; 15];
    h.bounds = Some(Bounds {
        min_x: -100,
        min_y: -100,
        min_z: -100,
        max_x: 100,
        max_y: 100,
        max_z: 100,
    });
    let mut w = Writer::new(h).unwrap();
    let out = w.close().unwrap();
    assert_eq!(0, out.number_of_points);
    assert_eq!([0u64; 15], out.number_of_points_by_return);
    assert_eq!(None, out.bounds);
}

#[test]
fn close_twice_is_an_error() {
    let mut w = Writer::new(header(0, 0)).unwrap();
    assert!(w.close().is_ok());
    assert_eq!(Err(Error::Closed), w.close());
}

#[test]
fn write_after_close_is_an_error() {
    let mut w = Writer::new(header(0, 0)).unwrap();
    w.close().unwrap();
    assert_eq!(Err(Error::Closed), w.write(&Point::new(0, 0, 0)));
}

#[test]
fn refused_point_is_not_counted() {
    let mut w = Writer::new(header(0, 0)).unwrap();
    w.write(&point(1, 1, 1, 1)).unwrap();
    let mut bad = point(50, 50, 50, 1);
    bad.extra_bytes = vec![1, 2];
    assert_eq!(Err(Error::InvalidFormat(0)), w.write(&bad));
    let mut bad = point(50, 50, 50, 1);
    bad.gps_time = Some(0);
    assert_eq!(Err(Error::InvalidFormat(0)), w.write(&bad));
    let out = w.close().unwrap();
    assert_eq!(1, out.number_of_points);
    assert_eq!(1, out.number_of_points_by_return[0]);
    assert_eq!(1, out.bounds.unwrap().max_x);
}

#[test]
fn writer_hands_out_the_record() {
    let mut h = header(2, 3);
    h.point_format.extra_bytes = 1;
    let f = h.point_format;
    let mut w = Writer::new(h).unwrap();
    let mut p = point(9, 8, 7, 4);
    p.gps_time = Some(123);
    p.color = Some(Color {
        red: 1,
        green: 2,
        blue: 3,
    });
    p.extra_bytes = vec![0xee];
    assert_eq!(encode(&p, &f), w.write(&p));
}

#[test]
fn reader_of_no_points_ends_at_once() {
    let mut r = Reader::new(PointFormat::new(0).unwrap(), 0, 0).unwrap();
    assert_eq!(0, r.remaining());
    assert_eq!(None, r.wants());
    assert_eq!(Ok(None), r.read(&[0; 20]));
}

#[test]
fn reader_reports_a_bad_record_and_stays() {
    let f = PointFormat::new(1).unwrap();
    let mut r = Reader::new(f, 2, 56).unwrap();
    assert_eq!(Some(28), r.wants());
    assert_eq!(Err(Error::Truncated), r.read(&[0; 27]));
    assert_eq!(Err(Error::Malformed), r.read(&[0; 29]));
    assert_eq!(2, r.remaining());
    assert!(r.read(&[0; 28]).unwrap().is_some());
    assert_eq!(1, r.remaining());
    assert!(r.read(&[0; 28]).unwrap().is_some());
    assert_eq!(0, r.remaining());
    assert_eq!(Ok(None), r.read(&[0; 28]));
}

#[test]
fn reader_refuses_an_unknown_format() {
    let f = PointFormat {
        id: 11,
        extra_bytes: 0,
    };
    assert!(matches!(Reader::new(f, 1, 20), Err(Error::InvalidFormat(11))));
}

#[test]
fn degenerate_scale_is_refused() {
    for bad in [0f64, -0f64, f64::INFINITY, f64::NEG_INFINITY, f64::NAN] {
        for axis in 0..3 {
            let mut h = header(2, 0);
            h.transforms[axis] = bad.to_bits();
            assert!(!h.has_usable_scales());
            assert_eq!(Ok(()), h.validate(h.version));
            assert!(matches!(Writer::new(h), Err(Error::InvalidHeader)));
        }
    }
    for good in [0.001f64, -2.5, 1e300, f64::MIN_POSITIVE, 5e-324] {
        let mut h = header(2, 0);
        h.transforms = [good.to_bits(); 6];
        assert!(h.has_usable_scales());
        assert!(Writer::new(h).is_ok());
    }
    let mut h = header(2, 0);
    h.transforms[3] = f64::NAN.to_bits();
    assert!(Writer::new(h).is_ok());
}

#[test]
fn revision_rules_come_before_the_scales() {
    let mut h = header(0, 2);
    h.transforms[0] = 0;
    assert!(matches!(
        Writer::new(h),
        Err(Error::VersionMismatch(las::error::Feature::Color))
    ));
}

#[test]
fn reader_without_a_declared_count_reads_what_the_region_holds() {
    let f = PointFormat::new(1).unwrap();
    let mut r = Reader::new(f, 0, 28 * 3 + 27).unwrap();
    assert_eq!(3, r.remaining());
    for _ in 0..3 {
        assert!(r.read(&[0; 28]).unwrap().is_some());
    }
    assert_eq!(Ok(None), r.read(&[0; 27]));
    let r = Reader::new(f, 0, 27).unwrap();
    assert_eq!(0, r.remaining());
    let r = Reader::new(f, 5, 28).unwrap();
    assert_eq!(5, r.remaining());
}
