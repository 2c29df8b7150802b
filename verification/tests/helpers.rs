use las::buffer::{append, bytes16_at, bytes32_at};
use las::header::Bounds;
use las::point::Point;
use las::summary::widen;
use las::transform::is_usable_scale;
use las::vlr::{holds_extended, holds_oversized, holds_plain, Vlr};

fn vlr(is_extended: bool, len: usize) -> Vlr {
    Vlr {
        is_extended,
        user_id: [0; 16],
        record_id: 0,
        description: [0; 32],
        data: vec![0; len],
    }
}

#[test]
fn append_keeps_what_was_there() {
    let mut out = vec![1, 2];
    append(&mut out, &[3, 4, 5]);
    assert_eq!(vec![1, 2, 3, 4, 5], out);
    append(&mut out, &[]);
    assert_eq!(vec![1, 2, 3, 4, 5], out);
}

#[test]
fn fixed_runs_of_bytes() {
    let bytes: Vec<u8> = (0..64u8).collect();
    let a = bytes16_at(&bytes, 3);
    assert_eq!((3..19u8).collect::<Vec<u8>>(), a.to_vec());
    let b = bytes32_at(&bytes, 32);
    assert_eq!((32..64u8).collect::<Vec<u8>>(), b.to_vec());
}

#[test]
fn widen_takes_each_axis_on_its_own() {
    let b = Bounds {
        min_x: 0,
        min_y: 0,
        min_z: 0,
        max_x: 10,
        max_y: 10,
        max_z: 10,
    };
    assert_eq!(b, widen(b, &Point::new(5, 0, 10)));
    assert_eq!(
        Bounds {
            min_x: -1,
            min_y: 0,
            min_z: 0,
            max_x: 10,
            max_y: 11,
            max_z: 10
        },
        widen(b, &Point::new(-1, 11, 3))
    );
    assert_eq!(
        Bounds {
            min_x: 0,
            min_y: 0,
            min_z: i32::MIN,
            max_x: i32::MAX,
            max_y: 10,
            max_z: 10
        },
        widen(b, &Point::new(i32::MAX, 1, i32::MIN))
    );
}

#[test]
fn kinds_of_records_in_a_table() {
    assert!(!holds_extended(&vec![]));
    assert!(!holds_plain(&vec![]));
    assert!(holds_plain(&vec![vlr(true, 1), vlr(false, 1)]));
    assert!(!holds_plain(&vec![vlr(true, 1), vlr(true, 70_000)]));
    assert!(!holds_oversized(&vec![]));
    let table = vec![vlr(false, 1), vlr(false, 65_535), vlr(true, 65_536)];
    assert!(holds_extended(&table));
    assert!(!holds_oversized(&table));
    assert!(!holds_extended(&table[..2].to_vec()));
    let table = vec![vlr(false, 1), vlr(false, 65_536)];
    assert!(holds_oversized(&table));
    assert!(!holds_extended(&table));
}

#[test]
fn usable_scales() {
    assert!(is_usable_scale(0.001f64.to_bits()));
    assert!(is_usable_scale((-1f64).to_bits()));
    assert!(is_usable_scale(f64::MAX.to_bits()));
    assert!(is_usable_scale(5e-324f64.to_bits()));
    assert!(!is_usable_scale(0f64.to_bits()));
    assert!(!is_usable_scale((-0f64).to_bits()));
    assert!(!is_usable_scale(f64::INFINITY.to_bits()));
    assert!(!is_usable_scale(f64::NEG_INFINITY.to_bits()));
    assert!(!is_usable_scale(f64::NAN.to_bits()));
}
