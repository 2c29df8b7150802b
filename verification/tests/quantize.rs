use las::error::Error;
use las::transform::{quantize, quantize_bits, quantize_under, truncate};

#[test]
fn stored_value_comes_back() {
    assert_eq!(Ok(1), quantize(1));
    assert_eq!(Ok(0), quantize(0));
    assert_eq!(Ok(-17), quantize(-17));
}

#[test]
fn largest_value_is_stored() {
    assert_eq!(Ok(i32::MAX), quantize(2147483647));
}

#[test]
fn above_the_largest_value_is_overflow() {
    assert_eq!(Err(Error::Overflow(2147483648)), quantize(2147483648));
    assert_eq!(Err(Error::Overflow(i64::MAX)), quantize(i64::MAX));
}

#[test]
fn smallest_value_is_stored() {
    assert_eq!(Ok(i32::MIN), quantize(-2147483648));
}

#[test]
fn below_the_smallest_value_is_no_error() {
    assert_eq!(Ok(i32::MIN), quantize(-2147483649));
    assert_eq!(Ok(i32::MIN), quantize(i64::MIN));
}

#[test]
fn every_sampled_stored_value_comes_back() {
    let mut n: i64 = i32::MIN as i64;
    while n <= i32::MAX as i64 {
        assert_eq!(Ok(n as i32), quantize(n));
        n += 65_537;
    }
}

#[test]
fn default_transform_is_a_millimetre_scale_without_offset() {
    assert_eq!(0.001f64.to_bits(), las::transform::DEFAULT_SCALE);
    assert_eq!(0f64.to_bits(), las::transform::DEFAULT_OFFSET);
    let h = las::header::Header::new(
        las::version::Version::new(1, 2),
        las::format::PointFormat::new(0).unwrap(),
    );
    assert_eq!(
        [0.001, 0.001, 0.001, 0., 0., 0.],
        h.transforms.map(f64::from_bits)
    );
}

fn doubles() -> Vec<f64> {
    let mut all = vec![
        0.0,
        -0.0,
        0.4,
        0.5,
        0.999_999,
        1.0,
        1.5,
        -1.5,
        2.9,
        1023.75,
        2147483646.0,
        2147483647.0,
        2147483647.5,
        2147483648.0,
        -2147483648.0,
        -2147483648.5,
        -2147483649.0,
        4503599627370496.0,
        4503599627370497.0,
        9007199254740991.0,
        9007199254740992.0,
        9223372036854774784.0,
        9223372036854775808.0,
        -9223372036854775808.0,
        -9223372036854777856.0,
        1e19,
        -1e19,
        1e300,
        -1e300,
        f64::MAX,
        f64::MIN,
        f64::MIN_POSITIVE,
        5e-324,
        -5e-324,
        f64::INFINITY,
        f64::NEG_INFINITY,
        f64::NAN,
        -f64::NAN,
    ];
    let mut x = 0.000_123_f64;
    while x < 1e22 {
        all.push(x);
        all.push(-x);
        x *= 1.618_033_988_75;
    }
    all
}

#[test]
fn truncate_of_a_number_is_the_cast_to_a_64_bit_integer() {
    for d in doubles() {
        let expected = if d.is_nan() {
            Err(Error::NotANumber)
        } else {
            Ok(d as i64)
        };
        assert_eq!(expected, truncate(d.to_bits()), "{}", d);
    }
}

#[test]
fn truncate_of_chosen_doubles() {
    assert_eq!(Ok(0), truncate(0.999f64.to_bits()));
    assert_eq!(Ok(2), truncate(2.9f64.to_bits()));
    assert_eq!(Ok(-2), truncate((-2.9f64).to_bits()));
    assert_eq!(Ok(1 << 53), truncate(9007199254740992f64.to_bits()));
    assert_eq!(Ok(i64::MAX), truncate(f64::INFINITY.to_bits()));
    assert_eq!(Ok(i64::MIN), truncate(f64::NEG_INFINITY.to_bits()));
    assert_eq!(Err(Error::NotANumber), truncate(f64::NAN.to_bits()));
    assert_eq!(Err(Error::NotANumber), truncate((-f64::NAN).to_bits()));
    assert_eq!(Err(Error::NotANumber), truncate(0x7ff0_0000_0000_0001));
}

#[test]
fn rounded_numbers_are_quantized_as_the_cast_does() {
    for d in doubles() {
        let rounded = d.round();
        let expected = if rounded.is_nan() {
            Err(Error::NotANumber)
        } else if rounded > i32::MAX as f64 {
            Err(Error::Overflow(rounded as i64))
        } else {
            Ok(rounded as i32)
        };
        assert_eq!(expected, quantize_bits(rounded.to_bits()), "{}", d);
    }
}

#[test]
fn quantize_bits_of_chosen_doubles() {
    assert_eq!(Ok(1), quantize_bits(1f64.to_bits()));
    assert_eq!(Ok(i32::MAX), quantize_bits(2147483647f64.to_bits()));
    assert_eq!(
        Err(Error::Overflow(2147483648)),
        quantize_bits(2147483648f64.to_bits())
    );
    assert_eq!(
        Err(Error::Overflow(i64::MAX)),
        quantize_bits(f64::INFINITY.to_bits())
    );
    assert_eq!(Ok(i32::MIN), quantize_bits((-1e12f64).to_bits()));
    assert_eq!(Ok(i32::MIN), quantize_bits(f64::NEG_INFINITY.to_bits()));
    assert_eq!(Err(Error::NotANumber), quantize_bits(f64::NAN.to_bits()));
    assert_eq!(Err(Error::NotANumber), quantize_bits(0x7ff8_0000_0000_0000));
}

#[test]
fn degenerate_scale_quantizes_nothing() {
    for scale in [0f64, -0f64, f64::INFINITY, f64::NEG_INFINITY, f64::NAN] {
        for quotient in [0f64, 1., -1., f64::NAN, f64::INFINITY, f64::NEG_INFINITY, 3e9] {
            assert_eq!(
                Err(Error::InvalidHeader),
                quantize_under(scale.to_bits(), quotient.to_bits())
            );
        }
    }
}

#[test]
fn quotients_of_a_zero_scale_are_errors() {
    let scale = 0f64;
    for x in [0f64, -1., 1.] {
        let quotient = (x / scale).round();
        assert_eq!(
            Err(Error::InvalidHeader),
            quantize_under(scale.to_bits(), quotient.to_bits())
        );
    }
}

#[test]
fn usable_scale_quantizes_as_the_bits_alone() {
    for scale in [0.001f64, -2.5, 1e300, 5e-324] {
        for d in doubles() {
            let rounded = d.round().to_bits();
            assert_eq!(quantize_bits(rounded), quantize_under(scale.to_bits(), rounded));
        }
    }
    assert_eq!(Ok(7), quantize_under(0.001f64.to_bits(), 7f64.to_bits()));
    assert_eq!(
        Err(Error::NotANumber),
        quantize_under(1f64.to_bits(), f64::NAN.to_bits())
    );
    assert_eq!(
        Err(Error::Overflow(2147483648)),
        quantize_under(1f64.to_bits(), 2147483648f64.to_bits())
    );
}

#[test]
fn stored_values_keep_the_order_of_the_quotients() {
    let quotients = [
        f64::NEG_INFINITY,
        -1e12,
        -2147483649.,
        -2147483648.,
        -5.,
        -0.,
        0.,
        1.,
        77.,
        2147483646.,
        2147483647.,
    ];
    let stored: Vec<i32> = quotients
        .iter()
        .map(|q| quantize_bits(q.to_bits()).unwrap())
        .collect();
    for pair in stored.windows(2) {
        assert!(pair[0] <= pair[1]);
    }
    assert_eq!(i32::MIN, stored[0]);
    assert_eq!(i32::MAX, stored[10]);
}
