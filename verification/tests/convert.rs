use tfmt::{Convert, Float32, Float64};

fn single(f: f32) -> Float32 {
    Float32 { bits: f.to_bits() }
}

fn double(f: f64) -> Float64 {
    Float64 { bits: f.to_bits() }
}

#[test]
fn numbers_in_a_fresh_buffer() {
    let conv = Convert::<20>::from_u32(4711).unwrap();
    assert_eq!("4711", conv.as_str());
    let conv = Convert::<20>::from_i32(-4711).unwrap();
    assert_eq!("-4711", conv.as_str());
    let conv = Convert::<20>::from_u32(0).unwrap();
    assert_eq!("0", conv.as_str());
    assert_eq!(conv.len(), 1);
    let conv = Convert::<10>::from_u32(u32::MAX).unwrap();
    assert_eq!("4294967295", conv.as_str());
}

#[test]
fn least_value_has_its_sign_and_all_digits() {
    let conv = Convert::<11>::from_i32(i32::MIN).unwrap();
    assert_eq!("-2147483648", conv.as_str());
    let conv = Convert::<11>::from_i32(i32::MAX).unwrap();
    assert_eq!("2147483647", conv.as_str());
    assert!(Convert::<10>::from_i32(i32::MIN).is_err());
}

#[test]
fn padded_numbers_take_the_fill_of_the_buffer() {
    let mut conv = Convert::<20>::new(b'0').unwrap();
    conv.u32_pad(4711, 6).unwrap();
    assert_eq!("004711", conv.as_str());

    let mut conv = Convert::<20>::new(b' ').unwrap();
    conv.i32_pad(-4711, 6).unwrap();
    assert_eq!(" -4711", conv.as_str());

    // what was written before stays behind the new field
    conv.u32_pad(7, 3).unwrap();
    assert_eq!("  7 -4711", conv.as_str());
}

#[test]
fn a_field_never_clips_a_number() {
    let mut conv = Convert::<8>::new(b'0').unwrap();
    conv.u32_pad(123456, 3).unwrap();
    assert_eq!("123456", conv.as_str());
    let mut conv = Convert::<8>::new(b'0').unwrap();
    conv.i32_pad(-123456, 3).unwrap();
    assert_eq!("-123456", conv.as_str());
}

#[test]
fn a_fill_has_to_be_ascii() {
    assert!(Convert::<4>::new(127).is_ok());
    assert!(Convert::<4>::new(128).is_err());
    assert!(Convert::<4>::new(200).is_err());
}

#[test]
fn a_field_wider_than_the_room_is_refused_before_writing() {
    let mut conv = Convert::<4>::new(b'0').unwrap();
    conv.u32(12).unwrap();
    assert_eq!(conv.u32_pad(3, 3), Err(()));
    assert_eq!("12", conv.as_str());
    assert_eq!(conv.i32_pad(3, 3), Err(()));
    assert_eq!("12", conv.as_str());
    assert_eq!(conv.f32_pad(single(1.0), 3, 0), Err(()));
    assert_eq!("12", conv.as_str());
    assert_eq!(conv.f64_pad(double(1.0), 3, 0), Err(()));
    assert_eq!("12", conv.as_str());
}

#[test]
fn a_full_buffer_keeps_the_digits_on_the_right() {
    let mut conv = Convert::<2>::new(b' ').unwrap();
    assert_eq!(conv.u32(12345), Err(()));
    assert_eq!("45", conv.as_str());

    let mut conv = Convert::<3>::new(b' ').unwrap();
    assert_eq!(conv.i32(-123), Err(()));
    assert_eq!("123", conv.as_str());

    assert!(Convert::<2>::from_u32(123).is_err());
    assert!(Convert::<3>::from_u32(123).is_ok());
}

#[test]
fn whole_part_and_fraction() {
    let mut conv = Convert::<20>::new(b' ').unwrap();
    conv.float_as_str(12, 34, 4, true).unwrap();
    assert_eq!("-12.0034", conv.as_str());

    let mut conv = Convert::<20>::new(b' ').unwrap();
    conv.float_as_str(12, 34, 0, false).unwrap();
    assert_eq!("12", conv.as_str());

    let mut conv = Convert::<20>::new(b' ').unwrap();
    conv.float_as_str(0, 0, 2, false).unwrap();
    assert_eq!("0.00", conv.as_str());

    // only the last digits of the fraction count
    let mut conv = Convert::<20>::new(b' ').unwrap();
    conv.float_as_str(1, 123456, 3, false).unwrap();
    assert_eq!("1.456", conv.as_str());

    // a fraction that does not fit is refused before anything is written
    let mut conv = Convert::<3>::new(b' ').unwrap();
    assert_eq!(conv.float_as_str(1, 2, 4, false), Err(()));
    assert_eq!("", conv.as_str());

    // the rest is written as far as it fits
    let mut conv = Convert::<4>::new(b' ').unwrap();
    assert_eq!(conv.float_as_str(123, 45, 2, true), Err(()));
    assert_eq!("3.45", conv.as_str());
}

#[test]
fn floats_in_a_fresh_buffer() {
    let conv = Convert::<20>::from_f32(single(3.14159265359), 4).unwrap();
    assert_eq!("3.1416", conv.as_str());
    let conv = Convert::<20>::from_f64(double(3.14159265359), 4).unwrap();
    assert_eq!("3.1416", conv.as_str());
    let conv = Convert::<20>::from_f64(double(3.14159265359), 6).unwrap();
    assert_eq!("3.141593", conv.as_str());
}

#[test]
fn padded_floats() {
    let mut conv = Convert::<20>::new(b'0').unwrap();
    conv.f32_pad(single(3.14159265359), 7, 3).unwrap();
    assert_eq!("003.142", conv.as_str());

    let mut conv = Convert::<20>::new(b'0').unwrap();
    conv.f64_pad(double(3.14159265359), 7, 3).unwrap();
    assert_eq!("003.142", conv.as_str());

    let mut conv = Convert::<9>::new(b'0').unwrap();
    conv.f64_pad(double(36.02898), 9, 6).unwrap();
    assert_eq!("36.028980", conv.as_str());

    // a number longer than its field is written whole
    let mut conv = Convert::<20>::new(b'0').unwrap();
    conv.f32_pad(single(-1234.5), 3, 1).unwrap();
    assert_eq!("-1234.5", conv.as_str());
}

#[test]
fn a_half_is_rounded_away_from_zero() {
    let text = |f: f64, places: usize| {
        String::from(Convert::<20>::from_f64(double(f), places).unwrap().as_str())
    };
    assert_eq!(text(1.1, 0), "1");
    assert_eq!(text(0.7, 0), "1");
    assert_eq!(text(-0.7, 0), "-1");
    assert_eq!(text(0.5, 0), "1");
    assert_eq!(text(-0.5, 0), "-1");
    assert_eq!(text(1.5, 0), "2");
    assert_eq!(text(2.5, 0), "3");
    assert_eq!(text(0.125, 2), "0.13");
    assert_eq!(text(-0.125, 2), "-0.13");
    assert_eq!(text(0.375, 2), "0.38");
    assert_eq!(text(0.4999999, 0), "0");
    assert_eq!(text(0.0009765625, 6), "0.000977");
    assert_eq!(text(0.999999, 3), "1.000");
    assert_eq!(text(9.99999999, 6), "10.000000");
    assert_eq!(text(0.0078125, 6), "0.007813");
    assert_eq!(text(-0.0078125, 6), "-0.007813");

    let text = |f: f32, places: usize| {
        String::from(Convert::<20>::from_f32(single(f), places).unwrap().as_str())
    };
    assert_eq!(text(1.1, 0), "1");
    assert_eq!(text(0.7, 0), "1");
    assert_eq!(text(-0.7, 0), "-1");
    assert_eq!(text(0.5, 0), "1");
    assert_eq!(text(2.5, 0), "3");
    assert_eq!(text(0.125, 2), "0.13");
}

#[test]
fn the_bound_itself_is_a_number() {
    let text = |f: f32, places: usize| {
        String::from(Convert::<20>::from_f32(single(f), places).unwrap().as_str())
    };
    assert_eq!(text(8388608.0, 0), "8388608");
    assert_eq!(text(-8388608.0, 0), "-8388608");
    assert_eq!(text(8388608.0, 6), "8388608.000000");
    assert_eq!(text(8388609.0, 3), "ovfl");
    assert_eq!(text(-8388609.0, 3), "-ovfl");
    assert_eq!(text(f32::NAN, 3), "NaN");
    assert_eq!(text(f32::INFINITY, 3), "ovfl");
    assert_eq!(text(f32::NEG_INFINITY, 3), "-ovfl");
    assert_eq!(text(f32::MAX, 0), "ovfl");

    let text = |f: f64, places: usize| {
        String::from(Convert::<20>::from_f64(double(f), places).unwrap().as_str())
    };
    assert_eq!(text(4294967295.0, 0), "4294967295");
    assert_eq!(text(-4294967295.0, 6), "-4294967295.000000");
    assert_eq!(text(4294967295.000001, 0), "ovfl");
    assert_eq!(text(4294967296.0, 0), "ovfl");
    assert_eq!(text(-4294967296.0, 0), "-ovfl");
    assert_eq!(text(4294967294.9999995, 6), "4294967295.000000");
    assert_eq!(text(f64::NAN, 0), "NaN");
    assert_eq!(text(f64::NEG_INFINITY, 0), "-ovfl");
    assert_eq!(text(f64::MAX, 0), "ovfl");
}

#[test]
fn small_numbers_and_zeros() {
    let text = |f: f32, places: usize| {
        String::from(Convert::<20>::from_f32(single(f), places).unwrap().as_str())
    };
    assert_eq!(text(0.0, 0), "0");
    assert_eq!(text(-0.0, 3), "-0.000");
    assert_eq!(text(f32::from_bits(1), 6), "0.000000");
    assert_eq!(text(f32::MIN_POSITIVE, 6), "0.000000");
    assert_eq!(text(-0.0004, 3), "-0.000");
    assert_eq!(text(0.0005, 3), "0.001");

    let text = |f: f64, places: usize| {
        String::from(Convert::<20>::from_f64(double(f), places).unwrap().as_str())
    };
    assert_eq!(text(f64::from_bits(1), 6), "0.000000");
    assert_eq!(text(f64::MIN_POSITIVE, 1), "0.0");
    // the number that these digits name in binary lies just below the half
    assert_eq!(text(0.0000005, 6), "0.000000");
    assert_eq!(text(0.00000051, 6), "0.000001");
    assert_eq!(text(0.00000049, 6), "0.000000");
}

#[test]
fn more_than_six_places_are_refused() {
    assert!(Convert::<20>::from_f32(single(1.0), 6).is_ok());
    assert!(Convert::<20>::from_f32(single(1.0), 7).is_err());
    assert!(Convert::<20>::from_f64(double(1.0), 7).is_err());
    // what is no number within the bound is written whatever the places
    assert_eq!(
        Convert::<20>::from_f32(single(f32::NAN), 7).unwrap().as_str(),
        "NaN"
    );
    assert_eq!(
        Convert::<20>::from_f64(double(1e300), 9).unwrap().as_str(),
        "ovfl"
    );
    let mut conv = Convert::<20>::new(b' ').unwrap();
    assert_eq!(conv.float32(single(1.5), 7), Err(()));
    assert_eq!(conv.float64(double(1.5), 7), Err(()));
    assert_eq!(conv.as_str(), "");
    conv.float32(single(1.5), 1).unwrap();
    conv.float64(double(-2.25), 2).unwrap();
    assert_eq!(conv.as_str(), "-2.251.5");
}
