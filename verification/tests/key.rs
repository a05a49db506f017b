use ray_tracer::key::{key, pattern, INFINITY, NOT_A_NUMBER, SIGN};

fn key_of(t: f32) -> i64 {
    key(t.to_bits())
}

/// Numbers in ascending order, from minus infinity to infinity.
fn ladder() -> Vec<f32> {
    vec![
        f32::NEG_INFINITY,
        f32::MIN,
        -1.0e30,
        -1000000.0,
        -2.5,
        -1.0,
        -0.5,
        -0.001,
        -f32::MIN_POSITIVE,
        -1.0e-45,
        0.0,
        1.0e-45,
        f32::MIN_POSITIVE,
        0.001,
        0.5,
        1.0,
        1.0000001,
        2.5,
        1000000.0,
        1.0e30,
        f32::MAX,
        f32::INFINITY,
    ]
}

#[test]
fn key_of_zero_is_zero() {
    assert_eq!(key(0), 0);
    assert_eq!(key_of(0.0), 0);
}

#[test]
fn key_of_negative_zero_is_zero() {
    assert_eq!(key(SIGN), 0);
    assert_eq!(key_of(-0.0), 0);
}

#[test]
fn key_of_a_positive_number_is_its_pattern() {
    assert_eq!(key(1), 1);
    assert_eq!(key_of(1.0), 0x3f80_0000);
    assert_eq!(key_of(0.001), i64::from(0.001_f32.to_bits()));
    assert_eq!(key_of(f32::MAX), 0x7f7f_ffff);
    assert_eq!(key_of(f32::INFINITY), 0x7f80_0000);
    assert_eq!(key(INFINITY), 0x7f80_0000);
}

#[test]
fn key_of_a_negative_number_is_its_magnitude_negated() {
    assert_eq!(key(SIGN + 1), -1);
    assert_eq!(key_of(-1.0), -0x3f80_0000);
    assert_eq!(key_of(f32::MIN), -0x7f7f_ffff);
    assert_eq!(key_of(f32::NEG_INFINITY), -0x7f80_0000);
}

#[test]
fn key_of_what_is_not_a_number_is_the_smallest_integer() {
    assert_eq!(NOT_A_NUMBER, i64::MIN);
    assert_eq!(key_of(f32::NAN), NOT_A_NUMBER);
    assert_eq!(key_of(-f32::NAN), NOT_A_NUMBER);
    assert_eq!(key_of(0.0 / 0.0), NOT_A_NUMBER);
    assert_eq!(key_of(f32::INFINITY - f32::INFINITY), NOT_A_NUMBER);
    assert_eq!(key(0x7f80_0001), NOT_A_NUMBER);
    assert_eq!(key(0x7fff_ffff), NOT_A_NUMBER);
    assert_eq!(key(0xff80_0001), NOT_A_NUMBER);
    assert_eq!(key(u32::MAX), NOT_A_NUMBER);
}

#[test]
fn keys_are_ordered_as_the_numbers_are() {
    let ladder = ladder();
    for a in &ladder {
        for b in &ladder {
            assert_eq!(key_of(*a) < key_of(*b), a < b);
            assert_eq!(key_of(*a) == key_of(*b), a == b);
        }
    }
}

#[test]
fn keys_of_neighbouring_numbers_are_neighbours() {
    for bits in [0u32, 1, 0x3f80_0000, 0x7f7f_fffe, 0x7f7f_ffff] {
        assert_eq!(key(bits + 1), key(bits) + 1);
        assert!(f32::from_bits(bits) < f32::from_bits(bits + 1));
        assert_eq!(key(SIGN + bits + 1), key(SIGN + bits) - 1);
        assert!(f32::from_bits(SIGN + bits) > f32::from_bits(SIGN + bits + 1));
    }
}

#[test]
fn pattern_gives_the_number_back() {
    for t in ladder() {
        assert_eq!(pattern(key_of(t)).map(f32::from_bits), Some(t));
    }
}

#[test]
fn pattern_of_zero_is_positive_zero() {
    assert_eq!(pattern(0), Some(0));
    assert_eq!(pattern(key(SIGN)), Some(0));
}

#[test]
fn pattern_of_a_negative_key_has_the_sign_bit() {
    assert_eq!(pattern(-1), Some(0x8000_0001));
    assert_eq!(pattern(-0x7f80_0000), Some(0xff80_0000));
}

#[test]
fn pattern_of_no_key_is_none() {
    assert_eq!(pattern(NOT_A_NUMBER), None);
    assert_eq!(pattern(0x7f80_0001), None);
    assert_eq!(pattern(-0x7f80_0001), None);
    assert_eq!(pattern(i64::MAX), None);
}

#[test]
fn pattern_and_key_undo_each_other() {
    for k in [-0x7f80_0000i64, -12345, -1, 0, 1, 77, 0x3f80_0000, 0x7f80_0000] {
        assert_eq!(pattern(k).map(key), Some(k));
    }
}
