use pathtracer::distance::{bits_of_key, key_of_bits, SIGN};
use pathtracer::interval::Interval;

fn key(value: f64) -> i64 {
    key_of_bits(value.to_bits())
}

#[test]
fn key_of_a_positive_pattern_is_the_pattern() {
    assert_eq!(key_of_bits(0), 0);
    assert_eq!(key_of_bits(1), 1);
    assert_eq!(key_of_bits(0x3fe0_0000_0000_0000), 0x3fe0_0000_0000_0000);
    assert_eq!(key_of_bits(0x7fff_ffff_ffff_ffff), i64::MAX);
}

#[test]
fn key_of_a_negative_pattern_is_the_negated_magnitude() {
    assert_eq!(key_of_bits(SIGN), 0);
    assert_eq!(key_of_bits(SIGN + 1), -1);
    assert_eq!(key_of_bits(0xbfe0_0000_0000_0000), -0x3fe0_0000_0000_0000);
    assert_eq!(key_of_bits(u64::MAX), -i64::MAX);
}

#[test]
fn key_of_known_doubles() {
    assert_eq!(key(0.0), 0);
    assert_eq!(key(-0.0), 0);
    assert_eq!(key(0.5), 0x3fe0_0000_0000_0000);
    assert_eq!(key(-0.5), -0x3fe0_0000_0000_0000);
    assert_eq!(key(1.0), 0x3ff0_0000_0000_0000);
    assert_eq!(key(f64::INFINITY), 0x7ff0_0000_0000_0000);
    assert_eq!(key(f64::NEG_INFINITY), -0x7ff0_0000_0000_0000);
}

#[test]
fn keys_are_ordered_as_the_doubles_are() {
    let values = [
        f64::NEG_INFINITY,
        f64::MIN,
        -100.5,
        -1.0,
        -0.001,
        -f64::MIN_POSITIVE,
        -5e-324,
        0.0,
        5e-324,
        f64::MIN_POSITIVE,
        0.001,
        0.5,
        1.0,
        1.5,
        100.0,
        f64::MAX,
        f64::INFINITY,
    ];
    for one in values {
        for other in values {
            assert_eq!(one < other, key(one) < key(other));
            assert_eq!(one == other, key(one) == key(other));
            assert_eq!(one <= other, key(one) <= key(other));
        }
    }
}

#[test]
fn both_zeros_share_a_key() {
    assert_eq!(key(0.0), key(-0.0));
    assert!(key(-5e-324) < key(-0.0));
    assert!(key(0.0) < key(5e-324));
}

#[test]
fn no_range_between_numbers_holds_a_nan() {
    let everything = Interval::new(key(f64::NEG_INFINITY), key(f64::INFINITY));
    assert!(!everything.contains(key(f64::NAN)));
    assert!(!everything.contains(key(-f64::NAN)));
    assert!(!everything.contains(key_of_bits(0x7ff0_0000_0000_0001)));
    assert!(!everything.contains(key_of_bits(0xfff0_0000_0000_0001)));
    assert!(everything.contains(key(f64::MAX)));
    assert!(everything.contains(key(f64::INFINITY)));
}

#[test]
fn bits_of_key_gives_back_the_double() {
    for value in [0.0, 0.001, 0.5, 1.5, 225.0, f64::INFINITY, -0.5, -100.5, f64::NEG_INFINITY] {
        let bits = bits_of_key(key(value));
        assert_eq!(bits, Some(value.to_bits()));
        assert_eq!(f64::from_bits(bits.unwrap()), value);
    }
}

#[test]
fn bits_of_key_gives_the_plain_zero_for_key_zero() {
    assert_eq!(bits_of_key(0), Some(0));
    assert_eq!(bits_of_key(key(-0.0)), Some(0.0f64.to_bits()));
}

#[test]
fn bits_of_key_of_negative_keys_sets_the_sign_bit() {
    assert_eq!(bits_of_key(-1), Some(SIGN + 1));
    assert_eq!(bits_of_key(-i64::MAX), Some(u64::MAX));
    assert_eq!(bits_of_key(i64::MAX), Some(0x7fff_ffff_ffff_ffff));
}

#[test]
fn bits_of_key_has_no_pattern_for_the_least_key() {
    assert_eq!(bits_of_key(i64::MIN), None);
    assert!(bits_of_key(i64::MIN + 1).is_some());
}

#[test]
fn key_never_is_the_least_key() {
    for bits in [0, 1, SIGN - 1, SIGN, SIGN + 1, u64::MAX] {
        assert!(key_of_bits(bits) > i64::MIN);
        let back = bits_of_key(key_of_bits(bits)).unwrap();
        if bits == SIGN {
            assert_eq!(back, 0);
        } else {
            assert_eq!(back, bits);
        }
    }
}
