use biots::fixed::{clamp_to, distance_squared, div_toward_zero, isqrt, modulus, normalize};

#[test]
fn modulus_of_a_positive_number() {
    assert_eq!(modulus(7, 5), 2);
    assert_eq!(modulus(5, 5), 0);
    assert_eq!(modulus(0, 5), 0);
    assert_eq!(modulus(800_999, 800_000), 999);
}

#[test]
fn modulus_of_a_negative_number_is_not_negative() {
    assert_eq!(modulus(-1, 5), 4);
    assert_eq!(modulus(-5, 5), 0);
    assert_eq!(modulus(-6, 5), 4);
    assert_eq!(modulus(-1, 800_000), 799_999);
    assert_eq!(modulus(i64::MIN, 7), ((i64::MIN % 7) + 7) % 7);
}

#[test]
fn modulus_agrees_with_the_double_remainder() {
    for a in -50i64..50 {
        for b in 1i64..9 {
            assert_eq!(modulus(a, b), ((a % b) + b) % b);
            assert!(0 <= modulus(a, b) && modulus(a, b) < b);
        }
    }
}

#[test]
fn division_rounds_toward_zero() {
    assert_eq!(div_toward_zero(9, 10), 0);
    assert_eq!(div_toward_zero(-9, 10), 0);
    assert_eq!(div_toward_zero(19, 10), 1);
    assert_eq!(div_toward_zero(-19, 10), -1);
    assert_eq!(div_toward_zero(-20, 10), -2);
}

#[test]
fn clamp_confines_to_the_limit() {
    assert_eq!(clamp_to(5, 10), 5);
    assert_eq!(clamp_to(11, 10), 10);
    assert_eq!(clamp_to(-11, 10), -10);
    assert_eq!(clamp_to(-10, 10), -10);
}

#[test]
fn isqrt_rounds_down() {
    assert_eq!(isqrt(0), 0);
    assert_eq!(isqrt(1), 1);
    assert_eq!(isqrt(24), 4);
    assert_eq!(isqrt(25), 5);
    assert_eq!(isqrt(26), 5);
    assert_eq!(isqrt(80_000_000_000_000_000), 282_842_712);
}

#[test]
fn squared_distance_of_two_points() {
    assert_eq!(distance_squared((0, 0), (3, 4)), 25);
    assert_eq!(distance_squared((3, 4), (0, 0)), 25);
    assert_eq!(distance_squared((-1, -1), (-1, -1)), 0);
    assert_eq!(
        distance_squared((100_000_000, 100_000_000), (-100_000_000, -100_000_000)),
        80_000_000_000_000_000
    );
}

#[test]
fn normalize_gives_thousandths_of_a_unit_vector() {
    assert_eq!(normalize(3, 4), (600, 800));
    assert_eq!(normalize(-3, 4), (-600, 800));
    assert_eq!(normalize(0, -250), (0, -1000));
    assert_eq!(normalize(2000, 0), (1000, 0));
    assert_eq!(normalize(1, 1), (1000, 1000));
}

#[test]
fn normalize_leaves_the_zero_vector() {
    assert_eq!(normalize(0, 0), (0, 0));
}
