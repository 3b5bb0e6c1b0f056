use wakfu_png::utils::{java_string_hashcode, clamp, nearest_greatest_pow_of_two};

#[test]
fn java_hash_of_known_strings() {
    assert_eq!(java_string_hashcode(&b"".to_vec()), 0);
    assert_eq!(java_string_hashcode(&b"a".to_vec()), 97);
    assert_eq!(java_string_hashcode(&b"hello".to_vec()), 99162322);
}

#[test]
fn clamp_bounds() {
    assert_eq!(clamp(-5, 0, 255), 0);
    assert_eq!(clamp(300, 0, 255), 255);
    assert_eq!(clamp(12, 0, 255), 12);
}

#[test]
fn pow_of_two_rounding() {
    assert_eq!(nearest_greatest_pow_of_two(0), 1);
    assert_eq!(nearest_greatest_pow_of_two(1), 1);
    assert_eq!(nearest_greatest_pow_of_two(3), 4);
    assert_eq!(nearest_greatest_pow_of_two(64), 64);
    assert_eq!(nearest_greatest_pow_of_two(65), 128);
}
