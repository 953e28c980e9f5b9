use lightsail::time_key::{order_key, SIGN_BIT};

fn key(x: f64) -> u64 {
    order_key(x.to_bits())
}

#[test]
fn keys_follow_numeric_order() {
    let values = [
        f64::NEG_INFINITY,
        -1.0e300,
        -2.5,
        -1.0,
        -1.0e-300,
        0.0,
        1.0e-300,
        1.0e-6,
        0.5,
        1.0,
        2.0,
        1.0e300,
        f64::INFINITY,
    ];
    for i in 0..values.len() {
        for j in 0..values.len() {
            assert_eq!(key(values[i]) < key(values[j]), values[i] < values[j]);
            assert_eq!(key(values[i]) == key(values[j]), values[i] == values[j]);
        }
    }
}

#[test]
fn signed_zeros_share_a_key() {
    assert_eq!(key(-0.0), key(0.0));
    assert_eq!(key(0.0), SIGN_BIT);
}

#[test]
fn key_of_one_is_shifted_bit_pattern() {
    assert_eq!(key(1.0), SIGN_BIT + 0x3ff0_0000_0000_0000);
    assert_eq!(key(-1.0), SIGN_BIT - 0x3ff0_0000_0000_0000);
}

#[test]
fn negative_time_keys_are_below_zero() {
    assert!(key(-1.0e-9) < key(0.0));
    assert!(key(1.0e-9) > key(0.0));
}
