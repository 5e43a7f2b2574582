use eidos::text::{format_decimal, format_hex, format_ratio, push_decimal, push_ratio};

#[test]
fn decimal_has_no_leading_zeros() {
    assert_eq!(format_decimal(0), "0");
    assert_eq!(format_decimal(7), "7");
    assert_eq!(format_decimal(10), "10");
    assert_eq!(format_decimal(20), "20");
    assert_eq!(format_decimal(1234567890), "1234567890");
    assert_eq!(format_decimal(u128::MAX), u128::MAX.to_string());
}

#[test]
fn push_decimal_appends() {
    let mut s = String::from("id");
    push_decimal(&mut s, 42);
    assert_eq!(s, "id42");
    push_decimal(&mut s, 0);
    assert_eq!(s, "id420");
}

#[test]
fn ratio_has_three_decimals() {
    assert_eq!(format_ratio(0, 1), "0.000");
    assert_eq!(format_ratio(1, 1), "1.000");
    assert_eq!(format_ratio(1, 3), "0.333");
    assert_eq!(format_ratio(2, 3), "0.667");
    assert_eq!(format_ratio(-1, 3), "-0.333");
    assert_eq!(format_ratio(-2, 3), "-0.667");
    assert_eq!(format_ratio(20, 1), "20.000");
    assert_eq!(format_ratio(-12345, 1000), "-12.345");
    assert_eq!(format_ratio(123456789, 1000), "123456.789");
    assert_eq!(format_ratio(5, 1000), "0.005");
    assert_eq!(format_ratio(50, 1000), "0.050");
}

#[test]
fn ratio_rounds_to_nearest() {
    assert_eq!(format_ratio(4, 10000), "0.000");
    assert_eq!(format_ratio(6, 10000), "0.001");
    assert_eq!(format_ratio(9996, 10000), "1.000");
    assert_eq!(format_ratio(9994, 10000), "0.999");
    assert_eq!(format_ratio(-6, 10000), "-0.001");
}

#[test]
fn ratio_rounds_halves_to_even() {
    assert_eq!(format_ratio(1, 2000), "0.000");
    assert_eq!(format_ratio(3, 2000), "0.002");
    assert_eq!(format_ratio(5, 2000), "0.002");
    assert_eq!(format_ratio(1, 16), "0.062");
    assert_eq!(format_ratio(3, 16), "0.188");
    assert_eq!(format_ratio(-1, 16), "-0.062");
    assert_eq!(format_ratio(1999, 2000), "1.000");
}

#[test]
fn ratio_keeps_the_sign_of_a_small_negative() {
    assert_eq!(format_ratio(-1, 10000), "-0.000");
    assert_eq!(format_ratio(1, 10000), "0.000");
}

#[test]
fn ratio_agrees_with_float_formatting() {
    let mut num: i128 = -3000;
    while num <= 3000 {
        let expected = format!("{:.3}", num as f64 / 255.0);
        assert_eq!(format_ratio(num, 255), expected);
        num += 1;
    }
}

#[test]
fn push_ratio_appends() {
    let mut s = String::from("x-");
    push_ratio(&mut s, -3, 2);
    assert_eq!(s, "x--1.500");
}

#[test]
fn opacity_text_is_zero_or_one_point_three_digits() {
    let mut a: i128 = 0;
    while a <= 255 {
        let t = format_ratio(a, 255);
        let b = t.as_bytes();
        assert_eq!(b.len(), 5);
        assert!(b[0] == b'0' || b[0] == b'1');
        assert_eq!(b[1], b'.');
        assert!(b[2].is_ascii_digit() && b[3].is_ascii_digit() && b[4].is_ascii_digit());
        a += 1;
    }
    assert_eq!(format_ratio(255, 255), "1.000");
    assert_eq!(format_ratio(128, 255), "0.502");
    assert_eq!(format_ratio(10, 255), "0.039");
    assert_eq!(format_ratio(0, 255), "0.000");
}

#[test]
fn hex_is_lower_case_with_two_digits_per_channel() {
    assert_eq!(format_hex(0, 0, 0), "#000000");
    assert_eq!(format_hex(255, 255, 255), "#ffffff");
    assert_eq!(format_hex(255, 0, 171), "#ff00ab");
    assert_eq!(format_hex(1, 2, 3), "#010203");
    assert_eq!(format_hex(200, 200, 200), "#c8c8c8");
    assert_eq!(format_hex(16, 9, 10), "#10090a");
}

#[test]
fn hex_agrees_with_std_formatting() {
    let mut v: u32 = 0;
    while v < 256 {
        let c = v as u8;
        let d = (255 - v) as u8;
        let e = ((v * 7) % 256) as u8;
        assert_eq!(format_hex(c, d, e), format!("#{:02x}{:02x}{:02x}", c, d, e));
        v += 1;
    }
}
