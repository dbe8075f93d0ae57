use flatkap::text::{append_decimal, i32_to_string, parse_i32, u32_to_string};

#[test]
fn unsigned_numbers_are_written_in_decimal() {
    assert_eq!(u32_to_string(0), "0");
    assert_eq!(u32_to_string(7), "7");
    assert_eq!(u32_to_string(10), "10");
    assert_eq!(u32_to_string(1000), "1000");
    assert_eq!(u32_to_string(4321), "4321");
    assert_eq!(u32_to_string(u32::MAX), "4294967295");
}

#[test]
fn unsigned_numbers_are_written_as_std_writes_them() {
    let numbers =
        [0u32, 1, 9, 10, 11, 99, 100, 101, 65535, 65536, 999_999_999, 1_000_000_000, u32::MAX];
    for v in numbers {
        assert_eq!(u32_to_string(v), v.to_string());
    }
}

#[test]
fn signed_numbers_are_written_in_decimal() {
    assert_eq!(i32_to_string(0), "0");
    assert_eq!(i32_to_string(15), "15");
    assert_eq!(i32_to_string(-1), "-1");
    assert_eq!(i32_to_string(-120), "-120");
    assert_eq!(i32_to_string(i32::MAX), "2147483647");
    assert_eq!(i32_to_string(i32::MIN), "-2147483648");
}

#[test]
fn signed_numbers_are_written_as_std_writes_them() {
    for v in [0i32, 1, -1, 9, -9, 10, -10, 4321, -4321, i32::MAX, i32::MIN, i32::MIN + 1] {
        assert_eq!(i32_to_string(v), v.to_string());
    }
}

#[test]
fn digits_are_read_as_a_number() {
    assert_eq!(parse_i32("0"), Some(0));
    assert_eq!(parse_i32("1"), Some(1));
    assert_eq!(parse_i32("4321"), Some(4321));
    assert_eq!(parse_i32("0004321"), Some(4321));
    assert_eq!(parse_i32("2147483647"), Some(i32::MAX));
}

#[test]
fn one_sign_may_stand_in_front() {
    assert_eq!(parse_i32("+17"), Some(17));
    assert_eq!(parse_i32("-17"), Some(-17));
    assert_eq!(parse_i32("-0"), Some(0));
    assert_eq!(parse_i32("+0"), Some(0));
    assert_eq!(parse_i32("-2147483648"), Some(i32::MIN));
    assert_eq!(parse_i32("+2147483647"), Some(i32::MAX));
}

#[test]
fn numbers_out_of_range_are_not_read() {
    assert_eq!(parse_i32("2147483648"), None);
    assert_eq!(parse_i32("+2147483648"), None);
    assert_eq!(parse_i32("-2147483649"), None);
    assert_eq!(parse_i32("4294967296"), None);
    assert_eq!(parse_i32("99999999999999999999999999"), None);
    assert_eq!(parse_i32("-99999999999999999999999999"), None);
}

#[test]
fn other_text_is_not_read() {
    assert_eq!(parse_i32(""), None);
    assert_eq!(parse_i32("+"), None);
    assert_eq!(parse_i32("-"), None);
    assert_eq!(parse_i32("--1"), None);
    assert_eq!(parse_i32("+-1"), None);
    assert_eq!(parse_i32("1-"), None);
    assert_eq!(parse_i32(" 1"), None);
    assert_eq!(parse_i32("1 "), None);
    assert_eq!(parse_i32("4321\n"), None);
    assert_eq!(parse_i32("12a"), None);
    assert_eq!(parse_i32("self"), None);
    assert_eq!(parse_i32("thread-self"), None);
    assert_eq!(parse_i32("1.0"), None);
    assert_eq!(parse_i32("0x10"), None);
    assert_eq!(parse_i32("１２"), None);
    assert_eq!(parse_i32("1é"), None);
    assert_eq!(parse_i32("99999999999999999999999999x"), None);
}

#[test]
fn text_is_read_as_std_reads_it() {
    for text in [
        "", "0", "-0", "+0", "00", "1", "+1", "-1", "+", "-", "++1", "2147483647", "2147483648",
        "-2147483648", "-2147483649", "0000000000000000000001", "12 ", " 12", "1_000", "١٢", "a",
        "-a", "+2147483647", "21474836470", "-21474836480",
    ] {
        assert_eq!(parse_i32(text), text.parse::<i32>().ok(), "for {:?}", text);
    }
}

#[test]
fn what_is_written_is_read_back() {
    for v in [0i32, 1, -1, 10, -10, 4321, 123456789, -123456789, i32::MAX, i32::MIN] {
        assert_eq!(parse_i32(&i32_to_string(v)), Some(v));
    }
}

#[test]
fn decimal_is_appended_to_what_is_there() {
    let mut text = String::from("/proc/");
    append_decimal(&mut text, 812);
    assert_eq!(text, "/proc/812");
    append_decimal(&mut text, 0);
    assert_eq!(text, "/proc/8120");
    append_decimal(&mut text, u64::MAX);
    assert_eq!(text, "/proc/812018446744073709551615");
}
