use snek::snek::{bool_to_snek, num_to_snek, from_snek, SNEK_TRUE, SNEK_FALSE};
use snek::runtime::{error_message, error_report, parse_input};
use snek::text::int_to_string;
use snek::numparse::{parse_i64, parse_u64};

#[test]
fn booleans_encode_as_three_and_one() {
    assert_eq!(bool_to_snek(true), 3);
    assert_eq!(bool_to_snek(false), 1);
    assert_eq!(SNEK_TRUE, 3);
    assert_eq!(SNEK_FALSE, 1);
}

#[test]
fn numbers_encode_shifted_left() {
    assert_eq!(num_to_snek(&5), 10);
    assert_eq!(num_to_snek(&-7), -14);
    assert_eq!(num_to_snek(&0), 0);
    // the top bit is lost, as a shift loses it
    assert_eq!(num_to_snek(&i64::MAX), -2);
}

#[test]
fn words_print_as_values() {
    assert_eq!(from_snek(&3), "true");
    assert_eq!(from_snek(&1), "false");
    assert_eq!(from_snek(&5), "Runtime Error");
    assert_eq!(from_snek(&10), "5");
    assert_eq!(from_snek(&-14), "-7");
    assert_eq!(from_snek(&0), "0");
    assert_eq!(from_snek(&-1), "0");
    assert_eq!(from_snek(&i64::MIN), "-4611686018427387904");
}

#[test]
fn encoded_numbers_print_back() {
    for n in [-4611686018427387904i64, -123, -1, 0, 1, 2, 42, 4611686018427387903] {
        assert_eq!(from_snek(&num_to_snek(&n)), n.to_string());
    }
    assert_eq!(from_snek(&bool_to_snek(true)), "true");
    assert_eq!(from_snek(&bool_to_snek(false)), "false");
}

#[test]
fn integers_render_in_decimal() {
    assert_eq!(int_to_string(0), "0");
    assert_eq!(int_to_string(-90), "-90");
    assert_eq!(int_to_string(i64::MAX), "9223372036854775807");
    assert_eq!(int_to_string(i64::MIN), "-9223372036854775808");
}

#[test]
fn decimal_numbers_read_as_rust_reads_them() {
    assert_eq!(parse_i64("12"), Some(12));
    assert_eq!(parse_i64("-12"), Some(-12));
    assert_eq!(parse_i64("+12"), Some(12));
    assert_eq!(parse_i64("-9223372036854775808"), Some(i64::MIN));
    assert_eq!(parse_i64("9223372036854775808"), None);
    assert_eq!(parse_i64(""), None);
    assert_eq!(parse_i64("-"), None);
    assert_eq!(parse_i64("1x"), None);
    assert_eq!(parse_u64("18446744073709551615"), Some(u64::MAX));
    assert_eq!(parse_u64("18446744073709551616"), None);
    assert_eq!(parse_u64("-1"), None);
    for s in ["0", "7", "-7", "+7", "007", "9223372036854775807", "x", "", "1 "] {
        assert_eq!(parse_i64(s), s.parse::<i64>().ok());
        assert_eq!(parse_u64(s), s.parse::<u64>().ok());
    }
}

#[test]
fn printed_numbers_read_back() {
    for n in [i64::MIN, -1000, -1, 0, 1, 99, i64::MAX] {
        assert_eq!(parse_i64(&int_to_string(n)), Some(n));
    }
}

#[test]
fn runtime_errors_are_reported_by_code() {
    assert_eq!(error_message(1), "invalid argument");
    assert_eq!(error_message(2), "overflow");
    assert_eq!(error_message(3), "bad cast");
    assert_eq!(error_message(9), "unknown error");
    assert_eq!(error_report(1), "ERROR (code 1): invalid argument");
    assert_eq!(error_report(2), "ERROR (code 2): overflow");
    assert_eq!(error_report(-4), "ERROR (code -4): unknown error");
}

#[test]
fn runtime_input_becomes_a_word() {
    assert_eq!(parse_input("true"), 3);
    assert_eq!(parse_input("false"), 1);
    assert_eq!(parse_input("5"), 10);
    assert_eq!(parse_input("+5"), 10);
    assert_eq!(parse_input("-5"), 1);
    assert_eq!(parse_input("abc"), 1);
    assert_eq!(parse_input("9223372036854775808"), 0);
}
