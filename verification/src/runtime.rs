//! What the run-time support of compiled programs decides: the text of an
//! error report, and how the command-line input becomes a word.
use vstd::prelude::*;
use vstd::string::*;
use crate::text::{int_text, nat_text, push_int, push_str, str_eq};
use crate::numparse::{parse_u64, spec_parse_u64, lemma_parse_u64_of_text, is_digit};

verus! {

/// The message for a run-time error code.
pub open spec fn error_text(code: i64) -> Seq<char> {
    if code == 1 {
        "invalid argument"@
    } else if code == 2 {
        "overflow"@
    } else if code == 3 {
        "bad cast"@
    } else {
        "unknown error"@
    }
}

/// The message for a run-time error code.
pub fn error_message(code: i64) -> (r: &'static str)
    ensures
        r@ == error_text(code),
{
    if code == 1 {
        "invalid argument"
    } else if code == 2 {
        "overflow"
    } else if code == 3 {
        "bad cast"
    } else {
        "unknown error"
    }
}

/// The line that reports a run-time error.
pub fn error_report(code: i64) -> (r: String)
    ensures
        r@ == "ERROR (code "@ + int_text(code as int) + "): "@ + error_text(code),
{
    let mut s = String::from_str("ERROR (code ");
    push_int(&mut s, code);
    push_str(&mut s, "): ");
    push_str(&mut s, error_message(code));
    s
}

/// The word that the command-line input of a compiled program stands for.
pub open spec fn input_word(input: Seq<char>) -> u64 {
    if input == "true"@ {
        3
    } else if input == "false"@ {
        1
    } else {
        match spec_parse_u64(input) {
            Some(n) => vstd::wrapping::u64_specs::wrapping_mul(n, 2),
            None => 1,
        }
    }
}

/// The word that the command-line input of a compiled program stands for:
/// `true` and `false` as booleans, a decimal number shifted left by one
/// bit, anything else `false`.
pub fn parse_input(input: &str) -> (r: u64)
    ensures
        r == input_word(input@),
{
    if str_eq(input, "true") {
        3
    } else if str_eq(input, "false") {
        1
    } else {
        match parse_u64(input) {
            Some(num) => num.wrapping_mul(2),
            None => 1,
        }
    }
}

/// The input of a compiled program, given as the decimal text of an
/// unsigned number, stands for that number shifted left by one bit;
/// `true` and `false` stand for the booleans.
pub proof fn lemma_input_word_of_number(n: u64)
    ensures
        input_word(nat_text(n as nat)) == vstd::wrapping::u64_specs::wrapping_mul(n, 2),
        input_word("true"@) == 3,
        input_word("false"@) == 1,
{
    reveal_strlit("true");
    reveal_strlit("false");
    lemma_parse_u64_of_text(n);
    crate::numparse::lemma_nat_text_digits(n as nat);
    assert(is_digit(nat_text(n as nat)[0]));
}

} // verus!
