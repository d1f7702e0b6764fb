//! Run-time encoding of snek values in a machine word: numbers are shifted
//! left by one bit, `true` is 3 and `false` is 1.
use vstd::prelude::*;
use vstd::string::*;
use crate::text::{int_text, int_to_string};

verus! {

/// The word that encodes `true`.
pub const SNEK_TRUE: i64 = 3;
/// The word that encodes `false`.
pub const SNEK_FALSE: i64 = 1;

/// The word that encodes the number `n`: `n` shifted left by one bit,
/// which keeps the low 64 bits of `2 * n`.
pub open spec fn encode_num(n: i64) -> i64 {
    vstd::wrapping::i64_specs::wrapping_mul(n, 2)
}

/// Half of `n`, rounded toward zero, as Rust's `/` on integers computes it.
pub open spec fn trunc_half(n: int) -> int {
    if n >= 0 {
        n / 2
    } else {
        -((-n) / 2)
    }
}

/// The text that a result word is shown as.
pub open spec fn snek_text(n: i64) -> Seq<char> {
    if n == 3 {
        "true"@
    } else if n == 1 {
        "false"@
    } else if n == 5 {
        "Runtime Error"@
    } else {
        int_text(trunc_half(n as int))
    }
}

/// Encodes a boolean.
pub fn bool_to_snek(b: bool) -> (r: i64)
    ensures
        r == (if b { SNEK_TRUE } else { SNEK_FALSE }),
{
    if b {
        3
    } else {
        1
    }
}

/// Encodes a number.
pub fn num_to_snek(n: &i64) -> (r: i64)
    ensures
        r == encode_num(*n),
{
    n.wrapping_mul(2)
}

/// The text that a result word is shown as.
pub fn from_snek(n: &i64) -> (r: String)
    ensures
        r@ == snek_text(*n),
{
    if *n == 3 {
        String::from_str("true")
    } else if *n == 1 {
        String::from_str("false")
    } else if *n == 5 {
        String::from_str("Runtime Error")
    } else {
        let num: i64 = if *n >= 0 {
            *n / 2
        } else {
            let m: i128 = -(*n as i128);
            let h: i128 = m / 2;
            (-h) as i64
        };
        int_to_string(num)
    }
}

/// Numbers whose encoding keeps their value: those that fit in 63 bits.
pub open spec fn fits_snek_num(n: int) -> bool {
    -0x4000_0000_0000_0000 <= n < 0x4000_0000_0000_0000
}

/// A number that fits in 63 bits is encoded as twice its value.
pub proof fn lemma_encode_num_doubles(n: i64)
    requires
        fits_snek_num(n as int),
    ensures
        encode_num(n) == 2 * n,
{
    let x: int = n * 2;
    let r: int = 0x1_0000_0000_0000_0000;
    if x >= 0 {
        assert(x % r == x) by (nonlinear_arith)
            requires 0 <= x < r;
    } else {
        assert(x % r == x + r) by (nonlinear_arith)
            requires -r <= x < 0;
    }
}

/// Reading back a number that fits in 63 bits shows its decimal value.
pub proof fn lemma_num_round_trip(n: i64)
    requires
        fits_snek_num(n as int),
    ensures
        snek_text(encode_num(n)) == int_text(n as int),
{
    lemma_encode_num_doubles(n);
    let e = encode_num(n);
    assert(e % 2 == 0);
    assert(trunc_half(e as int) == n as int);
}

/// Reading back an encoded boolean shows `true` or `false`.
pub proof fn lemma_bool_round_trip(b: bool)
    ensures
        snek_text(if b { SNEK_TRUE } else { SNEK_FALSE }) == (if b { "true"@ } else { "false"@ }),
{
}

} // verus!
