//! Small text helpers: digit rendering for format labels and content
//! hashes, and the two character-level conversions the standard library
//! performs for us.

use vstd::prelude::*;

verus! {

/// The character for one digit value below 16: `0`..`9` then `a`..`f`.
pub open spec fn digit_char(d: int) -> char {
    if d < 10 {
        (48 + d) as char
    } else {
        (87 + d) as char
    }
}

/// The decimal rendering of a nonnegative number, most significant digit
/// first (`0` renders as "0").
pub open spec fn dec_chars(n: int) -> Seq<char>
    decreases n,
{
    if n < 10 {
        seq![digit_char(if n >= 0 { n } else { 0 })]
    } else {
        dec_chars(n / 10).push(digit_char(n % 10))
    }
}

/// The lowercase hexadecimal rendering of a nonnegative number, most
/// significant digit first, without leading zeroes (`0` renders as "0").
pub open spec fn hex_chars(n: int) -> Seq<char>
    decreases n,
{
    if n < 16 {
        seq![digit_char(if n >= 0 { n } else { 0 })]
    } else {
        hex_chars(n / 16).push(digit_char(n % 16))
    }
}

/// One digit below 16 as its character.
fn digit_to_char(d: u32) -> (r: char)
    requires
        d < 16,
    ensures
        r == digit_char(d as int),
{
    if d < 10 {
        (48 + d as u8) as char
    } else {
        (87 + d as u8) as char
    }
}

/// The decimal digits of `n`, most significant first.
pub fn u32_to_dec(n: u32) -> (r: Vec<char>)
    ensures
        r@ == dec_chars(n as int),
    decreases n,
{
    if n < 10 {
        let mut v: Vec<char> = Vec::new();
        v.push(digit_to_char(n));
        proof {
            assert(v@ =~= dec_chars(n as int));
        }
        v
    } else {
        let mut v = u32_to_dec(n / 10);
        v.push(digit_to_char(n % 10));
        v
    }
}

/// The lowercase hexadecimal digits of `n`, most significant first,
/// without leading zeroes.
pub fn u64_to_hex(n: u64) -> (r: Vec<char>)
    ensures
        r@ == hex_chars(n as int),
    decreases n,
{
    if n < 16 {
        let mut v: Vec<char> = Vec::new();
        v.push(digit_to_char(n as u32));
        proof {
            assert(v@ =~= hex_chars(n as int));
        }
        v
    } else {
        let mut v = u64_to_hex(n / 16);
        v.push(digit_to_char((n % 16) as u32));
        v
    }
}

/// Relies on `String`'s `FromIterator<char>`: collecting characters yields
/// the string of exactly those characters in order.
#[verifier::external_body]
pub fn chars_to_string(v: &Vec<char>) -> (r: String)
    ensures
        r@ == v@,
{
    v.iter().collect()
}

/// Relies on `char::from_u32`: it returns `Some` exactly for Unicode scalar
/// values, which the precondition restricts `v` to, so the conversion
/// cannot fail.
#[verifier::external_body]
pub fn char_from_u32(v: u32) -> (r: char)
    requires
        v < 0xD800 || (0xE000 <= v <= 0x10FFFF),
    ensures
        r == (v as char),
{
    match char::from_u32(v) {
        Some(c) => c,
        None => ' ',
    }
}

} // verus!
