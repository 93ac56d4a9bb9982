//! Decimal rendering of the integer fields of an event, and the
//! human-readable byte-count format used for file sizes.
//!
//! A file size renders as its decimal digits grouped in threes by
//! commas, followed by `" bytes"`; a negative size reported by the
//! driver renders as `"Unknown size"`.

use vstd::prelude::*;
use crate::strutil::push_char_range;

verus! {

/// Character of a single decimal digit.
pub open spec fn digit_char(d: nat) -> char {
    if d == 0 {
        '0'
    } else if d == 1 {
        '1'
    } else if d == 2 {
        '2'
    } else if d == 3 {
        '3'
    } else if d == 4 {
        '4'
    } else if d == 5 {
        '5'
    } else if d == 6 {
        '6'
    } else if d == 7 {
        '7'
    } else if d == 8 {
        '8'
    } else {
        '9'
    }
}

/// Decimal representation of a number, most significant digit first,
/// without leading zeros (zero itself renders as a single digit).
pub open spec fn dec_rep(n: nat) -> Seq<char>
    decreases n,
{
    if n < 10 {
        seq![digit_char(n)]
    } else {
        dec_rep(n / 10).push(digit_char(n % 10))
    }
}

/// A digit sequence with a comma inserted ahead of every group of
/// three digits counted from the right.
pub open spec fn grouped(digits: Seq<char>) -> Seq<char>
    decreases digits.len(),
{
    if digits.len() <= 3 {
        digits
    } else {
        grouped(digits.take(digits.len() - 3)) + seq![','] + digits.skip(digits.len() - 3)
    }
}

/// Digits of `n`, most significant first.
pub fn dec_digits(n: u64) -> (r: Vec<char>)
    ensures
        r@ == dec_rep(n as nat),
        r@.len() >= 1,
    decreases n,
{
    if n < 10 {
        let d: u8 = n as u8;
        let mut r: Vec<char> = Vec::new();
        r.push(digit_of(d));
        proof {
            assert(r@ =~= seq![digit_char(n as nat)]);
        }
        r
    } else {
        let mut r = dec_digits(n / 10);
        r.push(digit_of((n % 10) as u8));
        r
    }
}

/// Character of one digit value.
fn digit_of(d: u8) -> (r: char)
    requires
        d < 10,
    ensures
        r == digit_char(d as nat),
{
    match d {
        0 => '0',
        1 => '1',
        2 => '2',
        3 => '3',
        4 => '4',
        5 => '5',
        6 => '6',
        7 => '7',
        8 => '8',
        _ => '9',
    }
}

/// Renders the first `len` characters of `digits` with comma grouping.
fn group_prefix(digits: &Vec<char>, len: usize) -> (r: String)
    requires
        len <= digits@.len(),
    ensures
        r@ == grouped(digits@.take(len as int)),
    decreases len,
{
    if len <= 3 {
        let mut r = String::new();
        push_char_range(&mut r, digits, 0, len);
        proof {
            assert(digits@.subrange(0, len as int) =~= digits@.take(len as int));
        }
        r
    } else {
        let mut r = group_prefix(digits, len - 3);
        r.push(',');
        push_char_range(&mut r, digits, len - 3, len);
        proof {
            let d = digits@.take(len as int);
            assert(d.take(len - 3 as int) =~= digits@.take(len - 3 as int));
            assert(d.skip(len - 3 as int) =~= digits@.subrange(len - 3 as int, len as int));
            assert(r@ =~= grouped(d.take(len - 3 as int)) + seq![','] + d.skip(len - 3 as int));
        }
        r
    }
}

/// Plain decimal rendering of an unsigned number.
pub fn dec_string(n: u64) -> (r: String)
    ensures
        r@ == dec_rep(n as nat),
{
    let digits = dec_digits(n);
    crate::strutil::string_of_chars(&digits)
}

/// Renders a byte count as comma-grouped digits followed by `" bytes"`.
pub fn format_file_size(size: u64) -> (r: String)
    ensures
        r@ == grouped(dec_rep(size as nat)) + " bytes"@,
{
    let digits = dec_digits(size);
    let mut r = group_prefix(&digits, digits.len());
    proof {
        assert(digits@.take(digits@.len() as int) =~= digits@);
    }
    r.append(" bytes");
    r
}

/// Text of a driver-reported size, which is `"Unknown size"` when the
/// driver could not determine one and reported it negative.
pub open spec fn size_text(size: i64) -> Seq<char> {
    if size >= 0 {
        grouped(dec_rep(size as nat)) + " bytes"@
    } else {
        "Unknown size"@
    }
}

/// Renders a driver-reported size.
pub fn format_file_size_i64(size: i64) -> (r: String)
    ensures
        r@ == size_text(size),
{
    if size >= 0 {
        format_file_size(size as u64)
    } else {
        String::from_str("Unknown size")
    }
}

} // verus!
