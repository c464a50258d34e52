//! Decimal and hexadecimal renderings of numbers, as `format!("{}")` and
//! `format!("{:016x}")` print them.
use vstd::prelude::*;

use crate::text::string_from_chars;

verus! {

/// The lowercase hexadecimal digit for `d < 16`.
pub open spec fn hex_char(d: nat) -> char {
    if d == 0 {
        '0'
    } else if d == 1 {
        '1'
    } else if d == 2 {
        '2'
    } else if d == 3 {
        '3'
    } else if d == 4 {
        '4'
    } else if d == 5 {
        '5'
    } else if d == 6 {
        '6'
    } else if d == 7 {
        '7'
    } else if d == 8 {
        '8'
    } else if d == 9 {
        '9'
    } else if d == 10 {
        'a'
    } else if d == 11 {
        'b'
    } else if d == 12 {
        'c'
    } else if d == 13 {
        'd'
    } else if d == 14 {
        'e'
    } else {
        'f'
    }
}

/// Decimal digits of `n`, without leading zeros.
pub open spec fn spec_decimal(n: nat) -> Seq<char>
    decreases n,
{
    if n < 10 {
        seq![hex_char(n)]
    } else {
        spec_decimal(n / 10).push(hex_char(n % 10))
    }
}

/// The last `count` hexadecimal digits of `n`, zeros in front.
pub open spec fn spec_hex(n: nat, count: nat) -> Seq<char>
    decreases count,
{
    if count == 0 {
        Seq::empty()
    } else {
        spec_hex(n / 16, (count - 1) as nat).push(hex_char(n % 16))
    }
}

fn hex_digit(d: u64) -> (c: char)
    requires
        d < 16,
    ensures
        c == hex_char(d as nat),
{
    if d == 0 {
        '0'
    } else if d == 1 {
        '1'
    } else if d == 2 {
        '2'
    } else if d == 3 {
        '3'
    } else if d == 4 {
        '4'
    } else if d == 5 {
        '5'
    } else if d == 6 {
        '6'
    } else if d == 7 {
        '7'
    } else if d == 8 {
        '8'
    } else if d == 9 {
        '9'
    } else if d == 10 {
        'a'
    } else if d == 11 {
        'b'
    } else if d == 12 {
        'c'
    } else if d == 13 {
        'd'
    } else if d == 14 {
        'e'
    } else {
        'f'
    }
}

fn decimal_chars(n: u64) -> (r: Vec<char>)
    ensures
        r@ == spec_decimal(n as nat),
    decreases n,
{
    if n < 10 {
        let mut r = Vec::new();
        r.push(hex_digit(n));
        assert(r@ =~= seq![hex_char(n as nat)]);
        r
    } else {
        let mut r = decimal_chars(n / 10);
        r.push(hex_digit(n % 10));
        r
    }
}

fn hex_chars(n: u64, count: u64) -> (r: Vec<char>)
    ensures
        r@ == spec_hex(n as nat, count as nat),
    decreases count,
{
    if count == 0 {
        Vec::new()
    } else {
        let mut r = hex_chars(n / 16, count - 1);
        r.push(hex_digit(n % 16));
        r
    }
}

/// `n` in decimal, as `format!("{}", n)` prints it.
pub fn decimal(n: u64) -> (r: String)
    ensures
        r@ == spec_decimal(n as nat),
{
    string_from_chars(&decimal_chars(n))
}

/// `n` as sixteen lowercase hexadecimal digits, as `format!("{:016x}", n)`
/// prints it.
pub fn hex16(n: u64) -> (r: String)
    ensures
        r@ == spec_hex(n as nat, 16),
{
    string_from_chars(&hex_chars(n, 16))
}

} // verus!
