//! Small string helpers shared by every pass: decimal formatting of the
//! integers that appear in assembly text, and string equality with a
//! specification usable in contracts.

use vstd::prelude::*;
use vstd::string::*;

verus! {

/// The character for a single decimal digit.
pub open spec fn dec_digit_char(d: nat) -> char {
    if d == 0 {
        '0'
    } else if d == 1 {
        '1'
    } else if d == 2 {
        '2'
    } else if d == 3 {
        '3'
    } else if d == 4 {
        '4'
    } else if d == 5 {
        '5'
    } else if d == 6 {
        '6'
    } else if d == 7 {
        '7'
    } else if d == 8 {
        '8'
    } else {
        '9'
    }
}

/// The usual decimal form of a natural number, most significant digit first.
pub open spec fn spec_dec_nat(n: nat) -> Seq<char>
    decreases n,
{
    if n < 10 {
        seq![dec_digit_char(n)]
    } else {
        spec_dec_nat(n / 10) + seq![dec_digit_char(n % 10)]
    }
}

/// The decimal form of an integer: a minus sign before the magnitude when negative.
pub open spec fn spec_dec_int(n: int) -> Seq<char> {
    if n >= 0 {
        spec_dec_nat(n as nat)
    } else {
        seq!['-'] + spec_dec_nat((-n) as nat)
    }
}

fn digit_str(d: u8) -> (r: &'static str)
    requires
        d < 10,
    ensures
        r@ == seq![dec_digit_char(d as nat)],
{
    let r = if d == 0 {
        "0"
    } else if d == 1 {
        "1"
    } else if d == 2 {
        "2"
    } else if d == 3 {
        "3"
    } else if d == 4 {
        "4"
    } else if d == 5 {
        "5"
    } else if d == 6 {
        "6"
    } else if d == 7 {
        "7"
    } else if d == 8 {
        "8"
    } else {
        "9"
    };
    proof {
        reveal_strlit("0");
        reveal_strlit("1");
        reveal_strlit("2");
        reveal_strlit("3");
        reveal_strlit("4");
        reveal_strlit("5");
        reveal_strlit("6");
        reveal_strlit("7");
        reveal_strlit("8");
        reveal_strlit("9");
    }
    assert(r@ =~= seq![dec_digit_char(d as nat)]);
    r
}

/// Format an unsigned number in decimal.
pub fn fmt_u64(n: u64) -> (s: String)
    ensures
        s@ == spec_dec_nat(n as nat),
    decreases n,
{
    if n < 10 {
        digit_str(n as u8).to_owned()
    } else {
        let mut s = fmt_u64(n / 10);
        s.append(digit_str((n % 10) as u8));
        s
    }
}

/// Format a `usize` in decimal.
pub fn fmt_usize(n: usize) -> (s: String)
    ensures
        s@ == spec_dec_nat(n as nat),
{
    fmt_u64(n as u64)
}

/// Format a `u32` in decimal.
pub fn fmt_u32(n: u32) -> (s: String)
    ensures
        s@ == spec_dec_nat(n as nat),
{
    fmt_u64(n as u64)
}

/// Format an `i32` in decimal, with a minus sign when negative.
pub fn fmt_i32(n: i32) -> (s: String)
    ensures
        s@ == spec_dec_int(n as int),
{
    if n >= 0 {
        fmt_u64(n as u64)
    } else {
        let mag: u64 = (-(n as i64)) as u64;
        let mut s = "-".to_owned();
        proof {
            reveal_strlit("-");
        }
        let m = fmt_u64(mag);
        s.append(m.as_str());
        assert(s@ =~= spec_dec_int(n as int));
        s
    }
}

/// Whether two string slices hold the same characters.
pub fn str_eq(a: &str, b: &str) -> (r: bool)
    ensures
        r == (a@ == b@),
{
    let sa = a.to_owned();
    let sb = b.to_owned();
    sa == sb
}

} // verus!
