//! Small verified text helpers: decimal rendering of counters and
//! width-limited truncation for table output.

use vstd::prelude::*;
use vstd::string::*;

verus! {

/// The character for a single decimal digit.
pub open spec fn digit_char(d: nat) -> char {
    if d == 0 {
        '0'
    } else if d == 1 {
        '1'
    } else if d == 2 {
        '2'
    } else if d == 3 {
        '3'
    } else if d == 4 {
        '4'
    } else if d == 5 {
        '5'
    } else if d == 6 {
        '6'
    } else if d == 7 {
        '7'
    } else if d == 8 {
        '8'
    } else {
        '9'
    }
}

/// The decimal digit string of `n`, most significant digit first, with no
/// leading zeros (a single `'0'` for zero).
pub open spec fn dec_digits(n: nat) -> Seq<char>
    decreases n,
{
    if n < 10 {
        seq![digit_char(n)]
    } else {
        dec_digits(n / 10).push(digit_char(n % 10))
    }
}

fn digit_str(d: u64) -> (r: &'static str)
    requires
        d < 10,
    ensures
        r@ == seq![digit_char(d as nat)],
{
    proof {
        reveal_strlit("0");
        reveal_strlit("1");
        reveal_strlit("2");
        reveal_strlit("3");
        reveal_strlit("4");
        reveal_strlit("5");
        reveal_strlit("6");
        reveal_strlit("7");
        reveal_strlit("8");
        reveal_strlit("9");
    }
    match d {
        0 => "0",
        1 => "1",
        2 => "2",
        3 => "3",
        4 => "4",
        5 => "5",
        6 => "6",
        7 => "7",
        8 => "8",
        _ => "9",
    }
}

/// Render `n` in decimal.
pub fn u64_string(n: u64) -> (r: String)
    ensures
        r@ == dec_digits(n as nat),
    decreases n,
{
    if n < 10 {
        String::from_str(digit_str(n))
    } else {
        let mut s = u64_string(n / 10);
        s.append(digit_str(n % 10));
        proof {
            assert(s@ =~= dec_digits(n as nat));
        }
        s
    }
}

/// Spec of the kept prefix length when truncating to `max` columns: one
/// column is reserved for the ellipsis.
pub open spec fn truncate_keep(max: nat) -> int {
    if max == 0 {
        0
    } else {
        max - 1
    }
}

/// Shorten `s` to at most `max` characters for fixed-width tables; a
/// string over the limit keeps its first `max - 1` characters and gains a
/// trailing ellipsis.
pub fn truncate(s: &str, max: usize) -> (r: String)
    ensures
        s@.len() <= max ==> r@ == s@,
        s@.len() > max ==> r@ == s@.subrange(0, truncate_keep(max as nat)) + "…"@,
{
    let n = s.unicode_len();
    if n <= max {
        return String::from_str(s);
    }
    let keep: usize = if max == 0 {
        0
    } else {
        max - 1
    };
    let head = s.substring_char(0, keep);
    let mut r = String::from_str(head);
    r.append("…");
    r
}

} // verus!
