//! Decimal rendering of channel numbers.
//!
//! Channel indices are spoken as decimal digit strings ("0", "1", ...,
//! "15"), both as the labels of the generic fallback map and as the
//! content spoken in plain (non-receiver) playback mode.

use vstd::prelude::*;

verus! {

/// The character for a single decimal digit.
pub open spec fn digit_char(d: nat) -> char {
    if d == 0 {
        '0'
    } else if d == 1 {
        '1'
    } else if d == 2 {
        '2'
    } else if d == 3 {
        '3'
    } else if d == 4 {
        '4'
    } else if d == 5 {
        '5'
    } else if d == 6 {
        '6'
    } else if d == 7 {
        '7'
    } else if d == 8 {
        '8'
    } else {
        '9'
    }
}

/// The decimal digit string of `n`, most significant digit first, with
/// no leading zeros (`0` itself is rendered as "0").
pub open spec fn spec_decimal(n: nat) -> Seq<char>
    decreases n,
{
    if n < 10 {
        seq![digit_char(n)]
    } else {
        spec_decimal(n / 10).push(digit_char(n % 10))
    }
}

/// A decimal digit string is never empty.
pub proof fn lemma_decimal_len(n: nat)
    ensures
        spec_decimal(n).len() >= 1,
    decreases n,
{
    if n >= 10 {
        lemma_decimal_len(n / 10);
    }
}

/// Distinct numbers have distinct decimal digit strings.
pub proof fn lemma_decimal_injective(a: nat, b: nat)
    ensures
        spec_decimal(a) == spec_decimal(b) ==> a == b,
    decreases a,
{
    if spec_decimal(a) == spec_decimal(b) {
        if a < 10 && b < 10 {
            assert(spec_decimal(a)[0] == digit_char(a));
            assert(spec_decimal(b)[0] == digit_char(b));
            assert(a == b);
        } else if a < 10 && b >= 10 {
            lemma_decimal_len(b / 10);
            assert(spec_decimal(a).len() == 1);
            assert(spec_decimal(b).len() >= 2);
        } else if a >= 10 && b < 10 {
            lemma_decimal_len(a / 10);
            assert(spec_decimal(b).len() == 1);
            assert(spec_decimal(a).len() >= 2);
        } else {
            assert(spec_decimal(a).drop_last() =~= spec_decimal(a / 10));
            assert(spec_decimal(b).drop_last() =~= spec_decimal(b / 10));
            assert(spec_decimal(a).last() == digit_char(a % 10));
            assert(spec_decimal(b).last() == digit_char(b % 10));
            assert(digit_char(a % 10) == digit_char(b % 10));
            assert(a % 10 == b % 10);
            lemma_decimal_injective(a / 10, b / 10);
            assert(a / 10 == b / 10);
            vstd::arithmetic::div_mod::lemma_fundamental_div_mod(a as int, 10);
            vstd::arithmetic::div_mod::lemma_fundamental_div_mod(b as int, 10);
            assert(a == b);
        }
    }
}

/// The one-character string for a single decimal digit.
fn digit_str(d: u32) -> (r: &'static str)
    requires
        d < 10,
    ensures
        r@ =~= seq![digit_char(d as nat)],
{
    proof {
        reveal_strlit("0");
        reveal_strlit("1");
        reveal_strlit("2");
        reveal_strlit("3");
        reveal_strlit("4");
        reveal_strlit("5");
        reveal_strlit("6");
        reveal_strlit("7");
        reveal_strlit("8");
        reveal_strlit("9");
    }
    match d {
        0 => "0",
        1 => "1",
        2 => "2",
        3 => "3",
        4 => "4",
        5 => "5",
        6 => "6",
        7 => "7",
        8 => "8",
        _ => "9",
    }
}

/// Renders `n` as its decimal digit string.
pub fn decimal_string(n: u32) -> (r: String)
    ensures
        r@ == spec_decimal(n as nat),
    decreases n,
{
    if n < 10 {
        let r = digit_str(n).to_owned();
        assert(r@ =~= spec_decimal(n as nat));
        r
    } else {
        let mut r = decimal_string(n / 10);
        r.append(digit_str(n % 10));
        assert(r@ =~= spec_decimal(n as nat));
        r
    }
}

} // verus!
