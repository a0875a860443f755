//! Validation of the linear gain argument.
//!
//! The gain is given on the command line as a decimal numeral in the
//! float grammar — an optional sign, digits with at most one decimal
//! point and at least one digit, then an optional exponent part
//! (`e`/`E`, an optional sign, at least one digit) — and must lie in the
//! range 0 to 1. A leading minus sign is accepted only for the value
//! zero.
//!
//! The comparison is by the numeral's exact rational value, a deliberate
//! choice over the other candidate rule, parse-to-binary-float and then
//! range-test. Under round-to-nearest (ties to even) that rule admits
//! two further slivers of numerals, those the rounding pulls into range:
//! negative values of magnitude at most 2^-150, which round to negative
//! zero (such as "-1e-60"), and values in (1, 1 + 2^-24], which round
//! down to one. Exact-value validation refuses both: a requested gain is
//! in range only if its value is, and neither sliver names a gain
//! distinct from 0 or 1 once rounded, so nothing expressible is lost.
//! On every numeral outside that rounding slack the two rules agree.

use vstd::prelude::*;

verus! {

/// Whether `c` is a decimal digit.
pub open spec fn is_digit(c: char) -> bool {
    48 <= c as int && c as int <= 57
}

/// The value of a decimal digit.
pub open spec fn digit_value(c: char) -> nat {
    (c as int - 48) as nat
}

/// Whether `c` starts the exponent part.
pub open spec fn is_exp_marker(c: char) -> bool {
    c == 'e' || c == 'E'
}

/// Ten to the `k`.
pub open spec fn pow10(k: nat) -> nat
    decreases k,
{
    if k == 0 {
        1
    } else {
        10 * pow10((k - 1) as nat)
    }
}

proof fn lemma_pow10_pos(k: nat)
    ensures
        pow10(k) >= 1,
    decreases k,
{
    if k > 0 {
        lemma_pow10_pos((k - 1) as nat);
    }
}

proof fn lemma_pow10_mono(a: nat, b: nat)
    requires
        a <= b,
    ensures
        pow10(a) <= pow10(b),
    decreases b,
{
    if a < b {
        lemma_pow10_mono(a, (b - 1) as nat);
        lemma_pow10_pos((b - 1) as nat);
    }
}

/// The mantissa before any decimal point: digits, then optionally a
/// point and `frac_shape_ok`, or an exponent part; `seen_digit` carries
/// whether a mantissa digit was read so far — the mantissa needs at
/// least one.
pub open spec fn shape_ok(b: Seq<char>, seen_digit: bool) -> bool
    decreases b.len(),
{
    if b.len() == 0 {
        seen_digit
    } else if b[0] == '.' {
        frac_shape_ok(b.drop_first(), seen_digit)
    } else if is_exp_marker(b[0]) {
        seen_digit && exp_shape(b.drop_first())
    } else {
        is_digit(b[0]) && shape_ok(b.drop_first(), true)
    }
}

/// The mantissa after the decimal point: digits, then optionally the
/// exponent part.
pub open spec fn frac_shape_ok(b: Seq<char>, seen_digit: bool) -> bool
    decreases b.len(),
{
    if b.len() == 0 {
        seen_digit
    } else if is_exp_marker(b[0]) {
        seen_digit && exp_shape(b.drop_first())
    } else {
        is_digit(b[0]) && frac_shape_ok(b.drop_first(), true)
    }
}

/// The exponent part after its marker: an optional sign, then at least
/// one digit.
pub open spec fn exp_shape(b: Seq<char>) -> bool {
    if b.len() > 0 && (b[0] == '+' || b[0] == '-') {
        exp_digits_ok(b.drop_first(), false)
    } else {
        exp_digits_ok(b, false)
    }
}

/// The exponent's digits.
pub open spec fn exp_digits_ok(b: Seq<char>, seen_digit: bool) -> bool
    decreases b.len(),
{
    if b.len() == 0 {
        seen_digit
    } else {
        is_digit(b[0]) && exp_digits_ok(b.drop_first(), true)
    }
}

/// The mantissa's digits read as one integer, the decimal point ignored,
/// accumulated onto `acc`.
pub open spec fn mantissa_value(b: Seq<char>, acc: nat) -> nat
    decreases b.len(),
{
    if b.len() == 0 || is_exp_marker(b[0]) {
        acc
    } else if b[0] == '.' {
        mantissa_value(b.drop_first(), acc)
    } else {
        mantissa_value(b.drop_first(), acc * 10 + digit_value(b[0]))
    }
}

/// The number of mantissa characters before the exponent part.
pub open spec fn digits_to_exp(b: Seq<char>) -> nat
    decreases b.len(),
{
    if b.len() == 0 || is_exp_marker(b[0]) {
        0
    } else {
        1 + digits_to_exp(b.drop_first())
    }
}

/// The number of mantissa digits after the decimal point.
pub open spec fn frac_len(b: Seq<char>) -> nat
    decreases b.len(),
{
    if b.len() == 0 || is_exp_marker(b[0]) {
        0
    } else if b[0] == '.' {
        digits_to_exp(b.drop_first())
    } else {
        frac_len(b.drop_first())
    }
}

/// The exponent's digits read as one integer, accumulated onto `acc`.
pub open spec fn exp_digits_value(b: Seq<char>, acc: nat) -> nat
    decreases b.len(),
{
    if b.len() == 0 {
        acc
    } else {
        exp_digits_value(b.drop_first(), acc * 10 + digit_value(b[0]))
    }
}

/// The signed value of the exponent part after its marker.
pub open spec fn exp_signed(b: Seq<char>) -> int {
    if b.len() > 0 && b[0] == '-' {
        -(exp_digits_value(b.drop_first(), 0) as int)
    } else if b.len() > 0 && b[0] == '+' {
        exp_digits_value(b.drop_first(), 0) as int
    } else {
        exp_digits_value(b, 0) as int
    }
}

/// The numeral's signed exponent, 0 when none is given.
pub open spec fn exp_value(b: Seq<char>) -> int
    decreases b.len(),
{
    if b.len() == 0 {
        0
    } else if is_exp_marker(b[0]) {
        exp_signed(b.drop_first())
    } else {
        exp_value(b.drop_first())
    }
}

/// The numeral's value is at most one. The value is
/// `mantissa * 10^(exponent - frac_len)` for the mantissa read as an
/// integer, so it is at most one exactly when the mantissa is zero, or
/// the scaled exponent is not positive and the mantissa is at most the
/// matching power of ten.
pub open spec fn value_at_most_one(b: Seq<char>) -> bool {
    let m = mantissa_value(b, 0);
    let e = exp_value(b) - frac_len(b);
    m == 0 || (e <= 0 && m <= pow10((-e) as nat))
}

/// `s` is a decimal numeral of the float grammar — an optional sign,
/// digits with at most one decimal point and at least one digit, an
/// optional exponent part — whose exact value lies in the range 0 to 1;
/// a minus sign is accepted only when the value is zero. The exact value
/// decides, not the nearest binary float (see the module header): the
/// numerals that only float rounding would bring into range are
/// rejected.
pub open spec fn spec_valid_gain(s: Seq<char>) -> bool {
    if s.len() == 0 {
        false
    } else {
        let signed = s[0] == '+' || s[0] == '-';
        let body = if signed {
            s.drop_first()
        } else {
            s
        };
        &&& shape_ok(body, false)
        &&& if s[0] == '-' {
            mantissa_value(body, 0) == 0
        } else {
            value_at_most_one(body)
        }
    }
}

/// For a mantissa `m` with `sig` significant digits
/// (`pow10(sig-1) <= m < pow10(sig)`): `m <= pow10(k)` exactly when the
/// significant digits fit below the power, or they are one more and `m`
/// is the power itself.
proof fn lemma_digits_vs_pow(m: nat, sig: nat, k: nat)
    requires
        sig >= 1,
        pow10((sig - 1) as nat) <= m,
        m < pow10(sig),
    ensures
        (m <= pow10(k)) == (sig <= k || (sig == k + 1 && m == pow10((sig - 1) as nat))),
{
    if sig <= k {
        lemma_pow10_mono(sig, k);
    } else if sig == k + 1 {
    } else {
        lemma_pow10_mono((k + 1) as nat, (sig - 1) as nat);
        lemma_pow10_pos(k);
        assert(pow10((k + 1) as nat) == 10 * pow10(k));
    }
}

/// Scans `s` as a decimal numeral and decides `spec_valid_gain`.
fn valid_gain(s: &str) -> (r: bool)
    ensures
        r == spec_valid_gain(s@),
{
    let n: usize = s.unicode_len();
    if n == 0 {
        return false;
    }
    let c0 = s.get_char(0);
    let code0: u32 = c0 as u32;
    let signed = code0 == 43 || code0 == 45;
    let neg = code0 == 45;
    let ghost body: Seq<char> = if signed {
        s@.drop_first()
    } else {
        s@
    };
    let mut i: usize = if signed {
        1
    } else {
        0
    };
    proof {
        assert(s@.skip(i as int) =~= body);
    }

    let mut seen_digit = false;
    let mut seen_dot = false;
    let mut in_exp = false;
    // right after the marker, where the exponent's sign may stand
    let mut exp_sign_ok = false;
    let mut eneg = false;
    let mut xseen = false;
    // significant-digit statistics of the mantissa: `lead` once a
    // nonzero digit was read, `sig` the digit count from there on,
    // `clean` while the mantissa value is exactly pow10(sig - 1)
    let mut lead = false;
    let mut sig: usize = 0;
    let mut clean = true;
    // digits after the decimal point
    let mut fl: usize = 0;
    // the exponent's digits, capped at n + 1 (larger values all decide
    // alike, since sig and fl never exceed n)
    let mut xc: u128 = 0;
    let ghost mut m_true: nat = 0;
    let ghost mut x_true: nat = 0;

    while i < n
        invariant
            i <= n,
            n == s@.len(),
            s@.len() > 0,
            body == (if signed {
                s@.drop_first()
            } else {
                s@
            }),
            signed == (s@[0] == '+' || s@[0] == '-'),
            neg == (s@[0] == '-'),
            signed ==> 1 <= i,
            sig <= i,
            fl <= i,
            // the mantissa statistics
            !lead ==> m_true == 0 && sig == 0 && clean,
            lead ==> 1 <= sig && pow10((sig - 1) as nat) <= m_true && m_true < pow10(sig as nat),
            lead ==> (clean <==> m_true == pow10((sig - 1) as nat)),
            lead ==> seen_digit,
            // the exponent cap
            (x_true <= n as nat + 1 && xc as nat == x_true) || (x_true > n as nat + 1 && xc
                == n as u128 + 1),
            // what remains of each spec function on the unscanned suffix
            !in_exp ==> !seen_dot ==> shape_ok(body, false) == shape_ok(
                s@.skip(i as int),
                seen_digit,
            ) && frac_len(body) == frac_len(s@.skip(i as int)) && fl == 0,
            !in_exp ==> seen_dot ==> shape_ok(body, false) == frac_shape_ok(
                s@.skip(i as int),
                seen_digit,
            ) && frac_len(body) == fl + digits_to_exp(s@.skip(i as int)),
            !in_exp ==> mantissa_value(body, 0) == mantissa_value(s@.skip(i as int), m_true)
                && exp_value(body) == exp_value(s@.skip(i as int)) && !xseen && !eneg
                && !exp_sign_ok && x_true == 0,
            in_exp ==> mantissa_value(body, 0) == m_true && frac_len(body) == fl && seen_digit,
            in_exp ==> exp_sign_ok ==> shape_ok(body, false) == exp_shape(s@.skip(i as int))
                && exp_value(body) == exp_signed(s@.skip(i as int)) && !xseen && !eneg && x_true
                == 0,
            in_exp ==> !exp_sign_ok ==> shape_ok(body, false) == exp_digits_ok(
                s@.skip(i as int),
                xseen,
            ) && exp_value(body) == (if eneg {
                -(exp_digits_value(s@.skip(i as int), x_true) as int)
            } else {
                exp_digits_value(s@.skip(i as int), x_true) as int
            }),
        decreases n - i,
    {
        let ch = s.get_char(i);
        let code: u32 = ch as u32;
        proof {
            assert(s@.skip(i as int)[0] == s@[i as int]);
            assert(s@.skip(i as int).drop_first() =~= s@.skip(i + 1));
        }
        let is_dig = 48 <= code && code <= 57;
        if in_exp {
            if exp_sign_ok && (code == 43 || code == 45) {
                eneg = code == 45;
                exp_sign_ok = false;
            } else if is_dig {
                let d: u32 = code - 48;
                exp_sign_ok = false;
                xseen = true;
                proof {
                    x_true = x_true * 10 + digit_value(ch);
                }
                let raw: u128 = xc * 10 + d as u128;
                xc = if raw > n as u128 + 1 {
                    n as u128 + 1
                } else {
                    raw
                };
            } else {
                return false;
            }
        } else if is_dig {
            let d: u32 = code - 48;
            proof {
                assert(pow10((sig + 1) as nat) == 10 * pow10(sig as nat));
                if lead {
                    assert(pow10(sig as nat) == 10 * pow10((sig - 1) as nat));
                }
                m_true = m_true * 10 + digit_value(ch);
            }
            if lead {
                sig = sig + 1;
                if d != 0 {
                    clean = false;
                }
            } else {
                if d != 0 {
                    lead = true;
                    sig = 1;
                    clean = d == 1;
                }
            }
            if seen_dot {
                fl = fl + 1;
            }
            seen_digit = true;
        } else if code == 46 && !seen_dot {
            seen_dot = true;
        } else if (code == 101 || code == 69) && seen_digit {
            in_exp = true;
            exp_sign_ok = true;
        } else {
            proof {
                assert(!is_digit(s@[i as int]));
                assert(!shape_ok(body, false));
            }
            return false;
        }
        i = i + 1;
    }
    proof {
        assert(s@.skip(n as int) =~= Seq::<char>::empty());
    }

    // the whole numeral was scanned; settle the shape
    if in_exp && (exp_sign_ok || !xseen) {
        return false;
    }
    if !seen_digit {
        return false;
    }
    proof {
        assert(shape_ok(body, false));
        assert(mantissa_value(body, 0) == m_true);
        assert(frac_len(body) == fl);
    }
    let ghost x_val: int = exp_value(body);
    proof {
        if in_exp {
            assert(x_val == (if eneg {
                -(x_true as int)
            } else {
                x_true as int
            }));
        } else {
            assert(x_val == 0);
        }
    }

    // settle the value
    if neg {
        // a negative numeral is in range only at value zero
        return !lead;
    }
    if !lead {
        return true;
    }
    let ghost e: int = x_val - fl as int;
    if in_exp && !eneg {
        // positive exponent: in range only when it stays below the
        // fraction's length
        if xc > fl as u128 {
            proof {
                assert(x_true > fl as nat);
                assert(e > 0);
            }
            return false;
        }
        let k: usize = fl - (xc as usize);
        proof {
            assert(x_true <= fl as nat);
            assert(k as nat == (-e) as nat);
            lemma_digits_vs_pow(m_true, sig as nat, k as nat);
        }
        sig <= k || (sig == k + 1 && clean)
    } else {
        // the exponent is absent or negative: the value is
        // m_true / 10^(fl + x_true)
        let kk: u128 = fl as u128 + xc;
        proof {
            let ktrue: nat = fl as nat + x_true;
            assert(e <= 0 && (-e) as nat == ktrue);
            lemma_digits_vs_pow(m_true, sig as nat, ktrue);
            if x_true > n as nat + 1 {
                assert(sig as u128 <= kk);
                assert(sig as nat <= ktrue);
                assert(sig as u128 != kk + 1);
                assert(sig as nat != ktrue + 1);
            }
        }
        sig as u128 <= kk || (sig as u128 == kk + 1 && clean)
    }
}

/// Accepts a gain argument exactly when it is a decimal numeral of the
/// float grammar whose exact rational value lies in the range 0 to 1.
/// Validation is deliberately by the exact value, not by the value after
/// rounding to a binary float; the module header states the two slivers
/// of numerals on which the rules differ.
pub fn linear_gain_validator(val: String) -> (r: Result<(), String>)
    ensures
        r is Ok <==> spec_valid_gain(val@),
        r matches Err(m) ==> m@ == "Gain must be a float between 0.0 and 1.0"@,
{
    if valid_gain(val.as_str()) {
        Ok(())
    } else {
        Err("Gain must be a float between 0.0 and 1.0".to_owned())
    }
}

} // verus!
