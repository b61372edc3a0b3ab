//! Exact money: an hourly rate in cents, amounts in thousandths, and their
//! shortest decimal text.

use vstd::prelude::*;
use crate::text::{
    all_digits, chars_of, decimal_of, digit_at, digit_char, digit_to_char, digit_value,
    digits_value, is_u32_number, occurrence, parse_u32, push_char, push_decimal, sole_at,
    Occurrence,
};

verus! {

/// An hourly rate, in cents.
#[derive(Clone, Copy, Debug, PartialEq, Eq)]
pub struct Rate {
    pub cents: u64,
}

/// The cents written by at most two digits after a decimal point.
pub open spec fn fraction_cents(f: Seq<char>) -> nat {
    if f.len() == 0 {
        0
    } else if f.len() == 1 {
        digit_value(f[0]) * 10
    } else {
        digit_value(f[0]) * 10 + digit_value(f[1])
    }
}

/// The cents of a rate written `W` or `W.F`: `W` a run of digits whose value
/// fits in a `u32`, `F` at most two digits.
pub open spec fn rate_cents(s: Seq<char>) -> Option<nat> {
    if exists|k: int| sole_at(s, k, '.') {
        let k = choose|k: int| sole_at(s, k, '.');
        let w = s.subrange(0, k);
        let f = s.subrange(k + 1, s.len() as int);
        if is_u32_number(w) && all_digits(f) && f.len() <= 2 {
            Some(digits_value(w) * 100 + fraction_cents(f))
        } else {
            None
        }
    } else if is_u32_number(s) {
        Some(digits_value(s) * 100)
    } else {
        None
    }
}

/// A rate text that is not a decimal number of the accepted shape.
#[derive(Debug, PartialEq, Eq)]
pub struct RateError {
    pub raw: String,
}

impl Rate {
    /// Reads a rate such as `20`, `20.5` or `20.25`.
    pub fn parse(text: &str) -> (r: Result<Rate, RateError>)
        ensures
            match r {
                Ok(rate) => rate_cents(text@) == Some(rate.cents as nat),
                Err(e) => rate_cents(text@) is None && e.raw@ == text@,
            },
    {
        let v = chars_of(text);
        let n = v.len();
        match occurrence(&v, '.') {
            Occurrence::Once(k) => {
                proof {
                    let c = choose|c: int| sole_at(text@, c, '.');
                    assert(c == k as int);
                }
                let whole = parse_u32(&v, 0, k);
                let flen = n - k - 1;
                let ghost f = text@.subrange(k + 1, n as int);
                let frac: Option<u64> = if flen == 0 {
                    Some(0)
                } else if flen == 1 {
                    assert(f[0] == v@[k + 1]);
                    match digit_at(&v, k + 1) {
                        Some(d) => Some(d as u64 * 10),
                        None => None,
                    }
                } else if flen == 2 {
                    assert(f[0] == v@[k + 1]);
                    assert(f[1] == v@[k + 2]);
                    match (digit_at(&v, k + 1), digit_at(&v, k + 2)) {
                        (Some(d1), Some(d2)) => Some(d1 as u64 * 10 + d2 as u64),
                        _ => None,
                    }
                } else {
                    None
                };
                match (whole, frac) {
                    (Some(w), Some(c)) => Ok(Rate { cents: w as u64 * 100 + c }),
                    _ => Err(RateError { raw: text.to_owned() }),
                }
            },
            _ => {
                assert(v@.subrange(0, n as int) == text@);
                match parse_u32(&v, 0, n) {
                    Some(w) => Ok(Rate { cents: w as u64 * 100 }),
                    None => Err(RateError { raw: text.to_owned() }),
                }
            },
        }
    }
}

/// The digits after the point of a fraction given in thousandths, trailing
/// zeros dropped; empty (and no point) for a whole number.
pub open spec fn fraction_text(f: nat) -> Seq<char> {
    if f == 0 {
        seq![]
    } else if f % 100 == 0 {
        seq!['.', digit_char(f / 100)]
    } else if f % 10 == 0 {
        seq!['.', digit_char(f / 100), digit_char((f / 10) % 10)]
    } else {
        seq!['.', digit_char(f / 100), digit_char((f / 10) % 10), digit_char(f % 10)]
    }
}

/// The shortest decimal text of an amount given in thousandths: `30000`
/// shows as `30`, `22500` as `22.5`, `-1250` as `-1.25`.
pub open spec fn mills_text(m: int) -> Seq<char> {
    let a: nat = if m < 0 {
        (-m) as nat
    } else {
        m as nat
    };
    let sign = if m < 0 {
        seq!['-']
    } else {
        seq![]
    };
    sign + decimal_of(a / 1000) + fraction_text(a % 1000)
}

/// The text of a rate: its value in currency units, e.g. `20` or `20.5`.
pub open spec fn rate_text(r: Rate) -> Seq<char> {
    mills_text(r.cents * 10)
}

fn push_digit(out: &mut String, d: u128)
    requires
        d < 10,
    ensures
        final(out)@ == old(out)@.push(digit_char(d as nat)),
{
    push_char(out, digit_to_char(d as u8));
}

/// Appends the shortest decimal text of an amount given in thousandths.
pub fn push_mills(out: &mut String, m: i128)
    ensures
        final(out)@ == old(out)@ + mills_text(m as int),
{
    let a: u128 = if m < 0 {
        ((-(m + 1)) as u128) + 1
    } else {
        m as u128
    };
    if m < 0 {
        push_char(out, '-');
    }
    push_decimal(out, a / 1000);
    let f = a % 1000;
    if f != 0 {
        push_char(out, '.');
        push_digit(out, f / 100);
        if f % 100 != 0 {
            push_digit(out, (f / 10) % 10);
            if f % 10 != 0 {
                push_digit(out, f % 10);
            }
        }
    }
    assert(out@ =~= old(out)@ + mills_text(m as int));
}

} // verus!
