//! Clock times: the strict `HH:MM` form, half-hour rounding, and the
//! twelve-hour display form.

use vstd::prelude::*;
use crate::text::{
    all_digits, chars_of, decimal_of, digit_at, digit_value, digits_value, is_digit,
    is_u32_number, occurrence, parse_u32, push_char, push_decimal, sole_at, Occurrence,
};

verus! {

/// The hour and minute of a loose `H:M` text: one colon, a decimal number that
/// fits in a `u32` on each side.
pub open spec fn clock_parts(s: Seq<char>) -> Option<(nat, nat)> {
    if exists|k: int| sole_at(s, k, ':') {
        let k = choose|k: int| sole_at(s, k, ':');
        let h = s.subrange(0, k);
        let m = s.subrange(k + 1, s.len() as int);
        if is_u32_number(h) && is_u32_number(m) {
            Some((digits_value(h), digits_value(m)))
        } else {
            None
        }
    } else {
        None
    }
}

/// `hour + minute / 60` in half hours, rounded to the nearest half hour with
/// ties going up: `round(2 * (hour + minute / 60))`.
pub open spec fn half_hours_of(hour: nat, minute: nat) -> nat {
    (60 * hour + minute + 15) / 30
}

/// The rounded time of a loose `H:M` text, in half hours.
pub open spec fn quantized(s: Seq<char>) -> Option<nat> {
    match clock_parts(s) {
        Some(p) => Some(half_hours_of(p.0, p.1)),
        None => None,
    }
}

/// A time that is not a loose `H:M` text; it carries the offending text.
#[derive(Debug, PartialEq, Eq)]
pub struct TimeFormatError {
    pub raw: String,
}

/// Rounds a time given as `H:M` to the nearest half hour. The result counts
/// half hours since midnight: `19` stands for 9.5 hours.
pub fn quantize(time: &str) -> (r: Result<u64, TimeFormatError>)
    ensures
        match r {
            Ok(q) => quantized(time@) == Some(q as nat),
            Err(e) => quantized(time@) is None && e.raw@ == time@,
        },
{
    let v = chars_of(time);
    let n = v.len();
    match occurrence(&v, ':') {
        Occurrence::Once(k) => {
            proof {
                let c = choose|c: int| sole_at(time@, c, ':');
                assert(c == k as int);
            }
            let h = parse_u32(&v, 0, k);
            let m = parse_u32(&v, k + 1, n);
            match (h, m) {
                (Some(h), Some(m)) => {
                    let q = (60 * (h as u64) + (m as u64) + 15) / 30;
                    Ok(q)
                },
                _ => Err(TimeFormatError { raw: time.to_owned() }),
            }
        },
        _ => Err(TimeFormatError { raw: time.to_owned() }),
    }
}

/// The display form `H:MMam` / `H:MMpm` of a time counted in half hours.
/// Hour `0` shows as `12 am`, hour `12` as `12 pm`, later hours lose twelve.
pub open spec fn twelve_hour_text(q: nat) -> Seq<char> {
    let h = q / 2;
    let shown: nat = if h == 0 {
        12
    } else if h <= 12 {
        h
    } else {
        (h - 12) as nat
    };
    let minutes = if q % 2 == 0 {
        seq!['0', '0']
    } else {
        seq!['3', '0']
    };
    let suffix = if h < 12 {
        seq!['a', 'm']
    } else {
        seq!['p', 'm']
    };
    decimal_of(shown) + seq![':'] + minutes + suffix
}

/// Shows a time counted in half hours in twelve-hour form, e.g. `1:30pm`.
pub fn to_12_hour(half_hours: u64) -> (r: String)
    ensures
        r@ == twelve_hour_text(half_hours as nat),
{
    let h = half_hours / 2;
    let shown: u64 = if h == 0 {
        12
    } else if h <= 12 {
        h
    } else {
        h - 12
    };
    let mut r = String::new();
    push_decimal(&mut r, shown as u128);
    push_char(&mut r, ':');
    if half_hours % 2 == 0 {
        push_char(&mut r, '0');
    } else {
        push_char(&mut r, '3');
    }
    push_char(&mut r, '0');
    if h < 12 {
        push_char(&mut r, 'a');
    } else {
        push_char(&mut r, 'p');
    }
    push_char(&mut r, 'm');
    r
}

/// The hour of a strict `HH:MM` text.
pub open spec fn clock_hour(s: Seq<char>) -> nat {
    digit_value(s[0]) * 10 + digit_value(s[1])
}

/// The minute of a strict `HH:MM` text.
pub open spec fn clock_minute(s: Seq<char>) -> nat {
    digit_value(s[3]) * 10 + digit_value(s[4])
}

/// `s` is a zero-padded 24-hour time `HH:MM`, hour `00..23`, minute `00..59`.
pub open spec fn is_clock(s: Seq<char>) -> bool {
    &&& s.len() == 5
    &&& is_digit(s[0]) && is_digit(s[1]) && s[2] == ':' && is_digit(s[3]) && is_digit(s[4])
    &&& clock_hour(s) <= 23
    &&& clock_minute(s) <= 59
}

/// Minutes since midnight of a strict `HH:MM` text.
pub open spec fn clock_minutes(s: Seq<char>) -> nat {
    60 * clock_hour(s) + clock_minute(s)
}

/// Reads a strict `HH:MM` time as minutes since midnight.
pub fn read_clock(s: &str) -> (r: Option<u32>)
    ensures
        r is Some <==> is_clock(s@),
        r matches Some(m) ==> m == clock_minutes(s@),
{
    let v = chars_of(s);
    if v.len() != 5 || v[2] != ':' {
        return None;
    }
    match (digit_at(&v, 0), digit_at(&v, 1), digit_at(&v, 3), digit_at(&v, 4)) {
        (Some(h1), Some(h2), Some(m1), Some(m2)) => {
            let hour = h1 * 10 + h2;
            let minute = m1 * 10 + m2;
            if hour <= 23 && minute <= 59 {
                Some(60 * hour + minute)
            } else {
                None
            }
        },
        _ => None,
    }
}

/// Every strict `HH:MM` time reads as a loose `H:M` time with the same hour
/// and minute, and rounds to a value below 24 hours when it is before 23:45.
pub proof fn lemma_clock_rounds_within_day(s: Seq<char>)
    requires
        is_clock(s),
        clock_minutes(s) < 23 * 60 + 45,
    ensures
        quantized(s) == Some(half_hours_of(clock_hour(s), clock_minute(s))),
        half_hours_of(clock_hour(s), clock_minute(s)) <= 47,
{
    assert(sole_at(s, 2, ':'));
    let k = choose|k: int| sole_at(s, k, ':');
    assert(k == 2);
    let h = s.subrange(0, 2);
    let m = s.subrange(3, 5);
    assert(h.drop_last() == seq![s[0]]);
    assert(seq![s[0]].drop_last() == Seq::<char>::empty());
    assert(digits_value(Seq::<char>::empty()) == 0);
    assert(digits_value(seq![s[0]]) == digit_value(s[0]));
    assert(digits_value(h) == clock_hour(s));
    assert(m.drop_last() == seq![s[3]]);
    assert(seq![s[3]].drop_last() == Seq::<char>::empty());
    assert(digits_value(seq![s[3]]) == digit_value(s[3]));
    assert(digits_value(m) == clock_minute(s));
    assert(all_digits(h));
    assert(all_digits(m));
}

} // verus!
