//! Character-level helpers over the `Seq<char>` view of strings.

use vstd::prelude::*;

verus! {

/// An ASCII decimal digit.
pub open spec fn is_digit(c: char) -> bool {
    '0' <= c && c <= '9'
}

/// Every character of `s` is a decimal digit.
pub open spec fn all_digits(s: Seq<char>) -> bool {
    forall|i: int| 0 <= i < s.len() ==> is_digit(#[trigger] s[i])
}

/// The numeric value of one digit character.
pub open spec fn digit_value(c: char) -> nat {
    ((c as u32) - ('0' as u32)) as nat
}

/// The value of a string of decimal digits, most significant first.
pub open spec fn digits_value(s: Seq<char>) -> nat
    decreases s.len(),
{
    if s.len() == 0 {
        0
    } else {
        digits_value(s.drop_last()) * 10 + digit_value(s.last())
    }
}

/// The character of a digit value below ten.
pub open spec fn digit_char(d: nat) -> char {
    ((d + ('0' as u32)) as u32) as char
}

/// The decimal notation of `n`, without leading zeros.
pub open spec fn decimal_of(n: nat) -> Seq<char>
    decreases n,
{
    if n < 10 {
        seq![digit_char(n)]
    } else {
        decimal_of(n / 10).push(digit_char(n % 10))
    }
}

/// Relies on `String::push`: appends one character.
#[verifier::external_body]
pub(crate) fn push_char(s: &mut String, c: char)
    ensures
        final(s)@ == old(s)@.push(c),
{
    s.push(c);
}

/// The characters of `s`, in order.
pub fn chars_of(s: &str) -> (r: Vec<char>)
    ensures
        r@ == s@,
{
    let mut r: Vec<char> = Vec::new();
    for c in it: s.chars()
        invariant
            r@ == it.seq().take(it.index() as int),
    {
        r.push(c);
    }
    r
}

pub fn digit_to_char(d: u8) -> (c: char)
    requires
        d < 10,
    ensures
        c == digit_char(d as nat),
        is_digit(c),
{
    ((d + 48) as char)
}

/// Appends the decimal notation of `n` to `out`.
pub fn push_decimal(out: &mut String, n: u128)
    ensures
        final(out)@ == old(out)@ + decimal_of(n as nat),
    decreases n,
{
    if n >= 10 {
        push_decimal(out, n / 10);
    }
    push_char(out, digit_to_char((n % 10) as u8));
    proof {
        assert(decimal_of(n as nat) == if n < 10 { seq![digit_char(n as nat)] } else {
            decimal_of((n / 10) as nat).push(digit_char((n % 10) as nat))
        });
    }
}

/// `s` is a non-empty run of digits whose value fits in a `u32`.
pub open spec fn is_u32_number(s: Seq<char>) -> bool {
    s.len() > 0 && all_digits(s) && digits_value(s) <= u32::MAX
}

/// Reads `v[lo..hi]` as a decimal number that fits in a `u32`.
pub fn parse_u32(v: &Vec<char>, lo: usize, hi: usize) -> (r: Option<u32>)
    requires
        lo <= hi <= v@.len(),
    ensures
        r is Some <==> is_u32_number(v@.subrange(lo as int, hi as int)),
        r matches Some(n) ==> n == digits_value(v@.subrange(lo as int, hi as int)),
{
    if lo == hi {
        return None;
    }
    let ghost s = v@.subrange(lo as int, hi as int);
    let mut acc: u64 = 0;
    let mut i: usize = lo;
    while i < hi
        invariant
            lo <= i <= hi <= v@.len(),
            s == v@.subrange(lo as int, hi as int),
            all_digits(v@.subrange(lo as int, i as int)),
            acc == digits_value(v@.subrange(lo as int, i as int)),
            acc <= u32::MAX,
        decreases hi - i,
    {
        let c = v[i];
        proof {
            assert(v@.subrange(lo as int, i + 1).drop_last() == v@.subrange(lo as int, i as int));
        }
        if !('0' <= c && c <= '9') {
            proof {
                assert(s[i - lo] == c);
            }
            return None;
        }
        acc = acc * 10 + (c as u32 - 48) as u64;
        if acc > u32::MAX as u64 {
            proof {
                assert(s.take(i - lo + 1) == v@.subrange(lo as int, i + 1));
                if all_digits(s) {
                    lemma_digits_prefix_le(s, i - lo + 1);
                }
            }
            return None;
        }
        i = i + 1;
    }
    assert(v@.subrange(lo as int, i as int) == s);
    Some(acc as u32)
}

/// A prefix of a digit string has no larger value.
pub proof fn lemma_digits_prefix_le(s: Seq<char>, k: int)
    requires
        0 <= k <= s.len(),
        all_digits(s),
    ensures
        digits_value(s.take(k)) <= digits_value(s),
    decreases s.len() - k,
{
    if k < s.len() {
        lemma_digits_prefix_le(s, k + 1);
        assert(s.take(k + 1).drop_last() == s.take(k));
        assert(digits_value(s.take(k + 1)) == digits_value(s.take(k)) * 10 + digit_value(s[k]));
    }
    else {
        assert(s.take(k) == s);
    }
}

/// `s` holds exactly one `c`, at index `k`.
pub open spec fn sole_at(s: Seq<char>, k: int, c: char) -> bool {
    &&& 0 <= k < s.len()
    &&& s[k] == c
    &&& forall|j: int| 0 <= j < s.len() && j != k ==> s[j] != c
}

/// How often a character occurs in a text: not at all, once (where), or more.
#[derive(Debug, PartialEq, Eq)]
pub enum Occurrence {
    Absent,
    Once(usize),
    Several,
}

/// Finds whether `c` occurs in `v` not at all, exactly once, or more often.
pub fn occurrence(v: &Vec<char>, c: char) -> (r: Occurrence)
    ensures
        match r {
            Occurrence::Absent => forall|j: int| 0 <= j < v@.len() ==> v@[j] != c,
            Occurrence::Once(k) => sole_at(v@, k as int, c),
            Occurrence::Several => (exists|j: int| 0 <= j < v@.len() && v@[j] == c) && forall|
                k: int,
            | !sole_at(v@, k, c),
        },
{
    let n = v.len();
    let mut found: Option<usize> = None;
    let mut i: usize = 0;
    while i < n
        invariant
            n == v@.len(),
            i <= n,
            match found {
                Some(k) => k < i && v@[k as int] == c && forall|j: int|
                    0 <= j < i && j != k ==> v@[j] != c,
                None => forall|j: int| 0 <= j < i ==> v@[j] != c,
            },
        decreases n - i,
    {
        if v[i] == c {
            if let Some(k) = found {
                proof {
                    assert forall|k2: int| !sole_at(v@, k2, c) by {
                        if sole_at(v@, k2, c) {
                            assert(k2 == k as int || k2 == i as int);
                        }
                    }
                }
                return Occurrence::Several;
            }
            found = Some(i);
        }
        i = i + 1;
    }
    match found {
        None => Occurrence::Absent,
        Some(k) => Occurrence::Once(k),
    }
}

/// The value of the digit at `v[i]`, if it is one.
pub fn digit_at(v: &Vec<char>, i: usize) -> (r: Option<u32>)
    requires
        i < v@.len(),
    ensures
        r is Some <==> is_digit(v@[i as int]),
        r matches Some(d) ==> d == digit_value(v@[i as int]) && d < 10,
{
    let c = v[i];
    if '0' <= c && c <= '9' {
        Some(c as u32 - 48)
    } else {
        None
    }
}

/// What `str::trim` leaves of a text.
pub uninterp spec fn trim_of(s: Seq<char>) -> Seq<char>;

/// Relies on `str::trim`: the text without its leading and trailing
/// whitespace, which depends on the text alone.
#[verifier::external_body]
pub(crate) fn trim_text(s: &str) -> (r: String)
    ensures
        r@ == trim_of(s@),
{
    s.trim().to_owned()
}

} // verus!
