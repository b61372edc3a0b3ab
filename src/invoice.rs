//! Turning recorded sessions into billing rows and totals.

use vstd::prelude::*;
use crate::clock::{clock_parts, half_hours_of, quantize, quantized, to_12_hour, twelve_hour_text};
use crate::entry::TimeEntry;
use crate::money::Rate;
use crate::text::{is_u32_number, sole_at};

verus! {

/// One billed session. Hours are counted in half hours, money in thousandths
/// of the currency unit.
#[derive(Debug, PartialEq, Eq)]
pub struct BillingRow {
    pub date: String,
    pub description: String,
    pub start_display: String,
    pub end_display: String,
    pub rate: Rate,
    pub billed_half_hours: i64,
    pub amount_mills: i128,
}

/// The rows of an invoice, in the order of the sessions, and their totals.
#[derive(Debug, PartialEq, Eq)]
pub struct Aggregate {
    pub rows: Vec<BillingRow>,
    pub total_half_hours: i128,
    pub total_mills: i128,
}

/// Which time of a session could not be read.
#[derive(Clone, Copy, Debug, PartialEq, Eq)]
pub enum TimeField {
    Start,
    End,
}

/// Why no invoice could be computed.
#[derive(Debug, PartialEq, Eq)]
pub enum AggregateError {
    /// The session at `index` holds a time that is not `H:M`.
    Unparsable { index: usize, field: TimeField, raw: String },
    /// The total amount does not fit in an `i128` of thousandths.
    Overflow,
}

/// Both times of the session can be read.
pub open spec fn entry_parses(e: TimeEntry) -> bool {
    quantized(e.time_start@) is Some && quantized(e.time_end@) is Some
}

/// The half hours billed for a session: its rounded end less its rounded start.
pub open spec fn billed_half_hours(e: TimeEntry) -> int {
    quantized(e.time_end@)->0 - quantized(e.time_start@)->0
}

/// The half hours billed for all the sessions.
pub open spec fn total_billed(es: Seq<TimeEntry>) -> int
    decreases es.len(),
{
    if es.len() == 0 {
        0
    } else {
        total_billed(es.drop_last()) + billed_half_hours(es.last())
    }
}

/// The amount, in thousandths, of `half_hours` at `rate`:
/// `half_hours / 2 * cents / 100`.
pub open spec fn amount_mills(half_hours: int, rate: Rate) -> int {
    half_hours * rate.cents * 5
}

/// `row` bills session `e` at `rate`.
pub open spec fn row_for(e: TimeEntry, rate: Rate, row: BillingRow) -> bool {
    &&& row.date@ == e.date@
    &&& row.description@ == e.description@
    &&& row.start_display@ == twelve_hour_text(quantized(e.time_start@)->0)
    &&& row.end_display@ == twelve_hour_text(quantized(e.time_end@)->0)
    &&& row.rate == rate
    &&& row.billed_half_hours == billed_half_hours(e)
    &&& row.amount_mills == amount_mills(billed_half_hours(e), rate)
}

/// A rounded time is below 2^34 half hours.
proof fn lemma_quantized_bound(s: Seq<char>)
    requires
        quantized(s) is Some,
    ensures
        quantized(s)->0 < 0x4_0000_0000,
{
    let p = clock_parts(s)->0;
    let k = choose|k: int| sole_at(s, k, ':');
    assert(is_u32_number(s.subrange(0, k)));
    assert(is_u32_number(s.subrange(k + 1, s.len() as int)));
    assert(p.0 <= u32::MAX && p.1 <= u32::MAX);
    assert(half_hours_of(p.0, p.1) < 0x4_0000_0000) by (nonlinear_arith)
        requires
            p.0 <= 0xffff_ffff,
            p.1 <= 0xffff_ffff,
            half_hours_of(p.0, p.1) == (60 * p.0 + p.1 + 15) / 30,
    ;
}

fn quantize_field(e: &TimeEntry, index: usize, field: TimeField) -> (r: Result<u64, AggregateError>)
    ensures
        ({
            let s = match field {
                TimeField::Start => e.time_start@,
                TimeField::End => e.time_end@,
            };
            match r {
                Ok(q) => quantized(s) == Some(q as nat) && q < 0x4_0000_0000,
                Err(err) => quantized(s) is None && err == (AggregateError::Unparsable {
                    index,
                    field,
                    raw: err->raw,
                }) && err->raw@ == s,
            }
        }),
{
    let text = match field {
        TimeField::Start => &e.time_start,
        TimeField::End => &e.time_end,
    };
    match quantize(text.as_str()) {
        Ok(q) => {
            proof {
                lemma_quantized_bound(text@);
            }
            Ok(q)
        },
        Err(err) => Err(AggregateError::Unparsable { index, field, raw: err.raw }),
    }
}

/// `r` is the outcome of billing `entries` at `rate`: every row bills its
/// session and the totals add them up; or the first session with a time that
/// cannot be read, naming which time; or, when every time reads, a total
/// amount that does not fit.
pub open spec fn aggregate_outcome(
    entries: Seq<TimeEntry>,
    rate: Rate,
    r: Result<Aggregate, AggregateError>,
) -> bool {
    match r {
        Ok(a) => {
            &&& forall|i: int| 0 <= i < entries.len() ==> entry_parses(#[trigger] entries[i])
            &&& a.rows@.len() == entries.len()
            &&& forall|i: int|
                0 <= i < entries.len() ==> row_for(
                    #[trigger] entries[i],
                    rate,
                    a.rows@[i],
                )
            &&& a.total_half_hours == total_billed(entries)
            &&& a.total_mills == amount_mills(total_billed(entries), rate)
        },
        Err(AggregateError::Unparsable { index, field, raw }) => {
            &&& index < entries.len()
            &&& forall|i: int| 0 <= i < index ==> entry_parses(#[trigger] entries[i])
            &&& match field {
                TimeField::Start => quantized(entries[index as int].time_start@) is None
                    && raw@ == entries[index as int].time_start@,
                TimeField::End => quantized(entries[index as int].time_start@) is Some
                    && quantized(entries[index as int].time_end@) is None && raw@
                    == entries[index as int].time_end@,
            }
        },
        Err(AggregateError::Overflow) => {
            &&& forall|i: int| 0 <= i < entries.len() ==> entry_parses(#[trigger] entries[i])
            &&& !(i128::MIN <= amount_mills(total_billed(entries), rate) <= i128::MAX)
        },
    }
}

/// Bills every session at `rate`, in the given order. Fails on the first
/// session with a time that cannot be read, and when the total amount does not
/// fit; no partial result is given.
pub fn aggregate(entries: &Vec<TimeEntry>, rate: Rate) -> (r: Result<Aggregate, AggregateError>)
    ensures
        aggregate_outcome(entries@, rate, r),
{
    let mut rows: Vec<BillingRow> = Vec::new();
    let mut total: i128 = 0;
    let n = entries.len();
    let mut i: usize = 0;
    while i < n
        invariant
            n == entries@.len(),
            i <= n,
            rows@.len() == i,
            forall|j: int| 0 <= j < i ==> entry_parses(#[trigger] entries@[j]),
            forall|j: int| 0 <= j < i ==> row_for(#[trigger] entries@[j], rate, rows@[j]),
            total == total_billed(entries@.take(i as int)),
            -(i as int) * 0x4_0000_0000 <= total <= (i as int) * 0x4_0000_0000,
        decreases n - i,
    {
        let e = &entries[i];
        let start = quantize_field(e, i, TimeField::Start)?;
        let end = quantize_field(e, i, TimeField::End)?;
        let billed: i64 = end as i64 - start as i64;
        let cents = rate.cents as i128;
        assert(-0x4_0000_0000 <= billed <= 0x4_0000_0000);
        assert(-0x4_0000_0000_0000_0000_0000_0000 <= billed * cents <= 0x4_0000_0000_0000_0000_0000_0000) by (nonlinear_arith)
            requires
                -0x4_0000_0000 <= billed <= 0x4_0000_0000,
                0 <= cents <= 0xffff_ffff_ffff_ffff,
        ;
        let amount: i128 = billed as i128 * cents * 5;
        proof {
            assert(entries@.take(i + 1).drop_last() == entries@.take(i as int));
            assert(-0x4_0000_0000 <= billed <= 0x4_0000_0000);
            assert(-(i as int) * 0x4_0000_0000 - 0x4_0000_0000 == -((i + 1) as int) * 0x4_0000_0000);
        }
        let row = BillingRow {
            date: e.date.clone(),
            description: e.description.clone(),
            start_display: to_12_hour(start),
            end_display: to_12_hour(end),
            rate,
            billed_half_hours: billed,
            amount_mills: amount,
        };
        rows.push(row);
        total = total + billed as i128;
        i = i + 1;
    }
    assert(entries@.take(n as int) == entries@);
    assert(total == total_billed(entries@));
    let c5 = rate.cents as i128 * 5;
    assert(total * c5 == amount_mills(total as int, rate)) by (nonlinear_arith)
        requires
            c5 == rate.cents * 5,
    ;
    match total.checked_mul(c5) {
        Some(total_mills) => Ok(Aggregate { rows, total_half_hours: total, total_mills }),
        None => Err(AggregateError::Overflow),
    }
}

} // verus!
