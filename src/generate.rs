//! Producing the invoice document from its metadata, the recorded sessions and
//! a template.

use vstd::prelude::*;
use crate::clock::{quantized, twelve_hour_text};
use crate::entry::{local_today, TimeEntry};
use crate::invoice::{
    aggregate, aggregate_outcome, amount_mills, billed_half_hours, entry_parses, row_for,
    total_billed, AggregateError,
};
use crate::money::{mills_text, push_mills, rate_cents, Rate, RateError};
use crate::template::{
    apply_fields, field_views, injected, render, row_line, row_lines, table_line, trim_values,
};
use crate::text::{trim_of, trim_text};

verus! {

/// The anchor in a template after which the billing rows are inserted.
pub const ROW_MARKER: &'static str = "% COLUMN START";

/// The billing context of one invoice, as entered.
#[derive(Debug, PartialEq, Eq)]
pub struct InvoiceInfo {
    pub title: String,
    pub sender_name: String,
    pub location_name: String,
    pub location_street: String,
    pub location_city: String,
    pub parent_name: String,
    pub student_name: String,
    pub bill_to_street: String,
    pub bill_to_city: String,
    pub invoice_num: String,
    pub rate: String,
    pub payment_method: String,
}

/// The placeholders of an invoice and their values, in the order they are
/// substituted: the metadata, today's date, and the total amount as both the
/// total and the amount paid.
pub open spec fn invoice_field_views(info: InvoiceInfo, today: Seq<char>, total: Seq<char>) -> Seq<
    (Seq<char>, Seq<char>),
> {
    seq![
        ("TITLE"@, info.title@),
        ("SENDER_NAME"@, info.sender_name@),
        ("LOCATION_NAME"@, info.location_name@),
        ("LOCATION_STREET_ADDRESS"@, info.location_street@),
        ("LOCATION_CITY_STATE_ZIP"@, info.location_city@),
        ("INVOICE_NUMBER"@, info.invoice_num@),
        ("DATE"@, today),
        ("PARENT_NAME"@, info.parent_name@),
        ("STUDENT_NAME"@, info.student_name@),
        ("BILL_TO_STREET_ADDRESS"@, info.bill_to_street@),
        ("BILL_TO_CITY_STATE_ZIP"@, info.bill_to_city@),
        ("TOTAL"@, total),
        ("PAID"@, total),
        ("PAYMENT_METHOD"@, info.payment_method@),
    ]
}

/// The invoice fields for the given metadata, date and total amount (in
/// thousandths).
pub fn invoice_fields(info: &InvoiceInfo, today: &str, total_mills: i128) -> (r: Vec<
    (String, String),
>)
    ensures
        field_views(r@) == invoice_field_views(*info, today@, mills_text(total_mills as int)),
{
    let mut total = String::new();
    push_mills(&mut total, total_mills);
    let mut r: Vec<(String, String)> = Vec::new();
    r.push(("TITLE".to_owned(), info.title.clone()));
    r.push(("SENDER_NAME".to_owned(), info.sender_name.clone()));
    r.push(("LOCATION_NAME".to_owned(), info.location_name.clone()));
    r.push(("LOCATION_STREET_ADDRESS".to_owned(), info.location_street.clone()));
    r.push(("LOCATION_CITY_STATE_ZIP".to_owned(), info.location_city.clone()));
    r.push(("INVOICE_NUMBER".to_owned(), info.invoice_num.clone()));
    r.push(("DATE".to_owned(), today.to_owned()));
    r.push(("PARENT_NAME".to_owned(), info.parent_name.clone()));
    r.push(("STUDENT_NAME".to_owned(), info.student_name.clone()));
    r.push(("BILL_TO_STREET_ADDRESS".to_owned(), info.bill_to_street.clone()));
    r.push(("BILL_TO_CITY_STATE_ZIP".to_owned(), info.bill_to_city.clone()));
    r.push(("TOTAL".to_owned(), total.clone()));
    r.push(("PAID".to_owned(), total.clone()));
    r.push(("PAYMENT_METHOD".to_owned(), info.payment_method.clone()));
    assert(field_views(r@) =~= invoice_field_views(*info, today@, mills_text(total_mills as int)));
    r
}

/// The line that bills session `e` at `rate`.
pub open spec fn bill_line(e: TimeEntry, rate: Rate) -> Seq<char> {
    table_line(
        e.date@,
        e.description@,
        twelve_hour_text(quantized(e.time_start@)->0),
        twelve_hour_text(quantized(e.time_end@)->0),
        rate,
        amount_mills(billed_half_hours(e), rate),
    )
}

/// The lines that bill the sessions at `rate`, in order.
pub open spec fn bill_lines(entries: Seq<TimeEntry>, rate: Rate) -> Seq<Seq<char>> {
    entries.map_values(|e: TimeEntry| bill_line(e, rate))
}

/// The rate of the metadata, read after trimming.
pub open spec fn info_rate(info: InvoiceInfo) -> Option<Rate> {
    match rate_cents(trim_of(info.rate@)) {
        Some(c) => Some(Rate { cents: c as u64 }),
        None => None,
    }
}

/// Why no invoice was produced.
#[derive(Debug, PartialEq, Eq)]
pub enum InvoiceError {
    /// The rate of the metadata is not a decimal number.
    Rate(RateError),
    /// The sessions could not be billed.
    Aggregate(AggregateError),
}

/// `r` is the invoice for `info` and `entries` dated `today`: the template
/// with its fields substituted and the billing lines after the row marker;
/// or the reason why there is none.
pub open spec fn invoice_outcome(
    template: Seq<char>,
    info: InvoiceInfo,
    entries: Seq<TimeEntry>,
    today: Seq<char>,
    r: Result<String, InvoiceError>,
) -> bool {
    match info_rate(info) {
        None => r matches Err(InvoiceError::Rate(e)) && e.raw@ == trim_of(info.rate@),
        Some(rate) => match r {
            Ok(doc) => {
                let total = amount_mills(total_billed(entries), rate);
                &&& forall|i: int| 0 <= i < entries.len() ==> entry_parses(#[trigger] entries[i])
                &&& i128::MIN <= total <= i128::MAX
                &&& doc@ == injected(
                    apply_fields(
                        template,
                        trim_values(invoice_field_views(info, today, mills_text(total))),
                    ),
                    ROW_MARKER@,
                    bill_lines(entries, rate),
                )
            },
            Err(InvoiceError::Aggregate(e)) => aggregate_outcome(entries, rate, Err(e)),
            Err(InvoiceError::Rate(_)) => false,
        },
    }
}

/// Produces the invoice for `info` and the sessions, dated `today`.
pub fn generate_invoice_on(
    template: &str,
    info: &InvoiceInfo,
    entries: &Vec<TimeEntry>,
    today: &str,
) -> (r: Result<String, InvoiceError>)
    ensures
        invoice_outcome(template@, *info, entries@, today@, r),
{
    let rate_text = trim_text(info.rate.as_str());
    let rate = match Rate::parse(rate_text.as_str()) {
        Ok(rate) => rate,
        Err(e) => {
            return Err(InvoiceError::Rate(e));
        },
    };
    assert(info_rate(*info) == Some(rate));
    let a = match aggregate(entries, rate) {
        Ok(a) => a,
        Err(e) => {
            return Err(InvoiceError::Aggregate(e));
        },
    };
    let fields = invoice_fields(info, today, a.total_mills);
    let doc = render(template, &fields, &a.rows, ROW_MARKER);
    proof {
        assert forall|i: int| 0 <= i < entries@.len() implies row_line(a.rows@[i]) == bill_line(
            entries@[i],
            rate,
        ) by {
            assert(row_for(entries@[i], rate, a.rows@[i]));
        }
        assert(row_lines(a.rows@) =~= bill_lines(entries@, rate));
    }
    Ok(doc)
}

/// Produces the invoice for `info` and the sessions, dated today.
pub fn generate_invoice(template: &str, info: &InvoiceInfo, entries: &Vec<TimeEntry>) -> (r: Result<
    String,
    InvoiceError,
>)
    ensures
        exists|today: Seq<char>| invoice_outcome(template@, *info, entries@, today, r),
{
    let today = local_today();
    generate_invoice_on(template, info, entries, today.as_str())
}

} // verus!
