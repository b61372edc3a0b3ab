use tutor_invoice::entry::TimeEntry;
use tutor_invoice::invoice::{aggregate, AggregateError, BillingRow, TimeField};
use tutor_invoice::money::Rate;
use tutor_invoice::template::row_text;

fn entry(date: &str, start: &str, end: &str, description: &str) -> TimeEntry {
    TimeEntry {
        date: date.to_string(),
        time_start: start.to_string(),
        time_end: end.to_string(),
        description: description.to_string(),
    }
}

#[test]
fn aggregate_single_algebra_session() {
    let entries = vec![entry("2024-01-01", "09:00", "10:30", "Algebra")];
    let a = aggregate(&entries, Rate { cents: 2000 }).unwrap();
    assert_eq!(a.rows.len(), 1);
    assert_eq!(
        a.rows[0],
        BillingRow {
            date: "2024-01-01".to_string(),
            description: "Algebra".to_string(),
            start_display: "9:00am".to_string(),
            end_display: "10:30am".to_string(),
            rate: Rate { cents: 2000 },
            billed_half_hours: 3,
            amount_mills: 30000,
        }
    );
    assert_eq!(a.total_half_hours, 3);
    assert_eq!(a.total_mills, 30000);
    assert_eq!(row_text(&a.rows[0]), "2024-01-01 & Algebra & 9:00am-10:30am & 20 & 30 \\\\");
}

#[test]
fn aggregate_keeps_store_order_and_sums() {
    let entries = vec![
        entry("2024-01-05", "13:10", "14:40", "Physics"),
        entry("2024-01-01", "09:40", "10:00", "Algebra"),
    ];
    let a = aggregate(&entries, Rate { cents: 2550 }).unwrap();
    assert_eq!(a.rows[0].date, "2024-01-05");
    assert_eq!(a.rows[0].start_display, "1:00pm");
    assert_eq!(a.rows[0].end_display, "2:30pm");
    assert_eq!(a.rows[0].billed_half_hours, 3);
    assert_eq!(a.rows[0].amount_mills, 38250);
    assert_eq!(a.rows[1].billed_half_hours, 1);
    assert_eq!(a.rows[1].amount_mills, 12750);
    assert_eq!(a.total_half_hours, 4);
    assert_eq!(a.total_mills, 51000);
    assert_eq!(row_text(&a.rows[0]), "2024-01-05 & Physics & 1:00pm-2:30pm & 25.5 & 38.25 \\\\");
}

#[test]
fn aggregate_does_not_revalidate_order() {
    let entries = vec![entry("2024-01-01", "10:00", "09:00", "Backwards")];
    let a = aggregate(&entries, Rate { cents: 2000 }).unwrap();
    assert_eq!(a.rows[0].billed_half_hours, -2);
    assert_eq!(a.rows[0].amount_mills, -20000);
    assert_eq!(a.total_mills, -20000);
    assert_eq!(row_text(&a.rows[0]), "2024-01-01 & Backwards & 10:00am-9:00am & 20 & -20 \\\\");
}

#[test]
fn aggregate_of_nothing_is_empty() {
    let a = aggregate(&Vec::new(), Rate { cents: 2000 }).unwrap();
    assert!(a.rows.is_empty());
    assert_eq!(a.total_half_hours, 0);
    assert_eq!(a.total_mills, 0);
}

#[test]
fn aggregate_fails_on_first_unreadable_time() {
    let entries = vec![
        entry("2024-01-01", "09:00", "10:00", "Fine"),
        entry("2024-01-02", "09:00", "ten", "Bad end"),
        entry("2024-01-03", "nine", "10:00", "Bad start"),
    ];
    assert_eq!(
        aggregate(&entries, Rate { cents: 2000 }),
        Err(AggregateError::Unparsable { index: 1, field: TimeField::End, raw: "ten".to_string() })
    );
    let entries = vec![entry("2024-01-03", "nine", "ten", "Both bad")];
    assert_eq!(
        aggregate(&entries, Rate { cents: 2000 }),
        Err(AggregateError::Unparsable { index: 0, field: TimeField::Start, raw: "nine".to_string() })
    );
}

#[test]
fn aggregate_handles_the_largest_times_and_rates() {
    let entries = vec![entry("2024-01-01", "0:00", "4294967295:00", "Forever")];
    let a = aggregate(&entries, Rate { cents: u64::MAX }).unwrap();
    assert_eq!(a.total_half_hours, 2 * 4294967295);
    assert_eq!(a.total_mills, 2 * 4294967295 * (u64::MAX as i128) * 5);
    assert_ne!(a.total_mills, i128::MAX);
    let a = aggregate(&entries, Rate { cents: 1 }).unwrap();
    assert_eq!(a.total_half_hours, 2 * 4294967295);
    assert_eq!(a.total_mills, 2 * 4294967295 * 5);
}
