use tutor_invoice::entry::TimeEntry;
use tutor_invoice::generate::{generate_invoice, generate_invoice_on, invoice_fields, InvoiceError, InvoiceInfo, ROW_MARKER};
use tutor_invoice::invoice::{AggregateError, TimeField};
use tutor_invoice::money::RateError;

fn info(rate: &str) -> InvoiceInfo {
    InvoiceInfo {
        title: "Tutoring Invoice\n".to_string(),
        sender_name: "Sam Sender\n".to_string(),
        location_name: "Library".to_string(),
        location_street: "1 Main St".to_string(),
        location_city: "Town, ST 00000".to_string(),
        parent_name: "Pat Parent".to_string(),
        student_name: "Stu Student".to_string(),
        bill_to_street: "2 Side St".to_string(),
        bill_to_city: "City, ST 11111".to_string(),
        invoice_num: "7".to_string(),
        rate: rate.to_string(),
        payment_method: " Cash ".to_string(),
    }
}

fn entries() -> Vec<TimeEntry> {
    vec![
        TimeEntry::new("2024-01-01", "09:00", "10:30", "Algebra").unwrap(),
        TimeEntry::new("2024-01-03", "15:20", "16:10", "Geometry").unwrap(),
    ]
}

const TEMPLATE: &str = "{{TITLE}} #{{INVOICE_NUMBER}} {{DATE}}\nFrom {{SENDER_NAME}} at {{LOCATION_NAME}}, {{LOCATION_STREET_ADDRESS}}, {{LOCATION_CITY_STATE_ZIP}}\nTo {{PARENT_NAME}} for {{STUDENT_NAME}}, {{BILL_TO_STREET_ADDRESS}}, {{BILL_TO_CITY_STATE_ZIP}}\n% COLUMN START\nTotal {{TOTAL}} paid {{PAID}} by {{PAYMENT_METHOD}}";

#[test]
fn full_invoice() {
    let doc = generate_invoice_on(TEMPLATE, &info(" 20\n"), &entries(), "2024-02-01").unwrap();
    assert_eq!(
        doc,
        "Tutoring Invoice #7 2024-02-01\nFrom Sam Sender at Library, 1 Main St, Town, ST 00000\nTo Pat Parent for Stu Student, 2 Side St, City, ST 11111\n% COLUMN START\n2024-01-01 & Algebra & 9:00am-10:30am & 20 & 30 \\\\\n2024-01-03 & Geometry & 3:30pm-4:00pm & 20 & 10 \\\\\nTotal 40 paid 40 by Cash"
    );
}

#[test]
fn invoice_with_bad_rate() {
    assert_eq!(
        generate_invoice_on(TEMPLATE, &info("twenty"), &entries(), "2024-02-01"),
        Err(InvoiceError::Rate(RateError { raw: "twenty".to_string() }))
    );
}

#[test]
fn invoice_with_unreadable_entry() {
    let mut es = entries();
    es.push(TimeEntry {
        date: "2024-01-04".to_string(),
        time_start: "9".to_string(),
        time_end: "10:00".to_string(),
        description: "Broken".to_string(),
    });
    assert_eq!(
        generate_invoice_on(TEMPLATE, &info("20"), &es, "2024-02-01"),
        Err(InvoiceError::Aggregate(AggregateError::Unparsable { index: 2, field: TimeField::Start, raw: "9".to_string() }))
    );
}

#[test]
fn invoice_dated_today() {
    let doc = generate_invoice("{{DATE}}", &info("20"), &entries()).unwrap();
    assert_eq!(doc.len(), 10);
    assert!(tutor_invoice::entry::check_date(&doc));
}

#[test]
fn invoice_fields_order_and_totals() {
    let f = invoice_fields(&info("20"), "2024-02-01", 40000);
    let names: Vec<&str> = f.iter().map(|(n, _)| n.as_str()).collect();
    assert_eq!(
        names,
        vec![
            "TITLE", "SENDER_NAME", "LOCATION_NAME", "LOCATION_STREET_ADDRESS", "LOCATION_CITY_STATE_ZIP",
            "INVOICE_NUMBER", "DATE", "PARENT_NAME", "STUDENT_NAME", "BILL_TO_STREET_ADDRESS",
            "BILL_TO_CITY_STATE_ZIP", "TOTAL", "PAID", "PAYMENT_METHOD"
        ]
    );
    assert_eq!(f[6].1, "2024-02-01");
    assert_eq!(f[11].1, "40");
    assert_eq!(f[12].1, "40");
    assert_eq!(ROW_MARKER, "% COLUMN START");
}
