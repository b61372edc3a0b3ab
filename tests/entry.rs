use tutor_invoice::entry::{check_date, TimeEntry, ValidationError};

#[test]
fn append_rejects_month_thirteen() {
    assert_eq!(
        TimeEntry::new("2024-13-01", "09:00", "10:00", "Algebra"),
        Err(ValidationError::Date("2024-13-01".to_string()))
    );
}

#[test]
fn append_rejects_hour_twenty_four() {
    assert_eq!(
        TimeEntry::new("2024-01-01", "24:00", "10:00", "Algebra"),
        Err(ValidationError::TimeStart("24:00".to_string()))
    );
    assert_eq!(
        TimeEntry::new("2024-01-01", "09:00", "24:00", "Algebra"),
        Err(ValidationError::TimeEnd("24:00".to_string()))
    );
}

#[test]
fn append_rejects_end_not_after_start() {
    assert_eq!(
        TimeEntry::new("2024-01-01", "10:00", "09:00", "Algebra"),
        Err(ValidationError::NotAfterStart {
            time_start: "10:00".to_string(),
            time_end: "09:00".to_string()
        })
    );
    assert!(matches!(
        TimeEntry::new("2024-01-01", "10:00", "10:00", "Algebra"),
        Err(ValidationError::NotAfterStart { .. })
    ));
}

#[test]
fn append_rejects_empty_description() {
    assert_eq!(
        TimeEntry::new("2024-01-01", "09:00", "10:00", ""),
        Err(ValidationError::EmptyDescription)
    );
}

#[test]
fn accepted_entry_keeps_fields_byte_for_byte() {
    let e = TimeEntry::new("2024-01-01", "09:00", "10:30", "Algebra  ünd more").unwrap();
    assert_eq!(e.date, "2024-01-01");
    assert_eq!(e.time_start, "09:00");
    assert_eq!(e.time_end, "10:30");
    assert_eq!(e.description, "Algebra  ünd more");
    assert_eq!(e.line(), "2024-01-01\t09:00\t10:30\tAlgebra  ünd more");
}

#[test]
fn calendar_dates() {
    assert!(check_date("2024-02-29"));
    assert!(!check_date("2023-02-29"));
    assert!(check_date("2000-02-29"));
    assert!(!check_date("1900-02-29"));
    assert!(check_date("2024-12-31"));
    assert!(!check_date("2024-04-31"));
    assert!(!check_date("2024-00-10"));
    assert!(!check_date("2024-01-00"));
    assert!(!check_date("2024/01/01"));
    assert!(!check_date("24-01-01"));
}

#[test]
fn record_with_a_date_uses_it() {
    let e = TimeEntry::record(Some("2024-03-05"), "09:00", "10:00", "Chemistry").unwrap();
    assert_eq!(e.date, "2024-03-05");
    assert!(TimeEntry::record(Some("2024-3-5"), "09:00", "10:00", "Chemistry").is_err());
}

#[test]
fn record_without_a_date_uses_today() {
    let e = TimeEntry::record(None, "09:00", "10:00", "Chemistry").unwrap();
    assert_eq!(e.date.len(), 10);
    assert!(check_date(&e.date));
    assert_eq!(e.time_start, "09:00");
}
