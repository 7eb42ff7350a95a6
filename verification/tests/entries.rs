use flowrly::entries::{check_deletable, currency_code, filter_sql, normalize_entry, validate_client, SqlArg};
use flowrly::models::{AppError, ClientInput, EntryFilter, TimeEntryInput};

fn input(start: Option<&str>, end: Option<&str>, dur: i32) -> TimeEntryInput {
    TimeEntryInput {
        client_id: 1,
        date: "2026-09-11".into(),
        duration_minutes: dur,
        start_time: start.map(Into::into),
        end_time: end.map(Into::into),
        description: " work ".into(),
    }
}

fn message(e: AppError) -> String {
    match e {
        AppError::Validation(m) => m,
        other => panic!("unexpected error {:?}", other),
    }
}

#[test]
fn duration_derived_from_start_end() {
    let e = normalize_entry(&input(Some("9:00"), Some("12:30"), 5)).unwrap();
    assert_eq!(e.duration_minutes, 210);
    assert_eq!(e.start_time.as_deref(), Some("09:00"));
    assert_eq!(e.description, "work");
}

#[test]
fn crossing_midnight_wraps() {
    let e = normalize_entry(&input(Some("22:00"), Some("02:00"), 0)).unwrap();
    assert_eq!(e.duration_minutes, 240);
}

#[test]
fn duration_only_kept_when_no_times() {
    let e = normalize_entry(&input(None, Some(""), 90)).unwrap();
    assert_eq!(e.duration_minutes, 90);
    assert!(e.end_time.is_none());
}

#[test]
fn rejects_zero_duration_and_bad_date() {
    assert!(normalize_entry(&input(None, None, 0)).is_err());
    let mut bad = input(None, None, 10);
    bad.date = "11.9.2026".into();
    assert!(normalize_entry(&bad).is_err());
}

#[test]
fn equal_start_and_end_is_a_full_day() {
    let e = normalize_entry(&input(Some("08:15"), Some(" 08:15 "), 3)).unwrap();
    assert_eq!(e.duration_minutes, 1440);
    assert_eq!(e.end_time.as_deref(), Some("08:15"));
}

#[test]
fn start_only_is_canonicalised_and_duration_kept() {
    let e = normalize_entry(&input(Some(" 7:05 "), None, 45)).unwrap();
    assert_eq!(e.start_time.as_deref(), Some("07:05"));
    assert_eq!(e.end_time, None);
    assert_eq!(e.duration_minutes, 45);
}

#[test]
fn error_messages_name_the_bad_field() {
    let mut bad = input(None, None, 10);
    bad.date = "11.9.2026".into();
    assert_eq!(message(normalize_entry(&bad).unwrap_err()), "Invalid date '11.9.2026', expected YYYY-MM-DD");
    assert_eq!(
        message(normalize_entry(&input(Some(" 25:00 "), Some("10:00"), 10)).unwrap_err()),
        "Invalid time '25:00', expected HH:MM"
    );
    assert_eq!(
        message(normalize_entry(&input(Some("09:00"), Some("xx"), 10)).unwrap_err()),
        "Invalid time 'xx', expected HH:MM"
    );
    assert_eq!(message(normalize_entry(&input(None, None, -5)).unwrap_err()), "Duration must be greater than zero");
    assert_eq!(message(normalize_entry(&input(None, None, 1441)).unwrap_err()), "Duration can't exceed 24 hours");
    assert_eq!(normalize_entry(&input(None, None, 1440)).unwrap().duration_minutes, 1440);
}

fn client_input(name: &str, vat: i32, currency: &str) -> ClientInput {
    ClientInput {
        name: name.into(),
        color: "#abc".into(),
        currency: currency.into(),
        pensum_percent: 100,
        vat_rate: vat,
        line_description: "Dev {period}".into(),
        fakturoid_subject_id: None,
        fakturoid_generator_id: None,
        archived: false,
    }
}

#[test]
fn client_validation_rules_in_order() {
    assert!(validate_client(&client_input("Acme", 21, " eur "), false).is_ok());
    assert_eq!(message(validate_client(&client_input("  ", 21, "EUR"), true).unwrap_err()), "Client name is required");
    assert_eq!(message(validate_client(&client_input("Acme", 21, "EUR"), true).unwrap_err()), "Hourly rate can't be negative");
    assert_eq!(message(validate_client(&client_input("Acme", 101, "EUR"), false).unwrap_err()), "VAT rate must be between 0 and 100");
    assert_eq!(
        message(validate_client(&client_input("Acme", 0, "EURO"), false).unwrap_err()),
        "Currency must be a 3-letter code like CZK or EUR"
    );
    assert!(validate_client(&client_input("Acme", 0, "E1R"), false).is_err());
    assert_eq!(currency_code(" czk "), "CZK");
}

#[test]
fn client_pensum_is_a_percentage() {
    let mut c = client_input("Acme", 21, "EUR");
    c.pensum_percent = 150;
    assert_eq!(message(validate_client(&c, false).unwrap_err()), "Pensum must be between 0 and 100");
    c.pensum_percent = -1;
    assert_eq!(message(validate_client(&c, false).unwrap_err()), "Pensum must be between 0 and 100");
    c.pensum_percent = 0;
    assert!(validate_client(&c, false).is_ok());
    c.pensum_percent = 100;
    assert!(validate_client(&c, false).is_ok());
    c.vat_rate = 101;
    c.pensum_percent = 150;
    assert_eq!(message(validate_client(&c, false).unwrap_err()), "VAT rate must be between 0 and 100");
}

#[test]
fn deleting_a_used_client_is_refused() {
    assert!(check_deletable(0).is_ok());
    assert_eq!(
        message(check_deletable(3).unwrap_err()),
        "Client has 3 time entries. Archive it instead, or delete the entries first."
    );
}

#[test]
fn filter_sql_numbers_parameters() {
    let (sql, args) = filter_sql(&EntryFilter { client_id: None, from: None, to: None });
    assert_eq!(sql, "1=1");
    assert!(args.is_empty());
    let (sql, args) = filter_sql(&EntryFilter { client_id: Some(4), from: Some("2026-09-01".into()), to: Some(String::new()) });
    assert_eq!(sql, "1=1 AND client_id = ?1 AND date >= ?2");
    assert_eq!(args.len(), 2);
    assert!(matches!(args[0], SqlArg::Int(4)));
    let (sql, args) = filter_sql(&EntryFilter { client_id: None, from: Some("2026-09-01".into()), to: Some("2026-09-30".into()) });
    assert_eq!(sql, "1=1 AND date >= ?1 AND date <= ?2");
    assert!(matches!(&args[1], SqlArg::Text(t) if t == "2026-09-30"));
}

#[test]
fn normalising_twice_changes_nothing() {
    for (start, end, dur) in [(Some(" 7:05 "), Some("16:45"), 3), (None, Some("8:00"), 45), (Some("23:30"), Some("0:15"), 0)] {
        let once = normalize_entry(&input(start, end, dur)).unwrap();
        let twice = normalize_entry(&once).unwrap();
        assert_eq!(twice.date, once.date);
        assert_eq!(twice.start_time, once.start_time);
        assert_eq!(twice.end_time, once.end_time);
        assert_eq!(twice.duration_minutes, once.duration_minutes);
        assert_eq!(twice.description, once.description);
    }
    let e = normalize_entry(&input(Some(" 7:05 "), Some("16:45"), 3)).unwrap();
    assert_eq!(e.start_time.as_deref(), Some("07:05"));
    assert_eq!(e.duration_minutes, 580);
}
