use flowrly::export::{entries_to_csv, entry_record};
use flowrly::invoice::{half_hours_rounded_up, invoice_target, line_name, period_from_dates, period_label, plan_invoice_body, preview_summary, require_invoice_client, GeneratorInfo};
use flowrly::models::{Client, EntryFilter, TimeEntry};

fn client() -> Client {
    Client {
        id: 1,
        name: "Acme".into(),
        color: "#fff".into(),
        currency: "EUR".into(),
        pensum_percent: 100,
        vat_rate: 21,
        line_description: "Vývoj software {period}".into(),
        fakturoid_subject_id: Some(16),
        fakturoid_generator_id: Some(3),
        archived: false,
    }
}

fn hours_rounded_up(minutes: i64) -> f64 {
    half_hours_rounded_up(minutes) as f64 * 0.5
}

#[test]
fn rounds_up_to_half_hour() {
    assert_eq!(hours_rounded_up(0), 0.0);
    assert_eq!(hours_rounded_up(1), 0.5);
    assert_eq!(hours_rounded_up(30), 0.5);
    assert_eq!(hours_rounded_up(31), 1.0);
    assert_eq!(hours_rounded_up(600), 10.0);
    assert_eq!(hours_rounded_up(614), 10.5);
    assert_eq!(hours_rounded_up(615), 10.5);
    assert_eq!(hours_rounded_up(631), 11.0);
}

#[test]
fn half_hours_of_negative_and_extreme_minutes() {
    assert_eq!(half_hours_rounded_up(-5), 0);
    assert_eq!(half_hours_rounded_up(i64::MAX), (i64::MAX - 1) / 30 + 1);
}

#[test]
fn period_labels() {
    assert_eq!(period_label("2026-09-01", "2026-09-30"), "09/2026");
    assert_eq!(period_label("2026-09-01", "2026-10-15"), "01.09.2026 – 15.10.2026");
    assert_eq!(period_label("", ""), "");
}

#[test]
fn period_labels_with_one_end() {
    assert_eq!(period_label("2026-09-01", ""), "from 01.09.2026");
    assert_eq!(period_label("x", "2026-10-15"), "until 15.10.2026");
    assert_eq!(period_label("0999-01-05", "0999-01-06"), "01/0999");
    assert_eq!(period_label("2025-09-01", "2026-09-01"), "01.09.2025 – 01.09.2026");
}

#[test]
fn line_names() {
    assert_eq!(line_name(&client(), "09/2026"), "Vývoj software 09/2026");
    let mut c = client();
    c.line_description = "  {period}{period} x {perio ".into();
    assert_eq!(line_name(&c, "P"), "PP x {perio");
}

#[test]
fn body_copies_generator_and_builds_line() {
    let gen = GeneratorInfo {
        non_null_keys: ["id", "subject_id", "currency", "payment_method", "language", "vat_price_mode", "bank_account_id", "due", "name", "lines"]
            .iter()
            .map(|s| s.to_string())
            .collect(),
        subject_id: Some(99),
    };
    let plan = plan_invoice_body(&client(), Some(&gen), "09/2026");
    assert_eq!(plan.subject_id, Some(16));
    assert_eq!(plan.currency, "EUR");
    assert!(plan.copy_fields.iter().any(|k| k == "due"));
    assert!(!plan.copy_fields.iter().any(|k| k == "note"));
    assert!(!plan.copy_fields.iter().any(|k| k == "name"));
    assert_eq!(plan.line_name, "Vývoj software 09/2026");
    assert_eq!(plan.vat_rate, 21);
    assert_eq!(plan.unit_name, "h");
    assert_eq!(
        plan.copy_fields,
        vec!["currency", "payment_method", "language", "vat_price_mode", "bank_account_id", "due"]
    );
}

#[test]
fn body_without_generator_falls_back_to_client_subject() {
    let plan = plan_invoice_body(&client(), None, "09/2026");
    assert_eq!(plan.subject_id, Some(16));
    assert_eq!(plan.currency, "EUR");
    assert!(plan.copy_fields.is_empty());
}

#[test]
fn generator_subject_used_when_client_has_none() {
    let mut c = client();
    c.fakturoid_subject_id = None;
    let gen = GeneratorInfo { non_null_keys: vec![], subject_id: Some(99) };
    assert_eq!(plan_invoice_body(&c, Some(&gen), "x").subject_id, Some(99));
    assert_eq!(plan_invoice_body(&c, None, "x").subject_id, None);
}

fn entry(date: &str, minutes: i32) -> TimeEntry {
    TimeEntry {
        id: 1,
        client_id: 1,
        date: date.into(),
        duration_minutes: minutes,
        start_time: None,
        end_time: None,
        description: String::new(),
    }
}

#[test]
fn preview_uses_entry_dates_when_filter_has_no_bounds() {
    let f = EntryFilter { client_id: Some(1), from: Some(String::new()), to: None };
    let entries = vec![entry("2026-09-14", 60), entry("2026-09-02", 30), entry("2026-09-20", 15)];
    let p = preview_summary(1, &client(), &f, &entries).unwrap();
    assert_eq!(p.from, "2026-09-02");
    assert_eq!(p.to, "2026-09-20");
    assert_eq!(p.period_label, "09/2026");
    assert_eq!(p.line_name, "Vývoj software 09/2026");
    assert_eq!(p.total_minutes, 105);
    assert_eq!(p.entry_count, 3);
    assert!(preview_summary(1, &client(), &f, &vec![]).is_err());
    assert!(require_invoice_client(&EntryFilter { client_id: None, from: None, to: None }).is_err());
}

#[test]
fn writes_header_and_rows_with_quoting() {
    let clients = vec![Client {
        id: 1,
        name: "Acme, Inc.".into(),
        color: "#000".into(),
        currency: "CZK".into(),
        pensum_percent: 100,
        vat_rate: 0,
        line_description: String::new(),
        fakturoid_subject_id: None,
        fakturoid_generator_id: None,
        archived: false,
    }];
    let entries = vec![TimeEntry {
        id: 1,
        client_id: 1,
        date: "2026-09-11".into(),
        duration_minutes: 90,
        start_time: Some("09:00".into()),
        end_time: Some("10:30".into()),
        description: "Fixed \"auth\" bug".into(),
    }];
    let csv = entries_to_csv(&entries, &clients).unwrap();
    let mut lines = csv.lines();
    assert_eq!(lines.next().unwrap(), "date,client,start,end,duration_minutes,hours,description");
    assert_eq!(
        lines.next().unwrap(),
        "2026-09-11,\"Acme, Inc.\",09:00,10:30,90,1.50,\"Fixed \"\"auth\"\" bug\""
    );
}

#[test]
fn csv_hours_match_float_formatting() {
    let clients: Vec<Client> = vec![];
    for m in [1, 2, 59, 61, 100, 1439, -1, -91, 12345, i32::MAX, i32::MIN + 1] {
        let csv = entries_to_csv(&vec![entry("d", m)], &clients).unwrap();
        let row = csv.lines().nth(1).unwrap().to_string();
        let expected = format!("d,,,,{},{:.2},", m, m as f64 / 60.0);
        assert_eq!(row, expected);
    }
}

#[test]
fn period_from_parsed_dates() {
    assert_eq!(period_from_dates(Some((2026, 9, 1)), Some((2026, 9, 30))), "09/2026");
    assert_eq!(period_from_dates(Some((2025, 12, 24)), Some((2026, 1, 2))), "24.12.2025 – 02.01.2026");
    assert_eq!(period_from_dates(None, Some((987, 3, 4))), "until 04.03.0987");
    assert_eq!(period_from_dates(Some((12345, 1, 1)), None), "from 01.01.+12345");
    assert_eq!(period_from_dates(None, None), "");
}

#[test]
fn entry_record_fields() {
    let clients = vec![client()];
    let e = TimeEntry {
        id: 7,
        client_id: 1,
        date: "2026-09-11".into(),
        duration_minutes: 95,
        start_time: Some("09:00".into()),
        end_time: None,
        description: "Work, \"quoted\"".into(),
    };
    let f = entry_record(&e, &clients);
    assert_eq!(f, vec!["2026-09-11", "Acme", "09:00", "", "95", "1.58", "Work, \"quoted\""]);
    let mut other = e.clone();
    other.client_id = 99;
    other.duration_minutes = 1;
    assert_eq!(entry_record(&other, &clients)[1], "");
    assert_eq!(entry_record(&other, &clients)[5], "0.02");
}

#[test]
fn invoice_needs_a_subject_or_generator() {
    let mut c = client();
    assert_eq!(invoice_target(&c).unwrap(), Some(3));
    c.fakturoid_generator_id = None;
    assert_eq!(invoice_target(&c).unwrap(), None);
    c.fakturoid_subject_id = None;
    let e = invoice_target(&c).unwrap_err();
    assert!(matches!(e, flowrly::models::AppError::Validation(ref m) if m == "Client has no Fakturoid subject or generator set. Configure it in Clients."));
    c.fakturoid_generator_id = Some(9);
    assert_eq!(invoice_target(&c).unwrap(), Some(9));
}

#[test]
fn csv_quotes_only_where_needed() {
    let entries = vec![TimeEntry {
        id: 2,
        client_id: 5,
        date: "2026-09-12".into(),
        duration_minutes: 60,
        start_time: None,
        end_time: None,
        description: "line one\nline two".into(),
    }];
    let csv = entries_to_csv(&entries, &vec![client()]).unwrap();
    assert_eq!(
        csv,
        "date,client,start,end,duration_minutes,hours,description\n2026-09-12,,,,60,1.00,\"line one\nline two\"\n"
    );
    assert_eq!(entries_to_csv(&vec![], &vec![]).unwrap(), "date,client,start,end,duration_minutes,hours,description\n");
}
