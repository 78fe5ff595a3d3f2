use adm_sfa::date::{dotted_date, iso_date, parse_date, parse_date_input};

#[test]
fn parse_date_input_reads_dotted_and_iso_dates() {
    assert_eq!(parse_date_input("16.07.2026"), Some((2026, 7, 16)));
    assert_eq!(parse_date_input(" 2026-01-31 "), Some((2026, 1, 31)));
    assert_eq!(parse_date_input("31.02.2026"), None);
    assert_eq!(parse_date_input("yesterday"), None);
    assert_eq!(parse_date_input(""), None);
}

#[test]
fn iso_and_dotted_dates_are_zero_padded() {
    assert_eq!(iso_date((2026, 3, 5)), "2026-03-05");
    assert_eq!(dotted_date((2026, 3, 5)), "05.03.2026");
    assert_eq!(iso_date((999, 12, 31)), "0999-12-31");
    assert_eq!(iso_date((12345, 1, 1)), "+12345-01-01");
    assert_eq!(iso_date((-1, 1, 1)), "-0001-01-01");
}

#[test]
fn iso_date_matches_chrono_formatting() {
    let d = chrono::NaiveDate::from_ymd_opt(2026, 7, 16).unwrap();
    assert_eq!(iso_date((2026, 7, 16)), d.format("%Y-%m-%d").to_string());
    assert_eq!(dotted_date((2026, 7, 16)), d.format("%d.%m.%Y").to_string());
}

#[test]
fn outbound_dotted_date_input_round_trips_to_stored_iso() {
    assert_eq!(parse_date("16.07.2026"), Ok("2026-07-16".to_string()));
}

#[test]
fn outbound_invalid_date_is_rejected() {
    assert_eq!(parse_date("2026-13-40"), Err("invalid date: \"2026-13-40\"".to_string()));
}

#[test]
fn transfers_dotted_date_input_round_trips_to_stored_iso() {
    assert_eq!(parse_date("01.02.2026"), Ok("2026-02-01".to_string()));
}

#[test]
fn transfers_invalid_date_is_rejected() {
    assert!(parse_date("not a date").is_err());
}
