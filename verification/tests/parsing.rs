//! Parsing checks: `DD-MM-YYYY` dates, decimal amounts, and the ledger
//! snapshot's fail-fast behavior on malformed fields.

use rex_chart::date::{parse_date, Date};
use rex_chart::money::parse_amount;
use rex_chart::snapshot::{ChartError, LedgerSnapshot};

#[test]
fn parses_well_formed_dates() {
    assert_eq!(parse_date("01-01-2024"), Some(Date { year: 2024, month: 1, day: 1 }));
    assert_eq!(parse_date("31-12-9999"), Some(Date { year: 9999, month: 12, day: 31 }));
    assert_eq!(parse_date("29-02-2024"), Some(Date { year: 2024, month: 2, day: 29 }));
    assert_eq!(parse_date("28-02-1900"), Some(Date { year: 1900, month: 2, day: 28 }));
    assert_eq!(parse_date("29-02-2000"), Some(Date { year: 2000, month: 2, day: 29 }));
}

#[test]
fn rejects_malformed_dates() {
    assert_eq!(parse_date(""), None);
    assert_eq!(parse_date("2024-01-01"), None); // wrong field order
    assert_eq!(parse_date("1-01-2024"), None); // day not two digits
    assert_eq!(parse_date("01/01/2024"), None);
    assert_eq!(parse_date("00-01-2024"), None); // day zero
    assert_eq!(parse_date("32-01-2024"), None);
    assert_eq!(parse_date("01-13-2024"), None);
    assert_eq!(parse_date("01-00-2024"), None);
    assert_eq!(parse_date("29-02-2023"), None); // not a leap year
    assert_eq!(parse_date("29-02-1900"), None); // century rule
    assert_eq!(parse_date("31-04-2024"), None); // April has 30 days
    assert_eq!(parse_date("0a-01-2024"), None);
}

#[test]
fn day_numbers_count_consecutive_days() {
    let d = parse_date("28-02-2024").unwrap();
    let e = parse_date("29-02-2024").unwrap();
    let f = parse_date("01-03-2024").unwrap();
    assert_eq!(d.day_number() + 1, e.day_number());
    assert_eq!(e.day_number() + 1, f.day_number());
    let y = parse_date("31-12-2023").unwrap();
    let z = parse_date("01-01-2024").unwrap();
    assert_eq!(y.day_number() + 1, z.day_number());
    // a year of distance, across a leap February
    let a = parse_date("15-06-2023").unwrap();
    let b = parse_date("15-06-2024").unwrap();
    assert_eq!(a.day_number() + 366, b.day_number());
}

#[test]
fn dates_step_and_render_in_iso_form() {
    let d = parse_date("30-12-2023").unwrap();
    assert_eq!(d.iso_string(), "2023-12-30");
    assert_eq!(d.plus_days(2).iso_string(), "2024-01-01");
    assert_eq!(d.plus_days(0).iso_string(), "2023-12-30");
    let e = parse_date("05-03-0007").unwrap();
    assert_eq!(e.iso_string(), "0007-03-05");
}

#[test]
fn parses_decimal_amounts_into_cents() {
    assert_eq!(parse_amount("100"), Some(10000));
    assert_eq!(parse_amount("150.75"), Some(15075));
    assert_eq!(parse_amount("-16.5"), Some(-1650));
    assert_eq!(parse_amount("0.05"), Some(5));
    assert_eq!(parse_amount("0"), Some(0));
    assert_eq!(parse_amount("-0"), Some(0));
    assert_eq!(parse_amount("007"), Some(700));
    assert_eq!(parse_amount("99999999999"), Some(9_999_999_999_900));
}

#[test]
fn rejects_malformed_amounts() {
    assert_eq!(parse_amount(""), None);
    assert_eq!(parse_amount("-"), None);
    assert_eq!(parse_amount("1."), None);
    assert_eq!(parse_amount(".5"), None);
    assert_eq!(parse_amount("--1"), None);
    assert_eq!(parse_amount("1.234"), None); // more than two decimals
    assert_eq!(parse_amount("1.2.3"), None);
    assert_eq!(parse_amount("1,5"), None);
    assert_eq!(parse_amount("abc"), None);
    assert_eq!(parse_amount("123456789012"), None); // twelve integer digits
}

#[test]
fn snapshot_reports_the_first_malformed_date() {
    let dates = vec!["01-01-2024".to_string(), "oops".to_string(), "03-01-2024".to_string()];
    let amounts = vec![
        vec!["1".to_string()],
        vec!["2".to_string()],
        vec!["3".to_string()],
    ];
    let err = match LedgerSnapshot::from_texts(&dates, &amounts, 1) {
        Ok(_) => panic!("expected a malformed date"),
        Err(e) => e,
    };
    assert_eq!(err, ChartError::MalformedDate { row: 1 });
}

#[test]
fn snapshot_reports_the_first_malformed_amount() {
    let dates = vec!["01-01-2024".to_string(), "02-01-2024".to_string()];
    let amounts = vec![
        vec!["1".to_string(), "x".to_string()],
        vec!["2".to_string(), "3".to_string()],
    ];
    let err = match LedgerSnapshot::from_texts(&dates, &amounts, 2) {
        Ok(_) => panic!("expected a malformed amount"),
        Err(e) => e,
    };
    assert_eq!(err, ChartError::MalformedAmount { row: 0, method: 1 });
}

#[test]
fn snapshot_parses_rows_in_roster_order() {
    let dates = vec!["01-01-2024".to_string(), "02-01-2024".to_string()];
    let amounts = vec![
        vec!["1".to_string(), "-2.50".to_string()],
        vec!["3".to_string(), "4".to_string()],
    ];
    let snap = LedgerSnapshot::from_texts(&dates, &amounts, 2).unwrap();
    assert_eq!(snap.method_count, 2);
    assert_eq!(snap.rows.len(), 2);
    assert_eq!(snap.rows[0].balances, vec![100, -250]);
    assert_eq!(snap.rows[1].balances, vec![300, 400]);
    assert_eq!(snap.rows[0].date, Date { year: 2024, month: 1, day: 1 });
    assert_eq!(snap.rows[1].day, snap.rows[0].day + 1);
    assert!(snap.is_date_sorted());
}

#[test]
fn unsorted_rows_are_detected() {
    let dates = vec!["05-01-2024".to_string(), "02-01-2024".to_string()];
    let amounts = vec![vec!["1".to_string()], vec!["2".to_string()]];
    let snap = LedgerSnapshot::from_texts(&dates, &amounts, 1).unwrap();
    assert!(!snap.is_date_sorted());
}
