//! Label rendering checks: the plain first gridline label, the two-decimal
//! labels, and the table columns with their header cells.

use rex_chart::axis::{fmt_plain, fmt_two, scale_axis};
use rex_chart::table_data::TransactionData;

#[test]
fn plain_labels_trim_trailing_zeros() {
    assert_eq!(fmt_plain(0), "0");
    assert_eq!(fmt_plain(165_0000), "165");
    assert_eq!(fmt_plain(-16_5000), "-16.5");
    assert_eq!(fmt_plain(12_3450), "12.345");
    assert_eq!(fmt_plain(5), "0.0005");
    assert_eq!(fmt_plain(-90_0000), "-90");
}

#[test]
fn two_decimal_labels_round_half_away_from_zero() {
    assert_eq!(fmt_two(0), "0.00");
    assert_eq!(fmt_two(165_0000), "165.00");
    assert_eq!(fmt_two(12_3456), "12.35");
    assert_eq!(fmt_two(12_3449), "12.34");
    assert_eq!(fmt_two(50), "0.01");
    assert_eq!(fmt_two(49), "0.00");
    assert_eq!(fmt_two(-75_5000), "-75.50");
    assert_eq!(fmt_two(-49), "-0.00");
}

#[test]
fn gridlines_run_from_padded_low_to_padded_high() {
    // low 0, high 150 units: padded high 165, spacing 16.5
    let axis = scale_axis(0, 150_00, Vec::new());
    assert_eq!(axis.low_bound, 0);
    assert_eq!(axis.high_bound, 165_0000);
    let expected = vec![
        "0", "16.50", "33.00", "49.50", "66.00", "82.50", "99.00", "115.50", "132.00", "148.50",
        "165.00",
    ];
    assert_eq!(axis.gridline_labels, expected);
}

#[test]
fn table_columns_carry_their_header_cells() {
    let data = TransactionData::new(
        vec![vec!["01-01-2024".to_string(), "lunch".to_string()]],
        vec![vec!["100.00".to_string(), "250.00".to_string()]],
        vec![vec!["↓10.00".to_string(), "0.00".to_string()]],
        vec!["1".to_string()],
    );
    let txs = data.get_txs();
    assert_eq!(txs, vec![vec!["01-01-2024".to_string(), "lunch".to_string()]]);
    let balance = data.get_balance(0);
    assert_eq!(
        balance,
        vec!["Balance".to_string(), "100.00".to_string(), "250.00".to_string()]
    );
    let changes = data.get_changes(0);
    assert_eq!(
        changes,
        vec!["Changes".to_string(), "↓10.00".to_string(), "0.00".to_string()]
    );
}
