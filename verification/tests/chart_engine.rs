//! End-to-end checks of the chart engine: curve synthesis with coalescing
//! and carry-forward, axis scaling, the reveal scheduler, and the palette.

use rex_chart::chart::{build_chart, ChartOutput};
use rex_chart::curve::CurvePoint;
use rex_chart::palette::{assign_colors, Rgb};
use rex_chart::scheduler::{advance_cursor, initial_cursor, reveal_step};
use rex_chart::snapshot::LedgerSnapshot;

fn snapshot(rows: &[(&str, &[&str])], methods: usize) -> LedgerSnapshot {
    let dates: Vec<String> = rows.iter().map(|(d, _)| d.to_string()).collect();
    let amounts: Vec<Vec<String>> = rows
        .iter()
        .map(|(_, b)| b.iter().map(|s| s.to_string()).collect())
        .collect();
    let snap = LedgerSnapshot::from_texts(&dates, &amounts, methods).expect("ledger should parse");
    assert!(snap.is_date_sorted());
    snap
}

fn points(out: &ChartOutput, m: usize) -> Vec<(i64, i64)> {
    out.curves[m].points.iter().map(|p| (p.x, p.y)).collect()
}

#[test]
fn same_day_rows_coalesce_into_one_step() {
    // Two rows on 01-01, one on 03-01: day zero takes the later row's value,
    // 02-01 carries it forward, and the axis spans three points.
    let snap = snapshot(
        &[("01-01-2024", &["100"]), ("01-01-2024", &["150"]), ("03-01-2024", &["150"])],
        1,
    );
    let activated = vec![true];
    let mut cursor: Option<i64> = None;
    let out = build_chart(&snap, &activated, &mut cursor);
    assert_eq!(cursor, None);
    assert_eq!(points(&out, 0), vec![(0, 15000), (1, 15000), (2, 15000)]);
    assert_eq!(out.x_len, 3);
    assert_eq!(out.axis.low_bound, 0);
    assert_eq!(out.axis.high_bound, 165_0000);
    assert_eq!(out.axis.gridline_labels[0], "0");
    assert_eq!(out.axis.gridline_labels[10], "165.00");
    assert_eq!(out.axis.date_labels, vec!["2024-01-01".to_string(), "2024-01-03".to_string()]);
}

#[test]
fn carry_forward_repeats_previous_day() {
    let snap = snapshot(&[("01-01-2024", &["5"]), ("05-01-2024", &["9"])], 1);
    let activated = vec![true];
    let mut cursor: Option<i64> = None;
    let out = build_chart(&snap, &activated, &mut cursor);
    assert_eq!(
        points(&out, 0),
        vec![(0, 500), (1, 500), (2, 500), (3, 500), (4, 900)]
    );
}

#[test]
fn curves_share_one_length_across_methods() {
    let snap = snapshot(
        &[
            ("01-01-2024", &["1", "7"]),
            ("01-01-2024", &["2", "7"]),
            ("04-01-2024", &["2", "9"]),
        ],
        2,
    );
    let activated = vec![true, true];
    let mut cursor: Option<i64> = None;
    let out = build_chart(&snap, &activated, &mut cursor);
    assert_eq!(out.curves.len(), 2);
    assert_eq!(out.curves[0].points.len(), 4);
    assert_eq!(out.curves[1].points.len(), 4);
    assert_eq!(points(&out, 0), vec![(0, 200), (1, 200), (2, 200), (3, 200)]);
    assert_eq!(points(&out, 1), vec![(0, 700), (1, 700), (2, 700), (3, 900)]);
}

#[test]
fn negative_low_pads_toward_zero() {
    // low −100, high 50: published low is −100 − (−10) = −90, and ten shares
    // of the spacing land exactly on 55, the padded high.
    let snap = snapshot(&[("01-01-2024", &["-100", "50"])], 2);
    let activated = vec![true, true];
    let mut cursor: Option<i64> = None;
    let out = build_chart(&snap, &activated, &mut cursor);
    assert_eq!(out.axis.low_bound, -90_0000);
    assert_eq!(out.axis.high_bound, 55_0000);
    assert_eq!(out.axis.gridline_labels.len(), 11);
    assert_eq!(out.axis.gridline_labels[0], "-90");
    assert_eq!(out.axis.gridline_labels[1], "-75.50");
    assert_eq!(out.axis.gridline_labels[10], "55.00");
}

#[test]
fn deactivated_methods_keep_their_slot_but_not_the_bounds() {
    let snap = snapshot(&[("01-01-2024", &["-100", "50"])], 2);
    let activated = vec![false, true];
    let mut cursor: Option<i64> = None;
    let out = build_chart(&snap, &activated, &mut cursor);
    // the deactivated method still has its curve, but the bounds ignore it
    assert_eq!(out.curves.len(), 2);
    assert_eq!(points(&out, 0), vec![(0, -10000)]);
    assert_eq!(out.axis.low_bound, 0);
    assert_eq!(out.axis.high_bound, 55_0000);
}

#[test]
fn empty_ledger_draws_flat_origin_and_disables_animation() {
    let dates: Vec<String> = Vec::new();
    let amounts: Vec<Vec<String>> = Vec::new();
    let snap = LedgerSnapshot::from_texts(&dates, &amounts, 2).unwrap();
    let activated = vec![true, true];
    let mut cursor = initial_cursor();
    let out = build_chart(&snap, &activated, &mut cursor);
    assert_eq!(cursor, None);
    assert_eq!(out.curves.len(), 2);
    assert_eq!(points(&out, 0), vec![(0, 0)]);
    assert_eq!(points(&out, 1), vec![(0, 0)]);
    assert_eq!(out.x_len, 0);
    assert_eq!(out.axis.low_bound, 0);
    assert_eq!(out.axis.high_bound, 0);
    assert_eq!(out.axis.gridline_labels[0], "0");
    assert_eq!(out.axis.gridline_labels[1], "0.00");
    assert!(out.axis.date_labels.is_empty());
}

#[test]
fn partial_reveal_is_a_prefix_of_the_full_draw() {
    // total span 2 days; the tier below 50 days gives a one-day step
    let snap = snapshot(
        &[("01-01-2024", &["100"]), ("01-01-2024", &["150"]), ("03-01-2024", &["200"])],
        1,
    );
    let activated = vec![true];

    let mut cursor = initial_cursor();
    let first = build_chart(&snap, &activated, &mut cursor);
    assert_eq!(cursor, Some(1));
    assert_eq!(points(&first, 0), vec![(0, 15000)]);
    assert_eq!(
        first.axis.date_labels,
        vec!["2024-01-01".to_string(), "2024-01-02".to_string()]
    );
    // the partial draw's bounds fold only the visited rows
    assert_eq!(first.axis.high_bound, 165_0000);

    let second = build_chart(&snap, &activated, &mut cursor);
    assert_eq!(cursor, None);
    assert_eq!(points(&second, 0), vec![(0, 15000), (1, 15000), (2, 20000)]);
    assert_eq!(
        second.axis.date_labels,
        vec!["2024-01-01".to_string(), "2024-01-03".to_string()]
    );
    // the earlier draw is a prefix of the later one: no gap, no overlap
    assert_eq!(&points(&second, 0)[..1], &points(&first, 0)[..]);
}

#[test]
fn finished_cursor_redraws_identically() {
    let snap = snapshot(
        &[("01-01-2024", &["100"]), ("02-01-2024", &["-3.50"]), ("05-01-2024", &["42"])],
        1,
    );
    let activated = vec![true];
    let mut cursor: Option<i64> = None;
    let one = build_chart(&snap, &activated, &mut cursor);
    assert_eq!(cursor, None);
    let two = build_chart(&snap, &activated, &mut cursor);
    assert_eq!(cursor, None);
    assert_eq!(one.curves.len(), two.curves.len());
    for m in 0..one.curves.len() {
        assert_eq!(one.curves[m].points, two.curves[m].points);
    }
    assert_eq!(one.axis.low_bound, two.axis.low_bound);
    assert_eq!(one.axis.high_bound, two.axis.high_bound);
    assert_eq!(one.axis.gridline_labels, two.axis.gridline_labels);
    assert_eq!(one.axis.date_labels, two.axis.date_labels);
    assert_eq!(one.x_len, two.x_len);
}

#[test]
fn ten_thousand_day_scope_steps_seventy_days_per_cycle() {
    let total: i64 = 10_000;
    let step = reveal_step(total);
    assert_eq!(step, 70);
    let mut cursor = initial_cursor();
    assert_eq!(cursor, Some(0));
    cursor = advance_cursor(cursor, total, step);
    assert_eq!(cursor, Some(9930));
    let mut previous: i64 = 9930;
    let mut cycles: usize = 0;
    loop {
        cursor = advance_cursor(cursor, total, step);
        match cursor {
            Some(v) => {
                assert_eq!(v, previous - 70);
                previous = v;
            }
            None => break,
        }
        cycles += 1;
        assert!(cycles < 1000, "cursor never finished");
    }
    // once finished it stays finished
    assert_eq!(advance_cursor(cursor, total, step), None);
}

#[test]
fn reveal_step_tiers_follow_the_table() {
    assert_eq!(reveal_step(10_000), 70); // > 4000: 0.7%
    assert_eq!(reveal_step(4001), 28);
    assert_eq!(reveal_step(4000), 20); // 2000..=4000: 0.5%
    assert_eq!(reveal_step(2000), 8); // 1000..=2000: 0.4%
    assert_eq!(reveal_step(1000), 3); // 500..=1000: 0.3%
    assert_eq!(reveal_step(501), 1);
    assert_eq!(reveal_step(500), 2); // 360..=500: 0.4%
    assert_eq!(reveal_step(360), 1); // 200..=360: 0.2%, clamped
    assert_eq!(reveal_step(300), 1);
    assert_eq!(reveal_step(200), 1); // 50..=200: one day flat
    assert_eq!(reveal_step(50), 1);
    assert_eq!(reveal_step(49), 1); // < 50: 2%, clamped
    assert_eq!(reveal_step(10), 1);
    assert_eq!(reveal_step(0), 1);
}

#[test]
fn short_scope_reveals_fully_in_one_cycle() {
    // a single-date ledger has a zero-day span: the first cycle finishes
    let snap = snapshot(&[("07-06-2023", &["12"])], 1);
    let activated = vec![true];
    let mut cursor = initial_cursor();
    let out = build_chart(&snap, &activated, &mut cursor);
    assert_eq!(cursor, None);
    assert_eq!(points(&out, 0), vec![(0, 1200)]);
    assert_eq!(
        out.axis.date_labels,
        vec!["2023-06-07".to_string(), "2023-06-07".to_string()]
    );
}

#[test]
fn palette_pops_six_colors_then_falls_back() {
    let activated = vec![true, false, true, true, true, true, true, true];
    let colors = assign_colors(&activated);
    assert_eq!(colors.len(), 8);
    assert_eq!(colors[0], Some(Rgb { red: 255, green: 85, blue: 85 })); // red
    assert_eq!(colors[1], None); // deactivated: no color consumed
    assert_eq!(colors[2], Some(Rgb { red: 189, green: 147, blue: 249 })); // purple
    assert_eq!(colors[3], Some(Rgb { red: 255, green: 121, blue: 198 })); // pink
    assert_eq!(colors[4], Some(Rgb { red: 255, green: 184, blue: 108 })); // orange
    assert_eq!(colors[5], Some(Rgb { red: 80, green: 250, blue: 123 })); // green
    assert_eq!(colors[6], Some(Rgb { red: 139, green: 233, blue: 253 })); // cyan
    assert_eq!(colors[7], Some(Rgb { red: 241, green: 250, blue: 140 })); // fallback
}

#[test]
fn curve_points_expose_plain_coordinates() {
    let p = CurvePoint { x: 3, y: -250 };
    assert_eq!(p.x, 3);
    assert_eq!(p.y, -250);
}
