//! One redraw of the chart: advances the reveal cursor, regenerates the
//! (possibly partial) curve of every roster method, tracks the extrema of
//! the activated ones, and publishes the scaled axis with its labels.

use vstd::prelude::*;
use crate::axis::{gridlines_ok, scale_axis, AxisModel};
use crate::curve::{
    curve_model, last_at_or_before, lemma_sorted_le, rows_high, rows_low, series_points,
    track_extrema, CurvePoint, SeriesCurve,
};
use crate::date::{date_plus, lemma_stamp_bounds, spec_iso};
use crate::scheduler::{
    advance_cursor, reveal_step, spec_advance_cursor, spec_rendered_days, spec_reveal_step,
};
use crate::snapshot::{LedgerSnapshot, SnapshotRow};

verus! {

/// Everything one redraw publishes: one curve per roster method (deactivated
/// ones included, for index stability), the value axis, and how many day
/// points span the x axis.
pub struct ChartOutput {
    pub curves: Vec<SeriesCurve>,
    pub axis: AxisModel,
    pub x_len: i64,
}

/// The scope's span in days, first to last transaction date.
pub open spec fn spec_total_days(rows: Seq<SnapshotRow>) -> int {
    rows[rows.len() - 1].day - rows[0].day
}

/// A cursor fits its scope: finished, or withholding at most the span. The
/// values this engine hands back always satisfy this.
pub open spec fn cursor_in_scope(c: Option<i64>, snap: LedgerSnapshot) -> bool {
    match c {
        None => true,
        Some(v) => snap.rows@.len() == 0 || 0 <= v <= spec_total_days(snap.rows@),
    }
}

impl ChartOutput {
    /// What one draw publishes, pinned field by field as a function of the
    /// snapshot, the activation map and the cursor after this cycle: every
    /// curve is the first `p` days of its method's model curve, the bounds
    /// fold the activated balances of every visited row, the gridlines label
    /// the padded bounds, and the date labels name the first day and the day
    /// the walk stopped on (the scope's last date once the reveal finishes).
    pub open spec fn matches_model(
        self,
        snap: LedgerSnapshot,
        act: Seq<bool>,
        cursor_after: Option<i64>,
    ) -> bool {
        let rows = snap.rows@;
        if rows.len() == 0 {
            &&& self.curves@.len() == snap.method_count
            &&& forall|m: int|
                0 <= m < self.curves@.len() ==> (#[trigger] self.curves@[m]).points@ == seq![
                    (CurvePoint { x: 0i64, y: 0i64 }),
                ]
            &&& self.axis.low_bound == 0
            &&& self.axis.high_bound == 0
            &&& gridlines_ok(self.axis.gridline_labels@, 0, 0)
            &&& self.axis.date_labels@.len() == 0
            &&& self.x_len == 0
        } else {
            let total = spec_total_days(rows);
            let p = spec_rendered_days(cursor_after, total);
            let visited = last_at_or_before(rows, rows[0].day + p - 1) + 1;
            let lowc = rows_low(rows, act, visited);
            let highc = rows_high(rows, act, visited);
            &&& self.curves@.len() == snap.method_count
            &&& forall|m: int|
                0 <= m < self.curves@.len() ==> (#[trigger] self.curves@[m]).points@
                    == curve_model(rows, m, p)
            &&& self.axis.low_bound == 90 * lowc
            &&& self.axis.high_bound == 110 * highc
            &&& gridlines_ok(self.axis.gridline_labels@, lowc as int, highc as int)
            &&& self.axis.date_labels@.len() == 2
            &&& self.axis.date_labels@[0]@ == spec_iso(rows[0].date)
            &&& self.axis.date_labels@[1]@ == (match cursor_after {
                Some(_) => spec_iso(date_plus(rows[0].date, p as nat)),
                None => spec_iso(rows[rows.len() - 1].date),
            })
            &&& self.x_len == p
        }
    }
}

/// Builds one redraw. The cursor is read, stepped one cycle, and written
/// back; an empty scope disables the animation and yields the degenerate
/// flat curve at the origin.
pub fn build_chart(snap: &LedgerSnapshot, activated: &Vec<bool>, cursor: &mut Option<i64>) -> (out:
    ChartOutput)
    requires
        snap.wf(),
        snap.date_sorted(),
        activated@.len() == snap.method_count,
        cursor_in_scope(*old(cursor), *snap),
    ensures
        snap.rows@.len() == 0 ==> *final(cursor) is None,
        snap.rows@.len() > 0 ==> *final(cursor) == spec_advance_cursor(
            *old(cursor),
            spec_total_days(snap.rows@),
            spec_reveal_step(spec_total_days(snap.rows@)),
        ),
        cursor_in_scope(*final(cursor), *snap),
        out.matches_model(*snap, activated@, *final(cursor)),
{
    let m_count = snap.method_count;
    let n = snap.rows.len();
    if n == 0 {
        *cursor = None;
        let mut curves: Vec<SeriesCurve> = Vec::new();
        let mut m: usize = 0;
        while m < m_count
            invariant
                0 <= m <= m_count,
                curves@.len() == m,
                forall|j: int|
                    0 <= j < m ==> (#[trigger] curves@[j]).points@ == seq![
                        (CurvePoint { x: 0i64, y: 0i64 }),
                    ],
            decreases m_count - m,
        {
            let mut pts: Vec<CurvePoint> = Vec::new();
            pts.push(CurvePoint { x: 0, y: 0 });
            assert(pts@ =~= seq![(CurvePoint { x: 0i64, y: 0i64 })]);
            curves.push(SeriesCurve { points: pts });
            m = m + 1;
        }
        let axis = scale_axis(0, 0, Vec::new());
        return ChartOutput { curves, axis, x_len: 0 };
    }

    proof {
        assert(snap.rows@[0].wf(snap.method_count as int));
        assert(snap.rows@[n - 1].wf(snap.method_count as int));
        lemma_stamp_bounds(snap.rows@[0].date);
        lemma_stamp_bounds(snap.rows@[n - 1].date);
        lemma_sorted_le(snap.rows@, 0, n - 1);
    }
    let first = snap.rows[0].date;
    let day0: i64 = snap.rows[0].day;
    let last_date = snap.rows[n - 1].date;
    let dlast: i64 = snap.rows[n - 1].day;
    let total: i64 = dlast - day0;
    let step = reveal_step(total);
    let cur_out = advance_cursor(*cursor, total, step);
    *cursor = cur_out;
    let p_days: i64 = match cur_out {
        None => total + 1,
        Some(v) => total - v,
    };
    let p: usize = p_days as usize;

    let mut curves: Vec<SeriesCurve> = Vec::new();
    let mut m: usize = 0;
    while m < m_count
        invariant
            0 <= m <= m_count,
            curves@.len() == m,
            snap.wf(),
            snap.date_sorted(),
            snap.rows@.len() == n >= 1,
            m_count == snap.method_count,
            1 <= p,
            p as int <= snap.rows@[n - 1].day - snap.rows@[0].day + 1,
            snap.rows@[0].day >= 0,
            snap.rows@[n - 1].day < 4_000_000,
            forall|j: int|
                0 <= j < m ==> (#[trigger] curves@[j]).points@ == curve_model(
                    snap.rows@,
                    j,
                    p as int,
                ),
        decreases m_count - m,
    {
        let pts = series_points(snap, m, p);
        curves.push(SeriesCurve { points: pts });
        m = m + 1;
    }

    let ext = track_extrema(snap, activated, p);

    let mut date_labels: Vec<String> = Vec::new();
    date_labels.push(first.iso_string());
    let stop_label = match cur_out {
        Some(_) => first.plus_days(p).iso_string(),
        None => last_date.iso_string(),
    };
    date_labels.push(stop_label);

    let axis = scale_axis(ext.0, ext.1, date_labels);
    ChartOutput { curves, axis, x_len: p_days }
}

/// Successive draws of one scope nest: a draw that withholds more days
/// publishes exactly a prefix of any draw that withholds fewer, so the
/// animation reveals each day once, with no gap and no overlap, and the
/// finishing cycle publishes the full curve.
pub proof fn lemma_draws_nest(
    o1: ChartOutput,
    o2: ChartOutput,
    snap: LedgerSnapshot,
    act: Seq<bool>,
    c1: Option<i64>,
    c2: Option<i64>,
)
    requires
        snap.rows@.len() > 0,
        o1.matches_model(snap, act, c1),
        o2.matches_model(snap, act, c2),
        0 <= spec_rendered_days(c1, spec_total_days(snap.rows@)) <= spec_rendered_days(
            c2,
            spec_total_days(snap.rows@),
        ),
    ensures
        forall|m: int|
            0 <= m < o1.curves@.len() ==> (#[trigger] o1.curves@[m]).points@
                == o2.curves@[m].points@.take(spec_rendered_days(c1, spec_total_days(snap.rows@))),
{
    let total = spec_total_days(snap.rows@);
    let p1 = spec_rendered_days(c1, total);
    let p2 = spec_rendered_days(c2, total);
    assert forall|m: int| 0 <= m < o1.curves@.len() implies (#[trigger] o1.curves@[m]).points@
        == o2.curves@[m].points@.take(p1) by {
        crate::curve::lemma_partial_is_prefix(snap.rows@, m, p1, p2);
    }
}

/// A finished reveal is idempotent: with cursor `None` on an unchanged
/// scope, any two draws that match the model publish identical curves,
/// bounds and labels.
pub proof fn lemma_idempotent(
    o1: ChartOutput,
    o2: ChartOutput,
    snap: LedgerSnapshot,
    act: Seq<bool>,
)
    requires
        o1.matches_model(snap, act, None),
        o2.matches_model(snap, act, None),
    ensures
        o1.curves@.len() == o2.curves@.len(),
        forall|m: int|
            0 <= m < o1.curves@.len() ==> (#[trigger] o1.curves@[m]).points@
                == o2.curves@[m].points@,
        o1.axis.low_bound == o2.axis.low_bound,
        o1.axis.high_bound == o2.axis.high_bound,
        o1.axis.gridline_labels@.len() == o2.axis.gridline_labels@.len(),
        forall|i: int|
            0 <= i < o1.axis.gridline_labels@.len() ==> (#[trigger] o1.axis.gridline_labels@[i])@
                == o2.axis.gridline_labels@[i]@,
        o1.axis.date_labels@.len() == o2.axis.date_labels@.len(),
        forall|i: int|
            0 <= i < o1.axis.date_labels@.len() ==> (#[trigger] o1.axis.date_labels@[i])@
                == o2.axis.date_labels@[i]@,
        o1.x_len == o2.x_len,
{
}

} // verus!
