//! The curve builder: walks the closed day range from the first to the last
//! transaction date, one simulated day at a time. A day with rows takes the
//! last same-day row's balances (same-day rows coalesce into one axis step);
//! a day without rows repeats the previous day's balances (carry-forward).
//! The extrema tracker folds every visited row's activated balances into the
//! running low and high bounds.

use vstd::prelude::*;
use crate::money::max_cents;
use crate::snapshot::{rows_sorted, LedgerSnapshot, SnapshotRow};

verus! {

/// One plotted point: a zero-based day offset on the x axis and a balance in
/// cents on the y axis.
#[derive(Clone, Copy, PartialEq, Eq, Structural, Debug)]
pub struct CurvePoint {
    pub x: i64,
    pub y: i64,
}

/// The ordered per-day points of one payment method.
pub struct SeriesCurve {
    pub points: Vec<CurvePoint>,
}

/// The index of the last row on or before `day`. The walker only asks on or
/// after the first row's day, where such a row exists.
pub open spec fn last_at_or_before(rows: Seq<SnapshotRow>, day: int) -> int
    decreases rows.len(),
{
    if rows.len() == 0 {
        0
    } else if rows.last().day <= day {
        rows.len() - 1
    } else {
        last_at_or_before(rows.drop_last(), day)
    }
}

/// Date order is transitive across the rows.
pub proof fn lemma_sorted_le(rows: Seq<SnapshotRow>, a: int, b: int)
    requires
        rows_sorted(rows),
        0 <= a <= b < rows.len(),
    ensures
        rows[a].day <= rows[b].day,
    decreases b - a,
{
    if a < b {
        lemma_sorted_le(rows, a, b - 1);
    }
}

/// In date-ordered rows, an index whose row is on or before `day` and whose
/// successor, if any, is after `day` is the last row on or before `day`.
pub proof fn lemma_last_at_unique(rows: Seq<SnapshotRow>, day: int, i: int)
    requires
        rows_sorted(rows),
        0 <= i < rows.len(),
        rows[i].day <= day,
        i + 1 < rows.len() ==> rows[i + 1].day > day,
    ensures
        last_at_or_before(rows, day) == i,
    decreases rows.len(),
{
    if i + 1 < rows.len() {
        lemma_sorted_le(rows, i + 1, rows.len() - 1);
        let shorter = rows.drop_last();
        assert(rows_sorted(shorter)) by {
            assert(forall|j: int|
                0 <= j < shorter.len() - 1 ==> #[trigger] shorter[j].day == rows[j].day
                    && shorter[j + 1].day == rows[j + 1].day);
        }
        lemma_last_at_unique(shorter, day, i);
    }
}

/// The balance of method `m` on the day `t` days after the first row's day:
/// what the latest row on or before that day reports.
pub open spec fn value_at(rows: Seq<SnapshotRow>, m: int, t: int) -> i64 {
    rows[last_at_or_before(rows, rows[0].day + t)].balances@[m]
}

/// The first `p` points of method `m`'s curve: one point per simulated day,
/// the day offset as its x coordinate.
pub open spec fn curve_model(rows: Seq<SnapshotRow>, m: int, p: int) -> Seq<CurvePoint> {
    Seq::new(p as nat, |t: int| CurvePoint { x: t as i64, y: value_at(rows, m, t) })
}

/// Folds one row into the running low bound: every activated method's
/// balance, in roster order.
pub open spec fn scan_low(prev: i64, bals: Seq<i64>, act: Seq<bool>, m: int) -> i64
    decreases m,
{
    if m <= 0 {
        prev
    } else {
        let rest = scan_low(prev, bals, act, m - 1);
        if act[m - 1] && bals[m - 1] < rest {
            bals[m - 1]
        } else {
            rest
        }
    }
}

/// Folds one row into the running high bound.
pub open spec fn scan_high(prev: i64, bals: Seq<i64>, act: Seq<bool>, m: int) -> i64
    decreases m,
{
    if m <= 0 {
        prev
    } else {
        let rest = scan_high(prev, bals, act, m - 1);
        if act[m - 1] && bals[m - 1] > rest {
            bals[m - 1]
        } else {
            rest
        }
    }
}

/// The low bound after the first `n` rows, starting from zero.
pub open spec fn rows_low(rows: Seq<SnapshotRow>, act: Seq<bool>, n: int) -> i64
    decreases n,
{
    if n <= 0 {
        0
    } else {
        scan_low(rows_low(rows, act, n - 1), rows[n - 1].balances@, act, act.len() as int)
    }
}

/// The high bound after the first `n` rows, starting from zero.
pub open spec fn rows_high(rows: Seq<SnapshotRow>, act: Seq<bool>, n: int) -> i64
    decreases n,
{
    if n <= 0 {
        0
    } else {
        scan_high(rows_high(rows, act, n - 1), rows[n - 1].balances@, act, act.len() as int)
    }
}

/// Folding a row moves the low bound only downward, and only onto one of the
/// row's balances.
pub proof fn lemma_scan_low_range(prev: i64, bals: Seq<i64>, act: Seq<bool>, m: int)
    requires
        forall|j: int| 0 <= j < bals.len() ==> -max_cents() < #[trigger] bals[j] < max_cents(),
        m <= bals.len(),
        -max_cents() < prev,
    ensures
        -max_cents() < scan_low(prev, bals, act, m) <= prev,
    decreases m,
{
    if m > 0 {
        lemma_scan_low_range(prev, bals, act, m - 1);
    }
}

/// Folding a row moves the high bound only upward, and only onto one of the
/// row's balances.
pub proof fn lemma_scan_high_range(prev: i64, bals: Seq<i64>, act: Seq<bool>, m: int)
    requires
        forall|j: int| 0 <= j < bals.len() ==> -max_cents() < #[trigger] bals[j] < max_cents(),
        m <= bals.len(),
        prev < max_cents(),
    ensures
        prev <= scan_high(prev, bals, act, m) < max_cents(),
    decreases m,
{
    if m > 0 {
        lemma_scan_high_range(prev, bals, act, m - 1);
    }
}

/// The last row on or before a day in range exists and is followed, if by
/// anything, by a later day.
pub proof fn lemma_last_at_props(rows: Seq<SnapshotRow>, day: int)
    requires
        rows_sorted(rows),
        rows.len() >= 1,
        rows[0].day <= day,
    ensures
        ({
            let r = last_at_or_before(rows, day);
            &&& 0 <= r < rows.len()
            &&& rows[r].day <= day
            &&& (r + 1 < rows.len() ==> rows[r + 1].day > day)
        }),
    decreases rows.len(),
{
    if rows.last().day > day {
        let shorter = rows.drop_last();
        assert(rows_sorted(shorter)) by {
            assert(forall|j: int|
                0 <= j < shorter.len() - 1 ==> #[trigger] shorter[j].day == rows[j].day
                    && shorter[j + 1].day == rows[j + 1].day);
        }
        assert(shorter.len() >= 1);
        lemma_last_at_props(shorter, day);
    }
}

/// Every curve of one draw has the same length: one point per rendered day,
/// whatever rows each method contributed.
pub proof fn lemma_equal_curve_lengths(rows: Seq<SnapshotRow>, m1: int, m2: int, p: int)
    requires
        p >= 0,
    ensures
        curve_model(rows, m1, p).len() == curve_model(rows, m2, p).len(),
{
}

/// Coalescing: when two consecutive rows share a date (and nothing later
/// shares it too), that date still occupies a single day offset, and the
/// value plotted there is the later row's.
pub proof fn lemma_coalesce(rows: Seq<SnapshotRow>, i: int, m: int)
    requires
        rows_sorted(rows),
        0 <= i < rows.len() - 1,
        rows[i].day == rows[i + 1].day,
        i + 2 < rows.len() ==> rows[i + 2].day > rows[i + 1].day,
    ensures
        value_at(rows, m, rows[i].day - rows[0].day) == rows[i + 1].balances@[m],
{
    lemma_sorted_le(rows, 0, i);
    lemma_last_at_unique(rows, rows[i].day as int, i + 1);
}

/// Carry-forward: a simulated day no row falls on plots, for every method,
/// exactly the previous day's value.
pub proof fn lemma_carry_forward(rows: Seq<SnapshotRow>, m: int, t: int)
    requires
        rows_sorted(rows),
        rows.len() >= 1,
        t >= 1,
        forall|j: int| 0 <= j < rows.len() ==> #[trigger] rows[j].day != rows[0].day + t,
    ensures
        value_at(rows, m, t) == value_at(rows, m, t - 1),
{
    lemma_last_at_props(rows, rows[0].day + t - 1);
    let r = last_at_or_before(rows, rows[0].day + t - 1);
    lemma_last_at_unique(rows, rows[0].day + t, r);
}

/// A shorter reveal is a prefix of any longer one over the same scope:
/// successive cycles extend the drawn curve without skipping or repeating a
/// day, and the finishing cycle reaches the full curve exactly.
pub proof fn lemma_partial_is_prefix(rows: Seq<SnapshotRow>, m: int, p1: int, p2: int)
    requires
        0 <= p1 <= p2,
    ensures
        curve_model(rows, m, p1) == curve_model(rows, m, p2).take(p1),
{
    assert(curve_model(rows, m, p1) =~= curve_model(rows, m, p2).take(p1));
}

/// Folding a row takes the low bound to or below every activated balance in
/// it.
proof fn lemma_scan_low_covers(prev: i64, bals: Seq<i64>, act: Seq<bool>, k: int, m: int)
    requires
        0 <= m < k <= bals.len(),
        m < act.len(),
        act[m],
    ensures
        scan_low(prev, bals, act, k) <= bals[m],
    decreases k,
{
    if m < k - 1 {
        lemma_scan_low_covers(prev, bals, act, k - 1, m);
    }
}

/// Folding a row takes the high bound to or above every activated balance in
/// it.
proof fn lemma_scan_high_covers(prev: i64, bals: Seq<i64>, act: Seq<bool>, k: int, m: int)
    requires
        0 <= m < k <= bals.len(),
        m < act.len(),
        act[m],
    ensures
        scan_high(prev, bals, act, k) >= bals[m],
    decreases k,
{
    if m < k - 1 {
        lemma_scan_high_covers(prev, bals, act, k - 1, m);
    }
}

/// The tracked bounds contain every activated balance of every visited row:
/// what the draw renders lies between the low and high the axis is scaled
/// from.
pub proof fn lemma_bounds_contain(
    rows: Seq<SnapshotRow>,
    act: Seq<bool>,
    n: int,
    i: int,
    m: int,
)
    requires
        0 <= i < n <= rows.len(),
        0 <= m < act.len(),
        act[m],
        forall|j: int| 0 <= j < rows.len() ==> act.len() <= (#[trigger] rows[j].balances)@.len(),
    ensures
        rows_low(rows, act, n) <= rows[i].balances@[m] <= rows_high(rows, act, n),
    decreases n,
{
    if i == n - 1 {
        lemma_scan_low_covers(rows_low(rows, act, n - 1), rows[i].balances@, act, act.len() as int, m);
        lemma_scan_high_covers(
            rows_high(rows, act, n - 1),
            rows[i].balances@,
            act,
            act.len() as int,
            m,
        );
    } else {
        lemma_bounds_contain(rows, act, n - 1, i, m);
        lemma_scan_low_le_prev(rows_low(rows, act, n - 1), rows[n - 1].balances@, act, act.len() as int);
        lemma_scan_high_ge_prev(
            rows_high(rows, act, n - 1),
            rows[n - 1].balances@,
            act,
            act.len() as int,
        );
    }
}

/// Folding a row never raises the low bound.
proof fn lemma_scan_low_le_prev(prev: i64, bals: Seq<i64>, act: Seq<bool>, k: int)
    ensures
        scan_low(prev, bals, act, k) <= prev,
    decreases k,
{
    if k > 0 {
        lemma_scan_low_le_prev(prev, bals, act, k - 1);
    }
}

/// Folding a row never lowers the high bound.
proof fn lemma_scan_high_ge_prev(prev: i64, bals: Seq<i64>, act: Seq<bool>, k: int)
    ensures
        scan_high(prev, bals, act, k) >= prev,
    decreases k,
{
    if k > 0 {
        lemma_scan_high_ge_prev(prev, bals, act, k - 1);
    }
}

/// Folds one row's balances into the running bounds.
fn scan_extrema(low: i64, high: i64, bals: &Vec<i64>, act: &Vec<bool>) -> (r: (i64, i64))
    requires
        bals@.len() == act@.len(),
    ensures
        r.0 == scan_low(low, bals@, act@, act@.len() as int),
        r.1 == scan_high(high, bals@, act@, act@.len() as int),
{
    let n = act.len();
    let mut lo = low;
    let mut hi = high;
    let mut m: usize = 0;
    while m < n
        invariant
            0 <= m <= n,
            n == act@.len(),
            bals@.len() == act@.len(),
            lo == scan_low(low, bals@, act@, m as int),
            hi == scan_high(high, bals@, act@, m as int),
        decreases n - m,
    {
        if act[m] {
            let v = bals[m];
            if v < lo {
                lo = v;
            }
            if v > hi {
                hi = v;
            }
        }
        m = m + 1;
    }
    (lo, hi)
}

/// Builds the first `p` points of method `m`'s curve by walking the day
/// range: same-day rows collapse onto one point (the last row of the day
/// wins), and a day without rows carries the previous day's balance forward.
#[verifier::loop_isolation(false)]
pub fn series_points(snap: &LedgerSnapshot, m: usize, p: usize) -> (points: Vec<CurvePoint>)
    requires
        snap.wf(),
        snap.date_sorted(),
        snap.rows@.len() >= 1,
        m < snap.method_count,
        1 <= p,
        p as int <= snap.rows@[snap.rows@.len() - 1].day - snap.rows@[0].day + 1,
        snap.rows@[0].day >= 0,
        snap.rows@[snap.rows@.len() - 1].day < 4_000_000,
    ensures
        points@ == curve_model(snap.rows@, m as int, p as int),
{
    let ghost rows = snap.rows@;
    let n = snap.rows.len();
    let day0: i64 = snap.rows[0].day;
    let mut points: Vec<CurvePoint> = Vec::new();
    let mut data_num: usize = 0;
    let mut t: usize = 0;
    while t < p
        invariant
            0 <= t <= p,
            data_num <= n,
            forall|j: int| 0 <= j < data_num ==> #[trigger] rows[j].day <= day0 + t - 1,
            data_num < n ==> rows[data_num as int].day >= day0 + t,
            t > 0 ==> data_num >= 1,
            points@.len() == t,
            forall|j: int|
                0 <= j < t ==> #[trigger] points@[j] == (CurvePoint {
                    x: j as i64,
                    y: value_at(rows, m as int, j),
                }),
        decreases p - t,
    {
        let limit: i64 = day0 + t as i64;
        if data_num < n && snap.rows[data_num].day == limit {
            // a transaction day: consume every row of this date
            while data_num < n && snap.rows[data_num].day == limit
                invariant
                    data_num <= n,
                    forall|j: int| 0 <= j < data_num ==> #[trigger] rows[j].day <= limit,
                    data_num >= 1 && rows[data_num - 1].day == limit || (data_num < n
                        && rows[data_num as int].day == limit),
                decreases n - data_num,
            {
                data_num = data_num + 1;
            }
            proof {
                assert(rows[data_num - 1].day == limit);
                if data_num < n {
                    assert(rows[data_num as int].day >= rows[data_num - 1].day);
                }
                lemma_last_at_unique(rows, limit as int, data_num - 1);
            }
        } else {
            // carry-forward: no row on this day, the previous row still rules
            proof {
                assert(t > 0);
                if data_num < n {
                    assert(rows[data_num as int].day != limit);
                }
                lemma_last_at_unique(rows, limit as int, data_num - 1);
            }
        }
        let y = snap.rows[data_num - 1].balances[m];
        points.push(CurvePoint { x: t as i64, y });
        t = t + 1;
    }
    assert(points@ =~= curve_model(rows, m as int, p as int));
    points
}

/// Walks the rows the current draw visits, the ones dated up to the last
/// rendered day, and folds every one of them, coalesced rows included, into
/// the bounds. Returns the bounds and how many rows were visited.
#[verifier::loop_isolation(false)]
pub fn track_extrema(snap: &LedgerSnapshot, activated: &Vec<bool>, p: usize) -> (r: (i64, i64, usize))
    requires
        snap.wf(),
        snap.date_sorted(),
        snap.rows@.len() >= 1,
        activated@.len() == snap.method_count,
        1 <= p,
        p as int <= snap.rows@[snap.rows@.len() - 1].day - snap.rows@[0].day + 1,
        snap.rows@[0].day >= 0,
        snap.rows@[snap.rows@.len() - 1].day < 4_000_000,
    ensures
        r.2 == last_at_or_before(snap.rows@, snap.rows@[0].day + p - 1) + 1,
        r.0 == rows_low(snap.rows@, activated@, r.2 as int),
        r.1 == rows_high(snap.rows@, activated@, r.2 as int),
        -max_cents() < r.0 <= 0 <= r.1 < max_cents(),
{
    let ghost rows = snap.rows@;
    let n = snap.rows.len();
    let day0: i64 = snap.rows[0].day;
    let limit: i64 = day0 + (p - 1) as i64;
    let mut low: i64 = 0;
    let mut high: i64 = 0;
    let mut data_num: usize = 0;
    while data_num < n && snap.rows[data_num].day <= limit
        invariant
            data_num <= n,
            forall|j: int| 0 <= j < data_num ==> #[trigger] rows[j].day <= limit,
            low == rows_low(rows, activated@, data_num as int),
            high == rows_high(rows, activated@, data_num as int),
            -max_cents() < low <= 0 <= high < max_cents(),
        decreases n - data_num,
    {
        let row = &snap.rows[data_num];
        proof {
            assert(rows[data_num as int].wf(snap.method_count as int));
            lemma_scan_low_range(low, rows[data_num as int].balances@, activated@,
                activated@.len() as int);
            lemma_scan_high_range(high, rows[data_num as int].balances@, activated@,
                activated@.len() as int);
        }
        let scanned = scan_extrema(low, high, &row.balances, activated);
        low = scanned.0;
        high = scanned.1;
        data_num = data_num + 1;
    }
    proof {
        assert(rows[0].day == day0 && day0 <= limit);
        assert(data_num >= 1);
        if data_num < n {
            assert(rows[data_num as int].day > limit);
        }
        lemma_last_at_unique(rows, limit as int, data_num - 1);
    }
    (low, high, data_num)
}

} // verus!
