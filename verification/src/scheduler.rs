//! The progressive-reveal scheduler: picks how many simulated days each
//! redraw cycle advances, and drives the resumable cursor that withholds the
//! tail of the curve during the draw-in animation.

use vstd::prelude::*;

verus! {

/// The per-cycle step in days: a tier table keyed on the scope's total day
/// span. Wider scopes use a smaller fraction per cycle; scopes of 50 to 200
/// days step one day flat; every tier is clamped to at least one day.
pub open spec fn spec_reveal_step(total: int) -> int {
    let scaled = if total > 4000 {
        total * 7
    } else if total > 2000 {
        total * 5
    } else if total > 1000 {
        total * 4
    } else if total > 500 {
        total * 3
    } else if total > 360 {
        total * 4
    } else if total > 200 {
        total * 2
    } else if total < 50 {
        total * 20
    } else {
        1000
    };
    if scaled / 1000 < 1 {
        1
    } else {
        scaled / 1000
    }
}

/// Computes the reveal step for a scope of `total_days` days, once per scope.
pub fn reveal_step(total_days: i64) -> (s: i64)
    requires
        0 <= total_days <= 4_000_000,
    ensures
        s == spec_reveal_step(total_days as int),
        1 <= s,
{
    let scaled: i64 = if total_days > 4000 {
        total_days * 7
    } else if total_days > 2000 {
        total_days * 5
    } else if total_days > 1000 {
        total_days * 4
    } else if total_days > 500 {
        total_days * 3
    } else if total_days > 360 {
        total_days * 4
    } else if total_days > 200 {
        total_days * 2
    } else if total_days < 50 {
        total_days * 20
    } else {
        1000
    };
    let s: i64 = scaled / 1000;
    if s < 1 {
        1
    } else {
        s
    }
}

/// One cycle of the cursor state machine. `Some(0)` starts a fresh
/// animation: the first cycle already draws `step` days, so the cursor
/// jumps to the days still withheld. Later cycles shed `step` days each;
/// once nothing would remain withheld the cursor becomes `None`, and `None`
/// stays `None` until the host resets the scope.
pub open spec fn spec_advance_cursor(c: Option<i64>, total: int, step: int) -> Option<i64> {
    match c {
        None => None,
        Some(v) => if v == 0 {
            if total > step {
                Some((total - step) as i64)
            } else {
                None
            }
        } else {
            if v > step {
                Some((v - step) as i64)
            } else {
                None
            }
        },
    }
}

/// How many simulated days the draw after a cursor transition shows:
/// everything but what the cursor still withholds, plus the closing day of
/// the range.
pub open spec fn spec_rendered_days(c: Option<i64>, total: int) -> int {
    match c {
        None => total + 1,
        Some(v) => total - v,
    }
}

/// The cursor a fresh scope starts from.
pub fn initial_cursor() -> (c: Option<i64>)
    ensures
        c == Some(0i64),
{
    Some(0)
}

/// Advances the cursor one cycle.
pub fn advance_cursor(cursor: Option<i64>, total_days: i64, step: i64) -> (r: Option<i64>)
    requires
        0 <= total_days,
        1 <= step,
        cursor matches Some(v) ==> 0 <= v <= total_days,
    ensures
        r == spec_advance_cursor(cursor, total_days as int, step as int),
        r matches Some(w) ==> 1 <= w && w <= total_days - 1,
        r is None ==> cursor is None || spec_rendered_days(r, total_days as int) == total_days + 1,
{
    match cursor {
        None => None,
        Some(v) => {
            if v == 0 {
                if total_days > step {
                    Some(total_days - step)
                } else {
                    None
                }
            } else {
                if v > step {
                    Some(v - step)
                } else {
                    None
                }
            }
        },
    }
}

/// The cursor value sequence is strictly decreasing: from any pending value
/// the next cycle either finishes (`None`) or withholds strictly fewer days,
/// and a finished cursor never revives.
pub proof fn lemma_cursor_strictly_decreasing(v: i64, total: int, step: int)
    requires
        1 <= step,
        0 < v <= total,
    ensures
        match spec_advance_cursor(Some(v), total, step) {
            Some(w) => 0 < w < v,
            None => true,
        },
        spec_advance_cursor(None, total, step) is None,
{
}

/// Each cycle reveals exactly the days between the old and the new rendered
/// count: consecutive draws neither skip nor repeat a day, and the cycle on
/// which the cursor finishes reaches the full count exactly.
pub proof fn lemma_reveal_exact(v: i64, total: int, step: int)
    requires
        1 <= step,
        0 < v <= total,
    ensures
        spec_advance_cursor(Some(v), total, step) matches Some(w) ==> spec_rendered_days(
            Some(w),
            total,
        ) > spec_rendered_days(Some(v), total),
        spec_advance_cursor(Some(v), total, step) is None ==> spec_rendered_days(
            None,
            total,
        ) == total + 1,
{
}

} // verus!
