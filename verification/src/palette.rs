//! The series palette: six fixed colors handed out last-first to the
//! activated series in roster order, then one fallback color for every
//! series beyond the sixth. Deactivated series get no color and consume
//! none.

use vstd::prelude::*;

verus! {

/// An RGB color.
#[derive(Clone, Copy, PartialEq, Eq, Structural, Debug)]
pub struct Rgb {
    pub red: u8,
    pub green: u8,
    pub blue: u8,
}

/// The color of the `k`-th activated series (zero based): the fixed stack
/// popped from its top, then the fallback.
pub open spec fn spec_series_color(k: int) -> Rgb {
    if k == 0 {
        Rgb { red: 255, green: 85, blue: 85 }
    } else if k == 1 {
        Rgb { red: 189, green: 147, blue: 249 }
    } else if k == 2 {
        Rgb { red: 255, green: 121, blue: 198 }
    } else if k == 3 {
        Rgb { red: 255, green: 184, blue: 108 }
    } else if k == 4 {
        Rgb { red: 80, green: 250, blue: 123 }
    } else if k == 5 {
        Rgb { red: 139, green: 233, blue: 253 }
    } else {
        Rgb { red: 241, green: 250, blue: 140 }
    }
}

/// How many of the first `m` roster entries are activated.
pub open spec fn count_activated(act: Seq<bool>, m: int) -> int
    decreases m,
{
    if m <= 0 {
        0
    } else {
        count_activated(act, m - 1) + if act[m - 1] {
            1int
        } else {
            0int
        }
    }
}

/// The color of the `k`-th activated series.
pub fn series_color(k: usize) -> (c: Rgb)
    ensures
        c == spec_series_color(k as int),
{
    if k == 0 {
        Rgb { red: 255, green: 85, blue: 85 }
    } else if k == 1 {
        Rgb { red: 189, green: 147, blue: 249 }
    } else if k == 2 {
        Rgb { red: 255, green: 121, blue: 198 }
    } else if k == 3 {
        Rgb { red: 255, green: 184, blue: 108 }
    } else if k == 4 {
        Rgb { red: 80, green: 250, blue: 123 }
    } else if k == 5 {
        Rgb { red: 139, green: 233, blue: 253 }
    } else {
        Rgb { red: 241, green: 250, blue: 140 }
    }
}

/// Assigns each roster entry its color: deactivated entries get `None` and
/// consume nothing; the `k`-th activated entry gets the `k`-th palette
/// color.
pub fn assign_colors(activated: &Vec<bool>) -> (colors: Vec<Option<Rgb>>)
    ensures
        colors@.len() == activated@.len(),
        forall|m: int|
            0 <= m < activated@.len() ==> #[trigger] colors@[m] == (if activated@[m] {
                Some(spec_series_color(count_activated(activated@, m)))
            } else {
                None::<Rgb>
            }),
{
    let n = activated.len();
    let mut colors: Vec<Option<Rgb>> = Vec::new();
    let mut used: usize = 0;
    let mut m: usize = 0;
    while m < n
        invariant
            0 <= m <= n,
            n == activated@.len(),
            used == count_activated(activated@, m as int),
            0 <= used <= m,
            colors@.len() == m,
            forall|j: int|
                0 <= j < m ==> #[trigger] colors@[j] == (if activated@[j] {
                    Some(spec_series_color(count_activated(activated@, j)))
                } else {
                    None::<Rgb>
                }),
        decreases n - m,
    {
        if activated[m] {
            colors.push(Some(series_color(used)));
            used = used + 1;
        } else {
            colors.push(None);
        }
        m = m + 1;
    }
    colors
}

} // verus!
