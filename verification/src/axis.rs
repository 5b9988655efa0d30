//! The value axis: pads the tracked extrema by ten percent of themselves,
//! splits the padded spread into ten equal shares, and renders the eleven
//! gridline labels. Values are held in ten-thousandths of the currency unit
//! (cents times one hundred), which keeps the padding and the shares exact.

use vstd::prelude::*;
use crate::digits::{dec_str, digit_char, padded_str, push_dec, push_padded};
use crate::money::{max_cents, pow10};

verus! {

/// Drops trailing zero digits.
pub open spec fn trim_zeros(s: Seq<char>) -> Seq<char>
    decreases s.len(),
{
    if s.len() > 0 && s.last() == '0' {
        trim_zeros(s.drop_last())
    } else {
        s
    }
}

/// A value in ten-thousandths rendered plainly: the whole part, then the
/// fraction with its trailing zeros dropped, and no fraction at all for a
/// whole value.
pub open spec fn spec_fmt_plain(v: int) -> Seq<char> {
    let a = if v < 0 {
        -v
    } else {
        v
    };
    let sign: Seq<char> = if v < 0 {
        seq!['-']
    } else {
        Seq::<char>::empty()
    };
    let whole = dec_str((a / 10000) as nat);
    if a % 10000 == 0 {
        sign + whole
    } else {
        sign + whole + seq!['.'] + trim_zeros(padded_str((a % 10000) as nat, 4))
    }
}

/// A value in ten-thousandths rendered with exactly two decimal places,
/// rounding half away from zero.
pub open spec fn spec_fmt_two(v: int) -> Seq<char> {
    let a = if v < 0 {
        -v
    } else {
        v
    };
    let r = (a + 50) / 100;
    let sign: Seq<char> = if v < 0 {
        seq!['-']
    } else {
        Seq::<char>::empty()
    };
    sign + dec_str((r / 100) as nat) + seq!['.'] + padded_str((r % 100) as nat, 2)
}

/// A rendered digit run is as wide as asked.
pub proof fn lemma_padded_len(n: nat, k: nat)
    ensures
        padded_str(n, k).len() == k,
    decreases k,
{
    if k > 0 {
        lemma_padded_len(n / 10, (k - 1) as nat);
    }
}

/// Renders a value in ten-thousandths plainly.
pub fn fmt_plain(v: i64) -> (s: String)
    requires
        -1_000_000_000_000_000_000 < v < 1_000_000_000_000_000_000,
    ensures
        s@ == spec_fmt_plain(v as int),
{
    proof {
        reveal_strlit("-");
        reveal_strlit(".");
    }
    let mut out = String::new();
    let a: i64 = if v < 0 {
        out.append("-");
        -v
    } else {
        v
    };
    push_dec((a / 10000) as u64, &mut out);
    let f: i64 = a % 10000;
    if f > 0 {
        out.append(".");
        let mut fv: i64 = f;
        let mut width: usize = 4;
        proof {
            reveal_with_fuel(pow10, 5);
        }
        while fv % 10 == 0
            invariant
                1 <= width <= 4,
                0 < fv < pow10(width as nat),
                trim_zeros(padded_str(f as nat, 4)) == trim_zeros(
                    padded_str(fv as nat, width as nat),
                ),
            decreases fv,
        {
            proof {
                reveal_with_fuel(pow10, 5);
                assert(fv / 10 >= 1) by {
                    assert(fv == 10 * (fv / 10) + fv % 10);
                }
                assert(width >= 2) by {
                    if width == 1 {
                        assert(fv < 10);
                        assert(fv >= 10) by {
                            assert(fv == 10 * (fv / 10) + fv % 10);
                        }
                    }
                }
                let cur = padded_str(fv as nat, width as nat);
                lemma_padded_len(fv as nat, width as nat);
                assert(cur.last() == digit_char((fv % 10) as int));
                assert(cur.drop_last() =~= padded_str((fv / 10) as nat, (width - 1) as nat));
                assert(fv / 10 < pow10((width - 1) as nat)) by {
                    assert(fv == 10 * (fv / 10) + fv % 10);
                    assert(pow10(width as nat) == 10 * pow10((width - 1) as nat));
                }
            }
            fv = fv / 10;
            width = width - 1;
        }
        proof {
            let cur = padded_str(fv as nat, width as nat);
            lemma_padded_len(fv as nat, width as nat);
            assert(cur.last() == digit_char((fv % 10) as int));
            assert(trim_zeros(cur) == cur);
        }
        push_padded(fv as u64, width, &mut out);
    }
    assert(out@ =~= spec_fmt_plain(v as int));
    out
}

/// Renders a value in ten-thousandths with two decimal places.
pub fn fmt_two(v: i64) -> (s: String)
    requires
        -1_000_000_000_000_000_000 < v < 1_000_000_000_000_000_000,
    ensures
        s@ == spec_fmt_two(v as int),
{
    proof {
        reveal_strlit("-");
        reveal_strlit(".");
    }
    let mut out = String::new();
    let a: i64 = if v < 0 {
        out.append("-");
        -v
    } else {
        v
    };
    let r: i64 = (a + 50) / 100;
    push_dec((r / 100) as u64, &mut out);
    out.append(".");
    push_padded((r % 100) as u64, 2, &mut out);
    assert(out@ =~= spec_fmt_two(v as int));
    out
}

/// The gridline spacing, in ten-thousandths: one tenth of the spread between
/// the padded bounds.
pub open spec fn spec_axis_diff(low_cents: int, high_cents: int) -> int {
    11 * high_cents - 9 * low_cents
}

/// The published value axis: padded bounds and the eleven gridline labels,
/// plus the two date labels of the horizontal axis.
pub struct AxisModel {
    pub low_bound: i64,
    pub high_bound: i64,
    pub gridline_labels: Vec<String>,
    pub date_labels: Vec<String>,
}

/// The eleven gridline labels: the padded low rendered plainly, then ten
/// successive additions of the spacing, each rendered with two decimals.
pub open spec fn gridlines_ok(labels: Seq<String>, low_cents: int, high_cents: int) -> bool {
    let low4 = 90 * low_cents;
    let diff = spec_axis_diff(low_cents, high_cents);
    &&& labels.len() == 11
    &&& labels[0]@ == spec_fmt_plain(low4)
    &&& forall|i: int| 1 <= i <= 10 ==> #[trigger] labels[i]@ == spec_fmt_two(low4 + i * diff)
}

/// Expands the high bound by ten percent of itself and shrinks the low bound
/// by ten percent of itself (both in ten-thousandths, so exactly), and emits
/// the gridline labels.
pub fn scale_axis(low_cents: i64, high_cents: i64, date_labels: Vec<String>) -> (m: AxisModel)
    requires
        -max_cents() < low_cents < max_cents(),
        -max_cents() < high_cents < max_cents(),
    ensures
        m.low_bound == 90 * low_cents,
        m.high_bound == 110 * high_cents,
        gridlines_ok(m.gridline_labels@, low_cents as int, high_cents as int),
        m.date_labels == date_labels,
{
    let low4: i64 = 90 * low_cents;
    let high4: i64 = 110 * high_cents;
    let diff: i64 = 11 * high_cents - 9 * low_cents;
    let mut labels: Vec<String> = Vec::new();
    labels.push(fmt_plain(low4));
    let mut to_add: i64 = low4;
    let mut i: usize = 1;
    while i <= 10
        invariant
            1 <= i <= 11,
            -max_cents() < low_cents < max_cents(),
            -max_cents() < high_cents < max_cents(),
            low4 == 90 * low_cents,
            diff == spec_axis_diff(low_cents as int, high_cents as int),
            to_add == low4 + (i - 1) * diff,
            labels@.len() == i,
            labels@[0]@ == spec_fmt_plain(low4 as int),
            forall|j: int| 1 <= j < i ==> #[trigger] labels@[j]@ == spec_fmt_two(low4 + j * diff),
        decreases 11 - i,
    {
        proof {
            assert((i - 1) * diff + diff == i as int * diff) by (nonlinear_arith);
            assert(-21 * max_cents() <= (i - 1) * diff <= 21 * max_cents() ==> -210 * max_cents()
                <= i as int * diff <= 210 * max_cents());
            assert(-21 * max_cents() * 10 <= (i - 1) * diff <= 21 * max_cents() * 10) by (
            nonlinear_arith)
                requires
                    0 <= i - 1 <= 10,
                    -21 * max_cents() <= diff <= 21 * max_cents(),
            ;
        }
        to_add = to_add + diff;
        labels.push(fmt_two(to_add));
        i = i + 1;
    }
    AxisModel { low_bound: low4, high_bound: high4, gridline_labels: labels, date_labels }
}

/// The padding law: the published low is the low bound less a tenth of
/// itself, and ten shares of the spacing on top of it land exactly on the
/// high bound plus a tenth of itself.
pub proof fn lemma_axis_padding(low_cents: int, high_cents: int)
    ensures
        90 * low_cents == 100 * low_cents - 10 * low_cents,
        110 * high_cents == 100 * high_cents + 10 * high_cents,
        90 * low_cents + 10 * spec_axis_diff(low_cents, high_cents) == 110 * high_cents,
{
}

} // verus!
