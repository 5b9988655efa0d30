//! The ledger snapshot handed to the curve engine: date-ordered rows, each a
//! calendar date plus one running balance per payment method, parsed from the
//! `DD-MM-YYYY` date text and decimal balance text the ledger layer stores.

use vstd::prelude::*;
use crate::date::{day_stamp, parse_date, spec_parse_date, valid_date, Date};
use crate::money::{max_cents, parse_amount, spec_parse_amount};

verus! {

/// Why a ledger slice could not be read: a malformed field is upstream
/// corruption, fatal for the current draw.
#[derive(Clone, Copy, PartialEq, Eq, Structural, Debug)]
pub enum ChartError {
    MalformedDate { row: usize },
    MalformedAmount { row: usize, method: usize },
}

/// One ledger row: a transaction date and every method's running balance as
/// of that date, in cents.
pub struct SnapshotRow {
    pub date: Date,
    pub day: i64,
    pub balances: Vec<i64>,
}

impl SnapshotRow {
    pub open spec fn wf(self, method_count: int) -> bool {
        &&& valid_date(self.date)
        &&& self.day == day_stamp(self.date)
        &&& self.balances@.len() == method_count
        &&& forall|m: int|
            0 <= m < method_count ==> -max_cents() < #[trigger] self.balances@[m] < max_cents()
    }
}

/// A parsed ledger slice for one draw.
pub struct LedgerSnapshot {
    pub rows: Vec<SnapshotRow>,
    pub method_count: usize,
}

/// Rows come in non-decreasing date order.
pub open spec fn rows_sorted(rows: Seq<SnapshotRow>) -> bool {
    forall|i: int| 0 <= i < rows.len() - 1 ==> #[trigger] rows[i].day <= rows[i + 1].day
}

/// The first malformed amount at or after column `j` of one row's balance
/// texts, if any.
pub open spec fn first_bad_amount(texts: Seq<Seq<char>>, j: int) -> Option<int>
    decreases texts.len() - j,
{
    if j < 0 || j >= texts.len() {
        None
    } else if spec_parse_amount(texts[j]) is None {
        Some(j)
    } else {
        first_bad_amount(texts, j + 1)
    }
}

/// The first defect at or after row `i`, reading each row's date and then its
/// balances left to right.
pub open spec fn first_defect(
    dates: Seq<Seq<char>>,
    amounts: Seq<Seq<Seq<char>>>,
    i: int,
) -> Option<ChartError>
    decreases dates.len() - i,
{
    if i < 0 || i >= dates.len() {
        None
    } else if spec_parse_date(dates[i]) is None {
        Some(ChartError::MalformedDate { row: i as usize })
    } else {
        match first_bad_amount(amounts[i], 0) {
            Some(j) => Some(ChartError::MalformedAmount { row: i as usize, method: j as usize }),
            None => first_defect(dates, amounts, i + 1),
        }
    }
}

impl LedgerSnapshot {
    /// Every row is structurally sound: a valid date with its own stamp, and
    /// one bounded balance per method.
    pub open spec fn wf(self) -> bool {
        forall|i: int|
            0 <= i < self.rows@.len() ==> (#[trigger] self.rows@[i]).wf(self.method_count as int)
    }

    /// Rows come in non-decreasing date order, as the ledger layer supplies
    /// them.
    pub open spec fn date_sorted(self) -> bool {
        rows_sorted(self.rows@)
    }

    /// Checks the date order, so a caller can establish `date_sorted` before
    /// building a chart.
    pub fn is_date_sorted(&self) -> (r: bool)
        ensures
            r == self.date_sorted(),
    {
        let n = self.rows.len();
        if n == 0 {
            return true;
        }
        let mut i: usize = 0;
        while i < n - 1
            invariant
                0 <= i <= n,
                n == self.rows@.len(),
                n >= 1,
                forall|j: int| 0 <= j < i ==> #[trigger] self.rows@[j].day <= self.rows@[j + 1].day,
            decreases n - i,
        {
            if self.rows[i].day > self.rows[i + 1].day {
                return false;
            }
            i = i + 1;
        }
        true
    }

    /// Parses one draw's ledger texts: row `i` holds the date text
    /// `dates[i]` and the balance text of each method, in roster order.
    /// The first malformed field, in reading order, is the error.
    #[verifier::loop_isolation(false)]
    pub fn from_texts(dates: &Vec<String>, amounts: &Vec<Vec<String>>, method_count: usize) -> (r:
        Result<LedgerSnapshot, ChartError>)
        requires
            dates@.len() == amounts@.len(),
            forall|i: int| 0 <= i < amounts@.len() ==> (#[trigger] amounts@[i])@.len() == method_count,
        ensures
            r is Ok <==> first_defect(dates.deep_view(), amounts.deep_view(), 0) is None,
            r is Err ==> Some(r->Err_0) == first_defect(dates.deep_view(), amounts.deep_view(), 0),
            r is Ok ==> {
                let snap = r->Ok_0;
                &&& snap.wf()
                &&& snap.method_count == method_count
                &&& snap.rows@.len() == dates@.len()
                &&& forall|i: int|
                    0 <= i < dates@.len() ==> Some((#[trigger] snap.rows@[i]).date)
                        == spec_parse_date(dates.deep_view()[i])
                &&& forall|i: int, m: int|
                    0 <= i < dates@.len() && 0 <= m < method_count
                        ==> Some((#[trigger] snap.rows@[i].balances@[m]) as int)
                        == spec_parse_amount(amounts.deep_view()[i][m])
            },
    {
        let ghost dv = dates.deep_view();
        let ghost av = amounts.deep_view();
        let n = dates.len();
        let mut rows: Vec<SnapshotRow> = Vec::new();
        let mut i: usize = 0;
        while i < n
            invariant
                0 <= i <= n,
                n == dates@.len(),
                dv == dates.deep_view(),
                av == amounts.deep_view(),
                dates@.len() == amounts@.len(),
                forall|j: int| 0 <= j < av.len() ==> (#[trigger] av[j]).len() == method_count,
                first_defect(dv, av, 0) == first_defect(dv, av, i as int),
                rows@.len() == i,
                forall|j: int| 0 <= j < i ==> (#[trigger] rows@[j]).wf(method_count as int),
                forall|j: int|
                    0 <= j < i ==> Some((#[trigger] rows@[j]).date) == spec_parse_date(dv[j]),
                forall|j: int, m: int|
                    0 <= j < i && 0 <= m < method_count ==> Some(
                        (#[trigger] rows@[j].balances@[m]) as int,
                    ) == spec_parse_amount(av[j][m]),
            decreases n - i,
        {
            proof {
                assert(dv[i as int] == dates@[i as int]@);
            }
            let date = match parse_date(dates[i].as_str()) {
                Some(d) => d,
                None => {
                    return Err(ChartError::MalformedDate { row: i });
                },
            };
            let day = date.day_number();
            let row_texts = &amounts[i];
            let mut balances: Vec<i64> = Vec::new();
            let mut m: usize = 0;
            let k = row_texts.len();
            proof {
                assert(av[i as int] == amounts@[i as int].deep_view());
            }
            while m < k
                invariant
                    0 <= m <= k,
                    k == method_count,
                    0 <= i < n,
                    n == dates@.len(),
                    av == amounts.deep_view(),
                    dates@.len() == amounts@.len(),
                    row_texts == &amounts[i as int],
                    k == row_texts@.len(),
                    av[i as int].len() == method_count,
                    first_bad_amount(av[i as int], 0) == first_bad_amount(av[i as int], m as int),
                    balances@.len() == m,
                    forall|q: int|
                        0 <= q < m ==> Some((#[trigger] balances@[q]) as int) == spec_parse_amount(
                            av[i as int][q],
                        ),
                    forall|q: int|
                        0 <= q < m ==> -max_cents() < #[trigger] balances@[q] < max_cents(),
                decreases k - m,
            {
                proof {
                    assert(av[i as int][m as int] == row_texts@[m as int]@);
                }
                match parse_amount(row_texts[m].as_str()) {
                    Some(v) => {
                        balances.push(v);
                    },
                    None => {
                        return Err(ChartError::MalformedAmount { row: i, method: m });
                    },
                }
                m = m + 1;
            }
            rows.push(SnapshotRow { date, day, balances });
            i = i + 1;
        }
        Ok(LedgerSnapshot { rows, method_count })
    }
}

} // verus!
