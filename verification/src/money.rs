//! Balance amounts as fixed-point integers: parsing of plain decimal text
//! (an optional sign, an integer part, at most two fraction digits) into
//! cents, so the curve engine works on exact integer values.

use vstd::prelude::*;
use crate::date::{is_digit, spec_digit_val};

verus! {

/// Powers of ten.
pub open spec fn pow10(k: nat) -> int
    decreases k,
{
    if k == 0 {
        1
    } else {
        10 * pow10((k - 1) as nat)
    }
}

/// Amounts stay strictly below this many cents in magnitude: the integer
/// part of an amount carries at most eleven digits.
pub open spec fn max_cents() -> int {
    10_000_000_000_000
}

pub open spec fn all_digits(s: Seq<char>) -> bool {
    forall|i: int| 0 <= i < s.len() ==> is_digit(#[trigger] s[i])
}

/// The value of a digit string, most significant digit first.
pub open spec fn digits_val(s: Seq<char>) -> int
    decreases s.len(),
{
    if s.len() == 0 {
        0
    } else {
        digits_val(s.drop_last()) * 10 + spec_digit_val(s.last())
    }
}

/// The index of the first `.` in `s`, or `s.len()` if there is none.
pub open spec fn dot_index(s: Seq<char>) -> int
    decreases s.len(),
{
    if s.len() == 0 {
        0
    } else if s[0] == '.' {
        0
    } else {
        1 + dot_index(s.skip(1))
    }
}

/// A digit string is worth less than one followed by as many zeros.
pub proof fn lemma_digits_val_bound(s: Seq<char>)
    requires
        all_digits(s),
    ensures
        0 <= digits_val(s) < pow10(s.len()),
    decreases s.len(),
{
    if s.len() > 0 {
        assert(all_digits(s.drop_last())) by {
            assert(forall|i: int| 0 <= i < s.len() - 1 ==> s.drop_last()[i] == s[i]);
        }
        lemma_digits_val_bound(s.drop_last());
    }
}

/// `dot_index` is the only position with no dot before it that either holds
/// a dot or is the end of the string.
pub proof fn lemma_dot_index_unique(s: Seq<char>, j: int)
    requires
        0 <= j <= s.len(),
        forall|i: int| 0 <= i < j ==> #[trigger] s[i] != '.',
        j == s.len() || s[j] == '.',
    ensures
        dot_index(s) == j,
    decreases s.len(),
{
    if s.len() > 0 && s[0] != '.' {
        let t = s.skip(1);
        assert(forall|i: int| 0 <= i < j - 1 ==> #[trigger] t[i] == s[i + 1]);
        lemma_dot_index_unique(t, j - 1);
    }
}

/// What decimal amount text denotes, in cents: an optional leading `-`, one
/// to eleven integer digits, then optionally a `.` and one or two fraction
/// digits. Anything else is malformed.
pub open spec fn spec_parse_amount(s: Seq<char>) -> Option<int> {
    let neg = s.len() > 0 && s[0] == '-';
    let body = if neg {
        s.skip(1)
    } else {
        s
    };
    let k = dot_index(body);
    if 1 <= k <= 11 && all_digits(body.take(k)) {
        let magnitude = if k == body.len() {
            Some(digits_val(body) * 100)
        } else {
            let frac = body.skip(k + 1);
            if 1 <= frac.len() <= 2 && all_digits(frac) {
                Some(
                    digits_val(body.take(k)) * 100 + digits_val(frac) * (if frac.len() == 1 {
                        10int
                    } else {
                        1int
                    }),
                )
            } else {
                None
            }
        };
        match magnitude {
            Some(v) => Some(
                if neg {
                    -v
                } else {
                    v
                },
            ),
            None => None,
        }
    } else {
        None
    }
}

/// Reads the digit run `s[from..to]` as a number; a non-digit in the run
/// yields `None`.
#[verifier::loop_isolation(false)]
fn scan_digits(s: &str, from: usize, to: usize) -> (r: Option<i64>)
    requires
        from <= to <= s@.len(),
        to - from <= 11,
    ensures
        r is Some <==> all_digits(s@.subrange(from as int, to as int)),
        r is Some ==> r->0 == digits_val(s@.subrange(from as int, to as int)),
        r is Some ==> 0 <= r->0 < pow10((to - from) as nat),
{
    let mut val: i64 = 0;
    let mut i: usize = from;
    while i < to
        invariant
            from <= i <= to,
            all_digits(s@.subrange(from as int, i as int)),
            val == digits_val(s@.subrange(from as int, i as int)),
            0 <= val < pow10((i - from) as nat),
        decreases to - i,
    {
        let c = s.get_char(i);
        match crate::date::char_digit(c) {
            Some(d) => {
                proof {
                    let pre = s@.subrange(from as int, i as int);
                    let post = s@.subrange(from as int, i + 1 as int);
                    assert(post.drop_last() =~= pre);
                    assert(post.last() == s@[i as int]);
                    assert(pow10((i + 1 - from) as nat) == 10 * pow10((i - from) as nat));
                    lemma_pow10_le((i - from) as nat, 10);
                    reveal_with_fuel(pow10, 12);
                }
                val = val * 10 + d as i64;
                i = i + 1;
            },
            None => {
                proof {
                    let run = s@.subrange(from as int, to as int);
                    assert(run[i - from] == s@[i as int]);
                }
                return None;
            },
        }
    }
    Some(val)
}

/// Parses decimal amount text into cents; malformed text yields `None`.
#[verifier::loop_isolation(false)]
#[verifier::rlimit(50)]
pub fn parse_amount(s: &str) -> (r: Option<i64>)
    ensures
        r is Some <==> spec_parse_amount(s@) is Some,
        r is Some ==> spec_parse_amount(s@) == Some(r->0 as int),
        r is Some ==> -max_cents() < r->0 < max_cents(),
{
    let n = s.unicode_len();
    let neg = n > 0 && s.get_char(0) == '-';
    let start: usize = if neg {
        1
    } else {
        0
    };
    let ghost body = if neg {
        s@.skip(1)
    } else {
        s@
    };
    assert(forall|i: int| 0 <= i < body.len() ==> #[trigger] body[i] == s@[i + start]);

    // find the first dot at or after `start`
    let mut k: usize = start;
    while k < n && s.get_char(k) != '.'
        invariant
            start <= k <= n,
            forall|i: int| start <= i < k ==> #[trigger] s@[i] != '.',
        decreases n - k,
    {
        k = k + 1;
    }
    proof {
        lemma_dot_index_unique(body, k - start);
    }

    // the integer part: one to eleven digits
    if k == start || k - start > 11 {
        return None;
    }
    proof {
        assert(body.take(k - start) =~= s@.subrange(start as int, k as int));
    }
    let val = match scan_digits(s, start, k) {
        Some(v) => v,
        None => {
            return None;
        },
    };
    proof {
        lemma_pow10_le((k - start) as nat, 11);
        reveal_with_fuel(pow10, 13);
    }

    if k == n {
        // no fraction part
        proof {
            assert(body.take(k - start) =~= body);
        }
        let cents = val * 100;
        if neg {
            Some(-cents)
        } else {
            Some(cents)
        }
    } else {
        // fraction part: one or two digits
        let flen = n - (k + 1);
        if flen == 0 || flen > 2 {
            return None;
        }
        proof {
            assert(body.skip(k + 1 - start) =~= s@.subrange(k + 1 as int, n as int));
        }
        let fval = match scan_digits(s, k + 1, n) {
            Some(v) => v,
            None => {
                return None;
            },
        };
        proof {
            reveal_with_fuel(pow10, 4);
        }
        let scale: i64 = if flen == 1 {
            10
        } else {
            1
        };
        let cents = val * 100 + fval * scale;
        if neg {
            Some(-cents)
        } else {
            Some(cents)
        }
    }
}

/// Powers of ten do not decrease with the exponent.
pub proof fn lemma_pow10_le(a: nat, b: nat)
    requires
        a <= b,
    ensures
        1 <= pow10(a) <= pow10(b),
    decreases b,
{
    if b > 0 {
        if a == b {
            lemma_pow10_le((a - 1) as nat, (b - 1) as nat);
        } else {
            lemma_pow10_le(a, (b - 1) as nat);
        }
    }
}

} // verus!
