//! Decimal digit rendering: spec-level digit sequences and exec helpers that
//! append digits to a `String`.

use vstd::prelude::*;

verus! {

/// The character for one decimal digit value.
pub open spec fn digit_char(d: int) -> char {
    if d == 0 {
        '0'
    } else if d == 1 {
        '1'
    } else if d == 2 {
        '2'
    } else if d == 3 {
        '3'
    } else if d == 4 {
        '4'
    } else if d == 5 {
        '5'
    } else if d == 6 {
        '6'
    } else if d == 7 {
        '7'
    } else if d == 8 {
        '8'
    } else {
        '9'
    }
}

/// The decimal digits of `n`, most significant first, without leading zeros
/// (zero itself is the single digit `0`).
pub open spec fn dec_str(n: nat) -> Seq<char>
    decreases n,
{
    if n < 10 {
        seq![digit_char(n as int)]
    } else {
        dec_str(n / 10) + seq![digit_char((n % 10) as int)]
    }
}

/// The low `k` decimal digits of `n`, zero padded on the left to width `k`.
pub open spec fn padded_str(n: nat, k: nat) -> Seq<char>
    decreases k,
{
    if k == 0 {
        Seq::<char>::empty()
    } else {
        padded_str(n / 10, (k - 1) as nat) + seq![digit_char((n % 10) as int)]
    }
}

/// The string literal for one decimal digit.
pub fn digit_lit(d: u64) -> (s: &'static str)
    requires
        d < 10,
    ensures
        s@ == seq![digit_char(d as int)],
{
    proof {
        reveal_strlit("0");
        reveal_strlit("1");
        reveal_strlit("2");
        reveal_strlit("3");
        reveal_strlit("4");
        reveal_strlit("5");
        reveal_strlit("6");
        reveal_strlit("7");
        reveal_strlit("8");
        reveal_strlit("9");
    }
    match d {
        0 => "0",
        1 => "1",
        2 => "2",
        3 => "3",
        4 => "4",
        5 => "5",
        6 => "6",
        7 => "7",
        8 => "8",
        _ => "9",
    }
}

/// Appends the decimal digits of `n` (no leading zeros) to `out`.
pub fn push_dec(n: u64, out: &mut String)
    ensures
        final(out)@ == old(out)@ + dec_str(n as nat),
    decreases n,
{
    if n < 10 {
        let s = digit_lit(n);
        out.append(s);
    } else {
        push_dec(n / 10, out);
        let s = digit_lit(n % 10);
        out.append(s);
        assert(out@ =~= old(out)@ + dec_str(n as nat));
    }
}

/// Appends the low `k` decimal digits of `n`, zero padded to width `k`.
pub fn push_padded(n: u64, k: usize, out: &mut String)
    ensures
        final(out)@ == old(out)@ + padded_str(n as nat, k as nat),
    decreases k,
{
    if k == 0 {
        assert(out@ =~= old(out)@ + padded_str(n as nat, 0));
    } else {
        push_padded(n / 10, k - 1, out);
        let s = digit_lit(n % 10);
        out.append(s);
        assert(out@ =~= old(out)@ + padded_str(n as nat, k as nat));
    }
}

} // verus!
