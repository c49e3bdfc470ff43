//! Decimal rendering of integers, as `Display` writes them for `i32`.

use vstd::prelude::*;

verus! {

pub open spec fn digit_char(d: int) -> char {
    if d == 0 {
        '0'
    } else if d == 1 {
        '1'
    } else if d == 2 {
        '2'
    } else if d == 3 {
        '3'
    } else if d == 4 {
        '4'
    } else if d == 5 {
        '5'
    } else if d == 6 {
        '6'
    } else if d == 7 {
        '7'
    } else if d == 8 {
        '8'
    } else {
        '9'
    }
}

/// The decimal digits of `n`, most significant first, without leading zeros.
pub open spec fn nat_digits(n: nat) -> Seq<char>
    decreases n,
{
    if n < 10 {
        seq![digit_char(n as int)]
    } else {
        nat_digits(n / 10) + seq![digit_char((n % 10) as int)]
    }
}

/// `x` in decimal, with a leading `-` when negative.
pub open spec fn decimal(x: int) -> Seq<char> {
    if x < 0 {
        seq!['-'] + nat_digits((-x) as nat)
    } else {
        nat_digits(x as nat)
    }
}

pub proof fn lemma_nat_digits_are_digits(n: nat)
    ensures
        forall|i: int| 0 <= i < nat_digits(n).len() ==> '0' <= #[trigger] nat_digits(n)[i] <= '9',
    decreases n,
{
    if n >= 10 {
        lemma_nat_digits_are_digits(n / 10);
        let a = nat_digits(n / 10);
        let b = seq![digit_char((n % 10) as int)];
        assert forall|i: int| 0 <= i < (a + b).len() implies '0' <= #[trigger] (a + b)[i] <= '9' by {
            if i < a.len() {
                assert((a + b)[i] == a[i]);
            }
        }
    }
}

/// A decimal rendering holds no NUL character.
pub proof fn lemma_decimal_has_no_nul(x: int)
    ensures
        forall|i: int| 0 <= i < decimal(x).len() ==> #[trigger] decimal(x)[i] != '\0',
{
    if x < 0 {
        lemma_nat_digits_are_digits((-x) as nat);
        let d = nat_digits((-x) as nat);
        assert forall|i: int| 0 <= i < decimal(x).len() implies #[trigger] decimal(x)[i] != '\0' by {
            if i > 0 {
                assert(decimal(x)[i] == d[i - 1]);
            }
        }
    } else {
        lemma_nat_digits_are_digits(x as nat);
    }
}

fn append_digit(s: &mut String, d: u64)
    requires
        d < 10,
    ensures
        final(s)@ == old(s)@ + seq![digit_char(d as int)],
{
    let t: &str = match d {
        0 => "0",
        1 => "1",
        2 => "2",
        3 => "3",
        4 => "4",
        5 => "5",
        6 => "6",
        7 => "7",
        8 => "8",
        _ => "9",
    };
    proof {
        reveal_strlit("0");
        reveal_strlit("1");
        reveal_strlit("2");
        reveal_strlit("3");
        reveal_strlit("4");
        reveal_strlit("5");
        reveal_strlit("6");
        reveal_strlit("7");
        reveal_strlit("8");
        reveal_strlit("9");
        assert(t@ =~= seq![digit_char(d as int)]);
    }
    s.append(t);
}

fn append_nat_digits(s: &mut String, n: u64)
    ensures
        final(s)@ == old(s)@ + nat_digits(n as nat),
    decreases n,
{
    if n >= 10 {
        append_nat_digits(s, n / 10);
        append_digit(s, n % 10);
        assert(final(s)@ =~= old(s)@ + nat_digits(n as nat));
    } else {
        append_digit(s, n);
    }
}

/// Append `x` in decimal to `s`.
pub fn append_decimal(s: &mut String, x: i32)
    ensures
        final(s)@ == old(s)@ + decimal(x as int),
{
    if x < 0 {
        s.append("-");
        proof {
            reveal_strlit("-");
        }
        let m: i64 = 0 - (x as i64);
        append_nat_digits(s, m as u64);
        assert(final(s)@ =~= old(s)@ + decimal(x as int));
    } else {
        append_nat_digits(s, x as u64);
    }
}

} // verus!
