//! Decimal rendering of counters and the short labels built from them.

use vstd::prelude::*;

verus! {

/// The character of decimal digit `d` (for `d < 10`).
pub open spec fn digit_char(d: nat) -> char {
    (48 + d) as char
}

/// Decimal notation of `n`, most significant digit first, without leading
/// zeros.
pub open spec fn spec_decimal(n: nat) -> Seq<char>
    decreases n,
{
    if n < 10 {
        seq![digit_char(n)]
    } else {
        spec_decimal(n / 10).push(digit_char(n % 10))
    }
}

/// The number a string of decimal digits denotes.
pub open spec fn spec_value(s: Seq<char>) -> nat
    decreases s.len(),
{
    if s.len() == 0 {
        0
    } else {
        spec_value(s.drop_last()) * 10 + ((s.last() as int - 48) as nat)
    }
}

/// Whether every character is a decimal digit.
pub open spec fn all_digits(s: Seq<char>) -> bool {
    forall|i: int| 0 <= i < s.len() ==> '0' <= #[trigger] s[i] <= '9'
}

/// Decimal text reads back as the number it was made from, is made of
/// digits only, is never empty, and has no leading zero (except `0`).
pub proof fn lemma_decimal_reads_back(n: nat)
    ensures
        spec_value(spec_decimal(n)) == n,
        all_digits(spec_decimal(n)),
        spec_decimal(n).len() >= 1,
        spec_decimal(n).len() > 1 ==> spec_decimal(n)[0] != '0',
    decreases n,
{
    assert(digit_char(n % 10) as int == 48 + n % 10);
    if n < 10 {
        let s = spec_decimal(n);
        assert(s.drop_last() =~= Seq::<char>::empty());
        assert(spec_value(s.drop_last()) == 0);
    } else {
        lemma_decimal_reads_back(n / 10);
        let s = spec_decimal(n);
        let prefix = spec_decimal(n / 10);
        assert(s.drop_last() =~= prefix);
        assert(s.last() == digit_char(n % 10));
        assert(spec_value(s) == spec_value(prefix) * 10 + (n % 10));
        assert((n / 10) * 10 + n % 10 == n);
        assert(s[0] == prefix[0]);
        assert(n / 10 >= 1);
        assert(prefix.len() == 1 ==> prefix[0] != '0') by {
            if prefix.len() == 1 {
                assert(spec_value(prefix) == spec_value(prefix.drop_last()) * 10 + ((prefix.last() as int - 48) as nat));
                assert(prefix.drop_last().len() == 0);
            }
        }
    }
}

/// `n` written with at least two digits, as `{:02}` does.
pub open spec fn spec_two_digits(n: nat) -> Seq<char> {
    if n < 10 {
        seq!['0'] + spec_decimal(n)
    } else {
        spec_decimal(n)
    }
}

fn digit_str(d: u32) -> (r: &'static str)
    requires
        d < 10,
    ensures
        r@ == seq![digit_char(d as nat)],
{
    if d == 0 {
        proof { reveal_strlit("0"); }
        "0"
    } else if d == 1 {
        proof { reveal_strlit("1"); }
        "1"
    } else if d == 2 {
        proof { reveal_strlit("2"); }
        "2"
    } else if d == 3 {
        proof { reveal_strlit("3"); }
        "3"
    } else if d == 4 {
        proof { reveal_strlit("4"); }
        "4"
    } else if d == 5 {
        proof { reveal_strlit("5"); }
        "5"
    } else if d == 6 {
        proof { reveal_strlit("6"); }
        "6"
    } else if d == 7 {
        proof { reveal_strlit("7"); }
        "7"
    } else if d == 8 {
        proof { reveal_strlit("8"); }
        "8"
    } else {
        proof { reveal_strlit("9"); }
        "9"
    }
}

/// Decimal text of `n`, as `n.to_string()` gives it.
pub fn decimal(n: u32) -> (r: String)
    ensures
        r@ == spec_decimal(n as nat),
    decreases n,
{
    if n < 10 {
        String::from_str(digit_str(n))
    } else {
        let mut s = decimal(n / 10);
        s.append(digit_str(n % 10));
        s
    }
}

/// `m:ss` clock text for a play position of `minutes` and `seconds`.
pub fn clock_label(minutes: u32, seconds: u32) -> (r: String)
    ensures
        r@ == spec_decimal(minutes as nat) + ":"@ + spec_two_digits(seconds as nat),
{
    let mut s = decimal(minutes);
    s.append(":");
    if seconds < 10 {
        proof { reveal_strlit("0"); }
        s.append("0");
        assert(s@ == spec_decimal(minutes as nat) + ":"@ + seq!['0']);
    }
    let d = decimal(seconds);
    s.append(d.as_str());
    assert(s@ =~= spec_decimal(minutes as nat) + ":"@ + spec_two_digits(seconds as nat));
    s
}

/// `done / total` frame counter shown while a bake runs.
pub fn progress_label(done: u32, total: u32) -> (r: String)
    ensures
        r@ == spec_decimal(done as nat) + " / "@ + spec_decimal(total as nat),
{
    let mut s = decimal(done);
    s.append(" / ");
    let t = decimal(total);
    s.append(t.as_str());
    s
}

} // verus!
