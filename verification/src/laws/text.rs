//! How numbers are written.

use vstd::prelude::*;
use crate::text::{
    all_digits, decimal, decimal_text, decimal_value, digit_char, law_decimal_is_digits,
    law_decimal_reads_back,
};

verus! {

proof fn lemma_no_leading_zero(n: nat)
    requires
        n > 0,
    ensures
        decimal(n).len() > 0,
        decimal(n)[0] != '0',
    decreases n,
{
    if n >= 10 {
        lemma_no_leading_zero(n / 10);
        assert(decimal(n)[0] == decimal(n / 10)[0]);
    }
}

/// A written number consists of decimal digits, without leading zeros, and reads
/// back as the number.
pub proof fn law_written_number(n: u64, r: String)
    requires
        call_ensures(decimal_text, (n,), r),
    ensures
        all_digits(r@),
        n > 0 ==> r@[0] != '0',
        n == 0 ==> r@ == seq!['0'],
        decimal_value(r@) == Some(n as nat),
{
    law_decimal_is_digits(n as nat);
    law_decimal_reads_back(n as nat);
    if n > 0 {
        lemma_no_leading_zero(n as nat);
    }
}

/// A number of one digit is that digit, and a further digit is written behind the
/// others.
pub proof fn law_further_digit(n: u64, d: u64, all: u64, rn: String, rd: String, r: String)
    requires
        d < 10,
        all == 10 * n + d,
        call_ensures(decimal_text, (n,), rn),
        call_ensures(decimal_text, (d,), rd),
        call_ensures(decimal_text, (all,), r),
    ensures
        rd@.len() == 1,
        rd@[0] as int == '0' as int + d,
        n > 0 ==> r@ == rn@ + rd@,
{
    if n > 0 {
        assert(all as nat / 10 == n);
        assert(all as nat % 10 == d);
        assert(decimal(all as nat) == decimal(n as nat).push(digit_char(d as nat)));
        assert(r@ =~= rn@ + rd@);
    }
}

/// What follows a number starts where its digits end: the same text cannot be
/// read as two numbers.
pub proof fn lemma_number_ends(a: nat, b: nat, x: Seq<char>, y: Seq<char>)
    requires
        x.len() > 0 && y.len() > 0,
        !('0' <= x[0] <= '9') && !('0' <= y[0] <= '9'),
        decimal(a) + x == decimal(b) + y,
    ensures
        a == b,
        x == y,
{
    let (s, t) = (decimal(a), decimal(b));
    let whole = s + x;
    law_decimal_is_digits(a);
    law_decimal_is_digits(b);
    law_decimal_reads_back(a);
    law_decimal_reads_back(b);
    if s.len() < t.len() {
        assert(whole[s.len() as int] == x[0]);
        assert((t + y)[s.len() as int] == t[s.len() as int]);
        assert('0' <= t[s.len() as int] <= '9');
    }
    if t.len() < s.len() {
        assert((t + y)[t.len() as int] == y[0]);
        assert(whole[t.len() as int] == s[t.len() as int]);
        assert('0' <= s[t.len() as int] <= '9');
    }
    assert(s =~= whole.take(s.len() as int));
    assert(t =~= (t + y).take(t.len() as int));
    assert(x =~= whole.skip(s.len() as int));
    assert(y =~= (t + y).skip(t.len() as int));
}

} // verus!
