//! Natural numbers written in decimal.

use vstd::prelude::*;

verus! {

/// The character of the digit `d`.
pub open spec fn digit_char(d: nat) -> char
    recommends
        d < 10,
{
    ('0' as nat + d) as char
}

/// The decimal numeral of `n`: its digits, the most significant first, with no
/// leading zero but for 0 itself.
pub open spec fn decimal(n: nat) -> Seq<char>
    decreases n,
{
    if n < 10 {
        seq![digit_char(n)]
    } else {
        decimal(n / 10).push(digit_char(n % 10))
    }
}

/// The number that a sequence of digits spells.
pub open spec fn decimal_value(digits: Seq<char>) -> nat
    decreases digits.len(),
{
    if digits.len() == 0 {
        0
    } else {
        (10 * decimal_value(digits.drop_last()) + (digits.last() as nat - '0' as nat)) as nat
    }
}

/// A numeral is made of digits, begins with a zero only where it is `0`, and
/// spells the number that it was written for.
pub proof fn lemma_decimal(n: nat)
    ensures
        decimal(n).len() >= 1,
        forall|i: int| 0 <= i < decimal(n).len() ==> '0' <= #[trigger] decimal(n)[i] <= '9',
        decimal(n)[0] == '0' <==> n == 0,
        decimal_value(decimal(n)) == n,
    decreases n,
{
    if n < 10 {
        assert(decimal(n).drop_last() =~= Seq::<char>::empty());
        assert(decimal_value(decimal(n).drop_last()) == 0);
    } else {
        lemma_decimal(n / 10);
        let head = decimal(n / 10);
        assert(decimal(n).drop_last() =~= head);
        assert(decimal(n)[0] == head[0]);
    }
}

/// Appends the decimal numeral of `n` to `out`.
pub fn push_decimal(out: &mut String, n: u64)
    ensures
        final(out)@ == old(out)@ + decimal(n as nat),
    decreases n,
{
    if n >= 10 {
        push_decimal(out, n / 10);
    }
    let d: u8 = (n % 10) as u8;
    out.push((48u8 + d) as char);
    proof {
        let last = digit_char((n % 10) as nat);
        if n < 10 {
            assert(old(out)@.push(last) =~= old(out)@ + decimal(n as nat));
        } else {
            assert((old(out)@ + decimal((n / 10) as nat)).push(last) =~= old(out)@ + decimal(
                n as nat,
            ));
        }
    }
}

} // verus!
