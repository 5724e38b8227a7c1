//! Decimal digits of natural numbers of any size: a number is a list of
//! digits, least significant first, and is doubled digit by digit.
use crate::lox::text::{digit, digit_char, nat_text};
use vstd::arithmetic::power2::{lemma_pow2_unfold, pow2};
use vstd::prelude::*;

verus! {

/// The number that the digits spell, least significant first.
pub open spec fn digits_number(d: Seq<u8>) -> nat
    decreases d.len(),
{
    if d.len() == 0 {
        0
    } else {
        d[0] as nat + 10 * digits_number(d.drop_first())
    }
}

/// Whether the digits are the decimal digits of a number: at least one,
/// each below ten, and the most significant no zero unless it is the only
/// one.
pub open spec fn proper(d: Seq<u8>) -> bool {
    d.len() > 0 && (forall|i: int| 0 <= i < d.len() ==> d[i] < 10) && (d.len() > 1 ==> d.last()
        != 0)
}

/// The digits as text, most significant first.
pub open spec fn digits_text(d: Seq<u8>) -> Seq<char>
    decreases d.len(),
{
    if d.len() == 0 {
        Seq::empty()
    } else {
        digits_text(d.drop_first()).push(digit_char(d[0] as int))
    }
}

/// The digits of twice the number plus `carry`, by the school method.
pub open spec fn doubled(d: Seq<u8>, carry: nat) -> Seq<u8>
    decreases d.len(),
{
    if d.len() == 0 {
        if carry > 0 {
            seq![carry as u8]
        } else {
            Seq::empty()
        }
    } else {
        let t = 2 * d[0] + carry;
        seq![(t % 10) as u8] + doubled(d.drop_first(), (t / 10) as nat)
    }
}

/// The decimal digits of `n`, least significant first.
pub open spec fn number_digits(n: nat) -> Seq<u8>
    decreases n,
{
    if n < 10 {
        seq![n as u8]
    } else {
        seq![(n % 10) as u8] + number_digits(n / 10)
    }
}

/// Digits whose last is no zero spell a positive number.
pub proof fn digits_are_positive(d: Seq<u8>)
    requires
        d.len() > 0,
        d.last() != 0,
    ensures
        digits_number(d) > 0,
    decreases d.len(),
{
    if d.len() > 1 {
        assert(d.drop_first().last() == d.last());
        digits_are_positive(d.drop_first());
    }
}

/// Proper digits, read as text, are the decimal text of their number.
pub proof fn digits_text_is_number_text(d: Seq<u8>)
    requires
        proper(d),
    ensures
        digits_text(d) == nat_text(digits_number(d)),
    decreases d.len(),
{
    let rest = d.drop_first();
    if d.len() == 1 {
        assert(digits_number(rest) == 0);
        assert(digits_text(rest) =~= Seq::empty());
        assert(digits_text(d) =~= seq![digit_char(d[0] as int)]);
    } else {
        assert(rest.last() == d.last());
        assert(proper(rest));
        digits_are_positive(rest);
        digits_text_is_number_text(rest);
        let n = digits_number(d);
        assert(n == d[0] + 10 * digits_number(rest));
        assert(n / 10 == digits_number(rest) && n % 10 == d[0]);
    }
}

/// Doubling digit by digit doubles the number, and proper digits stay
/// proper.
pub proof fn doubled_is_twice(d: Seq<u8>, carry: nat)
    requires
        carry <= 1,
        forall|i: int| 0 <= i < d.len() ==> d[i] < 10,
    ensures
        digits_number(doubled(d, carry)) == 2 * digits_number(d) + carry,
        forall|i: int| 0 <= i < doubled(d, carry).len() ==> doubled(d, carry)[i] < 10,
        doubled(d, carry).len() >= d.len(),
        d.len() > 0 && d.last() != 0 ==> doubled(d, carry).last() != 0,
        proper(d) ==> proper(doubled(d, carry)),
    decreases d.len(),
{
    let r = doubled(d, carry);
    if d.len() == 0 {
        if carry > 0 {
            assert(r.drop_first() =~= Seq::empty());
            assert(digits_number(r.drop_first()) == 0);
        }
    } else {
        let t = 2 * d[0] + carry;
        let rest = d.drop_first();
        let tail = doubled(rest, (t / 10) as nat);
        doubled_is_twice(rest, (t / 10) as nat);
        assert(r.drop_first() =~= tail);
        assert(r[0] == (t % 10) as u8);
        assert forall|i: int| 0 <= i < r.len() implies r[i] < 10 by {
            if i > 0 {
                assert(r[i] == tail[i - 1]);
            }
        }
        if d.len() > 1 {
            assert(rest.last() == d.last());
            assert(r.last() == tail.last());
        } else {
            assert(rest.len() == 0);
            if t / 10 > 0 {
                assert(tail =~= seq![(t / 10) as u8]);
                assert(r.last() == tail.last());
            } else {
                assert(tail =~= Seq::empty());
                assert(r =~= seq![(t % 10) as u8]);
            }
        }
    }
}

/// The digits of a number are proper and spell it.
pub proof fn number_digits_spell(n: nat)
    ensures
        proper(number_digits(n)),
        digits_number(number_digits(n)) == n,
    decreases n,
{
    let d = number_digits(n);
    if n < 10 {
        assert(d.drop_first() =~= Seq::empty());
        assert(digits_number(d.drop_first()) == 0);
    } else {
        let tail = number_digits(n / 10);
        number_digits_spell(n / 10);
        assert(d.drop_first() =~= tail);
        assert(d.last() == tail.last());
        if tail.len() == 1 {
            assert(digits_number(tail.drop_first()) == 0);
        }
        assert forall|i: int| 0 <= i < d.len() implies d[i] < 10 by {
            if i > 0 {
                assert(d[i] == tail[i - 1]);
            }
        }
    }
}

/// The decimal digits of `n`, least significant first.
fn digits_of(n: u64) -> (r: Vec<u8>)
    ensures
        r@ == number_digits(n as nat),
{
    let mut out: Vec<u8> = Vec::new();
    let mut rest = n;
    while rest >= 10
        invariant
            number_digits(n as nat) == out@ + number_digits(rest as nat),
        decreases rest,
    {
        let ghost before = out@;
        out.push((rest % 10) as u8);
        assert(before + number_digits(rest as nat) =~= out@ + number_digits((rest / 10) as nat));
        rest = rest / 10;
    }
    let ghost before = out@;
    out.push(rest as u8);
    assert(out@ =~= before + number_digits(rest as nat));
    out
}

/// The digits of twice the number.
fn double(d: &Vec<u8>) -> (r: Vec<u8>)
    requires
        proper(d@),
    ensures
        proper(r@),
        digits_number(r@) == 2 * digits_number(d@),
{
    let mut out: Vec<u8> = Vec::new();
    let mut carry: u8 = 0;
    let mut i: usize = 0;
    assert(d@.skip(0) =~= d@);
    while i < d.len()
        invariant
            i <= d.len(),
            carry <= 1,
            proper(d@),
            doubled(d@, 0) == out@ + doubled(d@.skip(i as int), carry as nat),
        decreases d.len() - i,
    {
        let ghost before = out@;
        let ghost here = d@.skip(i as int);
        let t: u8 = 2 * d[i] + carry;
        out.push(t % 10);
        carry = t / 10;
        assert(here.drop_first() =~= d@.skip(i + 1));
        assert(before + doubled(here, (t - 2 * d[i as int]) as nat) =~= out@ + doubled(
            d@.skip(i + 1),
            carry as nat,
        ));
        i += 1;
    }
    let ghost before = out@;
    if carry > 0 {
        out.push(carry);
    }
    proof {
        assert(d@.skip(d@.len() as int) =~= Seq::empty());
        assert(out@ =~= before + doubled(Seq::empty(), carry as nat));
        doubled_is_twice(d@, 0);
    }
    out
}

/// The decimal text of `n` times two to the power `k`.
pub fn shifted_text(n: u64, k: u64) -> (r: Vec<char>)
    ensures
        r@ == nat_text(n as nat * pow2(k as nat)),
{
    let mut digits = digits_of(n);
    let mut j: u64 = 0;
    proof {
        number_digits_spell(n as nat);
        vstd::arithmetic::power2::lemma2_to64();
    }
    while j < k
        invariant
            j <= k,
            proper(digits@),
            digits_number(digits@) == n as nat * pow2(j as nat),
        decreases k - j,
    {
        digits = double(&digits);
        proof {
            lemma_pow2_unfold(j as nat + 1);
            assert(2 * (n as nat * pow2(j as nat)) == n as nat * (2 * pow2(j as nat)))
                by (nonlinear_arith);
        }
        j += 1;
    }
    let mut out: Vec<char> = Vec::new();
    let mut i: usize = digits.len();
    assert(digits@.skip(i as int) =~= Seq::empty());
    while i > 0
        invariant
            i <= digits.len(),
            proper(digits@),
            out@ == digits_text(digits@.skip(i as int)),
        decreases i,
    {
        i -= 1;
        let ghost here = digits@.skip(i as int);
        assert(here.drop_first() =~= digits@.skip(i + 1));
        out.push(digit(digits[i] as u64));
    }
    proof {
        assert(digits@.skip(0) =~= digits@);
        digits_text_is_number_text(digits@);
    }
    out
}

} // verus!
