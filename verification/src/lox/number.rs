//! Lox numbers: IEEE-754 binary64 values held by their bit patterns.
//!
//! Rounding arithmetic and decimal conversion are done by `rustc_apfloat`;
//! sign, ordering and classification are read from the bits directly.
use crate::lox::decimal::shifted_text;
use crate::lox::text::{
    chars_of, digit, digit_char, int_string, int_text, nat_text, push_nat, push_text, string_of,
};
use rustc_apfloat::ieee::Double;
use rustc_apfloat::Float;
use vstd::arithmetic::power2::{lemma2_to64, lemma_pow2_pos, lemma_pow2_strictly_increases, pow2};
use vstd::bits::{lemma_u64_pow2_no_overflow, lemma_u64_shl_is_mul};
use vstd::prelude::*;

verus! {

/// Bits of the binary64 sum of the numbers with bits `a` and `b`, rounded to
/// nearest, ties to even.
pub uninterp spec fn sum_bits(a: u64, b: u64) -> u64;

/// Bits of the rounded binary64 difference `a - b`.
pub uninterp spec fn difference_bits(a: u64, b: u64) -> u64;

/// Bits of the rounded binary64 product `a * b`.
pub uninterp spec fn product_bits(a: u64, b: u64) -> u64;

/// Bits of the rounded binary64 quotient `a / b`.
pub uninterp spec fn quotient_bits(a: u64, b: u64) -> u64;

/// Bits of the binary64 remainder of `a` divided by `b`, with the sign of `a`.
pub uninterp spec fn remainder_bits(a: u64, b: u64) -> u64;

/// Bits of the binary64 number nearest to the unsigned integer `n`.
pub uninterp spec fn integer_bits(n: u64) -> u64;

/// Bits of the binary64 number nearest to the value that the decimal text
/// denotes, or `None` where the text is not a number.
pub uninterp spec fn decimal_bits(text: Seq<char>) -> Option<u64>;

/// Scientific rendering of a finite non-zero number with at most `digits`
/// significant decimal digits: `d.dddE+x`.
pub uninterp spec fn scientific_text(bits: u64, digits: nat) -> Seq<char>;

/// Whether a character is a decimal digit.
pub open spec fn is_digit(c: char) -> bool {
    '0' <= c && c <= '9'
}

/// Whether every character is a decimal digit.
pub open spec fn all_digits(s: Seq<char>) -> bool {
    forall|i: int| 0 <= i < s.len() ==> is_digit(#[trigger] s[i])
}

/// Text of the form `ddd` or `ddd.ddd`, with at least one digit in each run.
pub open spec fn is_decimal_literal(s: Seq<char>) -> bool {
    ||| s.len() > 0 && all_digits(s)
    ||| exists|dot: int|
        0 < dot < s.len() - 1 && s[dot] == '.' && all_digits(s.take(dot)) && all_digits(
            s.skip(dot + 1),
        )
}

/// `Double::add` of rustc_apfloat on the two bit patterns: the sum under
/// round-to-nearest-even. The contract claims only that the result is a
/// function of the two operands.
#[verifier::external_body]
fn add_bits(a: u64, b: u64) -> (r: u64)
    ensures
        r == sum_bits(a, b),
{
    (Double::from_bits(a as u128) + Double::from_bits(b as u128)).value.to_bits() as u64
}

/// `Double::sub` of rustc_apfloat: the rounded difference, a function of
/// the two operands.
#[verifier::external_body]
fn sub_bits(a: u64, b: u64) -> (r: u64)
    ensures
        r == difference_bits(a, b),
{
    (Double::from_bits(a as u128) - Double::from_bits(b as u128)).value.to_bits() as u64
}

/// `Double::mul` of rustc_apfloat: the rounded product, a function of the
/// two operands.
#[verifier::external_body]
fn mul_bits(a: u64, b: u64) -> (r: u64)
    ensures
        r == product_bits(a, b),
{
    (Double::from_bits(a as u128) * Double::from_bits(b as u128)).value.to_bits() as u64
}

/// `Double::div` of rustc_apfloat: the rounded quotient, a function of the
/// two operands.
#[verifier::external_body]
fn div_bits(a: u64, b: u64) -> (r: u64)
    ensures
        r == quotient_bits(a, b),
{
    (Double::from_bits(a as u128) / Double::from_bits(b as u128)).value.to_bits() as u64
}

/// `Double::rem` of rustc_apfloat (C `fmod`): a function of the two
/// operands.
#[verifier::external_body]
fn rem_bits(a: u64, b: u64) -> (r: u64)
    ensures
        r == remainder_bits(a, b),
{
    (Double::from_bits(a as u128) % Double::from_bits(b as u128)).value.to_bits() as u64
}

/// `Double::from_u128` of rustc_apfloat: the nearest number to an unsigned
/// integer, a function of that integer.
#[verifier::external_body]
fn bits_of_integer(n: u64) -> (r: u64)
    ensures
        r == integer_bits(n),
{
    Double::from_u128(n as u128).value.to_bits() as u64
}

/// `Double::from_str` of rustc_apfloat. The result is a function of the
/// text; the crate's decimal reader rejects only an empty text, a second
/// dot, a character that is no digit, and a text without digits, so a
/// decimal literal is always read.
#[verifier::external_body]
fn bits_of_decimal(text: &str) -> (r: Option<u64>)
    ensures
        r == decimal_bits(text@),
        is_decimal_literal(text@) ==> r is Some,
{
    match text.parse::<Double>() {
        Ok(d) => Some(d.to_bits() as u64),
        Err(_) => None,
    }
}

/// rustc_apfloat's `Display` for `Double` with width 0 and the given
/// precision, which selects its scientific form. The result is a function
/// of the bits and the precision. A precision of zero can leave the
/// formatter without a digit, and one near the top of `usize` overflows
/// its arithmetic: both are left out.
#[verifier::external_body]
fn scientific(bits: u64, digits: usize) -> (r: String)
    requires
        0 < digits <= 0xffff,
    ensures
        r@ == scientific_text(bits, digits as nat),
{
    format!("{:w$.p$}", Double::from_bits(bits as u128), w = 0usize, p = digits)
}

/// A Lox number: an IEEE-754 binary64 value, held by its bit pattern.
///
/// The derived `==` compares bit patterns; `equals` is the equality of the
/// language.
#[derive(Clone, Copy, Debug, PartialEq, Eq, Structural)]
pub struct Number {
    pub bits: u64,
}

/// The bit that holds the sign.
pub const SIGN_BIT: u64 = 0x8000_0000_0000_0000;

/// The bits of positive infinity; a larger magnitude is a NaN.
pub const INFINITY_BITS: u64 = 0x7ff0_0000_0000_0000;

/// The bits without the sign.
pub open spec fn magnitude(bits: u64) -> u64 {
    bits & 0x7fff_ffff_ffff_ffff
}

/// Whether the sign bit is set.
pub open spec fn is_negative(bits: u64) -> bool {
    bits & SIGN_BIT != 0
}

/// Whether the bits are those of a NaN.
pub open spec fn is_nan(bits: u64) -> bool {
    magnitude(bits) > INFINITY_BITS
}

/// Whether the bits are those of an infinity.
pub open spec fn is_infinite(bits: u64) -> bool {
    magnitude(bits) == INFINITY_BITS
}

/// Whether the bits are those of a zero, of either sign.
pub open spec fn is_zero(bits: u64) -> bool {
    magnitude(bits) == 0
}

/// Position of a number that is no NaN on the number line: binary64 orders
/// its magnitudes as the integers that encode them.
pub open spec fn ordinal(bits: u64) -> int {
    if is_negative(bits) {
        -(magnitude(bits) as int)
    } else {
        magnitude(bits) as int
    }
}

/// IEEE-754 `<`: false when either side is a NaN.
pub open spec fn less(a: u64, b: u64) -> bool {
    !is_nan(a) && !is_nan(b) && ordinal(a) < ordinal(b)
}

/// IEEE-754 `==`: a NaN equals nothing, and the two zeros are equal.
pub open spec fn equal(a: u64, b: u64) -> bool {
    !is_nan(a) && !is_nan(b) && ordinal(a) == ordinal(b)
}

/// The bits with the sign changed.
pub open spec fn negated(bits: u64) -> u64 {
    bits ^ SIGN_BIT
}

impl Number {
    /// The number with the given bits.
    pub fn from_bits(bits: u64) -> (r: Number)
        ensures
            r.bits == bits,
    {
        Number { bits }
    }

    /// The bits of the number.
    pub fn to_bits(self) -> (r: u64)
        ensures
            r == self.bits,
    {
        self.bits
    }

    /// The number nearest to the value of a decimal literal.
    pub fn literal(text: &str) -> (r: Number)
        requires
            is_decimal_literal(text@),
        ensures
            decimal_bits(text@) == Some(r.bits),
    {
        Number { bits: bits_of_decimal(text).unwrap() }
    }

    /// The number nearest to an unsigned integer.
    pub fn from_integer(n: u64) -> (r: Number)
        ensures
            r.bits == integer_bits(n),
    {
        Number { bits: bits_of_integer(n) }
    }

    /// The sum, rounded to the nearest number.
    pub fn plus(self, other: Number) -> (r: Number)
        ensures
            r.bits == sum_bits(self.bits, other.bits),
    {
        Number { bits: add_bits(self.bits, other.bits) }
    }

    /// The difference, rounded to the nearest number.
    pub fn minus(self, other: Number) -> (r: Number)
        ensures
            r.bits == difference_bits(self.bits, other.bits),
    {
        Number { bits: sub_bits(self.bits, other.bits) }
    }

    /// The product, rounded to the nearest number.
    pub fn times(self, other: Number) -> (r: Number)
        ensures
            r.bits == product_bits(self.bits, other.bits),
    {
        Number { bits: mul_bits(self.bits, other.bits) }
    }

    /// The quotient, rounded to the nearest number.
    pub fn divided_by(self, other: Number) -> (r: Number)
        ensures
            r.bits == quotient_bits(self.bits, other.bits),
    {
        Number { bits: div_bits(self.bits, other.bits) }
    }

    /// The remainder of the division, with the sign of the dividend.
    pub fn remainder(self, other: Number) -> (r: Number)
        ensures
            r.bits == remainder_bits(self.bits, other.bits),
    {
        Number { bits: rem_bits(self.bits, other.bits) }
    }

    /// The number with the other sign.
    pub fn negate(self) -> (r: Number)
        ensures
            r.bits == negated(self.bits),
    {
        Number { bits: self.bits ^ SIGN_BIT }
    }

    /// Whether the number is a NaN.
    pub fn is_nan(self) -> (r: bool)
        ensures
            r == is_nan(self.bits),
    {
        (self.bits & 0x7fff_ffff_ffff_ffff) > INFINITY_BITS
    }

    /// Whether the number is a zero, of either sign.
    pub fn is_zero(self) -> (r: bool)
        ensures
            r == is_zero(self.bits),
    {
        (self.bits & 0x7fff_ffff_ffff_ffff) == 0
    }

    fn ordinal(self) -> (r: i128)
        ensures
            r == ordinal(self.bits),
    {
        let m: u64 = self.bits & 0x7fff_ffff_ffff_ffff;
        if self.bits & SIGN_BIT != 0 {
            -(m as i128)
        } else {
            m as i128
        }
    }

    /// `<` of IEEE-754.
    pub fn less_than(self, other: Number) -> (r: bool)
        ensures
            r == less(self.bits, other.bits),
    {
        !self.is_nan() && !other.is_nan() && self.ordinal() < other.ordinal()
    }

    /// `<=` of IEEE-754.
    pub fn less_or_equal(self, other: Number) -> (r: bool)
        ensures
            r == (less(self.bits, other.bits) || equal(self.bits, other.bits)),
    {
        !self.is_nan() && !other.is_nan() && self.ordinal() <= other.ordinal()
    }

    /// `>` of IEEE-754.
    pub fn greater_than(self, other: Number) -> (r: bool)
        ensures
            r == less(other.bits, self.bits),
    {
        other.less_than(self)
    }

    /// `>=` of IEEE-754.
    pub fn greater_or_equal(self, other: Number) -> (r: bool)
        ensures
            r == (less(other.bits, self.bits) || equal(self.bits, other.bits)),
    {
        other.less_or_equal(self)
    }

    /// `==` of IEEE-754.
    pub fn equals(self, other: Number) -> (r: bool)
        ensures
            r == equal(self.bits, other.bits),
    {
        !self.is_nan() && !other.is_nan() && self.ordinal() == other.ordinal()
    }
}


/// Index of the first `c` at or after `from`, or the length of `s`.
pub open spec fn find_char(s: Seq<char>, c: char, from: int) -> int
    decreases s.len() - from,
{
    if from < 0 || from >= s.len() {
        s.len() as int
    } else if s[from] == c {
        from
    } else {
        find_char(s, c, from + 1)
    }
}

/// The number that a run of decimal digits denotes.
pub open spec fn digits_value(s: Seq<char>) -> nat
    decreases s.len(),
{
    if s.len() == 0 {
        0
    } else {
        (digits_value(s.drop_last()) * 10 + (s.last() as u32 - '0' as u32)) as nat
    }
}

/// `s` without its trailing zeros, but for its first character.
pub open spec fn strip_zeros(s: Seq<char>) -> Seq<char>
    decreases s.len(),
{
    if s.len() > 1 && s.last() == '0' {
        strip_zeros(s.drop_last())
    } else {
        s
    }
}

/// Significant digits and the power of ten of the first of them.
pub struct Scientific {
    pub digits: Seq<char>,
    pub exponent: int,
}

/// Reads `d.dddE+x` or `d.dddE-x`, with at most four exponent digits.
pub open spec fn scientific_parts(s: Seq<char>) -> Option<Scientific> {
    let e = find_char(s, 'E', 0);
    if 3 <= e && e + 2 < s.len() && s.len() - (e + 2) <= 4 && is_digit(s[0]) && s[1] == '.'
        && all_digits(s.subrange(2, e)) && (s[e + 1] == '+' || s[e + 1] == '-') && all_digits(
        s.subrange(e + 2, s.len() as int),
    ) {
        let magnitude = digits_value(s.subrange(e + 2, s.len() as int)) as int;
        Some(
            Scientific {
                digits: strip_zeros(seq![s[0]] + s.subrange(2, e)),
                exponent: if s[e + 1] == '-' {
                    -magnitude
                } else {
                    magnitude
                },
            },
        )
    } else {
        None
    }
}

/// `n` zeros.
pub open spec fn zeros(n: int) -> Seq<char> {
    Seq::new(
        if n > 0 {
            n as nat
        } else {
            0
        },
        |i: int| '0',
    )
}

/// The digits written out in place, without an exponent.
pub open spec fn positional(digits: Seq<char>, exponent: int) -> Seq<char> {
    if exponent >= digits.len() - 1 {
        digits + zeros(exponent - (digits.len() - 1))
    } else if exponent >= 0 {
        digits.take(exponent + 1) + seq!['.'] + digits.skip(exponent + 1)
    } else {
        seq!['0', '.'] + zeros(-exponent - 1) + digits
    }
}

/// The number of digits asked of the decimal expansion of a number: no
/// binary64 number has as many.
pub const EXPANSION_DIGITS: usize = 1100;

/// The text `d.dddE+x` or `d.dddE-x` of digits and a power of ten.
pub open spec fn scientific_form(digits: Seq<char>, exponent: int) -> Seq<char> {
    digits.take(1) + seq!['.'] + (if digits.len() > 1 {
        digits.skip(1)
    } else {
        seq!['0']
    }) + (if exponent < 0 {
        seq!['E', '-'] + nat_text((-exponent) as nat)
    } else {
        seq!['E', '+'] + nat_text(exponent as nat)
    })
}

/// Whether the decimal with these digits is read as the number `bits`.
pub open spec fn reads_back(bits: u64, decimal: Scientific) -> bool {
    decimal_bits(scientific_form(decimal.digits, decimal.exponent)) == Some(bits)
}

/// The digit after `c`; `9` where there is none.
pub open spec fn successor(c: char) -> char {
    if c >= '0' && c <= '8' {
        digit_char((c as u32 - '0' as u32) as int + 1)
    } else {
        '9'
    }
}

/// The digits of the next integer: one more in the last place, with the
/// carries that follow.
pub open spec fn incremented(digits: Seq<char>) -> Seq<char>
    decreases digits.len(),
{
    if digits.len() == 0 {
        seq!['1']
    } else if digits.last() == '9' {
        incremented(digits.drop_last()).push('0')
    } else {
        digits.drop_last().push(successor(digits.last()))
    }
}

/// The decimal cut to its first `p` digits, or to the next decimal of `p`
/// digits above that.
pub open spec fn rounded(exact: Scientific, p: nat, up: bool) -> Scientific {
    let head = exact.digits.take(p as int);
    if !up {
        Scientific { digits: strip_zeros(head), exponent: exact.exponent }
    } else {
        let next = incremented(head);
        if next.len() > head.len() {
            Scientific { digits: seq!['1'], exponent: exact.exponent + 1 }
        } else {
            Scientific { digits: strip_zeros(next), exponent: exact.exponent }
        }
    }
}

/// Whether the decimal of `p` digits above the exact one is at least as
/// near to it as the one below: the first digit dropped is 5 or more.
pub open spec fn rounds_up(exact: Scientific, p: nat) -> bool {
    exact.digits[p as int] >= '5'
}

/// The shortest decimal, of `p` to 17 digits, that is read as the number
/// `bits`, whose exact decimal expansion is `exact`. Of each length the two
/// decimals around the number are tried, the nearer one first. The exact
/// expansion itself where it is as short, or where none is read back.
pub open spec fn shortest(bits: u64, exact: Scientific, p: nat) -> Scientific
    decreases 18 - p,
{
    if p >= exact.digits.len() || p > 17 {
        exact
    } else {
        let near = rounded(exact, p, rounds_up(exact, p));
        let far = rounded(exact, p, !rounds_up(exact, p));
        if reads_back(bits, near) {
            near
        } else if reads_back(bits, far) {
            far
        } else {
            shortest(bits, exact, p + 1)
        }
    }
}

/// The text of a number that is neither zero, infinite nor a NaN, without
/// its sign: its shortest decimal, written without an exponent.
pub open spec fn magnitude_text(bits: u64) -> Seq<char> {
    let expansion = scientific_text(bits, EXPANSION_DIGITS as nat);
    match scientific_parts(expansion) {
        Some(exact) => {
            let decimal = shortest(bits, exact, 1);
            positional(decimal.digits, decimal.exponent)
        },
        None => expansion,
    }
}

/// The decimal text of a number: the shortest digits that read back as the
/// same number, written without an exponent.
pub open spec fn number_text(bits: u64) -> Seq<char> {
    if is_nan(bits) {
        "NaN"@
    } else {
        let sign = if is_negative(bits) {
            "-"@
        } else {
            ""@
        };
        if is_infinite(bits) {
            sign + "inf"@
        } else if is_zero(bits) {
            sign + "0"@
        } else {
            sign + magnitude_text(magnitude(bits))
        }
    }
}

/// The eleven bits of the exponent.
pub open spec fn exponent_field(bits: u64) -> int {
    ((bits >> 52) & 0x7ff) as int
}

/// The fifty-two bits of the fraction.
pub open spec fn fraction_field(bits: u64) -> int {
    (bits & 0xf_ffff_ffff_ffff) as int
}

/// The integer `m` in the value `m * 2^scale` of a finite number.
pub open spec fn significand(bits: u64) -> int {
    if exponent_field(bits) == 0 {
        fraction_field(bits)
    } else {
        fraction_field(bits) + 0x10_0000_0000_0000
    }
}

/// The power of two in the value `m * 2^scale` of a finite number.
pub open spec fn scale(bits: u64) -> int {
    if exponent_field(bits) == 0 {
        -1074
    } else {
        exponent_field(bits) - 1075
    }
}

/// Whether the bits are those of a finite number.
pub open spec fn is_finite(bits: u64) -> bool {
    magnitude(bits) < INFINITY_BITS
}

/// Whether the number is finite and has no fractional part.
pub open spec fn is_integral(bits: u64) -> bool {
    is_finite(bits) && (scale(bits) >= 0 || significand(bits) % (pow2((-scale(bits)) as nat) as int)
        == 0)
}

/// The integer that an integral number is.
pub open spec fn integral_value(bits: u64) -> int {
    let m = if scale(bits) >= 0 {
        significand(bits) * pow2(scale(bits) as nat)
    } else {
        significand(bits) / (pow2((-scale(bits)) as nat) as int)
    };
    if is_negative(bits) {
        -m
    } else {
        m
    }
}

/// Whether the number is integral and a 64-bit integer holds it.
pub open spec fn is_small_integer(bits: u64) -> bool {
    is_integral(bits) && i64::MIN <= integral_value(bits) <= i64::MAX
}

/// The text of a number as `print` shows it: an integral number as the
/// integer that it is, with every digit, any other number as `number_text`
/// gives it.
pub open spec fn display_text(bits: u64) -> Seq<char> {
    if is_integral(bits) {
        int_text(integral_value(bits))
    } else {
        number_text(bits)
    }
}

fn find(v: &Vec<char>, c: char, from: usize) -> (r: usize)
    ensures
        r == find_char(v@, c, from as int),
        r <= v.len(),
{
    let mut i = from;
    while i < v.len()
        invariant
            find_char(v@, c, from as int) == find_char(v@, c, i as int),
        decreases v.len() - i,
    {
        if v[i] == c {
            return i;
        }
        i += 1;
    }
    v.len()
}

fn digit_run(v: &Vec<char>, from: usize, to: usize) -> (r: bool)
    requires
        from <= to <= v.len(),
    ensures
        r == all_digits(v@.subrange(from as int, to as int)),
{
    let ghost run = v@.subrange(from as int, to as int);
    let mut i = from;
    while i < to
        invariant
            from <= i <= to <= v.len(),
            run == v@.subrange(from as int, to as int),
            forall|j: int| 0 <= j < i - from ==> is_digit(#[trigger] run[j]),
        decreases to - i,
    {
        if !(v[i] >= '0' && v[i] <= '9') {
            assert(!is_digit(run[i - from]));
            return false;
        }
        i += 1;
    }
    true
}

spec fn bound(i: int) -> int {
    if i <= 0 {
        1
    } else if i == 1 {
        10
    } else if i == 2 {
        100
    } else if i == 3 {
        1000
    } else {
        10000
    }
}

fn run_value(v: &Vec<char>, from: usize, to: usize) -> (r: i64)
    requires
        from <= to <= v.len(),
        to - from <= 4,
        all_digits(v@.subrange(from as int, to as int)),
    ensures
        r == digits_value(v@.subrange(from as int, to as int)),
        0 <= r < 10000,
{
    let ghost run = v@.subrange(from as int, to as int);
    let mut acc: i64 = 0;
    let mut i = from;
    assert(run.take(0) =~= Seq::empty());
    while i < to
        invariant
            from <= i <= to <= v.len(),
            to - from <= 4,
            run == v@.subrange(from as int, to as int),
            all_digits(run),
            acc == digits_value(run.take(i - from)),
            0 <= acc < bound(i - from),
        decreases to - i,
    {
        assert(run.take(i - from + 1).drop_last() =~= run.take(i - from));
        assert(run.take(i - from + 1).last() == v[i as int]);
        assert(is_digit(run[i - from]));
        let d: i64 = (v[i] as u32 - '0' as u32) as i64;
        acc = acc * 10 + d;
        i += 1;
    }
    assert(run.take(to - from) =~= run);
    acc
}

fn push_zeros(out: &mut Vec<char>, n: i64)
    ensures
        final(out)@ == old(out)@ + zeros(n as int),
{
    let mut i: i64 = 0;
    while i < n
        invariant
            0 <= i,
            i <= n || (n < 0 && i == 0),
            out@ == old(out)@ + zeros(i as int),
        decreases n - i,
    {
        out.push('0');
        i += 1;
        assert(out@ =~= old(out)@ + zeros(i as int));
    }
    assert(out@ =~= old(out)@ + zeros(n as int));
}

fn layout(digits: &Vec<char>, exponent: i64) -> (r: Vec<char>)
    requires
        -10001 < exponent < 10001,
    ensures
        r@ == positional(digits@, exponent as int),
{
    let mut out: Vec<char> = Vec::new();
    let n = digits.len();
    if n <= 20000 && exponent >= n as i64 - 1 {
        let mut i: usize = 0;
        while i < n
            invariant
                i <= n == digits.len(),
                out@ == digits@.take(i as int),
            decreases n - i,
        {
            out.push(digits[i]);
            i += 1;
            assert(out@ =~= digits@.take(i as int));
        }
        assert(digits@.take(n as int) =~= digits@);
        push_zeros(&mut out, exponent - (n as i64 - 1));
    } else if exponent >= 0 {
        let split: usize = exponent as usize + 1;
        let mut i: usize = 0;
        while i < n
            invariant
                i <= n == digits.len(),
                0 < split < n,
                out@ == if i <= split {
                    digits@.take(i as int)
                } else {
                    digits@.take(split as int) + seq!['.'] + digits@.subrange(split as int, i as int)
                },
            decreases n - i,
        {
            if i == split {
                out.push('.');
            }
            out.push(digits[i]);
            i += 1;
            assert(out@ =~= if i <= split {
                digits@.take(i as int)
            } else {
                digits@.take(split as int) + seq!['.'] + digits@.subrange(split as int, i as int)
            });
        }
        assert(digits@.subrange(split as int, n as int) =~= digits@.skip(split as int));
    } else {
        out.push('0');
        out.push('.');
        push_zeros(&mut out, -exponent - 1);
        let ghost head = out@;
        let mut i: usize = 0;
        while i < n
            invariant
                i <= n == digits.len(),
                out@ == head + digits@.take(i as int),
            decreases n - i,
        {
            out.push(digits[i]);
            i += 1;
            assert(out@ =~= head + digits@.take(i as int));
        }
        assert(digits@.take(n as int) =~= digits@);
        assert(out@ =~= seq!['0', '.'] + zeros(-exponent - 1) + digits@);
    }
    out
}

/// The digits and the power of ten of a scientific rendering.
fn parts(text: &Vec<char>) -> (r: Option<(Vec<char>, i64)>)
    ensures
        match scientific_parts(text@) {
            Some(parts) => r matches Some((digits, exponent)) && digits@ == parts.digits
                && exponent == parts.exponent && -10000 < exponent < 10000 && digits.len() > 0,
            None => r is None,
        },
{
    let s = text;
    let e = find(s, 'E', 0);
    let n = s.len();
    if !(3 <= e && e < n && n - e > 2 && n - e - 2 <= 4) {
        return None;
    }
    if !(s[0] >= '0' && s[0] <= '9' && s[1] == '.' && digit_run(s, 2, e) && (s[e + 1] == '+'
        || s[e + 1] == '-') && digit_run(s, e + 2, n)) {
        return None;
    }
    let magnitude = run_value(s, e + 2, n);
    let exponent = if s[e + 1] == '-' {
        -magnitude
    } else {
        magnitude
    };
    let mut digits: Vec<char> = Vec::new();
    digits.push(s[0]);
    let mut i: usize = 2;
    while i < e
        invariant
            2 <= i <= e <= s.len(),
            digits@ == seq![s@[0]] + s@.subrange(2, i as int),
        decreases e - i,
    {
        digits.push(s[i]);
        i += 1;
        assert(digits@ =~= seq![s@[0]] + s@.subrange(2, i as int));
    }
    strip(&mut digits);
    Some((digits, exponent))
}

/// Drops the trailing zeros, but for the first character.
fn strip(digits: &mut Vec<char>)
    ensures
        final(digits)@ == strip_zeros(old(digits)@),
        old(digits).len() > 0 ==> final(digits).len() > 0,
{
    while digits.len() > 1 && digits[digits.len() - 1] == '0'
        invariant
            strip_zeros(old(digits)@) == strip_zeros(digits@),
            old(digits).len() > 0 ==> digits.len() > 0,
        decreases digits.len(),
    {
        let ghost before = digits@;
        digits.pop();
        assert(digits@ =~= before.drop_last());
    }
}

/// The text `d.dddE+x` of digits and a power of ten.
fn scientific_string(digits: &Vec<char>, exponent: i64) -> (r: String)
    requires
        digits.len() > 0,
        -10001 < exponent < 10001,
    ensures
        r@ == scientific_form(digits@, exponent as int),
{
    let mut out: Vec<char> = Vec::new();
    let n = digits.len();
    out.push(digits[0]);
    assert(out@ =~= digits@.take(1));
    out.push('.');
    if n > 1 {
        let ghost head = out@;
        let mut i: usize = 1;
        while i < n
            invariant
                1 <= i <= n == digits.len(),
                out@ == head + digits@.subrange(1, i as int),
            decreases n - i,
        {
            out.push(digits[i]);
            i += 1;
            assert(out@ =~= head + digits@.subrange(1, i as int));
        }
        assert(digits@.subrange(1, n as int) =~= digits@.skip(1));
    } else {
        out.push('0');
    }
    let ghost mantissa = out@;
    out.push('E');
    if exponent < 0 {
        out.push('-');
        push_nat(&mut out, (-exponent) as u64);
        assert(out@ =~= mantissa + (seq!['E', '-'] + nat_text((-exponent) as nat)));
    } else {
        out.push('+');
        push_nat(&mut out, exponent as u64);
        assert(out@ =~= mantissa + (seq!['E', '+'] + nat_text(exponent as nat)));
    }
    string_of(&out)
}

/// Whether the decimal with these digits is read as the number `bits`.
fn reads(bits: u64, digits: &Vec<char>, exponent: i64) -> (r: bool)
    requires
        digits.len() > 0,
        -10001 < exponent < 10001,
    ensures
        r == reads_back(bits, Scientific { digits: digits@, exponent: exponent as int }),
{
    let text = scientific_string(digits, exponent);
    match bits_of_decimal(text.as_str()) {
        Some(back) => back == bits,
        None => false,
    }
}

/// The digits of the integer after that of the first `n` digits.
fn increment(digits: &Vec<char>, n: usize) -> (r: Vec<char>)
    requires
        n <= digits.len(),
    ensures
        r@ == incremented(digits@.take(n as int)),
        r.len() > 0,
    decreases n,
{
    if n == 0 {
        let mut r: Vec<char> = Vec::new();
        r.push('1');
        assert(r@ =~= seq!['1']);
        r
    } else {
        let ghost head = digits@.take(n as int);
        assert(head.drop_last() =~= digits@.take(n - 1));
        assert(head.last() == digits@[n - 1]);
        let c = digits[n - 1];
        if c == '9' {
            let mut r = increment(digits, n - 1);
            r.push('0');
            r
        } else {
            let mut r: Vec<char> = Vec::new();
            let mut i: usize = 0;
            while i < n - 1
                invariant
                    i <= n - 1,
                    n <= digits.len(),
                    r@ == digits@.take(i as int),
                decreases n - 1 - i,
            {
                r.push(digits[i]);
                i += 1;
                assert(r@ =~= digits@.take(i as int));
            }
            let next = if c >= '0' && c <= '8' {
                digit((c as u32 - '0' as u32) as u64 + 1)
            } else {
                '9'
            };
            r.push(next);
            r
        }
    }
}

/// The decimal cut to its first `p` digits, or the next one of `p` digits.
fn round(digits: &Vec<char>, exponent: i64, p: usize, up: bool) -> (r: (Vec<char>, i64))
    requires
        0 < p <= digits.len(),
        -10000 < exponent < 10000,
    ensures
        r.0.len() > 0,
        (Scientific { digits: r.0@, exponent: r.1 as int }) == rounded(
            Scientific { digits: digits@, exponent: exponent as int },
            p as nat,
            up,
        ),
        -10001 < r.1 < 10001,
{
    if !up {
        let mut head: Vec<char> = Vec::new();
        let mut i: usize = 0;
        while i < p
            invariant
                i <= p <= digits.len(),
                head@ == digits@.take(i as int),
            decreases p - i,
        {
            head.push(digits[i]);
            i += 1;
            assert(head@ =~= digits@.take(i as int));
        }
        strip(&mut head);
        (head, exponent)
    } else {
        let mut next = increment(digits, p);
        if next.len() > p {
            let mut one: Vec<char> = Vec::new();
            one.push('1');
            assert(one@ =~= seq!['1']);
            (one, exponent + 1)
        } else {
            strip(&mut next);
            (next, exponent)
        }
    }
}

/// The shortest decimal that is read as the number `bits`, whose exact
/// expansion has the digits and the exponent given.
fn shorten(bits: u64, digits: Vec<char>, exponent: i64) -> (r: (Vec<char>, i64))
    requires
        digits.len() > 0,
        -10000 < exponent < 10000,
    ensures
        r.0.len() > 0,
        (Scientific { digits: r.0@, exponent: r.1 as int }) == shortest(
            bits,
            Scientific { digits: digits@, exponent: exponent as int },
            1,
        ),
        -10001 < r.1 < 10001,
{
    let ghost exact = Scientific { digits: digits@, exponent: exponent as int };
    let mut p: usize = 1;
    while p < digits.len() && p <= 17
        invariant
            1 <= p <= 18,
            -10000 < exponent < 10000,
            exact == (Scientific { digits: digits@, exponent: exponent as int }),
            shortest(bits, exact, 1) == shortest(bits, exact, p as nat),
        decreases 18 - p,
    {
        let up = digits[p] >= '5';
        let near = round(&digits, exponent, p, up);
        if reads(bits, &near.0, near.1) {
            return near;
        }
        let far = round(&digits, exponent, p, !up);
        if reads(bits, &far.0, far.1) {
            return far;
        }
        p += 1;
    }
    (digits, exponent)
}

impl Number {
    /// The decimal text of the number, without an exponent.
    pub fn to_text(self) -> (r: String)
        ensures
            r@ == number_text(self.bits),
    {
        let m: u64 = self.bits & 0x7fff_ffff_ffff_ffff;
        if m > INFINITY_BITS {
            return String::from_str("NaN");
        }
        let mut out: Vec<char> = Vec::new();
        proof {
            reveal_strlit("-");
            reveal_strlit("");
        }
        if self.bits & SIGN_BIT != 0 {
            out.push('-');
        }
        assert(out@ =~= if is_negative(self.bits) {
            "-"@
        } else {
            ""@
        });
        if m == INFINITY_BITS {
            push_text(&mut out, "inf");
        } else if m == 0 {
            push_text(&mut out, "0");
        } else {
            let expansion = chars_of(scientific(m, EXPANSION_DIGITS).as_str());
            let mut body = match parts(&expansion) {
                Some((digits, exponent)) => {
                    let decimal = shorten(m, digits, exponent);
                    layout(&decimal.0, decimal.1)
                },
                None => expansion,
            };
            out.append(&mut body);
        }
        string_of(&out)
    }

    /// The integer that the number is, where it is one that 64 bits hold.
    pub fn to_integer(self) -> (r: Option<i64>)
        ensures
            r is Some <==> is_small_integer(self.bits),
            r matches Some(v) ==> v == integral_value(self.bits),
    {
        let bits = self.bits;
        let m: u64 = bits & 0x7fff_ffff_ffff_ffff;
        if m >= INFINITY_BITS {
            return None;
        }
        let negative = bits & SIGN_BIT != 0;
        let e: u64 = (bits >> 52) & 0x7ff;
        let f: u64 = bits & 0xf_ffff_ffff_ffff;
        assert(f < 0x10_0000_0000_0000) by (bit_vector)
            requires
                f == bits & 0xf_ffff_ffff_ffff,
        ;
        assert(e < 0x800) by (bit_vector)
            requires
                e == (bits >> 52) & 0x7ff,
        ;
        let sig: u64 = if e == 0 {
            f
        } else {
            f + 0x10_0000_0000_0000
        };
        proof {
            lemma2_to64();
            vstd::arithmetic::power2::lemma2_to64_rest();
        }
        if e >= 1075 {
            let k: u64 = e - 1075;
            if k >= 11 {
                proof {
                    if k > 11 {
                        lemma_pow2_strictly_increases(11, k as nat);
                    }
                    assert(sig * pow2(k as nat) >= 0x10_0000_0000_0000 * 2048) by (nonlinear_arith)
                        requires
                            sig >= 0x10_0000_0000_0000,
                            pow2(k as nat) >= 2048,
                    ;
                }
                if negative && k == 11 && sig == 0x10_0000_0000_0000 {
                    Some(i64::MIN)
                } else {
                    proof {
                        if k == 11 {
                            assert(sig * pow2(k as nat) > 0x10_0000_0000_0000 * 2048 || negative
                                == false) by (nonlinear_arith)
                                requires
                                    sig > 0x10_0000_0000_0000 || negative == false,
                                    pow2(k as nat) == 2048,
                            ;
                        } else {
                            if k > 12 {
                                lemma_pow2_strictly_increases(12, k as nat);
                            }
                            assert(sig * pow2(k as nat) >= 0x10_0000_0000_0000 * 4096)
                                by (nonlinear_arith)
                                requires
                                    sig >= 0x10_0000_0000_0000,
                                    pow2(k as nat) >= 4096,
                            ;
                        }
                    }
                    None
                }
            } else {
                proof {
                    if k < 10 {
                        lemma_pow2_strictly_increases(k as nat, 10);
                    }
                    lemma_pow2_pos(k as nat);
                    assert(sig * pow2(k as nat) < 0x20_0000_0000_0000 * 1024) by (nonlinear_arith)
                        requires
                            0 <= sig < 0x20_0000_0000_0000,
                            0 < pow2(k as nat) <= 1024,
                    ;
                    lemma_u64_shl_is_mul(sig, k);
                }
                let v: u64 = sig << k;
                if negative {
                    Some(-(v as i64))
                } else {
                    Some(v as i64)
                }
            }
        } else {
            let shift: u64 = if e == 0 {
                1074
            } else {
                1075 - e
            };
            if shift >= 54 {
                proof {
                    lemma_pow2_strictly_increases(53, shift as nat);
                    let d = pow2(shift as nat) as int;
                    vstd::arithmetic::div_mod::lemma_small_mod(sig as nat, d as nat);
                    vstd::arithmetic::div_mod::lemma_basic_div(sig as int, d);
                }
                if sig == 0 {
                    Some(0)
                } else {
                    None
                }
            } else {
                proof {
                    lemma_u64_pow2_no_overflow(shift as nat);
                    lemma_u64_shl_is_mul(1, shift);
                    lemma_pow2_pos(shift as nat);
                }
                let d: u64 = 1u64 << shift;
                if sig % d == 0 {
                    let v: u64 = sig / d;
                    assert(v <= sig) by (nonlinear_arith)
                        requires
                            v == sig / d,
                            d > 0,
                    ;
                    if negative {
                        Some(-(v as i64))
                    } else {
                        Some(v as i64)
                    }
                } else {
                    None
                }
            }
        }
    }

    /// The text of the number as `print` shows it.
    pub fn display(self) -> (r: String)
        ensures
            r@ == display_text(self.bits),
    {
        match self.to_integer() {
            Some(v) => int_string(v),
            None => {
                let bits = self.bits;
                let m: u64 = bits & 0x7fff_ffff_ffff_ffff;
                let e: u64 = (bits >> 52) & 0x7ff;
                let f: u64 = bits & 0xf_ffff_ffff_ffff;
                assert(f < 0x10_0000_0000_0000) by (bit_vector)
                    requires
                        f == bits & 0xf_ffff_ffff_ffff,
                ;
                assert(e < 0x800) by (bit_vector)
                    requires
                        e == (bits >> 52) & 0x7ff,
                ;
                if m < INFINITY_BITS && e >= 1075 {
                    let sig: u64 = f + 0x10_0000_0000_0000;
                    let k: u64 = e - 1075;
                    let mut out: Vec<char> = Vec::new();
                    if bits & SIGN_BIT != 0 {
                        out.push('-');
                    }
                    let mut body = shifted_text(sig, k);
                    out.append(&mut body);
                    proof {
                        lemma_pow2_pos(k as nat);
                        assert(sig * pow2(k as nat) > 0) by (nonlinear_arith)
                            requires
                                sig > 0,
                                pow2(k as nat) > 0,
                        ;
                        assert(out@ =~= display_text(bits));
                    }
                    string_of(&out)
                } else {
                    proof {
                        if m < INFINITY_BITS {
                            let d = pow2((-scale(bits)) as nat) as int;
                            lemma_pow2_pos((-scale(bits)) as nat);
                            assert(0 <= significand(bits) / d <= significand(bits))
                                by (nonlinear_arith)
                                requires
                                    0 <= significand(bits),
                                    d > 0,
                            ;
                        }
                    }
                    self.to_text()
                }
            },
        }
    }
}

} // verus!
