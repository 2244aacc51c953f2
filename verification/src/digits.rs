//! Numbers as JSON text: the decimal digits of integers, and the bytes of a
//! formatted floating-point number.
use crate::stream::ByteIterator;
use vstd::arithmetic::div_mod::{lemma_div_denominator, lemma_mod_breakdown, lemma_mod_mod};
use vstd::prelude::*;

verus! {

/// Ten to the power `d`.
pub open spec fn pow10(d: nat) -> nat
    decreases d,
{
    if d == 0 {
        1
    } else {
        10 * pow10((d - 1) as nat)
    }
}

/// The number of decimal digits of `n` (zero has one digit).
pub open spec fn digit_count(n: nat) -> nat
    decreases n,
{
    if n < 10 {
        1
    } else {
        1 + digit_count(n / 10)
    }
}

/// The ASCII decimal representation of `n`, without leading zeros.
pub open spec fn decimal_text(n: nat) -> Seq<u8>
    decreases n,
{
    if n < 10 {
        seq![(48 + n) as u8]
    } else {
        decimal_text(n / 10).push((48 + n % 10) as u8)
    }
}

/// The last `d` decimal digits of `n`, most significant first, padded with
/// zeros on the left.
pub open spec fn padded_digits(n: nat, d: nat) -> Seq<u8>
    decreases d,
{
    if d == 0 {
        seq![]
    } else {
        padded_digits(n / 10, (d - 1) as nat).push((48 + n % 10) as u8)
    }
}

/// The ASCII decimal representation of `x`, with a leading `-` when it is
/// negative.
pub open spec fn signed_decimal_text(x: int) -> Seq<u8> {
    if x < 0 {
        seq![45u8] + decimal_text((-x) as nat)
    } else {
        decimal_text(x as nat)
    }
}

/// The number that the ASCII digits `s` stand for.
pub open spec fn digits_value(s: Seq<u8>) -> nat
    decreases s.len(),
{
    if s.len() == 0 {
        0
    } else {
        10 * digits_value(s.drop_last()) + (s.last() - 48) as nat
    }
}

proof fn lemma_pow10_positive(d: nat)
    ensures
        pow10(d) >= 1,
    decreases d,
{
    if d > 0 {
        lemma_pow10_positive((d - 1) as nat);
    }
}

proof fn lemma_pow10_monotone(i: nat, j: nat)
    requires
        i <= j,
    ensures
        pow10(i) <= pow10(j),
    decreases j,
{
    if i < j {
        lemma_pow10_monotone(i, (j - 1) as nat);
        lemma_pow10_positive((j - 1) as nat);
    }
}

proof fn lemma_pow10_38()
    ensures
        pow10(38) == 100000000000000000000000000000000000000,
        pow10(39) == 1000000000000000000000000000000000000000,
{
    reveal_with_fuel(pow10, 40);
}

/// `n` is below ten to the power of its digit count, and at least ten to the
/// power of one less.
proof fn lemma_digit_count_bounds(n: nat)
    ensures
        n < pow10(digit_count(n)),
        digit_count(n) >= 1,
        n >= 10 ==> pow10((digit_count(n) - 1) as nat) <= n,
    decreases n,
{
    if n >= 10 {
        let m = n / 10;
        lemma_digit_count_bounds(m);
        let k = digit_count(m);
        assert(pow10(k + 1) == 10 * pow10(k));
        assert(n < 10 * pow10(k)) by (nonlinear_arith)
            requires
                m < pow10(k),
                m == n / 10,
        ;
        if m >= 10 {
            assert(pow10(k) == 10 * pow10((k - 1) as nat));
            assert(10 * pow10((k - 1) as nat) <= n) by (nonlinear_arith)
                requires
                    pow10((k - 1) as nat) <= m,
                    m == n / 10,
            ;
        } else {
            assert(k == 1);
            assert(pow10(1) == 10) by {
                reveal_with_fuel(pow10, 2);
            }
        }
    } else {
        assert(pow10(1) == 10) by {
            reveal_with_fuel(pow10, 2);
        }
    }
}

/// A number below ten to the power `k` has at most `k` digits.
proof fn lemma_digit_count_at_most(n: nat, k: nat)
    requires
        k >= 1,
        n < pow10(k),
    ensures
        digit_count(n) <= k,
    decreases n,
{
    if n >= 10 {
        if k == 1 {
            assert(pow10(1) == 10) by {
                reveal_with_fuel(pow10, 2);
            }
        } else {
            lemma_digit_count_at_most(n / 10, (k - 1) as nat);
        }
    }
}

/// The decimal representation is the number padded to its own digit count.
proof fn lemma_decimal_is_padded(n: nat)
    ensures
        decimal_text(n) == padded_digits(n, digit_count(n)),
    decreases n,
{
    if n < 10 {
        assert(padded_digits(0, 0) == Seq::<u8>::empty());
        assert(padded_digits(n, 1) == padded_digits(n / 10, 0).push((48 + n % 10) as u8));
    } else {
        lemma_decimal_is_padded(n / 10);
    }
}

/// The first of `d` padded digits is the quotient by the highest power of
/// ten; the others are the padded digits of the remainder.
proof fn lemma_padded_head(n: nat, d: nat)
    requires
        d >= 1,
        n < pow10(d),
    ensures
        n / pow10((d - 1) as nat) < 10,
        n % pow10((d - 1) as nat) < pow10((d - 1) as nat),
        padded_digits(n, d) == seq![(48 + n / pow10((d - 1) as nat)) as u8] + padded_digits(
            n % pow10((d - 1) as nat),
            (d - 1) as nat,
        ),
    decreases d,
{
    let p = pow10((d - 1) as nat);
    lemma_pow10_positive((d - 1) as nat);
    assert(n / p < 10) by (nonlinear_arith)
        requires
            n < 10 * p,
            p >= 1,
    ;
    assert(n % p < p) by (nonlinear_arith)
        requires
            p >= 1,
    ;
    if d == 1 {
        assert(p == 1);
        assert(n / 1 == n) by (nonlinear_arith);
        assert(n % 1 == 0) by (nonlinear_arith);
        assert(n % 10 == n);
        assert(padded_digits(n, 1) == padded_digits(n / 10, 0).push((48 + n % 10) as u8));
        assert(padded_digits(n, 1) =~= seq![(48 + n) as u8]);
        assert(padded_digits(0, 0) =~= Seq::<u8>::empty());
    } else {
        let q = pow10((d - 2) as nat);
        lemma_pow10_positive((d - 2) as nat);
        assert(p == 10 * q);
        let m = n / 10;
        assert(m < p) by (nonlinear_arith)
            requires
                n < 10 * p,
                m == n / 10,
        ;
        lemma_padded_head(m, (d - 1) as nat);
        // m / q == n / p
        lemma_div_denominator(n as int, 10, q as int);
        // n % p == 10 * (m % q) + n % 10
        lemma_mod_breakdown(n as int, 10, q as int);
        // (n % p) % 10 == n % 10
        lemma_mod_mod(n as int, 10, q as int);
        let r = n % p;
        assert(r / 10 == m % q) by (nonlinear_arith)
            requires
                r == 10 * (m % q) + n % 10,
                n % 10 < 10,
                n % 10 >= 0,
                m % q >= 0,
        ;
        assert(r % 10 == n % 10);
        assert(padded_digits(r, (d - 1) as nat) == padded_digits(r / 10, (d - 2) as nat).push(
            (48 + r % 10) as u8,
        ));
        assert(padded_digits(n, d) == padded_digits(m, (d - 1) as nat).push(
            (48 + n % 10) as u8,
        ));
        assert(padded_digits(n, d) =~= seq![(48 + n / p) as u8] + padded_digits(r, (d - 1) as nat));
    }
}

/// The decimal representation: ASCII digits only, no leading zero unless
/// the number is zero, as many digits as the count says, and it stands for
/// the number.
pub proof fn lemma_decimal_text(n: nat)
    ensures
        decimal_text(n).len() == digit_count(n),
        forall|i: int|
            0 <= i < decimal_text(n).len() ==> 48 <= #[trigger] decimal_text(n)[i] <= 57,
        decimal_text(n).len() > 1 ==> decimal_text(n)[0] != 48,
        digits_value(decimal_text(n)) == n,
    decreases n,
{
    if n >= 10 {
        let m = n / 10;
        lemma_decimal_text(m);
        lemma_digit_count_bounds(m / 10);
        let s = decimal_text(n);
        assert(s == decimal_text(m).push((48 + n % 10) as u8));
        assert(s.drop_last() =~= decimal_text(m));
        assert(s.last() == (48 + n % 10) as u8);
        assert((s.last() - 48) as nat == n % 10);
        assert(n == 10 * m + n % 10);
        assert(digits_value(s) == 10 * digits_value(s.drop_last()) + (s.last() - 48) as nat);
        if decimal_text(m).len() == 1 {
            assert(m < 10);
            assert(m != 0);
        }
        assert forall|i: int| 0 <= i < s.len() implies 48 <= #[trigger] s[i] <= 57 by {
            if i < s.len() - 1 {
                assert(s[i] == decimal_text(m)[i]);
            }
        }
    } else {
        let s = decimal_text(n);
        assert(s.drop_last() =~= Seq::<u8>::empty());
        assert(digits_value(s) == 10 * digits_value(s.drop_last()) + (s.last() - 48) as nat);
    }
}

/// `s` is the canonical decimal text of `n`: at least one byte, ASCII digits
/// only, no leading zero unless it is the single digit `0`, and the digits
/// stand for `n`.
pub open spec fn is_decimal_of(s: Seq<u8>, n: nat) -> bool {
    &&& s.len() >= 1
    &&& forall|i: int| 0 <= i < s.len() ==> 48 <= #[trigger] s[i] <= 57
    &&& s.len() > 1 ==> s[0] != 48
    &&& digits_value(s) == n
}

/// `s` is the canonical decimal text of `x`: for a negative `x`, a `-`
/// followed by the text of its magnitude; otherwise the text of `x`.
pub open spec fn is_signed_decimal_of(s: Seq<u8>, x: int) -> bool {
    if x < 0 {
        s.len() >= 1 && s[0] == 45 && is_decimal_of(s.drop_first(), (-x) as nat)
    } else {
        is_decimal_of(s, x as nat)
    }
}

/// A number's text is its canonical decimal text.
proof fn lemma_decimal_text_is_decimal(n: nat)
    ensures
        is_decimal_of(decimal_text(n), n),
{
    lemma_decimal_text(n);
    lemma_digit_count_bounds(n);
}

/// A signed number's text is its canonical signed decimal text.
proof fn lemma_signed_text_is_decimal(x: int)
    ensures
        is_signed_decimal_of(signed_decimal_text(x), x),
{
    if x < 0 {
        lemma_decimal_text_is_decimal((-x) as nat);
        let s = signed_decimal_text(x);
        assert(s.drop_first() =~= decimal_text((-x) as nat));
    } else {
        lemma_decimal_text_is_decimal(x as nat);
    }
}

/// Every `u8` streams its canonical decimal text.
pub proof fn law_u8_digits(x: u8)
    ensures
        is_decimal_of(x.decimal(), x as nat),
{
    lemma_decimal_text_is_decimal(x as nat);
}

/// Every `u16` streams its canonical decimal text.
pub proof fn law_u16_digits(x: u16)
    ensures
        is_decimal_of(x.decimal(), x as nat),
{
    lemma_decimal_text_is_decimal(x as nat);
}

/// Every `u32` streams its canonical decimal text.
pub proof fn law_u32_digits(x: u32)
    ensures
        is_decimal_of(x.decimal(), x as nat),
{
    lemma_decimal_text_is_decimal(x as nat);
}

/// Every `u64` streams its canonical decimal text.
pub proof fn law_u64_digits(x: u64)
    ensures
        is_decimal_of(x.decimal(), x as nat),
{
    lemma_decimal_text_is_decimal(x as nat);
}

/// Every `u128` streams its canonical decimal text.
pub proof fn law_u128_digits(x: u128)
    ensures
        is_decimal_of(x.decimal(), x as nat),
{
    lemma_decimal_text_is_decimal(x as nat);
}

/// Every `usize` streams its canonical decimal text.
pub proof fn law_usize_digits(x: usize)
    ensures
        is_decimal_of(x.decimal(), x as nat),
{
    lemma_decimal_text_is_decimal(x as nat);
}

/// Every `i8` streams its canonical signed decimal text.
pub proof fn law_i8_digits(x: i8)
    ensures
        is_signed_decimal_of(x.decimal(), x as int),
{
    lemma_signed_text_is_decimal(x as int);
}

/// Every `i16` streams its canonical signed decimal text.
pub proof fn law_i16_digits(x: i16)
    ensures
        is_signed_decimal_of(x.decimal(), x as int),
{
    lemma_signed_text_is_decimal(x as int);
}

/// Every `i32` streams its canonical signed decimal text.
pub proof fn law_i32_digits(x: i32)
    ensures
        is_signed_decimal_of(x.decimal(), x as int),
{
    lemma_signed_text_is_decimal(x as int);
}

/// Every `i64` streams its canonical signed decimal text.
pub proof fn law_i64_digits(x: i64)
    ensures
        is_signed_decimal_of(x.decimal(), x as int),
{
    lemma_signed_text_is_decimal(x as int);
}

/// Every `i128` streams its canonical signed decimal text.
pub proof fn law_i128_digits(x: i128)
    ensures
        is_signed_decimal_of(x.decimal(), x as int),
{
    lemma_signed_text_is_decimal(x as int);
}

/// Every `isize` streams its canonical signed decimal text.
pub proof fn law_isize_digits(x: isize)
    ensures
        is_signed_decimal_of(x.decimal(), x as int),
{
    lemma_signed_text_is_decimal(x as int);
}

/// The text of a finite number with a non-empty formatting `f` has as many
/// bytes as `f`: the bytes of `f` after its first, then a zero byte.
pub proof fn law_finite_float_text(negative: bool, f: Seq<u8>)
    requires
        0 < f.len() < 24,
    ensures
        float_text(FloatClass::Finite, negative, f).len() == f.len(),
        float_text(FloatClass::Finite, negative, f)[f.len() - 1] == 0,
        forall|i: int|
            0 <= i < f.len() - 1 ==> #[trigger] float_text(FloatClass::Finite, negative, f)[i]
                == f[i + 1],
{
}

/// The text of a number that is not a number or infinite does not depend on
/// its formatting: `NaN` or `Infinity`, with a leading `-` exactly when the
/// sign is negative.
pub proof fn law_special_float_text(negative: bool, f: Seq<u8>, g: Seq<u8>)
    ensures
        float_text(FloatClass::Nan, negative, f) == float_text(FloatClass::Nan, negative, g),
        float_text(FloatClass::Infinite, negative, f) == float_text(
            FloatClass::Infinite,
            negative,
            g,
        ),
        negative ==> float_text(FloatClass::Nan, negative, f) == seq![45u8] + float_text(
            FloatClass::Nan,
            false,
            f,
        ) && float_text(FloatClass::Infinite, negative, f) == seq![45u8] + float_text(
            FloatClass::Infinite,
            false,
            f,
        ),
        float_text(FloatClass::Nan, false, f) == seq![78u8, 97, 78],
        float_text(FloatClass::Infinite, false, f) == seq![73u8, 110, 102, 105, 110, 105, 116, 121],
{
    if negative {
        assert(float_text(FloatClass::Nan, negative, f) =~= seq![45u8] + float_text(
            FloatClass::Nan,
            false,
            f,
        ));
        assert(float_text(FloatClass::Infinite, negative, f) =~= seq![45u8] + float_text(
            FloatClass::Infinite,
            false,
            f,
        ));
    }
}

/// Hands out the decimal digits of an integer, with a leading `-` for a
/// negative one.
pub struct DigitIterator {
    digits: u8,
    negative: bool,
    number: u128,
    polls: Ghost<nat>,
}

/// Ten to the power `d`, computed.
fn pow10_u128(d: u8) -> (r: u128)
    requires
        d <= 38,
    ensures
        r == pow10(d as nat),
{
    let mut r: u128 = 1;
    let mut i: u8 = 0;
    while i < d
        invariant
            i <= d <= 38,
            r == pow10(i as nat),
        decreases d - i,
    {
        proof {
            lemma_pow10_monotone((i + 1) as nat, 38);
            lemma_pow10_38();
        }
        r = r * 10;
        i = i + 1;
    }
    r
}

/// The number of decimal digits of `n` (zero has one digit).
pub fn number_of_digits(n: u128) -> (d: u8)
    ensures
        d == digit_count(n as nat),
        1 <= d <= 39,
{
    proof {
        lemma_pow10_38();
        lemma_digit_count_at_most(n as nat, 39);
        lemma_digit_count_bounds(n as nat);
    }
    let mut d: u8 = 1;
    let mut m: u128 = n;
    while m >= 10
        invariant
            d as nat + digit_count(m as nat) == digit_count(n as nat) + 1,
            digit_count(n as nat) <= 39,
            d >= 1,
        decreases m,
    {
        proof {
            lemma_digit_count_bounds((m / 10) as nat);
        }
        m = m / 10;
        d = d + 1;
    }
    d
}

impl DigitIterator {
    /// The digits of `magnitude`, after a `-` when `negative`.
    fn of(magnitude: u128, negative: bool) -> (r: DigitIterator)
        ensures
            r.inv(),
            r.polls() == 0,
            r.rest() == (if negative {
                seq![45u8]
            } else {
                seq![]
            }) + decimal_text(magnitude as nat),
    {
        let digits = number_of_digits(magnitude);
        proof {
            lemma_digit_count_bounds(magnitude as nat);
            lemma_decimal_is_padded(magnitude as nat);
        }
        DigitIterator { digits, negative, number: magnitude, polls: Ghost(0) }
    }
}

impl ByteIterator for DigitIterator {
    closed spec fn inv(&self) -> bool {
        &&& self.digits <= 39
        &&& self.number < pow10(self.digits as nat)
        &&& self.negative ==> self.digits > 0
    }

    closed spec fn polls(&self) -> nat {
        self.polls@
    }

    closed spec fn rest(&self) -> Seq<u8> {
        (if self.negative {
            seq![45u8]
        } else {
            seq![]
        }) + padded_digits(self.number as nat, self.digits as nat)
    }

    fn next(&mut self) -> (r: Option<u8>) {
        self.polls = Ghost(self.polls@ + 1);
        if self.digits == 0 {
            assert(padded_digits(self.number as nat, 0) =~= Seq::<u8>::empty());
            None
        } else if self.negative {
            self.negative = false;
            let ghost p = padded_digits(self.number as nat, self.digits as nat);
            assert((seq![45u8] + p).drop_first() =~= seq![] + p);
            Some(45)
        } else {
            let ghost n = self.number as nat;
            let ghost d = self.digits as nat;
            proof {
                lemma_padded_head(n, d);
            }
            self.digits = self.digits - 1;
            let exp = pow10_u128(self.digits);
            let ret = self.number / exp;
            self.number = self.number % exp;
            assert((seq![] + (seq![(48 + n / pow10((d - 1) as nat)) as u8] + padded_digits(
                n % pow10((d - 1) as nat),
                (d - 1) as nat,
            ))).drop_first() =~= seq![] + padded_digits(self.number as nat, self.digits as nat));
            Some(ret as u8 + 48)
        }
    }
}

/// A number that can be written as JSON text.
pub trait Digits {
    /// The iterator over the number's text.
    type IntoIter: ByteIterator;

    /// The number's text.
    spec fn decimal(&self) -> Seq<u8>;

    /// An iterator over the number's text.
    fn digits(&self) -> (r: Self::IntoIter)
        ensures
            r.inv(),
            r.rest() == self.decimal(),
    ;
}

impl Digits for u8 {
    type IntoIter = DigitIterator;

    open spec fn decimal(&self) -> Seq<u8> {
        decimal_text(*self as nat)
    }

    fn digits(&self) -> (r: DigitIterator) {
        let r = DigitIterator::of(*self as u128, false);
        assert(r.rest() =~= decimal_text(*self as nat));
        r
    }
}

impl Digits for u16 {
    type IntoIter = DigitIterator;

    open spec fn decimal(&self) -> Seq<u8> {
        decimal_text(*self as nat)
    }

    fn digits(&self) -> (r: DigitIterator) {
        let r = DigitIterator::of(*self as u128, false);
        assert(r.rest() =~= decimal_text(*self as nat));
        r
    }
}

impl Digits for u32 {
    type IntoIter = DigitIterator;

    open spec fn decimal(&self) -> Seq<u8> {
        decimal_text(*self as nat)
    }

    fn digits(&self) -> (r: DigitIterator) {
        let r = DigitIterator::of(*self as u128, false);
        assert(r.rest() =~= decimal_text(*self as nat));
        r
    }
}

impl Digits for u64 {
    type IntoIter = DigitIterator;

    open spec fn decimal(&self) -> Seq<u8> {
        decimal_text(*self as nat)
    }

    fn digits(&self) -> (r: DigitIterator) {
        let r = DigitIterator::of(*self as u128, false);
        assert(r.rest() =~= decimal_text(*self as nat));
        r
    }
}

impl Digits for u128 {
    type IntoIter = DigitIterator;

    open spec fn decimal(&self) -> Seq<u8> {
        decimal_text(*self as nat)
    }

    fn digits(&self) -> (r: DigitIterator) {
        let r = DigitIterator::of(*self, false);
        assert(r.rest() =~= decimal_text(*self as nat));
        r
    }
}

impl Digits for usize {
    type IntoIter = DigitIterator;

    open spec fn decimal(&self) -> Seq<u8> {
        decimal_text(*self as nat)
    }

    fn digits(&self) -> (r: DigitIterator) {
        let r = DigitIterator::of(*self as u128, false);
        assert(r.rest() =~= decimal_text(*self as nat));
        r
    }
}

impl Digits for i8 {
    type IntoIter = DigitIterator;

    open spec fn decimal(&self) -> Seq<u8> {
        signed_decimal_text(*self as int)
    }

    fn digits(&self) -> (r: DigitIterator) {
        let x = *self;
        if x < 0 {
            let magnitude = (-(x + 1)) as u128 + 1;
            DigitIterator::of(magnitude, true)
        } else {
            let r = DigitIterator::of(x as u128, false);
            assert(r.rest() =~= decimal_text(x as nat));
            r
        }
    }
}

impl Digits for i16 {
    type IntoIter = DigitIterator;

    open spec fn decimal(&self) -> Seq<u8> {
        signed_decimal_text(*self as int)
    }

    fn digits(&self) -> (r: DigitIterator) {
        let x = *self;
        if x < 0 {
            let magnitude = (-(x + 1)) as u128 + 1;
            DigitIterator::of(magnitude, true)
        } else {
            let r = DigitIterator::of(x as u128, false);
            assert(r.rest() =~= decimal_text(x as nat));
            r
        }
    }
}

impl Digits for i32 {
    type IntoIter = DigitIterator;

    open spec fn decimal(&self) -> Seq<u8> {
        signed_decimal_text(*self as int)
    }

    fn digits(&self) -> (r: DigitIterator) {
        let x = *self;
        if x < 0 {
            let magnitude = (-(x + 1)) as u128 + 1;
            DigitIterator::of(magnitude, true)
        } else {
            let r = DigitIterator::of(x as u128, false);
            assert(r.rest() =~= decimal_text(x as nat));
            r
        }
    }
}

impl Digits for i64 {
    type IntoIter = DigitIterator;

    open spec fn decimal(&self) -> Seq<u8> {
        signed_decimal_text(*self as int)
    }

    fn digits(&self) -> (r: DigitIterator) {
        let x = *self;
        if x < 0 {
            let magnitude = (-(x + 1)) as u128 + 1;
            DigitIterator::of(magnitude, true)
        } else {
            let r = DigitIterator::of(x as u128, false);
            assert(r.rest() =~= decimal_text(x as nat));
            r
        }
    }
}

impl Digits for i128 {
    type IntoIter = DigitIterator;

    open spec fn decimal(&self) -> Seq<u8> {
        signed_decimal_text(*self as int)
    }

    fn digits(&self) -> (r: DigitIterator) {
        let x = *self;
        if x < 0 {
            let magnitude = (-(x + 1)) as u128 + 1;
            DigitIterator::of(magnitude, true)
        } else {
            let r = DigitIterator::of(x as u128, false);
            assert(r.rest() =~= decimal_text(x as nat));
            r
        }
    }
}

impl Digits for isize {
    type IntoIter = DigitIterator;

    open spec fn decimal(&self) -> Seq<u8> {
        signed_decimal_text(*self as int)
    }

    fn digits(&self) -> (r: DigitIterator) {
        let x = *self;
        if x < 0 {
            let magnitude = (-(x + 1)) as u128 + 1;
            DigitIterator::of(magnitude, true)
        } else {
            let r = DigitIterator::of(x as u128, false);
            assert(r.rest() =~= decimal_text(x as nat));
            r
        }
    }
}

/// What a floating-point number is, as far as its text is concerned.
pub enum FloatClass {
    /// Not a number.
    Nan,
    /// Positive or negative infinity.
    Infinite,
    /// Any other number.
    Finite,
}

/// The text a [`F64Iterator`] hands out for a number of class `class`, with
/// the sign `negative`, whose finite formatting is `formatted`: `NaN` and
/// `Infinity` after a `-` for a negative sign; for a finite number, the
/// formatted bytes after the first one, then a zero byte.
pub open spec fn float_text(class: FloatClass, negative: bool, formatted: Seq<u8>) -> Seq<u8> {
    match class {
        FloatClass::Nan => if negative {
            seq![45u8, 78, 97, 78]
        } else {
            seq![78u8, 97, 78]
        },
        FloatClass::Infinite => if negative {
            seq![45u8, 73, 110, 102, 105, 110, 105, 116, 121]
        } else {
            seq![73u8, 110, 102, 105, 110, 105, 116, 121]
        },
        FloatClass::Finite => if formatted.len() == 0 {
            seq![]
        } else {
            formatted.drop_first().push(0u8)
        },
    }
}

/// Hands out the bytes of a buffer from its `len`-th byte down to its first.
pub struct F64Iterator {
    buffer: [u8; 24],
    len: u8,
    polls: Ghost<nat>,
}

impl F64Iterator {
    /// Lays `text` into the buffer in order, to be handed out last byte first.
    fn store(buffer: &mut [u8; 24], text: &[u8])
        requires
            text.len() <= 24,
        ensures
            forall|i: int| 0 <= i < text.len() ==> #[trigger] final(buffer)@[i] == text@[i],
    {
        let mut i: usize = 0;
        while i < text.len()
            invariant
                i <= text.len() <= 24,
                forall|j: int| 0 <= j < i ==> #[trigger] buffer@[j] == text@[j],
            decreases text.len() - i,
        {
            buffer[i] = text[i];
            i = i + 1;
        }
    }

    /// The iterator over the text of a number of class `class`, with sign
    /// `negative`, whose finite formatting is `formatted`.
    ///
    /// The text of `NaN` and of the infinities is laid into the buffer in
    /// reverse; a finite formatting is laid one place too far, so that its
    /// first byte is lost and the buffer's untouched first byte, zero, comes
    /// last.
    pub fn from_class(class: FloatClass, negative: bool, formatted: &[u8]) -> (r: F64Iterator)
        requires
            class is Finite ==> formatted.len() < 24,
        ensures
            r.inv(),
            r.polls() == 0,
            r.rest() == float_text(class, negative, formatted@),
    {
        let mut b: [u8; 24] = [0u8; 24];
        let len: u8 = match class {
            FloatClass::Nan => {
                if negative {
                    let text: [u8; 4] = [78, 97, 78, 45];
                    F64Iterator::store(&mut b, &text);
                    4
                } else {
                    let text: [u8; 3] = [78, 97, 78];
                    F64Iterator::store(&mut b, &text);
                    3
                }
            },
            FloatClass::Infinite => {
                if negative {
                    let text: [u8; 9] = [121, 116, 105, 110, 105, 102, 110, 73, 45];
                    F64Iterator::store(&mut b, &text);
                    9
                } else {
                    let text: [u8; 8] = [121, 116, 105, 110, 105, 102, 110, 73];
                    F64Iterator::store(&mut b, &text);
                    8
                }
            },
            FloatClass::Finite => {
                let n = formatted.len();
                let mut offset: usize = 0;
                while offset < n
                    invariant
                        n == formatted.len() < 24,
                        offset <= n,
                        b@[0] == 0,
                        forall|o: int| 0 <= o < offset ==> #[trigger] b@[n - o] == formatted@[o],
                    decreases n - offset,
                {
                    b[n - offset] = formatted[offset];
                    offset = offset + 1;
                }
                n as u8
            },
        };
        let r = F64Iterator { buffer: b, len, polls: Ghost(0) };
        proof {
            match class {
                FloatClass::Finite => {
                    if formatted.len() > 0 {
                        let n = formatted.len() as int;
                        assert forall|i: int| 0 <= i < n implies #[trigger] r.rest()[i]
                            == formatted@.drop_first().push(0u8)[i] by {
                            if i < n - 1 {
                                assert(b@[n - (i + 1)] == formatted@[i + 1]);
                            }
                        }
                    }
                    assert(r.rest() =~= float_text(class, negative, formatted@));
                },
                _ => {
                    assert(r.rest() =~= float_text(class, negative, formatted@));
                },
            }
        }
        r
    }
}

impl ByteIterator for F64Iterator {
    closed spec fn inv(&self) -> bool {
        self.len <= 24
    }

    closed spec fn polls(&self) -> nat {
        self.polls@
    }

    closed spec fn rest(&self) -> Seq<u8> {
        Seq::new(self.len as nat, |i: int| self.buffer@[self.len - 1 - i])
    }

    fn next(&mut self) -> (r: Option<u8>) {
        self.polls = Ghost(self.polls@ + 1);
        if self.len == 0 {
            None
        } else {
            let ghost before = self.rest();
            self.len = self.len - 1;
            let x = self.buffer[self.len as usize];
            assert(before.drop_first() =~= self.rest());
            Some(x)
        }
    }
}

} // verus!
