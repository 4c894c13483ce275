//! Arbitrary-precision decimals as plain values, and the decimal arithmetic
//! of the `bigdecimal` crate that the rest of the library relies on.

use vstd::prelude::*;
use bigdecimal::BigDecimal;
use num_bigint::{BigInt, Sign};

verus! {

/// The value of little-endian base 2^32 limbs.
pub open spec fn limb_value(limbs: Seq<u32>) -> nat
    decreases limbs.len(),
{
    if limbs.len() == 0 {
        0
    } else {
        limbs[0] as nat + 4294967296 * limb_value(limbs.drop_first())
    }
}

pub open spec fn pow10(n: nat) -> nat
    decreases n,
{
    if n == 0 {
        1
    } else {
        10 * pow10((n - 1) as nat)
    }
}

pub open spec fn abs(x: int) -> nat {
    if x < 0 {
        (-x) as nat
    } else {
        x as nat
    }
}

/// A decimal number `mantissa * 10^(-scale)`, the mantissa held as a sign and
/// its magnitude in base 2^32 limbs, least significant first.
#[derive(Debug)]
pub struct Decimal {
    pub negative: bool,
    pub limbs: Vec<u32>,
    pub scale: i64,
}

impl View for Decimal {
    /// The pair (mantissa, scale).
    type V = (int, int);

    open spec fn view(&self) -> (int, int) {
        let m = limb_value(self.limbs@) as int;
        (if self.negative { -m } else { m }, self.scale as int)
    }
}

/// Numerator of the value of (mantissa, scale) over `den`.
pub open spec fn num(x: (int, int)) -> int {
    if x.1 >= 0 {
        x.0
    } else {
        x.0 * pow10((-x.1) as nat)
    }
}

/// Denominator (a power of ten) of the value of (mantissa, scale).
pub open spec fn den(x: (int, int)) -> int {
    if x.1 >= 0 {
        pow10(x.1 as nat) as int
    } else {
        1
    }
}

/// `a` is a smaller number than `b`.
pub open spec fn less(a: (int, int), b: (int, int)) -> bool {
    num(a) * den(b) < num(b) * den(a)
}

/// `a` and `b` are the same number, perhaps written at different scales.
pub open spec fn same(a: (int, int), b: (int, int)) -> bool {
    num(a) * den(b) == num(b) * den(a)
}

pub open spec fn one() -> (int, int) {
    (1, 0)
}

pub open spec fn zero() -> (int, int) {
    (0, 0)
}

/// Mantissa of `x` written at the scale `k`, where `k` is at least `x`'s scale.
pub open spec fn at_scale(x: (int, int), k: int) -> int {
    x.0 * pow10((k - x.1) as nat)
}

pub proof fn lemma_pow10_positive(n: nat)
    ensures
        pow10(n) >= 1,
    decreases n,
{
    if n > 0 {
        lemma_pow10_positive((n - 1) as nat);
    }
}

/// A number above one has a non-zero mantissa.
pub proof fn lemma_above_one_nonzero(b: (int, int))
    requires
        less(one(), b),
    ensures
        b.0 != 0,
{
    assert(pow10(0) == 1);
    assert(num(one()) == 1);
    assert(den(one()) == 1);
    if b.1 >= 0 {
        lemma_pow10_positive(b.1 as nat);
        assert(den(b) >= 1);
    } else {
        assert(den(b) == 1);
    }
    if b.0 == 0 {
        assert(num(b) == 0);
        assert(1 * den(b) < 0 * 1);
    }
}

pub proof fn lemma_at_own_scale(x: (int, int))
    ensures
        at_scale(x, x.1) == x.0,
{
    assert(pow10(0) == 1);
    assert((x.1 - x.1) as nat == 0);
}

pub open spec fn max(a: int, b: int) -> int {
    if a >= b {
        a
    } else {
        b
    }
}

/// Exact sum, written at the larger of the two scales.
pub open spec fn sum(a: (int, int), b: (int, int)) -> (int, int) {
    let k = max(a.1, b.1);
    (at_scale(a, k) + at_scale(b, k), k)
}

/// Exact difference, written at the larger of the two scales.
pub open spec fn aligned_difference(a: (int, int), b: (int, int)) -> (int, int) {
    let k = max(a.1, b.1);
    (at_scale(a, k) - at_scale(b, k), k)
}

/// What `BigDecimal`'s subtraction yields: the minuend for a zero
/// subtrahend, the negated subtrahend for a zero minuend, else the exact
/// difference at the larger scale.
pub open spec fn difference(a: (int, int), b: (int, int)) -> (int, int) {
    if b.0 == 0 {
        a
    } else if a.0 == 0 {
        (-b.0, b.1)
    } else {
        aligned_difference(a, b)
    }
}

/// Remainder of the division of the mantissas at the larger scale; its sign
/// is that of the dividend.
pub open spec fn remainder(a: (int, int), b: (int, int)) -> (int, int) {
    let k = max(a.1, b.1);
    let x = at_scale(a, k);
    let y = abs(at_scale(b, k)) as int;
    (if x >= 0 { x % y } else { -((-x) % y) }, k)
}

/// How a number is brought to fewer decimal places.
pub enum Rounding {
    /// To the nearest; halfway to the even neighbour.
    HalfEven,
    /// Toward negative infinity.
    Floor,
    /// Toward zero.
    Down,
}

/// A magnitude `a / d` brought to an integer, for a number of the given sign.
pub open spec fn rounded_magnitude(a: nat, d: nat, negative: bool, mode: Rounding) -> nat
    recommends
        d > 0,
{
    let q = a / d;
    let r = a % d;
    if r == 0 {
        q
    } else {
        match mode {
            Rounding::HalfEven => if 2 * r > d || (2 * r == d && q % 2 == 1) {
                q + 1
            } else {
                q
            },
            Rounding::Floor => if negative {
                q + 1
            } else {
                q
            },
            Rounding::Down => q,
        }
    }
}

/// `x` written at scale `k`: exact when `k` is at least `x`'s scale, rounded
/// by `mode` otherwise.
pub open spec fn rescaled(x: (int, int), k: int, mode: Rounding) -> (int, int) {
    if k >= x.1 {
        (at_scale(x, k), k)
    } else {
        let m = rounded_magnitude(abs(x.0), pow10((x.1 - k) as nat), x.0 < 0, mode) as int;
        (if x.0 < 0 { -m } else { m }, k)
    }
}

/// How many trailing decimal zeros the magnitude `a` has (none for zero).
pub open spec fn trailing_zeros(a: nat) -> nat
    decreases a,
{
    if a > 0 && a % 10 == 0 {
        1 + trailing_zeros(a / 10)
    } else {
        0
    }
}

/// `x` without the trailing zeros of its mantissa; zero becomes (0, 0).
pub open spec fn normalized(x: (int, int)) -> (int, int) {
    if x.0 == 0 {
        zero()
    } else {
        let t = trailing_zeros(abs(x.0));
        (x.0 / pow10(t) as int, x.1 - t)
    }
}

/// The count of decimal digits of the magnitude `a`; zero has one.
pub open spec fn digit_count(a: nat) -> nat
    decreases a,
{
    if a < 10 {
        1
    } else {
        1 + digit_count(a / 10)
    }
}

/// The number `x` has no fractional part.
pub open spec fn integral(x: (int, int)) -> bool {
    x.1 <= 0 || x.0 % (pow10(x.1 as nat) as int) == 0
}

/// The integer that an integral `x` stands for.
pub open spec fn integer_value(x: (int, int)) -> int {
    if x.1 <= 0 {
        num(x)
    } else {
        x.0 / (pow10(x.1 as nat) as int)
    }
}

/// The largest scale magnitude that the arithmetic below is used with.
pub const SCALE_LIMIT: i64 = 1099511627776;

pub open spec fn fits(x: (int, int)) -> bool {
    -SCALE_LIMIT <= x.1 <= SCALE_LIMIT
}

/// What `BigDecimal`'s multiplication yields for these operands.
pub uninterp spec fn product_of(a: (int, int), b: (int, int)) -> (int, int);

/// What `BigDecimal::square` yields for this operand.
pub uninterp spec fn square_of(a: (int, int)) -> (int, int);

/// What `BigDecimal`'s division yields for these operands.
pub uninterp spec fn quotient_of(a: (int, int), b: (int, int)) -> (int, int);

/// What `BigDecimal::inverse` yields for this operand.
pub uninterp spec fn reciprocal_of(a: (int, int)) -> (int, int);

/// What `BigDecimal::sqrt` yields for this non-negative operand.
pub uninterp spec fn square_root_of(a: (int, int)) -> (int, int);

/// The text that `BigDecimal`'s `Display` writes for this number.
pub uninterp spec fn decimal_text(a: (int, int)) -> Seq<char>;

/// What `BigDecimal::from_str` yields for this text.
pub uninterp spec fn parsed_decimal(s: Seq<char>) -> Option<(int, int)>;

impl Decimal {
    /// The integer `n`, at scale zero.
    pub fn from_u64(n: u64) -> (r: Decimal)
        ensures
            r@ == (n as int, 0int),
    {
        let lo: u32 = (n % 4294967296) as u32;
        let hi: u32 = (n / 4294967296) as u32;
        let mut limbs: Vec<u32> = Vec::new();
        limbs.push(lo);
        limbs.push(hi);
        proof {
            reveal_with_fuel(limb_value, 3);
            assert(limbs@.drop_first() =~= seq![hi]);
            assert(limbs@.drop_first().drop_first() =~= Seq::<u32>::empty());
        }
        Decimal { negative: false, limbs, scale: 0 }
    }

    /// The decimal text of the number.
    pub fn to_text(&self) -> (r: String)
        ensures
            r@ == decimal_text(self@),
    {
        display_text(self)
    }

    /// The number that a decimal text spells, if it spells one.
    pub fn parse(s: &str) -> (r: Option<Decimal>)
        ensures
            r is None <==> parsed_decimal(s@) is None,
            r is Some ==> parsed_decimal(s@) == Some(r->0@),
    {
        parse_text(s)
    }

    /// A copy of the number, written the same way.
    pub fn duplicate(&self) -> (r: Decimal)
        ensures
            r@ == self@,
    {
        Decimal { negative: self.negative, limbs: self.limbs.clone(), scale: self.scale }
    }

    /// The same number with the opposite sign.
    pub fn negated(&self) -> (r: Decimal)
        ensures
            r@ == (-self@.0, self@.1),
    {
        Decimal { negative: !self.negative, limbs: self.limbs.clone(), scale: self.scale }
    }

    /// Whether the number is zero.
    pub fn is_zero(&self) -> (r: bool)
        ensures
            r == (self@.0 == 0),
    {
        let mut i: usize = 0;
        while i < self.limbs.len()
            invariant
                i <= self.limbs@.len(),
                forall|k: int| 0 <= k < i ==> self.limbs@[k] == 0,
            decreases self.limbs@.len() - i,
        {
            if self.limbs[i] != 0 {
                proof {
                    lemma_limb_value_nonzero(self.limbs@, i as int);
                }
                return false;
            }
            i += 1;
        }
        proof {
            lemma_limb_value_zero(self.limbs@);
        }
        true
    }
}

proof fn lemma_limb_value_nonzero(limbs: Seq<u32>, i: int)
    requires
        0 <= i < limbs.len(),
        limbs[i] != 0,
    ensures
        limb_value(limbs) > 0,
    decreases limbs.len(),
{
    if i > 0 {
        lemma_limb_value_nonzero(limbs.drop_first(), i - 1);
    }
}

proof fn lemma_limb_value_zero(limbs: Seq<u32>)
    requires
        forall|k: int| 0 <= k < limbs.len() ==> limbs[k] == 0,
    ensures
        limb_value(limbs) == 0,
    decreases limbs.len(),
{
    if limbs.len() > 0 {
        assert(limbs[0] == 0);
        lemma_limb_value_zero(limbs.drop_first());
    }
}

#[verifier::external_type_specification]
#[verifier::external_body]
pub struct ExBigDecimal(BigDecimal);

impl Decimal {
    /// Relies on `BigInt::new` and `BigDecimal::new`, which take the sign,
    /// the base 2^32 limbs and the scale as they are.
    #[verifier::external_body]
    fn to_big(&self) -> BigDecimal {
        let sign = if self.negative { Sign::Minus } else { Sign::Plus };
        BigDecimal::new(BigInt::new(sign, self.limbs.clone()), self.scale)
    }

    /// Relies on `BigDecimal::into_bigint_and_exponent` and
    /// `BigInt::to_u32_digits`, which hand out the mantissa and scale as they are.
    #[verifier::external_body]
    fn from_big(b: BigDecimal) -> Decimal {
        let (int_val, scale) = b.into_bigint_and_exponent();
        let (sign, limbs) = int_val.to_u32_digits();
        Decimal { negative: sign == Sign::Minus, limbs, scale }
    }
}

/// Relies on `BigDecimal`'s `*`: the product of the mantissas at the sum of
/// the scales, except that a factor equal to one may hand back the other.
#[verifier::external_body]
pub(crate) fn product(a: &Decimal, b: &Decimal) -> (r: Decimal)
    requires
        fits(a@),
        fits(b@),
    ensures
        r@ == product_of(a@, b@),
        r@ == (a@.0 * b@.0, a@.1 + b@.1) || (same(a@, one()) && r@ == b@) || (same(b@, one())
            && r@ == a@),
{
    Decimal::from_big(a.to_big() * b.to_big())
}

/// Relies on `BigDecimal::square`: the squared mantissa at twice the scale,
/// except that zero and one are handed back as they are.
#[verifier::external_body]
pub(crate) fn squared(a: &Decimal) -> (r: Decimal)
    requires
        fits(a@),
    ensures
        r@ == square_of(a@),
        r@ == (a@.0 * a@.0, 2 * a@.1) || ((a@.0 == 0 || same(a@, one())) && r@ == a@),
{
    Decimal::from_big(a.to_big().square())
}

/// Relies on `BigDecimal`'s `+`: both operands brought to the larger scale
/// and their mantissas added.
#[verifier::external_body]
pub(crate) fn plus(a: &Decimal, b: &Decimal) -> (r: Decimal)
    requires
        fits(a@),
        fits(b@),
    ensures
        r@ == sum(a@, b@),
{
    Decimal::from_big(a.to_big() + b.to_big())
}

/// Relies on `BigDecimal`'s `-`: a zero subtrahend gives the minuend, a zero
/// minuend the negated subtrahend, else the difference at the larger scale.
#[verifier::external_body]
pub(crate) fn minus(a: &Decimal, b: &Decimal) -> (r: Decimal)
    requires
        fits(a@),
        fits(b@),
    ensures
        r@ == difference(a@, b@),
{
    Decimal::from_big(a.to_big() - b.to_big())
}

/// Relies on `BigDecimal`'s `/`, which rounds to its default precision.
#[verifier::external_body]
pub(crate) fn divided(a: &Decimal, b: &Decimal) -> (r: Decimal)
    requires
        fits(a@),
        fits(b@),
        b@.0 != 0,
    ensures
        r@ == quotient_of(a@, b@),
{
    Decimal::from_big(a.to_big() / b.to_big())
}

/// Relies on `BigDecimal`'s `%`: the remainder of the mantissas at the
/// larger scale, with the sign of the dividend.
#[verifier::external_body]
pub(crate) fn modulo(a: &Decimal, b: &Decimal) -> (r: Decimal)
    requires
        fits(a@),
        fits(b@),
        b@.0 != 0,
    ensures
        r@ == remainder(a@, b@),
{
    Decimal::from_big(a.to_big() % b.to_big())
}

/// Relies on `BigDecimal::inverse`, which rounds to its default precision.
#[verifier::external_body]
pub(crate) fn reciprocal(a: &Decimal) -> (r: Decimal)
    requires
        fits(a@),
    ensures
        r@ == reciprocal_of(a@),
{
    Decimal::from_big(a.to_big().inverse())
}

/// Relies on `BigDecimal::sqrt`, which has a root for every number that is
/// not negative.
#[verifier::external_body]
pub(crate) fn square_root(a: &Decimal) -> (r: Option<Decimal>)
    requires
        fits(a@),
    ensures
        a@.0 >= 0 ==> r is Some,
        r is Some ==> r->0@ == square_root_of(a@),
{
    match a.to_big().sqrt() {
        Some(root) => Some(Decimal::from_big(root)),
        None => None,
    }
}

/// Relies on `BigDecimal::with_scale_round`: the number written at scale `k`,
/// rounded by `mode` where digits are dropped.
#[verifier::external_body]
pub(crate) fn with_scale_rounded(a: &Decimal, k: i64, mode: Rounding) -> (r: Decimal)
    requires
        fits(a@),
        -4 * SCALE_LIMIT <= k <= 4 * SCALE_LIMIT,
    ensures
        r@ == rescaled(a@, k as int, mode),
{
    let mode = match mode {
        Rounding::HalfEven => bigdecimal::RoundingMode::HalfEven,
        Rounding::Floor => bigdecimal::RoundingMode::Floor,
        Rounding::Down => bigdecimal::RoundingMode::Down,
    };
    Decimal::from_big(a.to_big().with_scale_round(k, mode))
}

/// Relies on `BigDecimal::normalized`: the trailing zeros of the mantissa
/// dropped, and zero written as (0, 0).
#[verifier::external_body]
pub(crate) fn normalize(a: &Decimal) -> (r: Decimal)
    requires
        fits(a@),
    ensures
        r@ == normalized(a@),
{
    Decimal::from_big(a.to_big().normalized())
}

/// Relies on `BigDecimal`'s `<`, which compares the numbers.
#[verifier::external_body]
pub(crate) fn is_less(a: &Decimal, b: &Decimal) -> (r: bool)
    ensures
        r == less(a@, b@),
{
    a.to_big() < b.to_big()
}

/// Relies on `BigDecimal::digits`: the count of decimal digits of the mantissa.
#[verifier::external_body]
pub(crate) fn digit_total(a: &Decimal) -> (r: u64)
    ensures
        r == digit_count(abs(a@.0)),
{
    a.to_big().digits()
}

/// Relies on `BigDecimal::is_integer`: whether the number has no fractional part.
#[verifier::external_body]
pub(crate) fn is_whole(a: &Decimal) -> (r: bool)
    ensures
        r == integral(a@),
{
    a.to_big().is_integer()
}

/// Relies on `ToPrimitive::to_u64` of `BigDecimal`: an integral number as a
/// `u64` where it is one.
#[verifier::external_body]
pub(crate) fn whole_u64(a: &Decimal) -> (r: Option<u64>)
    requires
        integral(a@),
    ensures
        r == (if 0 <= integer_value(a@) <= u64::MAX {
            Some(integer_value(a@) as u64)
        } else {
            None::<u64>
        }),
{
    bigdecimal::ToPrimitive::to_u64(&a.to_big())
}

/// Relies on `BigDecimal`'s `Display`, through `to_string`.
#[verifier::external_body]
pub(crate) fn display_text(a: &Decimal) -> (r: String)
    ensures
        r@ == decimal_text(a@),
{
    a.to_big().to_string()
}

/// Relies on `BigDecimal::from_str`.
#[verifier::external_body]
pub(crate) fn parse_text(s: &str) -> (r: Option<Decimal>)
    ensures
        r is None <==> parsed_decimal(s@) is None,
        r is Some ==> parsed_decimal(s@) == Some(r->0@),
{
    match <BigDecimal as std::str::FromStr>::from_str(s) {
        Ok(b) => Some(Decimal::from_big(b)),
        Err(_) => None,
    }
}

} // verus!
