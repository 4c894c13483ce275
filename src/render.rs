//! Writing a number as a numeral in a base greater than one.

use vstd::prelude::*;
use crate::decimal::{
    lemma_above_one_nonzero,    abs, decimal_text, difference, display_text, divided, fits, integer_value, is_less, less,
    minus, modulo, one, product, product_of, quotient_of, remainder, rescaled, whole_u64,
    with_scale_rounded, Decimal, Rounding, SCALE_LIMIT,
};
use crate::parse::{text_outcome, ConversionError, Failure};
use crate::power::{in_range, one_exec, pow, power};
use crate::text::{digit_text, push_all, push_digit, string_of, chars_of};

verus! {

/// The lowest exponent that a digit is written for; a number that still
/// holds more below it is cut there with an ellipsis.
pub const PRECISION_FLOOR: i64 = -9;

/// The largest exponent that is looked at for the leading digit.
pub const EXPONENT_LIMIT: i64 = SCALE_LIMIT;

/// The character that marks digits left unwritten.
pub open spec fn ellipsis() -> char {
    '\u{2026}'
}

/// The integer part of `x`, toward negative infinity.
pub open spec fn floor_of(x: (int, int)) -> (int, int) {
    rescaled(x, 0, Rounding::Floor)
}

/// The digit of `v` at the place of `power`: the integer part of
/// `(v / power) mod b`.
pub open spec fn place_digit(v: (int, int), power: (int, int), b: (int, int)) -> (int, int) {
    floor_of(remainder(quotient_of(v, power), b))
}

/// The text of a digit: as `digit_text` gives it where it is a `u64`, else
/// its decimal text in brackets.
pub open spec fn digit_chars(d: (int, int)) -> Seq<char> {
    if 0 <= integer_value(d) <= u64::MAX {
        digit_text(integer_value(d) as nat)
    } else {
        seq!['['] + decimal_text(d) + seq![']']
    }
}

/// From exponent `e` with `power` = `b^e` up: the first exponent whose power
/// is not below `v`, with that power.
pub open spec fn climb(v: (int, int), b: (int, int), power: (int, int), e: int) -> Option<(int, (int, int))>
    decreases EXPONENT_LIMIT - e,
{
    if !less(power, v) {
        Some((e, power))
    } else if e >= EXPONENT_LIMIT {
        None
    } else {
        let next = product_of(power, b);
        if !fits(next) {
            None
        } else {
            climb(v, b, next, e + 1)
        }
    }
}

/// Steps down from exponent `e` while it is positive and the digit there is zero.
pub open spec fn descend(v: (int, int), b: (int, int), power: (int, int), e: int) -> Option<(int, (int, int))>
    decreases e,
{
    if e <= 0 {
        Some((e, power))
    } else if power.0 == 0 || !fits(quotient_of(v, power)) {
        None
    } else if place_digit(v, power, b).0 != 0 {
        Some((e, power))
    } else if !fits(quotient_of(power, b)) {
        None
    } else {
        descend(v, b, quotient_of(power, b), e - 1)
    }
}

pub open spec fn prepend(s: Seq<char>, o: Option<Seq<char>>) -> Option<Seq<char>> {
    match o {
        Some(rest) => Some(s + rest),
        None => None,
    }
}

/// The digits from exponent `e` down, `power` being the power of the base
/// there: while the remaining `v` exceeds `tiny` in magnitude or the
/// exponent is not negative, each digit is written and taken off `v`, with a
/// radix point before exponent -1; at `PRECISION_FLOOR` an ellipsis ends it.
pub open spec fn emit(v: (int, int), b: (int, int), power: (int, int), e: int, tiny: (int, int)) -> Option<
    Seq<char>,
>
    decreases e - PRECISION_FLOOR,
{
    if !((less(tiny, (abs(v.0) as int, v.1)) || e >= 0) && e >= PRECISION_FLOOR) {
        Some(seq![])
    } else if e == PRECISION_FLOOR {
        Some(seq![ellipsis()])
    } else if power.0 == 0 || !fits(v) || !fits(quotient_of(v, power)) {
        None
    } else {
        let d = place_digit(v, power, b);
        let taken = product_of(d, power);
        let next = quotient_of(power, b);
        if !fits(taken) || !fits(difference(v, taken)) || !fits(next) {
            None
        } else {
            prepend(
                (if e == -1 { seq!['.'] } else { seq![] }) + digit_chars(d),
                emit(difference(v, taken), b, next, e - 1, tiny),
            )
        }
    }
}

/// What writing `v` in base `b` gives: `InvalidBase` unless `b` is above
/// one; `0` for zero; else the numeral of the magnitude after a `-` for a
/// negative number, or `ExponentOverflow` where a scale or an exponent
/// leaves the supported range.
pub open spec fn writing(v: (int, int), b: (int, int)) -> Result<Seq<char>, Failure> {
    if !less(one(), b) {
        Err(Failure::InvalidBase)
    } else if v.0 == 0 {
        Ok(seq!['0'])
    } else if !fits(b) || !fits(v) {
        Err(Failure::ExponentOverflow)
    } else {
        match rendering((abs(v.0) as int, v.1), b) {
            None => Err(Failure::ExponentOverflow),
            Some(t) => Ok(
                if v.0 < 0 {
                    seq!['-'] + t
                } else {
                    t
                },
            ),
        }
    }
}

/// The numeral of a positive `v` in base `b`.
pub open spec fn rendering(v: (int, int), b: (int, int)) -> Option<Seq<char>> {
    match power(b, 2 * PRECISION_FLOOR) {
        None => None,
        Some(tiny) => match climb(v, b, one(), 0) {
            None => None,
            Some((e, p)) => match descend(v, b, p, e) {
                None => None,
                Some((e2, p2)) => emit(v, b, p2, e2, tiny),
            },
        },
    }
}

fn floor(x: &Decimal) -> (r: Decimal)
    requires
        fits(x@),
    ensures
        r@ == floor_of(x@),
{
    with_scale_rounded(x, 0, Rounding::Floor)
}

fn digit_at(v: &Decimal, power: &Decimal, base: &Decimal) -> (r: Option<Decimal>)
    requires
        fits(v@),
        fits(power@),
        fits(base@),
        power@.0 != 0,
        less(one(), base@),
    ensures
        r is Some <==> fits(quotient_of(v@, power@)),
        r matches Some(d) ==> d@ == place_digit(v@, power@, base@),
{
    let q = divided(v, power);
    if !in_range(&q) {
        return None;
    }
    proof {
        lemma_above_one_nonzero(base@);
    }
    let m = modulo(&q, base);
    Some(floor(&m))
}

/// Appends the text of the digit `d`.
fn push_digit_chars(out: &mut Vec<char>, d: &Decimal)
    requires
        d@.1 == 0,
    ensures
        final(out)@ == old(out)@ + digit_chars(d@),
{
    match whole_u64(d) {
        Some(n) => push_digit(out, n),
        None => {
            out.push('[');
            let t = chars_of(display_text(d).as_str());
            push_all(out, &t);
            out.push(']');
            assert(final(out)@ =~= old(out)@ + digit_chars(d@));
        },
    }
}

/// Writes `value` as a numeral in base `base`. Zero is `0`. Otherwise, after
/// a `-` for a negative number, the digits run from the highest exponent
/// whose power of the base is not below the magnitude (stepping down past
/// zero digits to exponent 0 at most) to exponent 0, and on below it while
/// anything above the base's power `2 * PRECISION_FLOOR` remains; a radix
/// point stands before exponent -1, and at `PRECISION_FLOOR` an ellipsis
/// takes the place of the digits left.
pub fn val_to_base(value: &Decimal, base: &Decimal) -> (r: Result<String, ConversionError>)
    ensures
        text_outcome(r) == writing(value@, base@),
{
    let unit = one_exec();
    if !is_less(&unit, base) {
        return Err(ConversionError::InvalidBase);
    }
    proof {
        lemma_above_one_nonzero(base@);
    }
    if value.is_zero() {
        let mut z: Vec<char> = Vec::new();
        z.push('0');
        assert(z@ =~= seq!['0']);
        return Ok(string_of(&z));
    }
    if !in_range(base) || !in_range(value) {
        return Err(ConversionError::ExponentOverflow);
    }
    let v = Decimal { negative: false, limbs: value.limbs.clone(), scale: value.scale };
    assert(v@ == (abs(value@.0) as int, value@.1));
    let tiny = match pow(base, (2 * PRECISION_FLOOR) as isize) {
        Some(t) => t,
        None => {
            return Err(ConversionError::ExponentOverflow);
        },
    };
    let mut exp: i64 = 0;
    let mut power = one_exec();
    while is_less(&power, &v)
        invariant
            less(one(), base@),
            value@.0 != 0,
            fits(base@),
            fits(value@),
            v@ == (abs(value@.0) as int, value@.1),
            fits(power@),
            0 <= exp <= EXPONENT_LIMIT,
            rendering(v@, base@) == match climb(v@, base@, power@, exp as int) {
                None => None,
                Some((e, p)) => match descend(v@, base@, p, e) {
                    None => None,
                    Some((e2, p2)) => emit(v@, base@, p2, e2, tiny@),
                },
            },
        decreases EXPONENT_LIMIT - exp,
    {
        if exp >= EXPONENT_LIMIT {
            return Err(ConversionError::ExponentOverflow);
        }
        let next = product(&power, base);
        if !in_range(&next) {
            return Err(ConversionError::ExponentOverflow);
        }
        exp += 1;
        power = next;
    }
    let mut done = false;
    while !done && exp > 0
        invariant
            less(one(), base@),
            value@.0 != 0,
            fits(base@),
            fits(value@),
            v@ == (abs(value@.0) as int, value@.1),
            fits(v@),
            fits(power@),
            base@.0 != 0,
            0 <= exp <= EXPONENT_LIMIT,
            rendering(v@, base@) == match descend(v@, base@, power@, exp as int) {
                None => None,
                Some((e2, p2)) => emit(v@, base@, p2, e2, tiny@),
            },
            done ==> descend(v@, base@, power@, exp as int) == Some((exp as int, power@)),
        decreases exp + if done { 0int } else { 1int },
    {
        if power.is_zero() {
            return Err(ConversionError::ExponentOverflow);
        }
        let d = match digit_at(&v, &power, base) {
            Some(d) => d,
            None => {
                return Err(ConversionError::ExponentOverflow);
            },
        };
        if !d.is_zero() {
            done = true;
        } else {
            let next = divided(&power, base);
            if !in_range(&next) {
                return Err(ConversionError::ExponentOverflow);
            }
            power = next;
            exp -= 1;
        }
    }
    assert(descend(v@, base@, power@, exp as int) == Some((exp as int, power@)));
    let ghost total = emit(v@, base@, power@, exp as int, tiny@);
    let mut digits: Vec<char> = Vec::new();
    let mut cur = v;
    let mut finished = false;
    assert(digits@ + Seq::<char>::empty() =~= Seq::<char>::empty());
    while !finished
        invariant
            less(one(), base@),
            value@.0 != 0,
            fits(value@),
            v@ == (abs(value@.0) as int, value@.1),
            rendering(v@, base@) == total,
            fits(base@),
            less(one(), base@),
            base@.0 != 0,
            PRECISION_FLOOR <= exp <= EXPONENT_LIMIT,
            fits(power@),
            finished ==> total == Some(digits@),
            !finished ==> total == prepend(digits@, emit(cur@, base@, power@, exp as int, tiny@)),
        decreases exp - PRECISION_FLOOR + if finished { 0int } else { 1int },
    {
        let a = Decimal { negative: false, limbs: cur.limbs.clone(), scale: cur.scale };
        let above = is_less(&tiny, &a);
        if !((above || exp >= 0) && exp >= PRECISION_FLOOR) {
            assert(digits@ + Seq::<char>::empty() =~= digits@);
            finished = true;
        } else if exp == PRECISION_FLOOR {
            digits.push(ellipsis_char());
            finished = true;
        } else {
            if power.is_zero() || !in_range(&cur) {
                return Err(ConversionError::ExponentOverflow);
            }
            let d = match digit_at(&cur, &power, base) {
                Some(d) => d,
                None => {
                    return Err(ConversionError::ExponentOverflow);
                },
            };
            let taken = product(&d, &power);
            if !in_range(&taken) {
                return Err(ConversionError::ExponentOverflow);
            }
            let rest = minus(&cur, &taken);
            if !in_range(&rest) {
                return Err(ConversionError::ExponentOverflow);
            }
            let next = divided(&power, base);
            if !in_range(&next) {
                return Err(ConversionError::ExponentOverflow);
            }
            let ghost before = digits@;
            if exp == -1 {
                digits.push('.');
            }
            push_digit_chars(&mut digits, &d);
            proof {
                let piece = (if exp == -1 { seq!['.'] } else { seq![] }) + digit_chars(d@);
                assert(digits@ =~= before + piece);
                match emit(rest@, base@, next@, exp - 1, tiny@) {
                    Some(tail) => {
                        assert(before + (piece + tail) =~= (before + piece) + tail);
                    },
                    None => {},
                }
            }
            cur = rest;
            power = next;
            exp -= 1;
        }
    }
    let mut out: Vec<char> = Vec::new();
    if value.negative && !value.is_zero() {
        out.push('-');
    }
    push_all(&mut out, &digits);
    proof {
        if value@.0 < 0 {
            assert(out@ =~= seq!['-'] + digits@);
        } else {
            assert(out@ =~= digits@);
        }
    }
    Ok(string_of(&out))
}

fn ellipsis_char() -> (c: char)
    ensures
        c == ellipsis(),
{
    '\u{2026}'
}

} // verus!
