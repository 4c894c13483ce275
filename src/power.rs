//! Integer powers of a decimal by repeated squaring, with each square
//! rounded to a fixed number of decimal places.

use vstd::prelude::*;
use crate::decimal::{
    fits, normalize, normalized, one, product, product_of, reciprocal, reciprocal_of, rescaled,
    square_of, squared, with_scale_rounded, Decimal, Rounding, SCALE_LIMIT, abs, limb_value,
};

verus! {

/// Decimal places that each square is rounded to.
pub const SQUARE_PLACES: i64 = 50;

/// The square of `b`, rounded to `SQUARE_PLACES` places, trailing zeros dropped.
pub open spec fn rounded_square(b: (int, int)) -> Option<(int, int)> {
    let s = square_of(b);
    if fits(s) {
        Some(normalized(rescaled(s, SQUARE_PLACES as int, Rounding::HalfEven)))
    } else {
        None
    }
}

/// `b` to the power `e`: one for 0, `b` for 1, the rounded square for 2,
/// `b` times it for 3, the reciprocal of the power `-e` for negative `e`,
/// the power `e/2` of the rounded square for even `e`, and `b` times the
/// power `e - 1` for odd `e`. `None` where a scale leaves the range that
/// `fits` admits.
pub open spec fn power(b: (int, int), e: int) -> Option<(int, int)>
    decreases abs(e), if e < 0 { 1int } else { 0int },
{
    if !fits(b) {
        None
    } else if e == 0 {
        Some(one())
    } else if e == 1 {
        Some(b)
    } else if e == 2 {
        rounded_square(b)
    } else if e == 3 {
        match rounded_square(b) {
            Some(s) => if fits(s) {
                Some(product_of(b, s))
            } else {
                None
            },
            None => None,
        }
    } else if e < 0 {
        match power(b, -e) {
            Some(p) => if fits(p) {
                Some(reciprocal_of(p))
            } else {
                None
            },
            None => None,
        }
    } else if e % 2 == 0 {
        match rounded_square(b) {
            Some(s) => power(s, e / 2),
            None => None,
        }
    } else {
        match power(b, e - 1) {
            Some(p) => if fits(p) {
                Some(product_of(b, p))
            } else {
                None
            },
            None => None,
        }
    }
}

pub fn one_exec() -> (r: Decimal)
    ensures
        r@ == one(),
{
    let mut limbs: Vec<u32> = Vec::new();
    limbs.push(1);
    proof {
        reveal_with_fuel(limb_value, 2);
        assert(limbs@.drop_first() =~= Seq::<u32>::empty());
    }
    Decimal { negative: false, limbs, scale: 0 }
}

/// Whether the scale of `d` lies in the range that `fits` admits.
pub fn in_range(d: &Decimal) -> (r: bool)
    ensures
        r == fits(d@),
{
    -SCALE_LIMIT <= d.scale && d.scale <= SCALE_LIMIT
}

fn rounded_square_exec(b: &Decimal) -> (r: Option<Decimal>)
    requires
        fits(b@),
    ensures
        r matches Some(d) ==> rounded_square(b@) == Some(d@),
        r is None ==> rounded_square(b@) is None,
{
    let s = squared(b);
    if !in_range(&s) {
        return None;
    }
    let rounded = with_scale_rounded(&s, SQUARE_PLACES, Rounding::HalfEven);
    Some(normalize(&rounded))
}

/// `base` to the power `exp`, as `power` gives it; `None` where a scale
/// leaves the supported range.
pub fn pow(base: &Decimal, exp: isize) -> (r: Option<Decimal>)
    requires
        exp > isize::MIN,
    ensures
        r matches Some(d) ==> power(base@, exp as int) == Some(d@),
        r is None ==> power(base@, exp as int) is None,
    decreases abs(exp as int), if exp < 0 { 1int } else { 0int },
{
    if !in_range(base) {
        return None;
    }
    if exp == 0 {
        Some(one_exec())
    } else if exp == 1 {
        Some(Decimal { negative: base.negative, limbs: base.limbs.clone(), scale: base.scale })
    } else if exp == 2 {
        rounded_square_exec(base)
    } else if exp == 3 {
        match rounded_square_exec(base) {
            Some(s) => if in_range(&s) {
                Some(product(base, &s))
            } else {
                None
            },
            None => None,
        }
    } else if exp < 0 {
        match pow(base, -exp) {
            Some(p) => if in_range(&p) {
                Some(reciprocal(&p))
            } else {
                None
            },
            None => None,
        }
    } else if exp % 2 == 0 {
        match rounded_square_exec(base) {
            Some(s) => pow(&s, exp / 2),
            None => None,
        }
    } else {
        match pow(base, exp - 1) {
            Some(p) => if in_range(&p) {
                Some(product(base, &p))
            } else {
                None
            },
            None => None,
        }
    }
}

} // verus!
