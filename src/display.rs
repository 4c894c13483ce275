//! Short decimal text of a number, for showing magnitudes.

use vstd::prelude::*;
use crate::decimal::{
    abs, decimal_text, digit_count, digit_total, display_text, fits, integer_value, integral,
    is_whole, rescaled, whole_u64, with_scale_rounded, Decimal, Rounding, SCALE_LIMIT,
};
use crate::render::ellipsis;
use crate::text::{chars_of, decimal_numeral, push_decimal, string_of};

verus! {

/// Decimal places shown before the rest is cut off.
pub const SHOWN_PLACES: i64 = 8;

/// The text of `x` shortened for display. With a digit limit that the
/// mantissa exceeds: the number cut toward zero to that many significant
/// digits, with an ellipsis unless the text is in scientific notation.
/// Otherwise: a number of more than `SHOWN_PLACES` places cut toward zero to
/// that many with an ellipsis; an integer that is a `u32` as its decimal
/// numeral; anything else exactly as its decimal text.
pub open spec fn shown(x: (int, int), hard_limit: Option<u64>) -> Seq<char> {
    let digits = digit_count(abs(x.0)) as int;
    if hard_limit is Some && digits > hard_limit->0 {
        let t = decimal_text(rescaled(x, x.1 + hard_limit->0 - digits, Rounding::Down));
        if t.contains('E') {
            t
        } else {
            t.push(ellipsis())
        }
    } else if x.1 > SHOWN_PLACES {
        decimal_text(rescaled(x, SHOWN_PLACES as int, Rounding::Down)).push(ellipsis())
    } else if integral(x) && 0 <= integer_value(x) <= u32::MAX {
        decimal_numeral(integer_value(x) as nat)
    } else {
        decimal_text(x)
    }
}

fn contains_char(s: &Vec<char>, c: char) -> (r: bool)
    ensures
        r == s@.contains(c),
{
    let mut i: usize = 0;
    while i < s.len()
        invariant
            i <= s@.len(),
            forall|k: int| 0 <= k < i ==> s@[k] != c,
        decreases s@.len() - i,
    {
        if s[i] == c {
            return true;
        }
        i += 1;
    }
    false
}

/// The text of `num` for display, as `shown` describes it.
pub fn rounded_string(num: &Decimal, hard_limit: Option<u64>) -> (r: String)
    requires
        fits(num@),
        digit_count(abs(num@.0)) <= SCALE_LIMIT,
        hard_limit matches Some(hl) ==> 1 <= hl <= SCALE_LIMIT,
    ensures
        r@ == shown(num@, hard_limit),
{
    let digits = digit_total(num);
    match hard_limit {
        Some(hl) => {
            if digits > hl {
                let k: i64 = num.scale + hl as i64 - digits as i64;
                let cut = with_scale_rounded(num, k, Rounding::Down);
                let t = chars_of(display_text(&cut).as_str());
                if contains_char(&t, 'E') {
                    return string_of(&t);
                } else {
                    let mut out = t;
                    out.push('\u{2026}');
                    return string_of(&out);
                }
            }
        },
        None => {},
    }
    if num.scale > SHOWN_PLACES {
        let cut = with_scale_rounded(num, SHOWN_PLACES, Rounding::Down);
        let mut out = chars_of(display_text(&cut).as_str());
        out.push('\u{2026}');
        string_of(&out)
    } else if is_whole(num) {
        match whole_u64(num) {
            Some(n) => if n <= 4294967295 {
                let mut out: Vec<char> = Vec::new();
                push_decimal(&mut out, n);
                assert(out@ =~= decimal_numeral(n as nat));
                string_of(&out)
            } else {
                display_text(num)
            },
            None => display_text(num),
        }
    } else {
        display_text(num)
    }
}

} // verus!
