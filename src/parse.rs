//! Reading a numeral written in a base greater than one.

use vstd::prelude::*;
use crate::decimal::{
    divided, fits, is_less, lemma_at_own_scale, less, normalize, normalized, one, plus, pow10,
    product, product_of, quotient_of, rescaled, same, sum, with_scale_rounded, Decimal, Rounding,
};
use crate::power::{in_range, one_exec, pow, power};
use crate::text::{alphabet_value, alphabet_value_exec, chars_of, string_of, sub_chars};
use crate::tokens::{tokenize, tokens, views};

verus! {

/// Why a numeral could not be read or written.
#[derive(Debug, PartialEq, Eq)]
pub enum ConversionError {
    /// The base is not greater than one.
    InvalidBase,
    /// The numeral holds more than one radix point.
    MultipleRadixPoints,
    /// This token is no digit of the base.
    UnrecognizedDigit(String),
    /// An exponent or a scale left the range that the arithmetic supports.
    ExponentOverflow,
}

/// What a `ConversionError` says, with the rejected token as characters.
pub enum Failure {
    InvalidBase,
    MultipleRadixPoints,
    UnrecognizedDigit(Seq<char>),
    ExponentOverflow,
}

impl View for ConversionError {
    type V = Failure;

    open spec fn view(&self) -> Failure {
        match self {
            ConversionError::InvalidBase => Failure::InvalidBase,
            ConversionError::MultipleRadixPoints => Failure::MultipleRadixPoints,
            ConversionError::UnrecognizedDigit(t) => Failure::UnrecognizedDigit(t@),
            ConversionError::ExponentOverflow => Failure::ExponentOverflow,
        }
    }
}

/// The view of a number or an error.
pub open spec fn value_outcome(r: Result<Decimal, ConversionError>) -> Result<(int, int), Failure> {
    match r {
        Ok(d) => Ok(d@),
        Err(e) => Err(e@),
    }
}

/// The view of a text or an error.
pub open spec fn text_outcome(r: Result<String, ConversionError>) -> Result<Seq<char>, Failure> {
    match r {
        Ok(s) => Ok(s@),
        Err(e) => Err(e@),
    }
}

/// What reading `text` in base `b` gives: `InvalidBase` unless `b` is above
/// one; `ExponentOverflow` for a base outside the supported scales;
/// `MultipleRadixPoints` for more than one `.` after the optional `-`; the
/// first token that is no digit smaller than `b`; else the value that
/// `unsigned_value` gives, negated after a `-`, or `ExponentOverflow` where
/// it gives none.
pub open spec fn reading(text: Seq<char>, b: (int, int)) -> Result<(int, int), Failure> {
    let u = unsigned_part(text);
    if !less(one(), b) {
        Err(Failure::InvalidBase)
    } else if !fits(b) {
        Err(Failure::ExponentOverflow)
    } else if radix_count(u) > 1 {
        Err(Failure::MultipleRadixPoints)
    } else {
        match first_rejected(integer_tokens(u) + fraction_tokens(u), b) {
            Some(t) => Err(Failure::UnrecognizedDigit(t)),
            None => match unsigned_value(u, b) {
                None => Err(Failure::ExponentOverflow),
                Some(v) => Ok(
                    if has_sign(text) {
                        (-v.0, v.1)
                    } else {
                        v
                    },
                ),
            },
        }
    }
}

/// Decimal places that a numeral's value is rounded to.
pub const WORKING_PLACES: i64 = 32;

pub open spec fn is_decimal_numeral(t: Seq<char>) -> bool {
    t.len() > 0 && forall|i: int| 0 <= i < t.len() ==> '0' <= #[trigger] t[i] <= '9'
}

/// The value of a numeral of decimal digits.
pub open spec fn decimal_value(t: Seq<char>) -> nat
    decreases t.len(),
{
    if t.len() == 0 {
        0
    } else {
        decimal_value(t.drop_last()) * 10 + (t.last() as nat - 48) as nat
    }
}

/// The digit a token stands for: a decimal numeral for its value, or one
/// alphanumeric character for its place in `0`..`9`, `A`..`Z`.
pub open spec fn token_value(t: Seq<char>) -> Option<nat> {
    if is_decimal_numeral(t) {
        Some(decimal_value(t))
    } else if t.len() == 1 {
        alphabet_value(t[0])
    } else {
        None
    }
}

/// The token is a digit smaller than the base.
pub open spec fn digit_fits(t: Seq<char>, b: (int, int)) -> bool {
    match token_value(t) {
        Some(v) => less((v as int, 0), b),
        None => false,
    }
}

/// The first token that is no digit of the base.
pub open spec fn first_rejected(ts: Seq<Seq<char>>, b: (int, int)) -> Option<Seq<char>>
    decreases ts.len(),
{
    if ts.len() == 0 {
        None
    } else if !digit_fits(ts[0], b) {
        Some(ts[0])
    } else {
        first_rejected(ts.drop_first(), b)
    }
}

pub open spec fn digit_values(ts: Seq<Seq<char>>) -> Seq<nat> {
    ts.map_values(|t: Seq<char>| token_value(t)->0)
}

/// The digits `ds` (most significant first) weighted by successive powers of
/// `b`, the last one by `power`, and added to `acc`; `None` where a scale
/// leaves the supported range.
pub open spec fn accumulate(ds: Seq<nat>, b: (int, int), acc: (int, int), power: (int, int)) -> Option<
    (int, int),
>
    decreases ds.len(),
{
    if ds.len() == 0 {
        Some(acc)
    } else {
        let term = product_of((ds.last() as int, 0), power);
        if !fits(term) {
            None
        } else if ds.len() == 1 {
            Some(sum(acc, term))
        } else {
            let next = product_of(power, b);
            if !fits(next) {
                None
            } else {
                accumulate(ds.drop_last(), b, sum(acc, term), next)
            }
        }
    }
}

/// `x` rounded to `WORKING_PLACES` places, trailing zeros dropped.
pub open spec fn settle(x: (int, int)) -> (int, int) {
    normalized(rescaled(x, WORKING_PLACES as int, Rounding::HalfEven))
}

/// The settled value of a sequence of digit tokens in base `b`.
pub open spec fn segment_value(ts: Seq<Seq<char>>, b: (int, int)) -> Option<(int, int)> {
    match accumulate(digit_values(ts), b, (0, 0), one()) {
        Some(x) => if fits(x) {
            Some(settle(x))
        } else {
            None
        },
        None => None,
    }
}

pub open spec fn radix_count(s: Seq<char>) -> nat
    decreases s.len(),
{
    if s.len() == 0 {
        0
    } else {
        radix_count(s.drop_last()) + if s.last() == '.' {
            1nat
        } else {
            0nat
        }
    }
}

/// The index of the first `.` from `i` on, or the length.
pub open spec fn radix_from(s: Seq<char>, i: int) -> int
    decreases s.len() - i,
{
    if i >= s.len() || s[i] == '.' {
        i
    } else {
        radix_from(s, i + 1)
    }
}

/// The index of the first `.`, or the length.
pub open spec fn radix_index(s: Seq<char>) -> int {
    radix_from(s, 0)
}

proof fn lemma_radix_from_bounds(s: Seq<char>, i: int)
    requires
        0 <= i <= s.len(),
    ensures
        i <= radix_from(s, i) <= s.len(),
    decreases s.len() - i,
{
    if !(i >= s.len() || s[i] == '.') {
        lemma_radix_from_bounds(s, i + 1);
    }
}

pub open spec fn has_sign(s: Seq<char>) -> bool {
    s.len() > 0 && s[0] == '-'
}

/// The numeral without its sign.
pub open spec fn unsigned_part(s: Seq<char>) -> Seq<char> {
    if has_sign(s) {
        s.drop_first()
    } else {
        s
    }
}

/// The tokens before the radix point.
pub open spec fn integer_tokens(u: Seq<char>) -> Seq<Seq<char>> {
    tokens(u.subrange(0, radix_index(u)))
}

/// The tokens after the radix point; none without one.
pub open spec fn fraction_tokens(u: Seq<char>) -> Seq<Seq<char>> {
    if radix_index(u) < u.len() {
        tokens(u.subrange(radix_index(u) + 1, u.len() as int))
    } else {
        seq![]
    }
}

/// The value of an unsigned numeral with at most one radix point whose
/// tokens are all digits of `b`: the integer part's settled value, plus the
/// fractional part's settled value divided by `b` to the power of its token
/// count. `None` where an exponent or a scale leaves the supported range, or
/// where that power of the base comes out as zero.
pub open spec fn unsigned_value(u: Seq<char>, b: (int, int)) -> Option<(int, int)> {
    let fs = fraction_tokens(u);
    match segment_value(integer_tokens(u), b) {
        None => None,
        Some(iv) => if radix_index(u) >= u.len() {
            Some(iv)
        } else if fs.len() > isize::MAX {
            None
        } else {
            match (segment_value(fs, b), power(b, fs.len() as int)) {
                (Some(fv), Some(p)) => if fits(fv) && fits(p) && p.0 != 0 && fits(iv) && fits(
                    quotient_of(fv, p),
                ) {
                    Some(sum(iv, quotient_of(fv, p)))
                } else {
                    None
                },
                _ => None,
            }
        },
    }
}

/// The digit a token stands for, at scale zero.
fn token_digit(t: &Vec<char>) -> (r: Option<Decimal>)
    ensures
        r is Some <==> token_value(t@) is Some,
        r is Some ==> r->0@ == (token_value(t@)->0 as int, 0int),
{
    let n = t.len();
    let mut numeric = n > 0;
    let mut i: usize = 0;
    while i < n
        invariant
            n == t@.len(),
            i <= n,
            numeric == (n > 0 && forall|k: int| 0 <= k < i ==> '0' <= #[trigger] t@[k] <= '9'),
        decreases n - i,
    {
        if !('0' <= t[i] && t[i] <= '9') {
            numeric = false;
        }
        i += 1;
    }
    if numeric {
        let ten = Decimal::from_u64(10);
        let mut acc = Decimal::from_u64(0);
        let mut k: usize = 0;
        while k < n
            invariant
                n == t@.len(),
                k <= n,
                is_decimal_numeral(t@),
                ten@ == (10int, 0int),
                acc@ == (decimal_value(t@.subrange(0, k as int)) as int, 0int),
            decreases n - k,
        {
            let d = Decimal::from_u64((t[k] as u32 - 48) as u64);
            let shifted = product(&acc, &ten);
            proof {
                assert(pow10(0) == 1);
                assert(!same(ten@, one()));
                assert(same(acc@, one()) ==> acc@.0 == 1);
                assert(shifted@ == (acc@.0 * 10, 0int));
            }
            let ghost prev = acc@.0;
            acc = plus(&shifted, &d);
            proof {
                let p = t@.subrange(0, k + 1);
                assert(p.drop_last() =~= t@.subrange(0, k as int));
                assert(p.last() == t@[k as int]);
                lemma_at_own_scale(shifted@);
                lemma_at_own_scale(d@);
                assert(acc@ == (prev * 10 + d@.0, 0int));
            }
            k += 1;
        }
        assert(t@.subrange(0, n as int) =~= t@);
        Some(acc)
    } else if n == 1 {
        match alphabet_value_exec(t[0]) {
            Some(v) => Some(Decimal::from_u64(v)),
            None => None,
        }
    } else {
        None
    }
}

/// The digits of all tokens of `ts`, or the first token that is no digit
/// smaller than `base`.
fn token_digits(ts: &Vec<Vec<char>>, base: &Decimal) -> (r: Result<Vec<Decimal>, Vec<char>>)
    ensures
        r matches Err(t) ==> first_rejected(views(ts@), base@) == Some(t@),
        r matches Ok(ds) ==> first_rejected(views(ts@), base@) is None && ds@.len() == ts@.len()
            && forall|k: int|
            0 <= k < ds@.len() ==> (#[trigger] ds@[k])@ == (digit_values(views(ts@))[k] as int, 0int),
{
    let ghost tv = views(ts@);
    assert(tv.subrange(0, tv.len() as int) =~= tv);
    let mut out: Vec<Decimal> = Vec::new();
    let mut k: usize = 0;
    while k < ts.len()
        invariant
            k <= ts@.len(),
            tv == views(ts@),
            out@.len() == k,
            first_rejected(tv, base@) == first_rejected(tv.subrange(k as int, tv.len() as int), base@),
            forall|i: int| 0 <= i < k ==> (#[trigger] out@[i])@ == (digit_values(tv)[i] as int, 0int),
        decreases ts@.len() - k,
    {
        let ghost rest = tv.subrange(k as int, tv.len() as int);
        assert(rest[0] == ts@[k as int]@);
        assert(rest.drop_first() =~= tv.subrange(k + 1, tv.len() as int));
        match token_digit(&ts[k]) {
            Some(d) => {
                if !is_less(&d, base) {
                    return Err(clone_chars(&ts[k]));
                }
                out.push(d);
            },
            None => {
                return Err(clone_chars(&ts[k]));
            },
        }
        k += 1;
    }
    assert(tv.subrange(ts@.len() as int, tv.len() as int) =~= Seq::<Seq<char>>::empty());
    Ok(out)
}

fn clone_chars(v: &Vec<char>) -> (r: Vec<char>)
    ensures
        r@ == v@,
{
    sub_chars(v, 0, v.len())
}

proof fn lemma_first_rejected_concat(a: Seq<Seq<char>>, c: Seq<Seq<char>>, b: (int, int))
    ensures
        first_rejected(a + c, b) == if first_rejected(a, b) is Some {
            first_rejected(a, b)
        } else {
            first_rejected(c, b)
        },
    decreases a.len(),
{
    if a.len() > 0 {
        assert((a + c)[0] == a[0]);
        assert((a + c).drop_first() =~= a.drop_first() + c);
        lemma_first_rejected_concat(a.drop_first(), c, b);
    } else {
        assert(a + c =~= c);
    }
}

/// The settled value of the digits of the tokens `ts` in base `base`.
fn base_digits_to_val(ds: &Vec<Decimal>, base: &Decimal, Ghost(ts): Ghost<Seq<Seq<char>>>) -> (r: Option<
    Decimal,
>)
    requires
        fits(base@),
        ds@.len() == ts.len(),
        forall|k: int| 0 <= k < ds@.len() ==> (#[trigger] ds@[k])@ == (digit_values(ts)[k] as int, 0int),
    ensures
        r matches Some(d) ==> segment_value(ts, base@) == Some(d@),
        r is None ==> segment_value(ts, base@) is None,
{
    let ghost vals = digit_values(ts);
    let mut acc = Decimal::from_u64(0);
    let mut power = one_exec();
    let mut i: usize = ds.len();
    assert(vals.subrange(0, i as int) =~= vals);
    while i > 0
        invariant
            i <= ds@.len() == vals.len(),
            vals == digit_values(ts),
            fits(base@),
            forall|k: int| 0 <= k < ds@.len() ==> (#[trigger] ds@[k])@ == (vals[k] as int, 0int),
            fits(acc@),
            fits(power@),
            accumulate(vals, base@, (0, 0), one()) == accumulate(
                vals.subrange(0, i as int),
                base@,
                acc@,
                power@,
            ),
        decreases i,
    {
        let ghost part = vals.subrange(0, i as int);
        assert(part.last() == vals[i - 1]);
        assert(part.drop_last() =~= vals.subrange(0, i - 1));
        let term = product(&ds[i - 1], &power);
        if !in_range(&term) {
            return None;
        }
        if i == 1 {
            acc = plus(&acc, &term);
            i = 0;
        } else {
            let next = product(&power, base);
            if !in_range(&next) {
                return None;
            }
            acc = plus(&acc, &term);
            power = next;
            i -= 1;
        }
    }
    if !in_range(&acc) {
        return None;
    }
    let rounded = with_scale_rounded(&acc, WORKING_PLACES, Rounding::HalfEven);
    Some(normalize(&rounded))
}

/// Reads `input` as a numeral in base `base`: an optional `-`, digit tokens
/// (one alphanumeric character, or a decimal numeral in brackets), and at
/// most one radix point. Each digit must be smaller than the base. The
/// integer and fractional parts are each evaluated exactly, digit by digit
/// from the least significant, and rounded to `WORKING_PLACES` places; the
/// fractional part is then divided by the base to the power of its digit
/// count and added.
pub fn val_from_base(input: &str, base: &Decimal) -> (r: Result<Decimal, ConversionError>)
    ensures
        value_outcome(r) == reading(input@, base@),
{
    let unit = one_exec();
    if !is_less(&unit, base) {
        return Err(ConversionError::InvalidBase);
    }
    if !in_range(base) {
        return Err(ConversionError::ExponentOverflow);
    }
    let all = chars_of(input);
    let signed = all.len() > 0 && all[0] == '-';
    let u = if signed {
        sub_chars(&all, 1, all.len())
    } else {
        sub_chars(&all, 0, all.len())
    };
    let ghost uv = unsigned_part(input@);
    assert(u@ =~= uv);
    let n = u.len();
    let mut points: usize = 0;
    let mut i: usize = 0;
    while i < n
        invariant
            n == u@.len(),
            i <= n,
            points == radix_count(u@.subrange(0, i as int)),
            points <= i,
        decreases n - i,
    {
        assert(u@.subrange(0, i + 1).drop_last() =~= u@.subrange(0, i as int));
        if u[i] == '.' {
            points += 1;
        }
        i += 1;
    }
    assert(u@.subrange(0, n as int) =~= u@);
    if points > 1 {
        return Err(ConversionError::MultipleRadixPoints);
    }
    let mut ri: usize = 0;
    while ri < n && u[ri] != '.'
        invariant
            n == u@.len(),
            ri <= n,
            radix_from(u@, ri as int) == radix_index(u@),
        decreases n - ri,
    {
        ri += 1;
    }
    let int_chars = sub_chars(&u, 0, ri);
    let frac_chars = if ri < n {
        sub_chars(&u, ri + 1, n)
    } else {
        Vec::new()
    };
    let int_ts = tokenize(&int_chars);
    let frac_ts = tokenize(&frac_chars);
    let ghost its = integer_tokens(uv);
    let ghost fts = fraction_tokens(uv);
    assert(views(int_ts@) == its);
    proof {
        if ri < n {
            assert(views(frac_ts@) == fts);
        } else {
            assert(frac_chars@ =~= Seq::<char>::empty());
            assert(tokens(frac_chars@) =~= Seq::<Seq<char>>::empty());
            assert(views(frac_ts@) =~= fts);
        }
        lemma_first_rejected_concat(its, fts, base@);
    }
    let int_ds = match token_digits(&int_ts, base) {
        Ok(ds) => ds,
        Err(t) => {
            return Err(ConversionError::UnrecognizedDigit(string_of(&t)));
        },
    };
    let frac_ds = match token_digits(&frac_ts, base) {
        Ok(ds) => ds,
        Err(t) => {
            return Err(ConversionError::UnrecognizedDigit(string_of(&t)));
        },
    };
    let iv = match base_digits_to_val(&int_ds, base, Ghost(its)) {
        Some(v) => v,
        None => {
            return Err(ConversionError::ExponentOverflow);
        },
    };
    let value = if ri >= n {
        iv
    } else {
        let count = frac_ds.len();
        if count > isize::MAX as usize {
            return Err(ConversionError::ExponentOverflow);
        }
        let fv = match base_digits_to_val(&frac_ds, base, Ghost(fts)) {
            Some(v) => v,
            None => {
                return Err(ConversionError::ExponentOverflow);
            },
        };
        let p = match pow(base, count as isize) {
            Some(p) => p,
            None => {
                return Err(ConversionError::ExponentOverflow);
            },
        };
        if !in_range(&fv) || !in_range(&p) || p.is_zero() || !in_range(&iv) {
            return Err(ConversionError::ExponentOverflow);
        }
        let q = divided(&fv, &p);
        if !in_range(&q) {
            return Err(ConversionError::ExponentOverflow);
        }
        plus(&iv, &q)
    };
    if signed {
        Ok(value.negated())
    } else {
        Ok(value)
    }
}

} // verus!
