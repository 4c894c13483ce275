//! Splitting a numeral into digit tokens, and the exponent of each digit.

use vstd::prelude::*;
use crate::text::{string_of, sub_chars};

verus! {

/// The first index from `j` on that holds `]`, or the length.
pub open spec fn close_from(s: Seq<char>, j: int) -> int
    decreases s.len() - j,
{
    if j >= s.len() || s[j] == ']' {
        j
    } else {
        close_from(s, j + 1)
    }
}

pub proof fn lemma_close_from_bounds(s: Seq<char>, j: int)
    requires
        0 <= j,
    ensures
        j <= close_from(s, j),
        j <= s.len() ==> close_from(s, j) <= s.len(),
    decreases s.len() - j,
{
    if !(j >= s.len() || s[j] == ']') {
        lemma_close_from_bounds(s, j + 1);
    }
}

/// The tokens of `s` from index `i` on: `[` opens a token that runs to the
/// next `]` (or the end), and every other character is a token of its own.
pub open spec fn tokens_from(s: Seq<char>, i: int) -> Seq<Seq<char>>
    decreases s.len() + 1 - i,
    via tokens_from_decreases
{
    if i < 0 || i >= s.len() {
        seq![]
    } else if s[i] == '[' {
        let j = close_from(s, i + 1);
        seq![s.subrange(i + 1, j)] + tokens_from(s, j + 1)
    } else {
        seq![seq![s[i]]] + tokens_from(s, i + 1)
    }
}

#[via_fn]
proof fn tokens_from_decreases(s: Seq<char>, i: int) {
    if !(i < 0 || i >= s.len()) && s[i] == '[' {
        lemma_close_from_bounds(s, i + 1);
    }
}

/// The digit tokens of a numeral, with the radix point as the token `.`.
pub open spec fn tokens(s: Seq<char>) -> Seq<Seq<char>> {
    tokens_from(s, 0)
}

pub open spec fn radix_token() -> Seq<char> {
    seq!['.']
}

/// The index of the first radix-point token from `k` on, or the count.
pub open spec fn radix_from(ts: Seq<Seq<char>>, k: int) -> int
    decreases ts.len() - k,
{
    if k >= ts.len() || ts[k] == radix_token() {
        k
    } else {
        radix_from(ts, k + 1)
    }
}

/// The count of tokens before the radix point, or of all without one.
pub open spec fn integer_token_count(ts: Seq<Seq<char>>) -> int {
    radix_from(ts, 0)
}

/// The tokens other than the radix point, in order.
pub open spec fn digit_tokens(ts: Seq<Seq<char>>) -> Seq<Seq<char>>
    decreases ts.len(),
{
    if ts.len() == 0 {
        seq![]
    } else if ts.last() == radix_token() {
        digit_tokens(ts.drop_last())
    } else {
        digit_tokens(ts.drop_last()).push(ts.last())
    }
}

pub open spec fn views(v: Seq<Vec<char>>) -> Seq<Seq<char>> {
    v.map_values(|t: Vec<char>| t@)
}

/// The tokens of `s`, each as its characters.
pub fn tokenize(s: &Vec<char>) -> (r: Vec<Vec<char>>)
    ensures
        views(r@) == tokens(s@),
{
    let n = s.len();
    let mut out: Vec<Vec<char>> = Vec::new();
    let mut idx: usize = 0;
    while idx < n
        invariant
            n == s@.len(),
            idx <= n,
            views(out@) + tokens_from(s@, idx as int) == tokens(s@),
        decreases n - idx,
    {
        let ghost i0 = idx as int;
        if s[idx] == '[' {
            let mut j: usize = idx + 1;
            proof {
                lemma_close_from_bounds(s@, idx + 1);
            }
            while j < n && s[j] != ']'
                invariant
                    n == s@.len(),
                    idx + 1 <= j <= n,
                    close_from(s@, j as int) == close_from(s@, idx + 1),
                decreases n - j,
            {
                j += 1;
            }
            assert(close_from(s@, j as int) == j);
            assert(tokens_from(s@, i0) == seq![s@.subrange(i0 + 1, j as int)] + tokens_from(
                s@,
                j + 1,
            ));
            let t = sub_chars(s, idx + 1, j);
            proof {
                assert(views(out@.push(t)) =~= views(out@).push(t@));
            }
            out.push(t);
            if j < n {
                idx = j + 1;
            } else {
                idx = n;
            }
        } else {
            let mut t: Vec<char> = Vec::new();
            t.push(s[idx]);
            proof {
                assert(views(out@.push(t)) =~= views(out@).push(t@));
                assert(t@ =~= seq![s@[idx as int]]);
            }
            out.push(t);
            idx += 1;
            assert(tokens_from(s@, i0) == seq![seq![s@[i0]]] + tokens_from(s@, i0 + 1));
        }
        assert(views(out@) + tokens_from(s@, idx as int) =~= tokens(s@));
    }
    out
}

pub open spec fn is_radix(t: Seq<char>) -> bool {
    t.len() == 1 && t[0] == '.'
}

proof fn lemma_radix_token(t: Seq<char>)
    ensures
        is_radix(t) <==> t == radix_token(),
{
    if is_radix(t) {
        assert(t =~= radix_token());
    }
}

/// Whether the token is the radix point.
fn token_is_radix(t: &Vec<char>) -> (r: bool)
    ensures
        r <==> t@ == radix_token(),
{
    proof {
        lemma_radix_token(t@);
    }
    t.len() == 1 && t[0] == '.'
}

/// Each digit token of a numeral with the exponent of the base it is weighted
/// by: the first gets the count of tokens before the radix point less one
/// (of all tokens, without a radix point), and each next one less by one; the
/// radix point itself is left out.
pub fn rep_to_digit_exponent_pairs(rep: &str) -> (r: Vec<(String, isize)>)
    requires
        rep@.len() <= isize::MAX,
    ensures
        r@.len() == digit_tokens(tokens(rep@)).len(),
        forall|k: int|
            0 <= k < r@.len() ==> {
                &&& (#[trigger] r@[k]).0@ == digit_tokens(tokens(rep@))[k]
                &&& r@[k].1 == integer_token_count(tokens(rep@)) - 1 - k
            },
{
    let chars = crate::text::chars_of(rep);
    let ts = tokenize(&chars);
    let ghost tv = tokens(rep@);
    assert(views(ts@) == tv);
    proof {
        lemma_token_count(chars@, 0);
    }
    let n = ts.len();
    let mut lead: usize = 0;
    while lead < n && !token_is_radix(&ts[lead])
        invariant
            n == ts@.len() == tv.len(),
            views(ts@) == tv,
            lead <= n,
            radix_from(tv, lead as int) == radix_from(tv, 0),
        decreases n - lead,
    {
        assert(tv[lead as int] == ts@[lead as int]@);
        lead += 1;
    }
    assert(lead < n ==> tv[lead as int] == ts@[lead as int]@);
    let mut out: Vec<(String, isize)> = Vec::new();
    let mut exp: isize = lead as isize - 1;
    let mut k: usize = 0;
    while k < n
        invariant
            n == ts@.len() == tv.len(),
            n <= isize::MAX,
            views(ts@) == tv,
            lead == integer_token_count(tv),
            k <= n,
            out@.len() <= k,
            exp == lead - 1 - out@.len(),
            out@.len() == digit_tokens(tv.subrange(0, k as int)).len(),
            forall|i: int|
                0 <= i < out@.len() ==> {
                    &&& (#[trigger] out@[i]).0@ == digit_tokens(tv.subrange(0, k as int))[i]
                    &&& out@[i].1 == lead - 1 - i
                },
        decreases n - k,
    {
        let ghost before = tv.subrange(0, k as int);
        assert(tv.subrange(0, k + 1).drop_last() =~= before);
        assert(tv[k as int] == ts@[k as int]@);
        if !token_is_radix(&ts[k]) {
            let s = string_of(&ts[k]);
            out.push((s, exp));
            exp -= 1;
        }
        k += 1;
    }
    assert(tv.subrange(0, n as int) =~= tv);
    out
}

/// Each token takes at least one character.
proof fn lemma_token_count(s: Seq<char>, i: int)
    requires
        0 <= i,
    ensures
        tokens_from(s, i).len() <= if i <= s.len() { s.len() - i } else { 0 },
    decreases s.len() + 1 - i,
{
    if !(i < 0 || i >= s.len()) {
        if s[i] == '[' {
            let j = close_from(s, i + 1);
            lemma_close_from_bounds(s, i + 1);
            lemma_token_count(s, j + 1);
        } else {
            lemma_token_count(s, i + 1);
        }
    }
}

} // verus!
