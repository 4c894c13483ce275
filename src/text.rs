//! Characters and strings: the digit alphabet, decimal numerals of machine
//! integers, and moving between `String` and `Vec<char>`.

use vstd::prelude::*;

verus! {

/// The character of a digit below 36: `0`..`9`, then `A`..`Z`.
pub open spec fn alphabet_char(d: nat) -> char {
    if d < 10 {
        (48 + d) as char
    } else {
        (55 + d) as char
    }
}

/// The value of an alphanumeric character as a digit, either case.
pub open spec fn alphabet_value(c: char) -> Option<nat> {
    if '0' <= c <= '9' {
        Some((c as nat - 48) as nat)
    } else if 'A' <= c <= 'Z' {
        Some((c as nat - 55) as nat)
    } else if 'a' <= c <= 'z' {
        Some((c as nat - 87) as nat)
    } else {
        None
    }
}

/// The decimal numeral of `n`, without leading zeros.
pub open spec fn decimal_numeral(n: nat) -> Seq<char>
    decreases n,
{
    if n < 10 {
        seq![alphabet_char(n)]
    } else {
        decimal_numeral(n / 10).push(alphabet_char(n % 10))
    }
}

/// The text of one digit: its character below 36, else its decimal numeral
/// in brackets.
pub open spec fn digit_text(d: nat) -> Seq<char> {
    if d < 36 {
        seq![alphabet_char(d)]
    } else {
        seq!['['] + decimal_numeral(d) + seq![']']
    }
}

pub fn alphabet_char_exec(d: u64) -> (c: char)
    requires
        d < 36,
    ensures
        c == alphabet_char(d as nat),
{
    let b: u8 = d as u8;
    if b < 10 {
        (48u8 + b) as char
    } else {
        (55u8 + b) as char
    }
}

pub fn alphabet_value_exec(c: char) -> (r: Option<u64>)
    ensures
        r is Some <==> alphabet_value(c) is Some,
        r is Some ==> r->0 as nat == alphabet_value(c)->0,
{
    if '0' <= c && c <= '9' {
        Some((c as u32 - 48) as u64)
    } else if 'A' <= c && c <= 'Z' {
        Some((c as u32 - 55) as u64)
    } else if 'a' <= c && c <= 'z' {
        Some((c as u32 - 87) as u64)
    } else {
        None
    }
}

/// Appends the decimal numeral of `n`.
pub fn push_decimal(out: &mut Vec<char>, n: u64)
    ensures
        final(out)@ == old(out)@ + decimal_numeral(n as nat),
    decreases n,
{
    if n >= 10 {
        push_decimal(out, n / 10);
    }
    out.push(alphabet_char_exec(n % 10));
    assert(final(out)@ =~= old(out)@ + decimal_numeral(n as nat));
}

/// Appends the text of the digit `d`.
pub fn push_digit(out: &mut Vec<char>, d: u64)
    ensures
        final(out)@ == old(out)@ + digit_text(d as nat),
{
    if d < 36 {
        out.push(alphabet_char_exec(d));
    } else {
        out.push('[');
        push_decimal(out, d);
        out.push(']');
    }
    assert(final(out)@ =~= old(out)@ + digit_text(d as nat));
}

/// Appends all of `s`.
pub fn push_all(out: &mut Vec<char>, s: &Vec<char>)
    ensures
        final(out)@ == old(out)@ + s@,
{
    let mut i: usize = 0;
    while i < s.len()
        invariant
            i <= s@.len(),
            out@ == old(out)@ + s@.subrange(0, i as int),
        decreases s@.len() - i,
    {
        out.push(s[i]);
        i += 1;
        assert(out@ =~= old(out)@ + s@.subrange(0, i as int));
    }
    assert(s@.subrange(0, s@.len() as int) =~= s@);
}

/// The characters `v[from..to]`.
pub fn sub_chars(v: &Vec<char>, from: usize, to: usize) -> (r: Vec<char>)
    requires
        from <= to <= v@.len(),
    ensures
        r@ == v@.subrange(from as int, to as int),
{
    let mut r: Vec<char> = Vec::new();
    let mut i: usize = from;
    while i < to
        invariant
            from <= i <= to,
            to <= v@.len(),
            r@ == v@.subrange(from as int, i as int),
        decreases to - i,
    {
        r.push(v[i]);
        i += 1;
        assert(r@ =~= v@.subrange(from as int, i as int));
    }
    r
}

/// Relies on `Vec::from_iter` over `str::chars`: the characters of `s` in order.
#[verifier::external_body]
pub fn chars_of(s: &str) -> (r: Vec<char>)
    ensures
        r@ == s@,
{
    Vec::from_iter(s.chars())
}

/// Relies on `String::from_iter`: the string of these characters in order.
#[verifier::external_body]
pub fn string_of(v: &Vec<char>) -> (r: String)
    ensures
        r@ == v@,
{
    String::from_iter(v.iter())
}

/// The text of a digit value: `0`..`9` and `A`..`Z` below 36, else the decimal
/// numeral in brackets.
pub fn digit_to_string(digit: usize) -> (r: String)
    ensures
        r@ == digit_text(digit as nat),
{
    let mut out: Vec<char> = Vec::new();
    push_digit(&mut out, digit as u64);
    assert(out@ =~= digit_text(digit as nat));
    string_of(&out)
}

} // verus!
