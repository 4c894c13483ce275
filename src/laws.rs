//! Properties that hold across reading and writing numerals.

use vstd::prelude::*;
use crate::decimal::{less, one};
use crate::parse::{reading, Failure};
use crate::render::writing;

verus! {

/// A base that is not above one is refused with `InvalidBase`, both when a
/// numeral is read in it and when a number is written in it.
pub proof fn lemma_base_not_above_one_refused(text: Seq<char>, v: (int, int), b: (int, int))
    requires
        !less(one(), b),
    ensures
        reading(text, b) == Err::<(int, int), Failure>(Failure::InvalidBase),
        writing(v, b) == Err::<Seq<char>, Failure>(Failure::InvalidBase),
{
}

/// The base one in particular is refused with `InvalidBase` for every
/// numeral and every number.
pub proof fn lemma_base_one_refused(text: Seq<char>, v: (int, int))
    ensures
        reading(text, one()) == Err::<(int, int), Failure>(Failure::InvalidBase),
        writing(v, one()) == Err::<Seq<char>, Failure>(Failure::InvalidBase),
{
    assert(!less(one(), one()));
    lemma_base_not_above_one_refused(text, v, one());
}

/// Zero, at any scale, is written as `0` in every base above one.
pub proof fn lemma_zero_written_as_zero(v: (int, int), b: (int, int))
    requires
        less(one(), b),
        v.0 == 0,
    ensures
        writing(v, b) == Ok::<Seq<char>, Failure>(seq!['0']),
{
}

} // verus!
