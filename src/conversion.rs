//! A conversion request: a numeral with the base it is written in and the
//! base it is to be written in.

use vstd::prelude::*;
use crate::decimal::{parse_text, parsed_decimal, Decimal};
use crate::named::{lower_of, named_base, val_from_popular_strings};
use crate::parse::{reading, text_outcome, val_from_base, value_outcome, ConversionError, Failure};
use crate::render::{val_to_base, writing};

verus! {

/// A numeral, its base and the base to write it in, each base with the text
/// it was given as.
pub struct BaseConversion {
    pub input_string: String,
    pub input_base: Decimal,
    pub input_base_string: String,
    pub output_base: Decimal,
    pub output_base_string: String,
}

/// The base that `text` stands for: the decimal number it spells, else the
/// base it names, else the earlier base, else ten.
pub open spec fn chosen_base(text: Seq<char>, earlier: Option<(int, int)>) -> (int, int) {
    match parsed_decimal(text) {
        Some(v) => v,
        None => match named_base(lower_of(text)) {
            Some(v) => v,
            None => match earlier {
                Some(v) => v,
                None => (10, 0),
            },
        },
    }
}

/// What converting the numeral `text` from base `from` to base `to` gives.
pub open spec fn converted(text: Seq<char>, from: (int, int), to: (int, int)) -> Result<
    Seq<char>,
    Failure,
> {
    match reading(text, from) {
        Ok(v) => writing(v, to),
        Err(e) => Err(e),
    }
}

fn choose_base(text: &String, earlier: Option<&Decimal>) -> (r: Decimal)
    ensures
        r@ == chosen_base(
            text@,
            match earlier {
                Some(d) => Some(d@),
                None => None,
            },
        ),
{
    match parse_text(text.as_str()) {
        Some(v) => v,
        None => match val_from_popular_strings(text.as_str()) {
            Some(v) => v,
            None => match earlier {
                Some(d) => d.duplicate(),
                None => Decimal::from_u64(10),
            },
        },
    }
}

impl BaseConversion {
    /// A request whose bases are read from their texts: a decimal number, or
    /// a name of a base, or else the base of `base_conversion`, or else ten.
    pub fn new_with_defaults(
        input_string: String,
        input_base_string: String,
        output_base_string: String,
        base_conversion: Option<&Self>,
    ) -> (r: Self)
        ensures
            r.input_string == input_string,
            r.input_base_string == input_base_string,
            r.output_base_string == output_base_string,
            r.input_base@ == chosen_base(
                input_base_string@,
                match base_conversion {
                    Some(c) => Some(c.input_base@),
                    None => None,
                },
            ),
            r.output_base@ == chosen_base(
                output_base_string@,
                match base_conversion {
                    Some(c) => Some(c.output_base@),
                    None => None,
                },
            ),
    {
        let input_base = choose_base(
            &input_base_string,
            match base_conversion {
                Some(c) => Some(&c.input_base),
                None => None,
            },
        );
        let output_base = choose_base(
            &output_base_string,
            match base_conversion {
                Some(c) => Some(&c.output_base),
                None => None,
            },
        );
        BaseConversion {
            input_string,
            input_base,
            input_base_string,
            output_base,
            output_base_string,
        }
    }

    /// The number that the input numeral stands for.
    fn base_10_value(&self) -> (r: Result<Decimal, ConversionError>)
        ensures
            value_outcome(r) == reading(self.input_string@, self.input_base@),
    {
        val_from_base(self.input_string.as_str(), &self.input_base)
    }

    /// The input numeral written in base ten.
    pub fn base_10_string(&self) -> (r: Result<String, ConversionError>)
        ensures
            text_outcome(r) == converted(self.input_string@, self.input_base@, (10, 0)),
    {
        match self.base_10_value() {
            Ok(v) => val_to_base(&v, &Decimal::from_u64(10)),
            Err(e) => Err(e),
        }
    }

    /// The input numeral written in the output base.
    pub fn output_string(&self) -> (r: Result<String, ConversionError>)
        ensures
            text_outcome(r) == converted(self.input_string@, self.input_base@, self.output_base@),
    {
        match self.base_10_value() {
            Ok(v) => val_to_base(&v, &self.output_base),
            Err(e) => Err(e),
        }
    }
}

} // verus!
