//! Conversion of numerals between positional systems whose base is any
//! real number greater than one, over exact decimal arithmetic.

pub mod conversion;
pub mod decimal;
pub mod display;
pub mod laws;
pub mod named;
pub mod parse;
pub mod power;
pub mod render;
pub mod text;
pub mod tokens;

pub use conversion::BaseConversion;
pub use decimal::Decimal;
pub use display::rounded_string;
pub use named::{base_for_lowercase_name, val_from_popular_strings};
pub use parse::{val_from_base, ConversionError};
pub use power::pow;
pub use render::val_to_base;
pub use text::digit_to_string;
pub use tokens::rep_to_digit_exponent_pairs;
