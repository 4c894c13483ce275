//! Bases known by name, and a conversion request with its two bases.

use vstd::prelude::*;
use crate::decimal::{
    divided, fits, limb_value, one, plus, quotient_of, square_root, square_root_of, sum, Decimal,
};
use crate::power::{in_range, one_exec};
use crate::text::chars_of;

verus! {

/// What `str::to_lowercase` yields for this text.
pub uninterp spec fn lower_of(s: Seq<char>) -> Seq<char>;

/// Relies on `str::to_lowercase`: the result depends on the characters alone.
#[verifier::external_body]
fn lowercase(s: &str) -> (r: String)
    ensures
        r@ == lower_of(s@),
{
    s.to_lowercase()
}

/// Pi to fifty decimal places.
pub open spec fn pi_value() -> (int, int) {
    let m: nat = (314159265358979 * 1000000000000000000 + 323846264338327950)
        * 1000000000000000000 + 288419716939937510;
    (m as int, 50)
}

/// Euler's number to fifty decimal places.
pub open spec fn e_value() -> (int, int) {
    let m: nat = (271828182845904 * 1000000000000000000 + 523536028747135266)
        * 1000000000000000000 + 249775724709369995;
    (m as int, 50)
}

/// The golden ratio `(sqrt(5) + 1) / 2`, from the decimal square root.
pub open spec fn golden_ratio() -> Option<(int, int)> {
    let root = square_root_of((5, 0));
    if fits(root) {
        Some(quotient_of(sum(root, one()), (2, 0)))
    } else {
        None
    }
}

pub open spec fn integer(n: int) -> Option<(int, int)> {
    Some((n, 0))
}

/// The base that a lower-case name stands for.
pub open spec fn named_base(n: Seq<char>) -> Option<(int, int)> {
    if n == "phi"@ || n == "\u{3c6}"@ {
        golden_ratio()
    } else if n == "pi"@ || n == "\u{3c0}"@ {
        Some(pi_value())
    } else if n == "e"@ {
        Some(e_value())
    } else if n == "sqrt2"@ {
        Some(square_root_of((2, 0)))
    } else if n == "two"@ || n == "binary"@ {
        integer(2)
    } else if n == "three"@ || n == "ternary"@ {
        integer(3)
    } else if n == "four"@ || n == "quaternary"@ {
        integer(4)
    } else if n == "five"@ || n == "quinary"@ {
        integer(5)
    } else if n == "six"@ || n == "senary"@ {
        integer(6)
    } else if n == "eight"@ || n == "octal"@ {
        integer(8)
    } else if n == "ten"@ || n == "decimal"@ {
        integer(10)
    } else if n == "twelve"@ || n == "duodecimal"@ || n == "dozenal"@ {
        integer(12)
    } else if n == "sixteen"@ || n == "hex"@ {
        integer(16)
    } else if n == "twenty"@ || n == "vigesimal"@ {
        integer(20)
    } else if n == "sixty"@ || n == "sexagesimal"@ {
        integer(60)
    } else {
        None
    }
}

/// Whether two texts are the same.
pub fn same_text(a: &str, b: &str) -> (r: bool)
    ensures
        r == (a@ == b@),
{
    let x = chars_of(a);
    let y = chars_of(b);
    if x.len() != y.len() {
        return false;
    }
    let mut i: usize = 0;
    while i < x.len()
        invariant
            x@ == a@,
            y@ == b@,
            x@.len() == y@.len(),
            i <= x@.len(),
            forall|k: int| 0 <= k < i ==> x@[k] == y@[k],
        decreases x@.len() - i,
    {
        if x[i] != y[i] {
            assert(x@[i as int] != y@[i as int]);
            assert(a@ != b@);
            return false;
        }
        i += 1;
    }
    assert(x@ =~= y@);
    true
}

fn limbs_decimal(limbs: Vec<u32>, scale: i64) -> (r: Decimal)
    ensures
        r@ == (limb_value(limbs@) as int, scale as int),
{
    Decimal { negative: false, limbs, scale }
}

fn pi_exec() -> (r: Decimal)
    ensures
        r@ == pi_value(),
{
    let limbs: Vec<u32> = vec![870610662, 3752014366, 1718242561, 3867149527, 4108102875, 214];
    proof {
        reveal_with_fuel(limb_value, 7);
        assert(limbs@.drop_first().drop_first().drop_first().drop_first().drop_first().drop_first()
            =~= Seq::<u32>::empty());
    }
    limbs_decimal(limbs, 50)
}

fn e_exec() -> (r: Decimal)
    ensures
        r@ == e_value(),
{
    let limbs: Vec<u32> = vec![1075402891, 513919145, 2629269170, 521915020, 4262283564, 185];
    proof {
        reveal_with_fuel(limb_value, 7);
        assert(limbs@.drop_first().drop_first().drop_first().drop_first().drop_first().drop_first()
            =~= Seq::<u32>::empty());
    }
    limbs_decimal(limbs, 50)
}

fn golden_ratio_exec() -> (r: Option<Decimal>)
    ensures
        r matches Some(d) ==> golden_ratio() == Some(d@),
        r is None ==> golden_ratio() is None,
{
    let five = Decimal::from_u64(5);
    let root = match square_root(&five) {
        Some(root) => root,
        None => {
            return None;
        },
    };
    if !in_range(&root) {
        return None;
    }
    let unit = one_exec();
    let total = plus(&root, &unit);
    let two = Decimal::from_u64(2);
    assert(two@.0 != 0);
    Some(divided(&total, &two))
}

/// The base that a lower-case name stands for: the golden ratio for `phi` or
/// `φ`, pi for `pi` or `π`, Euler's number for `e`, the square root of two
/// for `sqrt2`, and the integers named by number words or by the names of
/// their numeral systems; nothing for any other name.
pub fn base_for_lowercase_name(name: &str) -> (r: Option<Decimal>)
    ensures
        r matches Some(d) ==> named_base(name@) == Some(d@),
        r is None ==> named_base(name@) is None,
{
    if same_text(name, "phi") || same_text(name, "\u{3c6}") {
        golden_ratio_exec()
    } else if same_text(name, "pi") || same_text(name, "\u{3c0}") {
        Some(pi_exec())
    } else if same_text(name, "e") {
        Some(e_exec())
    } else if same_text(name, "sqrt2") {
        let two = Decimal::from_u64(2);
        square_root(&two)
    } else if same_text(name, "two") || same_text(name, "binary") {
        Some(Decimal::from_u64(2))
    } else if same_text(name, "three") || same_text(name, "ternary") {
        Some(Decimal::from_u64(3))
    } else if same_text(name, "four") || same_text(name, "quaternary") {
        Some(Decimal::from_u64(4))
    } else if same_text(name, "five") || same_text(name, "quinary") {
        Some(Decimal::from_u64(5))
    } else if same_text(name, "six") || same_text(name, "senary") {
        Some(Decimal::from_u64(6))
    } else if same_text(name, "eight") || same_text(name, "octal") {
        Some(Decimal::from_u64(8))
    } else if same_text(name, "ten") || same_text(name, "decimal") {
        Some(Decimal::from_u64(10))
    } else if same_text(name, "twelve") || same_text(name, "duodecimal") || same_text(
        name,
        "dozenal",
    ) {
        Some(Decimal::from_u64(12))
    } else if same_text(name, "sixteen") || same_text(name, "hex") {
        Some(Decimal::from_u64(16))
    } else if same_text(name, "twenty") || same_text(name, "vigesimal") {
        Some(Decimal::from_u64(20))
    } else if same_text(name, "sixty") || same_text(name, "sexagesimal") {
        Some(Decimal::from_u64(60))
    } else {
        None
    }
}

/// The base that a name stands for, letter case aside.
pub fn val_from_popular_strings(s: &str) -> (r: Option<Decimal>)
    ensures
        r matches Some(d) ==> named_base(lower_of(s@)) == Some(d@),
        r is None ==> named_base(lower_of(s@)) is None,
{
    let lower = lowercase(s);
    base_for_lowercase_name(lower.as_str())
}

} // verus!
