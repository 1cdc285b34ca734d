//! What this library takes on trust from code that it does not verify.

use vstd::prelude::*;

use crate::number::Numeral;
use crate::text::{expression_text, has_visible};

verus! {

/// `String::push` puts one character at the end of the string and leaves the
/// rest as it was.
pub assume_specification[ String::push ](s: &mut String, c: char)
    ensures
        final(s)@ == old(s)@.push(c),
;

/// What the standard formatter writes for the floating-point value with the
/// bits `bits` when it is given no precision: the decimal digits of the value,
/// as few as tell it from every other value.
pub uninterp spec fn shortest_decimal(bits: u64) -> Seq<char>;

/// What the standard formatter writes for the floating-point value with the
/// bits `bits` at the precision `places`: the value rounded to that many
/// digits after the decimal point.
pub uninterp spec fn fixed_decimal(bits: u64, places: nat) -> Seq<char>;

/// Evaluates `expr` with `meval::eval_str` and hands the number over as plain
/// values: its bits, and what the standard formatter writes for it without a
/// precision and with the precision `places`.
///
/// Nothing is claimed of which expressions have a value, nor of the value:
/// the result is `None` where `meval::eval_str` returned an error, and a power
/// is computed by the platform's own routine, whose last bits are not the
/// same everywhere. The one claim is that the two texts are those that the
/// formatter writes for the bits beside them.
///
/// The text that is passed is written in the symbols of expressions, so that
/// it names no variable and no function. It is not blank: the parser behind
/// `meval::eval_str` fails with a panic, not with an error, on input that is
/// not empty and holds nothing but spaces, tabs and line ends. The formatter
/// takes a precision of up to 16 bits.
#[verifier::external_body]
pub(crate) fn evaluate_expression(expr: &str, places: usize) -> (r: Option<Numeral>)
    requires
        expression_text(expr@),
        has_visible(expr@),
        places <= u16::MAX,
    ensures
        r matches Some(n) ==> n.shortest@ == shortest_decimal(n.bits) && n.rounded@
            == fixed_decimal(n.bits, places as nat),
{
    match meval::eval_str(expr) {
        Ok(value) => Some(
            Numeral {
                bits: value.to_bits(),
                shortest: format!("{}", value),
                rounded: format!("{:.*}", places, value),
            },
        ),
        Err(_) => None,
    }
}

} // verus!
