//! Numbers as the evaluator hands them over: the 64 bits of a binary
//! floating-point value, read here with integer arithmetic alone.
//!
//! Bit 63 is the sign, bits 62 to 52 the exponent field, bits 51 to 0 the
//! fraction field. A finite value has the magnitude
//! `significand * 2^scale`.

use vstd::arithmetic::div_mod::lemma_small_mod;
use vstd::arithmetic::power2::{
    lemma2_to64_rest, lemma_pow2_pos, lemma_pow2_strictly_increases, pow2,
};
use vstd::bits::lemma_u64_shl_is_mul;
use vstd::prelude::*;
use vstd::string::StringExecFns;

use crate::text::{
    buffer_text, decimal_text, error_marker, is_decimal_text, lemma_strip_zeros_shape, prefix,
    strip_zeros, unpadded_len,
};

verus! {

/// A number as the evaluator hands it over: its bits, and its value written
/// out in decimal twice.
pub struct Numeral {
    /// The 64 bits of the value.
    pub bits: u64,
    /// The value in the fewest digits that tell it from every other value.
    pub shortest: String,
    /// The value rounded to a fixed count of digits after the decimal point.
    pub rounded: String,
}

/// Two to the power 52: the weight of the exponent field's lowest bit, and
/// the leading bit that a normal number's significand has beyond its fraction.
pub const HIDDEN_BIT: u64 = 0x10_0000_0000_0000;

/// The exponent field of every value that is not finite.
pub const EXPONENT_MAX: u64 = 0x7ff;

/// The exponent field at which the scale of the significand is zero.
pub const EXPONENT_OF_UNIT_SCALE: u64 = 1075;

/// The count of digits after the decimal point that a number which is no
/// integer is rounded to.
pub const DECIMAL_PLACES: usize = 8;

/// The eleven bits of the exponent field.
pub open spec fn exponent_field(bits: u64) -> int {
    (bits as int / HIDDEN_BIT as int) % 0x800
}

/// The 52 bits of the fraction field.
pub open spec fn fraction_field(bits: u64) -> int {
    bits as int % HIDDEN_BIT as int
}

/// The value is a number: neither an infinity nor a NaN.
pub open spec fn finite(bits: u64) -> bool {
    exponent_field(bits) != EXPONENT_MAX
}

/// The integer whose multiple by a power of two the magnitude is: the
/// fraction field, with the hidden bit before it unless the exponent field is
/// zero.
pub open spec fn significand(bits: u64) -> int {
    if exponent_field(bits) == 0 {
        fraction_field(bits)
    } else {
        HIDDEN_BIT + fraction_field(bits)
    }
}

/// The power of two that the significand is multiplied by.
pub open spec fn scale(bits: u64) -> int {
    if exponent_field(bits) == 0 {
        1 - EXPONENT_OF_UNIT_SCALE
    } else {
        exponent_field(bits) - EXPONENT_OF_UNIT_SCALE
    }
}

/// The value is finite and an integer: `significand * 2^scale` has no
/// fractional part. With a negative scale that is to say that `2^-scale`
/// divides the significand.
pub open spec fn whole(bits: u64) -> bool {
    &&& finite(bits)
    &&& scale(bits) < 0 ==> significand(bits) % (pow2((-scale(bits)) as nat) as int) == 0
}

/// Whether `bits` stand for a number, and not for an infinity or a NaN.
#[verifier::when_used_as_spec(finite)]
pub fn is_finite(bits: u64) -> (r: bool)
    ensures
        r == finite(bits),
{
    assert((bits >> 52) & 0x7ff == (bits / 0x10_0000_0000_0000) % 0x800) by (bit_vector);
    (bits >> 52) & 0x7ff != EXPONENT_MAX
}

/// Whether `bits` stand for an integer.
#[verifier::when_used_as_spec(whole)]
pub fn is_whole(bits: u64) -> (r: bool)
    ensures
        r == whole(bits),
{
    let exponent = (bits >> 52) & 0x7ff;
    let fraction = bits & 0xf_ffff_ffff_ffff;
    assert((bits >> 52) & 0x7ff == (bits / 0x10_0000_0000_0000) % 0x800) by (bit_vector);
    assert(bits & 0xf_ffff_ffff_ffff == bits % 0x10_0000_0000_0000) by (bit_vector);
    assert(exponent == exponent_field(bits));
    assert(fraction == fraction_field(bits));
    proof {
        lemma2_to64_rest();
    }
    if exponent == EXPONENT_MAX {
        false
    } else if exponent == 0 {
        proof {
            lemma_pow2_strictly_increases(52, 1074);
            assert(scale(bits) == -1074);
            if fraction != 0 {
                lemma_small_mod(fraction as nat, pow2(1074));
            } else {
                lemma_pow2_pos(1074);
                assert(0int % (pow2(1074) as int) == 0);
            }
        }
        fraction == 0
    } else if exponent >= EXPONENT_OF_UNIT_SCALE {
        true
    } else if exponent < EXPONENT_OF_UNIT_SCALE - 52 {
        proof {
            let down = (EXPONENT_OF_UNIT_SCALE - exponent) as nat;
            assert(scale(bits) == -(down as int));
            if down > 53 {
                lemma_pow2_strictly_increases(53, down);
            }
            assert(HIDDEN_BIT + fraction < pow2(down));
            lemma_small_mod((HIDDEN_BIT + fraction) as nat, pow2(down));
        }
        false
    } else {
        let down: u64 = EXPONENT_OF_UNIT_SCALE - exponent;
        proof {
            assert(scale(bits) == -(down as int));
            if down < 52 {
                lemma_pow2_strictly_increases(down as nat, 52);
            }
            lemma_pow2_pos(down as nat);
            lemma_u64_shl_is_mul(1, down);
            assert(1u64 << down == pow2(down as nat));
        }
        (HIDDEN_BIT + fraction) % (1u64 << down) == 0
    }
}

/// What the display shows for a number with the bits `bits`, given its two
/// decimal forms. An integer is shown in its shortest form, which has no
/// decimal point. Any other number is shown rounded, without the zeros at the
/// end of its fraction; the decimal point stays. A value that is not finite,
/// or whose form holds anything but digits, a point and a minus sign, is shown
/// as the error marker.
pub open spec fn numeral_text(bits: u64, shortest: Seq<char>, rounded: Seq<char>) -> Seq<char> {
    let shown = if whole(bits) {
        shortest
    } else {
        strip_zeros(rounded)
    };
    if finite(bits) && decimal_text(shown) {
        shown
    } else {
        error_marker()
    }
}

/// What the display shows for the outcome of an evaluation: the error marker
/// where the expression had no value, else the number's text.
pub open spec fn outcome_text(outcome: Option<Numeral>) -> Seq<char> {
    match outcome {
        Some(n) => numeral_text(n.bits, n.shortest@, n.rounded@),
        None => error_marker(),
    }
}

/// The error marker as a string.
pub fn error_string() -> (r: String)
    ensures
        r@ == error_marker(),
{
    proof {
        reveal_strlit("Error");
    }
    let r = String::from_str("Error");
    assert(r@ =~= error_marker());
    r
}

/// The text that the display shows for the outcome of an evaluation.
pub fn display_text(outcome: Option<Numeral>) -> (r: String)
    ensures
        r@ == outcome_text(outcome),
        buffer_text(r@),
{
    match outcome {
        Some(n) => {
            if !is_finite(n.bits) {
                return error_string();
            }
            let shown = if is_whole(n.bits) {
                n.shortest
            } else {
                let rounded = n.rounded.as_str();
                let kept = unpadded_len(rounded);
                proof {
                    lemma_strip_zeros_shape(rounded@);
                }
                prefix(rounded, kept)
            };
            if is_decimal_text(shown.as_str()) {
                shown
            } else {
                error_string()
            }
        },
        None => error_string(),
    }
}

} // verus!
