//! The characters that the calculator tells apart.

use vstd::prelude::*;

verus! {

/// The multiplication sign as the display shows it.
pub const MULTIPLY_SIGN: char = '\u{d7}';

/// The division sign as the display shows it.
pub const DIVIDE_SIGN: char = '\u{f7}';

/// The characters with the Unicode property `White_Space`.
pub open spec fn whitespace(c: char) -> bool {
    ||| '\u{9}' <= c <= '\u{d}'
    ||| c == ' '
    ||| c == '\u{85}'
    ||| c == '\u{a0}'
    ||| c == '\u{1680}'
    ||| '\u{2000}' <= c <= '\u{200a}'
    ||| c == '\u{2028}'
    ||| c == '\u{2029}'
    ||| c == '\u{202f}'
    ||| c == '\u{205f}'
    ||| c == '\u{3000}'
}

/// The four signs of binary arithmetic, multiplication and division in either
/// spelling: as the display shows them or as the evaluator reads them.
pub open spec fn operator(c: char) -> bool {
    ||| c == '+'
    ||| c == '-'
    ||| c == MULTIPLY_SIGN
    ||| c == DIVIDE_SIGN
    ||| c == '*'
    ||| c == '/'
}

/// A decimal digit.
pub open spec fn digit(c: char) -> bool {
    '0' <= c <= '9'
}

/// What a key may put into the buffer: digits, the decimal point, brackets,
/// the operator signs, the power sign and the space that sets operators apart.
pub open spec fn key_symbol(c: char) -> bool {
    ||| digit(c)
    ||| operator(c)
    ||| c == '.'
    ||| c == '('
    ||| c == ')'
    ||| c == '^'
    ||| c == ' '
}

/// What the buffer may hold: the key symbols and the letters of the error
/// marker.
pub open spec fn buffer_symbol(c: char) -> bool {
    ||| key_symbol(c)
    ||| c == 'E'
    ||| c == 'r'
    ||| c == 'o'
}

/// What an expression is written in, as the evaluator reads it: digits, the
/// decimal point, brackets, the signs of the five operations and the space.
pub open spec fn expression_symbol(c: char) -> bool {
    ||| digit(c)
    ||| c == '.'
    ||| c == '('
    ||| c == ')'
    ||| c == '+'
    ||| c == '-'
    ||| c == '*'
    ||| c == '/'
    ||| c == '^'
    ||| c == ' '
}

/// What the rendering of a number is made of.
pub open spec fn decimal_symbol(c: char) -> bool {
    ||| digit(c)
    ||| c == '.'
    ||| c == '-'
}

/// The characters that the expression parser skips between tokens.
pub open spec fn blank(c: char) -> bool {
    ||| c == ' '
    ||| c == '\t'
    ||| c == '\r'
    ||| c == '\n'
}

#[verifier::when_used_as_spec(whitespace)]
pub fn is_whitespace(c: char) -> (r: bool)
    ensures
        r == whitespace(c),
{
    ('\u{9}' <= c && c <= '\u{d}') || c == ' ' || c == '\u{85}' || c == '\u{a0}' || c == '\u{1680}'
        || ('\u{2000}' <= c && c <= '\u{200a}') || c == '\u{2028}' || c == '\u{2029}' || c
        == '\u{202f}' || c == '\u{205f}' || c == '\u{3000}'
}

#[verifier::when_used_as_spec(operator)]
pub fn is_operator(c: char) -> (r: bool)
    ensures
        r == operator(c),
{
    c == '+' || c == '-' || c == MULTIPLY_SIGN || c == DIVIDE_SIGN || c == '*' || c == '/'
}

#[verifier::when_used_as_spec(key_symbol)]
pub fn is_key_symbol(c: char) -> (r: bool)
    ensures
        r == key_symbol(c),
{
    ('0' <= c && c <= '9') || is_operator(c) || c == '.' || c == '(' || c == ')' || c == '^' || c
        == ' '
}

#[verifier::when_used_as_spec(expression_symbol)]
pub fn is_expression_symbol(c: char) -> (r: bool)
    ensures
        r == expression_symbol(c),
{
    ('0' <= c && c <= '9') || c == '.' || c == '(' || c == ')' || c == '+' || c == '-' || c == '*'
        || c == '/' || c == '^' || c == ' '
}

#[verifier::when_used_as_spec(decimal_symbol)]
pub fn is_decimal_symbol(c: char) -> (r: bool)
    ensures
        r == decimal_symbol(c),
{
    ('0' <= c && c <= '9') || c == '.' || c == '-'
}

#[verifier::when_used_as_spec(blank)]
pub fn is_blank(c: char) -> (r: bool)
    ensures
        r == blank(c),
{
    c == ' ' || c == '\t' || c == '\r' || c == '\n'
}

} // verus!
