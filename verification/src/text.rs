//! Text as sequences of characters: the functions on it that the buffer's
//! operations are stated in, and the loops that compute them.

use crate::symbols::{
    blank, buffer_symbol, decimal_symbol, expression_symbol, is_blank, is_decimal_symbol,
    is_expression_symbol, is_key_symbol, is_whitespace, key_symbol, operator, whitespace,
    DIVIDE_SIGN, MULTIPLY_SIGN,
};
use vstd::prelude::*;
use vstd::string::StringExecFns;

verus! {

/// The text that the buffer shows when an expression has no value.
pub open spec fn error_marker() -> Seq<char> {
    seq!['E', 'r', 'r', 'o', 'r']
}

/// `s` without the characters at its end that `drop` holds of: the longest
/// prefix of `s` that is empty or ends in a character to keep.
pub open spec fn strip_end(s: Seq<char>, drop: spec_fn(char) -> bool) -> Seq<char>
    decreases s.len(),
{
    if s.len() > 0 && drop(s.last()) {
        strip_end(s.drop_last(), drop)
    } else {
        s
    }
}

/// `s` without the whitespace at its end.
pub open spec fn trim_end(s: Seq<char>) -> Seq<char> {
    strip_end(s, |c: char| whitespace(c))
}

/// `s` without the zero digits at its end.
pub open spec fn strip_zeros(s: Seq<char>) -> Seq<char> {
    strip_end(s, |c: char| c == '0')
}

/// The character that the evaluator reads for `c`: the asterisk for the
/// multiplication sign, the slash for the division sign, `c` itself otherwise.
pub open spec fn canonical_symbol(c: char) -> char {
    if c == MULTIPLY_SIGN {
        '*'
    } else if c == DIVIDE_SIGN {
        '/'
    } else {
        c
    }
}

/// `s` with each of its characters as the evaluator reads it.
pub open spec fn canonical(s: Seq<char>) -> Seq<char> {
    Seq::new(s.len(), |i: int| canonical_symbol(s[i]))
}

/// Every character of `s` is one that a key may enter.
pub open spec fn key_text(s: Seq<char>) -> bool {
    forall|i: int| 0 <= i < s.len() ==> key_symbol(#[trigger] s[i])
}

/// Every character of `s` is one that the buffer may hold.
pub open spec fn buffer_text(s: Seq<char>) -> bool {
    forall|i: int| 0 <= i < s.len() ==> buffer_symbol(#[trigger] s[i])
}

/// `s` is made of digits, decimal points and minus signs alone.
pub open spec fn decimal_text(s: Seq<char>) -> bool {
    forall|i: int| 0 <= i < s.len() ==> decimal_symbol(#[trigger] s[i])
}

/// Every character of `s` is one that an expression is written in.
pub open spec fn expression_text(s: Seq<char>) -> bool {
    forall|i: int| 0 <= i < s.len() ==> expression_symbol(#[trigger] s[i])
}

/// `s` holds a character that the expression parser does not skip.
pub open spec fn has_visible(s: Seq<char>) -> bool {
    exists|i: int| 0 <= i < s.len() && !blank(#[trigger] s[i])
}

/// `s` can be handed to the evaluator: read as the evaluator reads it, it is
/// written in the symbols of expressions, and not in spaces alone.
pub open spec fn evaluable(s: Seq<char>) -> bool {
    expression_text(canonical(s)) && has_visible(canonical(s))
}

/// The buffer after a key has entered `token`: the token is put at the end of
/// what the buffer held, unless that was the error marker, which the token
/// takes the place of.
pub open spec fn appended(s: Seq<char>, token: Seq<char>) -> Seq<char> {
    if s == error_marker() {
        token
    } else {
        s + token
    }
}

/// The buffer after the backspace key. The whitespace at the end of `s` goes
/// first, then the last character of what is left, then the whitespace that
/// this has laid bare. Where the text then ends in an operator, one space is
/// put after it, as the operator keys do.
pub open spec fn backspaced(s: Seq<char>) -> Seq<char> {
    let shown = trim_end(s);
    if shown.len() == 0 {
        Seq::empty()
    } else {
        let kept = trim_end(shown.drop_last());
        if kept.len() > 0 && operator(kept.last()) {
            kept.push(' ')
        } else {
            kept
        }
    }
}

/// Every character of `s` is whitespace.
pub open spec fn all_whitespace(s: Seq<char>) -> bool {
    forall|i: int| 0 <= i < s.len() ==> whitespace(#[trigger] s[i])
}

/// The buffers from which the backspace key takes one character, no more and
/// no less. The buffer holds one character. Or it ends in a symbol, and before
/// that symbol stands a symbol that is no operator. Or one of its last two
/// characters is whitespace, the other is not, and before them stands an
/// operator: the space after the operator goes and comes back.
pub open spec fn loses_one(s: Seq<char>) -> bool {
    let n = s.len() as int;
    ||| n == 1
    ||| n >= 2 && !whitespace(s[n - 1]) && !whitespace(s[n - 2]) && !operator(s[n - 2])
    ||| n >= 3 && whitespace(s[n - 1]) != whitespace(s[n - 2]) && operator(s[n - 3])
}

/// `strip_end(s, drop)` is the prefix of length `k`, where `k` is the one
/// length at which a kept character, or nothing, is followed by dropped ones
/// only.
pub proof fn lemma_strip_end_is_prefix(s: Seq<char>, drop: spec_fn(char) -> bool, k: int)
    requires
        0 <= k <= s.len(),
        k > 0 ==> !drop(s[k - 1]),
        forall|j: int| k <= j < s.len() ==> drop(#[trigger] s[j]),
    ensures
        strip_end(s, drop) == s.take(k),
    decreases s.len(),
{
    if k == s.len() {
        assert(s.take(k) == s);
    } else {
        assert(drop(s[s.len() - 1]));
        let shorter = s.drop_last();
        assert forall|j: int| k <= j < shorter.len() implies drop(#[trigger] shorter[j]) by {
            assert(shorter[j] == s[j]);
        }
        lemma_strip_end_is_prefix(shorter, drop, k);
        assert(shorter.take(k) == s.take(k));
    }
}

/// What `strip_end` leaves is a prefix of `s` that ends in a kept character,
/// if it is not empty, and what it took away was all to be dropped.
pub proof fn lemma_strip_end_shape(s: Seq<char>, drop: spec_fn(char) -> bool)
    ensures
        strip_end(s, drop).len() <= s.len(),
        strip_end(s, drop) == s.take(strip_end(s, drop).len() as int),
        strip_end(s, drop).len() > 0 ==> !drop(strip_end(s, drop).last()),
        forall|j: int| strip_end(s, drop).len() <= j < s.len() ==> drop(#[trigger] s[j]),
    decreases s.len(),
{
    if s.len() > 0 && drop(s.last()) {
        let shorter = s.drop_last();
        lemma_strip_end_shape(shorter, drop);
        let k = strip_end(shorter, drop).len() as int;
        assert(shorter.take(k) == s.take(k));
        assert forall|j: int| k <= j < s.len() implies drop(#[trigger] s[j]) by {
            if j < shorter.len() {
                assert(shorter[j] == s[j]);
            }
        }
    } else {
        assert(s.take(s.len() as int) == s);
    }
}

/// What `trim_end` leaves is a prefix of `s` that ends in a character that is
/// no whitespace, if it is not empty, and what it took away was all whitespace.
pub proof fn lemma_trim_end_shape(s: Seq<char>)
    ensures
        trim_end(s).len() <= s.len(),
        trim_end(s) == s.take(trim_end(s).len() as int),
        trim_end(s).len() > 0 ==> !whitespace(trim_end(s).last()),
        forall|j: int| trim_end(s).len() <= j < s.len() ==> whitespace(#[trigger] s[j]),
{
    lemma_strip_end_shape(s, |c: char| whitespace(c));
}

/// What `strip_zeros` leaves is a prefix of `s` that ends in a character that
/// is no zero digit, if it is not empty.
pub proof fn lemma_strip_zeros_shape(s: Seq<char>)
    ensures
        strip_zeros(s).len() <= s.len(),
        strip_zeros(s) == s.take(strip_zeros(s).len() as int),
        strip_zeros(s).len() > 0 ==> strip_zeros(s).last() != '0',
        forall|j: int| strip_zeros(s).len() <= j < s.len() ==> #[trigger] s[j] == '0',
{
    lemma_strip_end_shape(s, |c: char| c == '0');
}

/// The number of characters of `s` up to its last one that is not whitespace.
pub fn trimmed_len(s: &str) -> (n: usize)
    ensures
        n == trim_end(s@).len(),
        n <= s@.len(),
{
    let total = s.unicode_len();
    let mut end: usize = 0;
    let mut seen: usize = 0;
    for c in iter: s.chars()
        invariant
            iter.seq() == s@,
            seen == iter.index(),
            total == s@.len(),
            end <= seen <= total,
            end > 0 ==> !whitespace(s@[end - 1]),
            forall|j: int| end <= j < seen ==> whitespace(#[trigger] s@[j]),
    {
        seen = seen + 1;
        if !is_whitespace(c) {
            end = seen;
        }
    }
    proof {
        lemma_strip_end_is_prefix(s@, |c: char| whitespace(c), end as int);
    }
    end
}

/// The number of characters of `s` up to its last one that is not a zero digit.
pub fn unpadded_len(s: &str) -> (n: usize)
    ensures
        n == strip_zeros(s@).len(),
        n <= s@.len(),
{
    let total = s.unicode_len();
    let mut end: usize = 0;
    let mut seen: usize = 0;
    for c in iter: s.chars()
        invariant
            iter.seq() == s@,
            seen == iter.index(),
            total == s@.len(),
            end <= seen <= total,
            end > 0 ==> s@[end - 1] != '0',
            forall|j: int| end <= j < seen ==> #[trigger] s@[j] == '0',
    {
        seen = seen + 1;
        if c != '0' {
            end = seen;
        }
    }
    proof {
        lemma_strip_end_is_prefix(s@, |c: char| c == '0', end as int);
    }
    end
}

/// The first `n` characters of `s`, as a string of their own.
pub fn prefix(s: &str, n: usize) -> (r: String)
    requires
        n <= s@.len(),
    ensures
        r@ == s@.take(n as int),
{
    String::from_str(s.substring_char(0, n))
}

/// `s` as the evaluator reads it, with the asterisk and the slash in place of
/// the multiplication and division signs.
pub fn to_canonical(s: &str) -> (r: String)
    ensures
        r@ == canonical(s@),
{
    let mut out = String::new();
    for c in iter: s.chars()
        invariant
            iter.seq() == s@,
            out@ == canonical(s@).take(iter.index()),
    {
        let read = if c == MULTIPLY_SIGN {
            '*'
        } else if c == DIVIDE_SIGN {
            '/'
        } else {
            c
        };
        out.push(read);
        assert(out@ == canonical(s@).take(iter.index() + 1));
    }
    assert(out@ == canonical(s@));
    out
}

/// Whether every character of `s` is one that a key may enter.
pub fn is_key_text(s: &str) -> (r: bool)
    ensures
        r == key_text(s@),
{
    let mut all = true;
    for c in iter: s.chars()
        invariant
            iter.seq() == s@,
            all == (forall|j: int| 0 <= j < iter.index() ==> key_symbol(#[trigger] s@[j])),
    {
        all = all && is_key_symbol(c);
    }
    all
}

/// Whether every character of `s` is one that an expression is written in.
pub fn is_expression_text(s: &str) -> (r: bool)
    ensures
        r == expression_text(s@),
{
    let mut all = true;
    for c in iter: s.chars()
        invariant
            iter.seq() == s@,
            all == (forall|j: int| 0 <= j < iter.index() ==> expression_symbol(#[trigger] s@[j])),
    {
        all = all && is_expression_symbol(c);
    }
    all
}

/// Whether `s` is made of digits, decimal points and minus signs alone.
pub fn is_decimal_text(s: &str) -> (r: bool)
    ensures
        r == decimal_text(s@),
{
    let mut all = true;
    for c in iter: s.chars()
        invariant
            iter.seq() == s@,
            all == (forall|j: int| 0 <= j < iter.index() ==> decimal_symbol(#[trigger] s@[j])),
    {
        all = all && is_decimal_symbol(c);
    }
    all
}

/// Whether `s` holds a character that the expression parser does not skip.
pub fn is_visible(s: &str) -> (r: bool)
    ensures
        r == has_visible(s@),
{
    let mut found = false;
    for c in iter: s.chars()
        invariant
            iter.seq() == s@,
            found == (exists|j: int| 0 <= j < iter.index() && !blank(#[trigger] s@[j])),
    {
        found = found || !is_blank(c);
    }
    found
}

} // verus!
