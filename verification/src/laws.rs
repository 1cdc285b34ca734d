//! What holds of the buffer's operations taken together.

use vstd::prelude::*;

use crate::number::{finite, numeral_text, whole};
use crate::state::{applied, evaluated, value_text, Command};
use crate::symbols::{operator, whitespace};
use crate::text::{
    all_whitespace, appended, backspaced, buffer_text, decimal_text, error_marker, key_text,
    lemma_strip_zeros_shape, lemma_trim_end_shape, loses_one, trim_end,
};

verus! {

/// The buffer after the keys have entered `tokens` one after the other.
pub open spec fn appended_all(s: Seq<char>, tokens: Seq<Seq<char>>) -> Seq<char>
    decreases tokens.len(),
{
    if tokens.len() == 0 {
        s
    } else {
        appended(appended_all(s, tokens.drop_last()), tokens.last())
    }
}

/// The texts of `tokens` written one after the other.
pub open spec fn joined(tokens: Seq<Seq<char>>) -> Seq<char>
    decreases tokens.len(),
{
    if tokens.len() == 0 {
        Seq::empty()
    } else {
        joined(tokens.drop_last()) + tokens.last()
    }
}

/// The buffer after the backspace key has been pressed `n` times.
pub open spec fn backspaced_times(s: Seq<char>, n: nat) -> Seq<char>
    decreases n,
{
    if n == 0 {
        s
    } else {
        backspaced(backspaced_times(s, (n - 1) as nat))
    }
}

/// Texts made of key symbols, written one after the other, make a text of key
/// symbols.
pub proof fn lemma_joined_key_text(tokens: Seq<Seq<char>>)
    requires
        forall|i: int| 0 <= i < tokens.len() ==> key_text(#[trigger] tokens[i]),
    ensures
        key_text(joined(tokens)),
    decreases tokens.len(),
{
    if tokens.len() > 0 {
        lemma_joined_key_text(tokens.drop_last());
        assert(key_text(tokens.last()));
    }
}

/// A text that ends in key symbols is not the error marker: the marker ends in
/// a letter.
proof fn lemma_key_text_is_no_marker(s: Seq<char>, entered: Seq<char>)
    requires
        key_text(entered),
        s != error_marker(),
    ensures
        s + entered != error_marker(),
{
    if entered.len() == 0 {
        assert(s + entered == s);
    } else {
        let whole = s + entered;
        assert(whole[whole.len() - 1] == entered[entered.len() - 1]);
        assert(key_text(entered) ==> !(entered[entered.len() - 1] == 'r'));
    }
}

/// After any run of keys that enter tokens, the buffer holds what it held
/// before, followed by the tokens in the order in which they were entered. If
/// it held the error marker, the first token took the marker's place, and the
/// buffer holds the tokens alone.
pub proof fn law_appends_concatenate(s: Seq<char>, tokens: Seq<Seq<char>>)
    requires
        forall|i: int| 0 <= i < tokens.len() ==> key_text(#[trigger] tokens[i]),
    ensures
        appended_all(s, tokens) == if s == error_marker() && tokens.len() > 0 {
            joined(tokens)
        } else {
            s + joined(tokens)
        },
    decreases tokens.len(),
{
    if tokens.len() == 0 {
        assert(s + joined(tokens) == s);
    } else {
        let before = tokens.drop_last();
        law_appends_concatenate(s, before);
        lemma_joined_key_text(before);
        let held = appended_all(s, before);
        if s == error_marker() {
            if before.len() == 0 {
                assert(joined(tokens) == tokens.last());
            } else {
                assert(error_marker().len() == 5);
                lemma_key_text_is_no_marker(Seq::empty(), joined(before));
                assert(Seq::<char>::empty() + joined(before) == joined(before));
            }
        } else {
            lemma_key_text_is_no_marker(s, joined(before));
            assert((s + joined(before)) + tokens.last() == s + (joined(before) + tokens.last()));
        }
    }
}

/// The backspace key leaves an empty buffer empty.
pub proof fn law_backspace_keeps_empty()
    ensures
        backspaced(Seq::empty()) == Seq::<char>::empty(),
{
}

/// The backspace key empties a buffer that holds whitespace alone.
pub proof fn law_backspace_empties_whitespace(s: Seq<char>)
    requires
        all_whitespace(s),
    ensures
        backspaced(s) == Seq::<char>::empty(),
{
    lemma_trim_end_shape(s);
    if trim_end(s).len() > 0 {
        assert(trim_end(s).last() == s[trim_end(s).len() - 1]);
    }
}

/// The backspace key never makes the buffer longer, and what it leaves is a
/// part of what was there: a prefix of the buffer, with one space after it
/// where it ends in an operator.
pub proof fn law_backspace_leaves_prefix(s: Seq<char>)
    ensures
        backspaced(s).len() <= s.len(),
        trim_end(backspaced(s)).len() <= trim_end(s).len(),
        trim_end(s).len() > 0 ==> trim_end(backspaced(s)).len() < trim_end(s).len(),
        trim_end(backspaced(s)) == s.take(trim_end(backspaced(s)).len() as int),
        backspaced(s) == trim_end(backspaced(s)) || (trim_end(backspaced(s)).len() > 0 && operator(
            trim_end(backspaced(s)).last(),
        ) && backspaced(s) == trim_end(backspaced(s)).push(' ')),
{
    lemma_trim_end_shape(s);
    let shown = trim_end(s);
    if shown.len() > 0 {
        let head = shown.drop_last();
        lemma_trim_end_shape(head);
        let kept = trim_end(head);
        assert(kept == s.take(kept.len() as int));
        if kept.len() > 0 && operator(kept.last()) {
            let spaced = kept.push(' ');
            assert(spaced.drop_last() == kept);
            assert(trim_end(spaced) == trim_end(kept));
        }
        lemma_trim_end_fixed(kept);
    } else {
        lemma_trim_end_fixed(Seq::empty());
        assert(s.take(0) == Seq::<char>::empty());
    }
}

/// A text that is empty or ends in a character that is no whitespace has
/// nothing to trim.
proof fn lemma_trim_end_fixed(s: Seq<char>)
    requires
        s.len() > 0 ==> !whitespace(s.last()),
    ensures
        trim_end(s) == s,
{
}

/// From a buffer of the kind that `loses_one` describes, the backspace key
/// takes exactly one character.
pub proof fn law_backspace_takes_one(s: Seq<char>)
    requires
        s.len() > 0,
        !all_whitespace(s),
        loses_one(s),
    ensures
        backspaced(s).len() == s.len() - 1,
{
    lemma_backspace_count(s);
}

/// From every other buffer that is not empty, the backspace key takes more
/// than one character, or none.
pub proof fn law_backspace_takes_one_only_then(s: Seq<char>)
    requires
        s.len() > 0,
        !loses_one(s),
    ensures
        backspaced(s).len() != s.len() - 1,
{
    lemma_backspace_count(s);
}

/// The backspace key takes one character exactly from the buffers that
/// `loses_one` describes.
proof fn lemma_backspace_count(s: Seq<char>)
    requires
        s.len() > 0,
    ensures
        backspaced(s).len() == s.len() - 1 <==> loses_one(s),
{
    let n = s.len() as int;
    lemma_trim_end_shape(s);
    let shown = trim_end(s);
    let a = shown.len() as int;
    assert(whitespace(s[n - 1]) <==> a < n) by {
        if a == n {
            assert(shown.last() == s[n - 1]);
        }
    }
    if a > 0 {
        let head = shown.drop_last();
        lemma_trim_end_shape(head);
        let kept = trim_end(head);
        let k = kept.len() as int;
        assert(shown.last() == s[a - 1]);
        assert(forall|j: int| 0 <= j < head.len() ==> head[j] == s[j]);
        assert(forall|j: int| k <= j < a - 1 ==> whitespace(s[j])) by {
            assert forall|j: int| k <= j < a - 1 implies whitespace(s[j]) by {
                assert(whitespace(head[j]));
            }
        }
        if k > 0 {
            assert(kept.last() == s[k - 1]);
            assert(!whitespace(s[k - 1]));
        }
        if a == n {
            if n >= 2 {
                assert(whitespace(s[n - 2]) <==> k < n - 1);
            }
            if n >= 3 && k < n - 1 {
                assert(!whitespace(s[n - 3]) <==> k == n - 2);
            }
        } else {
            assert(n >= 2);
            assert(!whitespace(s[n - 2]) <==> a == n - 1);
            if a == n - 1 && n >= 3 {
                assert(!whitespace(s[n - 3]) <==> k == n - 2);
            }
        }
    } else {
        assert(n >= 2 ==> whitespace(s[n - 2]));
    }
}

/// Pressed often enough, the backspace key empties the buffer, and the buffer
/// then stays empty: as many times as the buffer has characters are enough.
pub proof fn law_backspace_converges(s: Seq<char>, n: nat)
    requires
        n >= s.len(),
    ensures
        backspaced_times(s, n) == Seq::<char>::empty(),
{
    if n == 0 {
        assert(s == Seq::<char>::empty());
    } else {
        lemma_trim_end_shape(s);
        lemma_backspace_shrinks(s, n);
        let left = backspaced_times(s, n);
        law_backspace_leaves_prefix(backspaced_times(s, (n - 1) as nat));
    }
}

/// After `n` presses of the backspace key, with `n` at least one, what the
/// buffer shows has lost at least `n` characters, or all it had.
proof fn lemma_backspace_shrinks(s: Seq<char>, n: nat)
    requires
        n >= 1,
    ensures
        trim_end(backspaced_times(s, n)).len() + n <= trim_end(s).len() || trim_end(
            backspaced_times(s, n),
        ).len() == 0,
        trim_end(backspaced_times(s, n)).len() == 0 ==> backspaced_times(s, n).len() == 0,
    decreases n,
{
    let before = backspaced_times(s, (n - 1) as nat);
    law_backspace_leaves_prefix(before);
    if n > 1 {
        lemma_backspace_shrinks(s, (n - 1) as nat);
    }
}

/// Every command leaves in the buffer only what the buffer may hold: key
/// symbols and the letters of the error marker.
pub proof fn law_commands_keep_buffer_text(
    command: Command<'_>,
    before: Seq<char>,
    after: Seq<char>,
)
    requires
        buffer_text(before),
        command matches Command::Append(token) ==> key_text(token@),
        applied(command, before, after),
    ensures
        buffer_text(after),
{
    match command {
        Command::Append(token) => {},
        Command::Backspace => {
            law_backspace_leaves_prefix(before);
        },
        Command::Clear => {},
        Command::Evaluate => {
            law_evaluation_shows_number_or_marker(before, after);
        },
    }
}

/// After an evaluation the buffer holds the error marker, or a text made of
/// digits, decimal points and minus signs alone.
pub proof fn law_evaluation_shows_number_or_marker(before: Seq<char>, after: Seq<char>)
    requires
        evaluated(before, after),
    ensures
        after == error_marker() || decimal_text(after),
        buffer_text(after),
{
    let value = choose|value: Option<u64>| after == #[trigger] value_text(value);
}

/// A number that is no integer is shown without a zero at the end of its
/// fraction.
pub proof fn law_fraction_ends_in_no_zero(bits: u64, shortest: Seq<char>, rounded: Seq<char>)
    requires
        finite(bits),
        !whole(bits),
    ensures
        numeral_text(bits, shortest, rounded) == error_marker() || numeral_text(
            bits,
            shortest,
            rounded,
        ).len() == 0 || numeral_text(bits, shortest, rounded).last() != '0',
{
    lemma_strip_zeros_shape(rounded);
}

} // verus!
