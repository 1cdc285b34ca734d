//! The calculator's state and the commands that change it.

use vstd::prelude::*;
use vstd::string::{StrSliceExecFns, StringExecFns};

use crate::laws::{
    law_backspace_empties_whitespace, law_backspace_leaves_prefix, law_backspace_takes_one,
};
use crate::number::{display_text, error_string, numeral_text, DECIMAL_PLACES};
use crate::outside::{evaluate_expression, fixed_decimal, shortest_decimal};
use crate::symbols::is_operator;
use crate::text::{
    all_whitespace, appended, backspaced, buffer_text, canonical, error_marker, evaluable,
    is_expression_text, is_visible, key_text, lemma_trim_end_shape, loses_one, prefix,
    to_canonical, trimmed_len,
};

verus! {

/// What the display shows for the value of an expression: the error marker
/// where it has none, else the text of the number with the bits `bits`.
pub open spec fn value_text(value: Option<u64>) -> Seq<char> {
    match value {
        Some(bits) => numeral_text(
            bits,
            shortest_decimal(bits),
            fixed_decimal(bits, DECIMAL_PLACES as nat),
        ),
        None => error_marker(),
    }
}

/// What holds of the buffer before and after an evaluation. The text after it
/// is what the display shows for some value, or for none; it is the error
/// marker where the text before it could not be handed to the evaluator.
pub open spec fn evaluated(before: Seq<char>, after: Seq<char>) -> bool {
    &&& exists|value: Option<u64>| after == #[trigger] value_text(value)
    &&& !evaluable(before) ==> after == error_marker()
}

/// What a key asks of the calculator.
#[derive(Clone, Copy, Debug)]
pub enum Command<'a> {
    /// Enter the token at the end of the expression.
    Append(&'a str),
    /// Remove the last symbol.
    Backspace,
    /// Empty the display.
    Clear,
    /// Show the value of the expression in its place.
    Evaluate,
}

/// What holds of the buffer before and after `command`.
pub open spec fn applied(command: Command<'_>, before: Seq<char>, after: Seq<char>) -> bool {
    match command {
        Command::Append(token) => after == appended(before, token@),
        Command::Backspace => after == backspaced(before),
        Command::Clear => after == Seq::<char>::empty(),
        Command::Evaluate => evaluated(before, after),
    }
}

/// The calculator's state: the text of the expression that the display shows.
///
/// The text holds key symbols and the letters of the error marker, nothing
/// else. Each of these is a symbol that a user sees as one, so the count of
/// the text's characters is the count of the symbols on the display.
#[derive(Debug)]
pub struct AppState {
    expression: String,
}

impl View for AppState {
    type V = Seq<char>;

    closed spec fn view(&self) -> Seq<char> {
        self.expression@
    }
}

impl AppState {
    #[verifier::type_invariant]
    spec fn holds_buffer_text(&self) -> bool {
        buffer_text(self.expression@)
    }

    /// A calculator with an empty display.
    pub fn new() -> (state: Self)
        ensures
            state@ == Seq::<char>::empty(),
    {
        AppState { expression: String::new() }
    }

    /// The text that the display shows.
    pub fn current_text(&self) -> (text: &str)
        ensures
            text@ == self@,
            buffer_text(text@),
    {
        proof {
            use_type_invariant(self);
        }
        self.expression.as_str()
    }

    /// Empties the display.
    pub fn clear(&mut self)
        ensures
            final(self)@ == Seq::<char>::empty(),
    {
        self.expression = String::new();
    }

    /// Removes the last symbol that the display shows. An empty display
    /// stays empty, and one that shows whitespace alone becomes empty.
    pub fn backspace(&mut self)
        ensures
            final(self)@ == backspaced(old(self)@),
            old(self)@.len() == 0 ==> final(self)@.len() == 0,
            all_whitespace(old(self)@) ==> final(self)@.len() == 0,
            loses_one(old(self)@) ==> final(self)@.len() == old(self)@.len() - 1,
            final(self)@.len() <= old(self)@.len(),
    {
        proof {
            use_type_invariant(&*self);
            law_backspace_leaves_prefix(self@);
            if all_whitespace(self@) {
                law_backspace_empties_whitespace(self@);
            }
            if loses_one(self@) && !all_whitespace(self@) {
                law_backspace_takes_one(self@);
            }
        }
        let text = self.expression.as_str();
        let shown = trimmed_len(text);
        if shown == 0 {
            self.expression = String::new();
        } else {
            let head = text.substring_char(0, shown - 1);
            let kept = trimmed_len(head);
            let mut rest = prefix(head, kept);
            proof {
                lemma_trim_end_shape(text@);
                lemma_trim_end_shape(head@);
                assert(head@ == text@.take(shown as int).drop_last());
            }
            if kept > 0 && is_operator(head.get_char(kept - 1)) {
                proof {
                    reveal_strlit(" ");
                }
                rest.append(" ");
                assert(rest@ == head@.take(kept as int).push(' '));
            }
            self.expression = rest;
        }
    }

    /// Whether the display shows the error marker.
    pub fn is_error(&self) -> (r: bool)
        ensures
            r == (self@ == error_marker()),
    {
        let marker = error_string();
        self.expression == marker
    }

    /// Enters `token` at the end of the expression. After an error it starts a
    /// new expression.
    pub fn append(&mut self, token: &str)
        requires
            key_text(token@),
        ensures
            final(self)@ == appended(old(self)@, token@),
    {
        proof {
            use_type_invariant(&*self);
        }
        if self.is_error() {
            self.expression = String::from_str(token);
        } else {
            let mut text = self.expression.clone();
            text.append(token);
            self.expression = text;
        }
    }

    /// The expression as the evaluator is to read it, with the asterisk and
    /// the slash in place of the multiplication and division signs; `None`
    /// where the display shows what cannot be handed to the evaluator: spaces
    /// alone, nothing at all, or a letter of the error marker.
    pub fn canonical_expression(&self) -> (expression: Option<String>)
        ensures
            expression is Some <==> evaluable(self@),
            expression matches Some(text) ==> text@ == canonical(self@),
    {
        let expression = to_canonical(self.expression.as_str());
        if is_expression_text(expression.as_str()) && is_visible(expression.as_str()) {
            Some(expression)
        } else {
            None
        }
    }

    /// Shows the value of the expression in its place, or the error marker
    /// where the expression has no value. The evaluator decides which text is
    /// an expression and what its value is; this function decides what is
    /// handed to it and how the number that comes back is shown.
    pub fn evaluate(&mut self)
        ensures
            evaluated(old(self)@, final(self)@),
    {
        let outcome = match self.canonical_expression() {
            Some(expression) => evaluate_expression(expression.as_str(), DECIMAL_PLACES),
            None => None,
        };
        let ghost value = if outcome is Some {
            Some(outcome->0.bits)
        } else {
            None
        };
        self.expression = display_text(outcome);
        assert(self@ == value_text(value));
    }

    /// Does what `command` asks.
    pub fn apply(&mut self, command: Command<'_>)
        requires
            command matches Command::Append(token) ==> key_text(token@),
        ensures
            applied(command, old(self)@, final(self)@),
    {
        match command {
            Command::Append(token) => self.append(token),
            Command::Backspace => self.backspace(),
            Command::Clear => self.clear(),
            Command::Evaluate => self.evaluate(),
        }
    }
}

impl Default for AppState {
    fn default() -> (state: Self)
        ensures
            state@ == Seq::<char>::empty(),
    {
        AppState::new()
    }
}

} // verus!
