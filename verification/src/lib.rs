//! The editing and evaluation core of a pocket calculator.
//!
//! An [`AppState`] owns the one line of text that the calculator shows. Keys
//! append tokens to it, remove its last symbol or clear it; the equals key
//! replaces it with the value of the expression it spells, or with the error
//! marker where it spells none.
//!
//! The arithmetic is done by the `meval` crate. What is proved here is how
//! the text is edited, how it is prepared for the evaluator, and how the
//! number that comes back is shown.

pub mod laws;
pub mod number;
pub mod outside;
pub mod state;
pub mod symbols;
pub mod text;

pub use number::{display_text, Numeral, DECIMAL_PLACES};
pub use state::{AppState, Command};
