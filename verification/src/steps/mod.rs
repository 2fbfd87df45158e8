//! The wizard's steps, each an input state machine over a [`Key`].

use vstd::prelude::*;

pub mod database;
pub mod languages;
pub mod project_type;
pub mod remotes;
pub mod vcs;
pub mod workflows;

verus! {

/// What a step tells the wizard after handling a key.
#[derive(Debug, Clone, Copy, PartialEq, Eq, Structural)]
pub enum StepResult {
    Continue,
    Done,
    Back,
    Quit,
}

/// Where keyboard focus sits inside a step.
#[derive(Debug, Clone, Copy, PartialEq, Eq, Structural)]
pub enum Focus {
    /// On the top-level choice list.
    Choice,
    /// On the given sub-field of the expanded choice.
    SubField(usize),
    /// In a modal browser (directory picker).
    Browsing,
}

impl Default for Focus {
    fn default() -> (r: Focus)
        ensures
            r == Focus::Choice,
    {
        Focus::Choice
    }
}

/// A key press, as far as the wizard tells keys apart.
#[derive(Debug, Clone, Copy, PartialEq, Eq, Structural)]
pub enum Key {
    Char(char),
    Up,
    Down,
    Left,
    Right,
    Enter,
    Esc,
    Tab,
    BackTab,
    Backspace,
    Delete,
    Home,
    End,
    /// Any key the wizard ignores (function keys and the like).
    Other,
}

/// Marker drawn in front of the highlighted line.
pub const CURSOR_MARKER: &'static str = "▸ ";

/// Blank of the same width as [`CURSOR_MARKER`].
pub const CURSOR_BLANK: &'static str = "  ";

/// `std::io::Error`, the error a step's `execute` may report. Verus sees
/// nothing inside it; the steps here never build one.
#[verifier::external_type_specification]
#[verifier::external_body]
pub struct ExIoError(std::io::Error);

} // verus!
