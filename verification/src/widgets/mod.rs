//! Reusable input widgets.

pub mod text_input;
