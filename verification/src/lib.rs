//! Verified core of the cinderbox project-setup wizard: the configuration
//! model, the tool and database catalogs, the text-input widget and the
//! per-step input state machines.

pub mod text;

pub mod config;
pub mod steps;
pub mod summary;
pub mod widgets;
pub mod wizard;
pub mod registry;
pub mod db_registry;
pub mod validate;
pub mod seqs;
