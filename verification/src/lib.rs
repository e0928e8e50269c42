//! Decision core of `jj run`: running a shell command across a set of revisions.

pub mod text;
pub mod ids;
pub mod trees;
pub mod error;
pub mod stat;
pub mod args;
pub mod command;
pub mod state;
pub mod worker;
pub mod tui;
pub mod style;
pub mod ansi;
pub mod panel;
pub mod screen;
pub mod run;
pub mod laws;
