//! Verified core of a terminal Git browser: token alignment and word-level
//! annotation of changed lines, syntax-coloured diff pieces and their
//! wrapping, tab navigation state and key handling, status classification,
//! the rows each panel shows, and the theme file format.

pub mod align;
pub mod text;
pub mod edits;
pub mod git;
pub mod nav;
pub mod stashes_tab;
pub mod status_tab;
pub mod files_tab;
pub mod log_nav;
pub mod theme;
pub mod theme_round_trip;
pub mod ui;
pub mod diff_rows;
pub mod wrap;
pub mod diff_engine;
