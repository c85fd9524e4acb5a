//! rscheck: a policy-driven checker for Rust workspaces.
//!
//! The library holds the checker's verified core: the report model, the
//! policy model and its migration, text edits, rule catalogue and rule
//! decisions, toolchain selection, and the report renderers.
pub mod text;
pub mod path_pattern;
pub mod span;
pub mod report;
pub mod config;
pub mod rules;
pub mod fix;
pub mod glob;
pub mod emit;
pub mod semantic;
pub mod runner;
pub mod chars;
pub mod toolchain;
pub mod fix_apply;
pub mod regex_match;
pub mod cargo_clippy;
pub mod html;
pub mod sarif;
pub mod sorted;
pub mod text_report;
pub mod analysis;
pub mod source;
pub mod draw;
pub mod cli;
