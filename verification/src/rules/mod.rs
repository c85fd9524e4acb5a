//! The rule catalogue and the rules' decisions.
use vstd::prelude::*;
use crate::config::Level;

pub mod catalog;
pub mod file_complexity;
pub mod module_paths;
pub mod literal_paths;
pub mod top_items;
pub mod name_rules;
pub mod custom_pattern;
pub mod type_aliases;
pub mod duplicates;
pub mod runs;

verus! {

#[derive(Debug, Clone, Copy, PartialEq, Eq, Structural)]
pub enum RuleFamily {
    Architecture,
    Design,
    Shape,
    Portability,
    Testing,
    Performance,
}

/// Which engine a rule runs on.
#[derive(Debug, Clone, Copy, PartialEq, Eq, Structural)]
pub enum RuleBackend {
    Syntax,
    Semantic,
    Adapter,
}

/// The static description of a rule.
#[derive(Debug, Clone, Copy)]
pub struct RuleInfo {
    pub id: &'static str,
    pub family: RuleFamily,
    pub backend: RuleBackend,
    pub summary: &'static str,
    pub default_level: Level,
    pub schema: &'static str,
    pub config_example: &'static str,
    pub fixable: bool,
}

} // verus!
