//! The policy model.
pub mod level;
pub mod value;
pub mod merge;
pub mod read;
pub mod policy;
pub mod legacy;
pub mod path_ops;
pub mod migrate;
pub mod rule_keys;
pub mod migrate_policy;
pub mod extends;
pub mod toml_text;

pub use level::{Level, level_name};
pub use value::{TomlEntry, TomlTable, TomlValue, TomlData, TableData};
pub mod rule_options;
