//! Migration of policy tables from the previous layout to the current one.
use vstd::prelude::*;
use vstd::string::*;
use super::value::{
    TableData, TomlData, TomlEntry, TomlTable, TomlValue, tget, tinsert, tremove, str_eq,
    value_eq, lemma_find_key_bounds, view_entry, view_values,
};
use super::read::views;
use super::path_ops::{OpData, OutData, Outcome, PathOp, apply_at, apply_at_spec};
use super::policy::{ConfigError, CURRENT_POLICY_VERSION};
use super::legacy::{contains_char, legacy_problem, validate_legacy_shape};
use crate::text::{decimal, join, join_strings, u64_to_string};

verus! {

/// A migration in progress: the table, the changes made, and the steps that
/// need a person.
#[derive(Debug)]
pub struct Migration {
    pub table: TomlTable,
    pub changes: Vec<String>,
    pub manual_steps: Vec<String>,
}

/// The mathematical content of a [`Migration`].
pub struct MigrationData {
    pub table: TableData,
    pub changes: Seq<Seq<char>>,
    pub manual: Seq<Seq<char>>,
}

impl Migration {
    pub open spec fn data(&self) -> MigrationData {
        MigrationData { table: self.table@, changes: views(self.changes@), manual: views(self.manual_steps@) }
    }
}

/// Why a policy could not be migrated.
#[derive(Debug)]
pub enum MigrationError {
    Read { path: String, message: String },
    Parse { path: String, message: String },
    Serialize { message: String },
    Write { path: String, message: String },
    UnsupportedVersion { path: String, version: u32 },
    Manual { path: String, message: String },
    InvalidMigratedPolicy(ConfigError),
}

/// The current rule id of a rule id of the previous layout.
pub open spec fn spec_rule_id_mapping(k: Seq<char>) -> Option<Seq<char>> {
    if k == "absolute_module_paths"@ || k == "architecture.absolute_module_paths"@ {
        Some("architecture.qualified_module_paths"@)
    } else if k == "absolute_filesystem_paths"@ || k == "portability.absolute_filesystem_paths"@ {
        Some("portability.absolute_literal_paths"@)
    } else if k == "banned_dependencies"@ {
        Some("architecture.banned_dependencies"@)
    } else if k == "custom_pattern"@ {
        Some("pattern.custom"@)
    } else if k == "duplicate_logic"@ {
        Some("shape.duplicate_logic"@)
    } else if k == "duplicate_types_alias"@ || k == "design.duplicate_types_alias"@ {
        Some("design.repeated_type_aliases"@)
    } else if k == "external_test_modules"@ {
        Some("testing.external_test_modules"@)
    } else if k == "file_complexity"@ {
        Some("shape.file_complexity"@)
    } else if k == "god_object"@ {
        Some("design.god_object"@)
    } else if k == "hot_path_allocations"@ {
        Some("perf.hot_path_allocations"@)
    } else if k == "layer_direction"@ {
        Some("architecture.layer_direction"@)
    } else if k == "naming_policy"@ {
        Some("design.naming_policy"@)
    } else if k == "public_api_errors"@ {
        Some("design.public_api_errors"@)
    } else if k == "srp_heuristic"@ || k == "shape.srp_heuristic"@ {
        Some("shape.responsibility_split"@)
    } else {
        None
    }
}

/// The current rule id of a rule id of the previous layout.
pub fn rule_id_mapping(legacy_key: &str) -> (r: Option<&'static str>)
    ensures
        match r {
            Some(s) => spec_rule_id_mapping(legacy_key@) == Some(s@),
            None => spec_rule_id_mapping(legacy_key@) is None,
        },
{
    let k = legacy_key;
    if str_eq(k, "absolute_module_paths") || str_eq(k, "architecture.absolute_module_paths") {
        Some("architecture.qualified_module_paths")
    } else if str_eq(k, "absolute_filesystem_paths") || str_eq(k, "portability.absolute_filesystem_paths") {
        Some("portability.absolute_literal_paths")
    } else if str_eq(k, "banned_dependencies") {
        Some("architecture.banned_dependencies")
    } else if str_eq(k, "custom_pattern") {
        Some("pattern.custom")
    } else if str_eq(k, "duplicate_logic") {
        Some("shape.duplicate_logic")
    } else if str_eq(k, "duplicate_types_alias") || str_eq(k, "design.duplicate_types_alias") {
        Some("design.repeated_type_aliases")
    } else if str_eq(k, "external_test_modules") {
        Some("testing.external_test_modules")
    } else if str_eq(k, "file_complexity") {
        Some("shape.file_complexity")
    } else if str_eq(k, "god_object") {
        Some("design.god_object")
    } else if str_eq(k, "hot_path_allocations") {
        Some("perf.hot_path_allocations")
    } else if str_eq(k, "layer_direction") {
        Some("architecture.layer_direction")
    } else if str_eq(k, "naming_policy") {
        Some("design.naming_policy")
    } else if str_eq(k, "public_api_errors") {
        Some("design.public_api_errors")
    } else if str_eq(k, "srp_heuristic") || str_eq(k, "shape.srp_heuristic") {
        Some("shape.responsibility_split")
    } else {
        None
    }
}

/// A rule key that the migration renames: one without a dot, or one with a known new id.
pub open spec fn spec_should_migrate(k: Seq<char>) -> bool {
    !k.contains('.') || spec_rule_id_mapping(k) is Some
}

pub fn should_migrate_rule_key(candidate_key: &str) -> (r: bool)
    ensures
        r == spec_should_migrate(candidate_key@),
{
    !contains_char(candidate_key, '.') || rule_id_mapping(candidate_key).is_some()
}

/// A value may go where `existing` is: nothing is there, or a value equal to
/// it (as TOML compares values) is.
pub open spec fn spec_can_insert(existing: Option<TomlData>, v: TomlData) -> bool {
    match existing {
        None => true,
        Some(e) => super::value::data_eq(e, v),
    }
}

pub fn can_insert(existing_value: Option<&TomlValue>, source_value: &TomlValue) -> (r: bool)
    ensures
        r == spec_can_insert(
            match existing_value {
                Some(v) => Some(v@),
                None => None,
            },
            source_value@,
        ),
{
    match existing_value {
        None => true,
        Some(v) => value_eq(v, source_value),
    }
}

/// The version under `version`, when it is an integer that fits a `u32`.
pub open spec fn spec_version(t: TableData) -> Option<u32> {
    match tget(t, "version"@) {
        Some(TomlData::Int(i)) => if 0 <= i <= u32::MAX {
            Some(i as u32)
        } else {
            None
        },
        _ => None,
    }
}

/// Migrating the version: `Ok(true)` when the table came from the previous layout.
pub open spec fn spec_migrate_version(s: MigrationData) -> Result<(MigrationData, bool), u32> {
    match spec_version(s.table) {
        Some(v) => if v == CURRENT_POLICY_VERSION {
            Ok((s, false))
        } else if v == 2 {
            Ok((
                MigrationData {
                    table: tinsert(s.table, "version"@, TomlData::Int(3)),
                    changes: s.changes.push("version: 2 -> 3"@),
                    manual: s.manual,
                },
                true,
            ))
        } else {
            Err(v)
        },
        None => Ok((
            MigrationData {
                table: tinsert(s.table, "version"@, TomlData::Int(3)),
                changes: s.changes.push("version: 2 -> 3"@),
                manual: s.manual,
            },
            true,
        )),
    }
}

fn push_str(v: &mut Vec<String>, s: &str)
    ensures
        views(final(v)@) == views(old(v)@).push(s@),
{
    let ghost before = v@;
    v.push(s.to_owned());
    assert(views(v@) =~= views(before).push(s@));
}

fn push_string(v: &mut Vec<String>, s: String)
    ensures
        views(final(v)@) == views(old(v)@).push(s@),
{
    let ghost before = v@;
    v.push(s);
    assert(views(v@) =~= views(before).push(s@));
}

/// Brings the table's version to the current one. `Ok(true)` when the table
/// came from the previous layout.
pub fn migrate_version(m: &mut Migration, path: &str) -> (r: Result<bool, MigrationError>)
    ensures
        match spec_migrate_version(old(m).data()) {
            Ok((s, legacy)) => r == Ok::<bool, MigrationError>(legacy) && final(m).data() == s,
            Err(v) => r matches Err(MigrationError::UnsupportedVersion { path: p, version })
                && p@ == path@ && version == v,
        },
{
    let version: Option<u32> = match m.table.get("version") {
        Some(TomlValue::Integer(i)) => if 0 <= *i && *i <= 0xFFFF_FFFFi64 {
            Some(*i as u32)
        } else {
            None
        },
        _ => None,
    };
    match version {
        Some(v) => {
            if v == CURRENT_POLICY_VERSION {
                return Ok(false);
            }
            if v != 2 {
                return Err(MigrationError::UnsupportedVersion { path: path.to_owned(), version: v });
            }
        },
        None => {},
    }
    m.table.insert(String::from_str("version"), TomlValue::Integer(3));
    push_str(&mut m.changes, "version: 2 -> 3");
    Ok(true)
}

/// Moving the top-level `source_key` into the table at `dest_path`.
pub open spec fn spec_move_top_level(
    s: MigrationData,
    source_key: Seq<char>,
    dest_path: Seq<Seq<char>>,
    dest_label: Seq<char>,
) -> MigrationData {
    match tget(s.table, source_key) {
        None => s,
        Some(v) => {
            let t1 = tremove(s.table, source_key);
            let (t2, out) = apply_at_spec(t1, dest_path, true, OpData::Get(source_key));
            let existing = match out {
                OutData::Value(e) => e,
                _ => None,
            };
            if spec_can_insert(existing, v) {
                let (t3, _) = apply_at_spec(t2, dest_path, true, OpData::Insert(source_key, v));
                MigrationData {
                    table: t3,
                    changes: s.changes.push(source_key + " -> "@ + dest_label),
                    manual: s.manual,
                }
            } else {
                MigrationData {
                    table: tinsert(t2, source_key, v),
                    changes: s.changes,
                    manual: s.manual.push(source_key + ": conflicts with existing "@ + dest_label),
                }
            }
        },
    }
}

fn outcome_value(o: Outcome) -> (r: Option<TomlValue>)
    ensures
        match r {
            Some(v) => o@ == OutData::Value(Some(v@)),
            None => !(o@ matches OutData::Value(Some(_))),
        },
{
    match o {
        Outcome::Value(v) => v,
        _ => None,
    }
}

/// Move the top-level `source_key` into the table at `dest_path`, or record a
/// manual step when a different value is already there.
pub fn move_top_level_key(m: &mut Migration, source_key: &str, dest_path: &Vec<String>, dest_label: &str)
    ensures
        final(m).data() == spec_move_top_level(old(m).data(), source_key@, views(dest_path@), dest_label@),
{
    assert(views(dest_path@).skip(0) =~= views(dest_path@));
    let Some(source_value) = m.table.remove(source_key) else {
        return;
    };
    let existing = outcome_value(apply_at(&mut m.table, dest_path, 0, true, PathOp::Get(String::from_str(source_key))));
    let fits = match &existing {
        Some(e) => can_insert(Some(e), &source_value),
        None => true,
    };
    if fits {
        let _ = apply_at(&mut m.table, dest_path, 0, true, PathOp::Insert(String::from_str(source_key), source_value));
        let mut c = String::from_str(source_key);
        c.append(" -> ");
        c.append(dest_label);
        push_string(&mut m.changes, c);
    } else {
        m.table.insert(String::from_str(source_key), source_value);
        let mut c = String::from_str(source_key);
        c.append(": conflicts with existing ");
        c.append(dest_label);
        push_string(&mut m.manual_steps, c);
    }
}

/// Moving `source_key` of the table at `src_path` to `dest_key` of the table at `dest_path`.
pub open spec fn spec_move_nested(
    s: MigrationData,
    src_path: Seq<Seq<char>>,
    src_key: Seq<char>,
    dest_path: Seq<Seq<char>>,
    dest_key: Seq<char>,
    label: Seq<char>,
) -> MigrationData {
    let (t1, out) = apply_at_spec(s.table, src_path, false, OpData::Remove(src_key));
    match out {
        OutData::Value(Some(v)) => {
            let (t2, out2) = apply_at_spec(t1, dest_path, true, OpData::Get(dest_key));
            let existing = match out2 {
                OutData::Value(e) => e,
                _ => None,
            };
            let from = join(src_path, "."@) + "."@ + src_key;
            if spec_can_insert(existing, v) {
                let (t3, _) = apply_at_spec(t2, dest_path, true, OpData::Insert(dest_key, v));
                MigrationData { table: t3, changes: s.changes.push(from + " -> "@ + label), manual: s.manual }
            } else {
                let (t3, _) = apply_at_spec(t2, src_path, true, OpData::Insert(src_key, v));
                MigrationData {
                    table: t3,
                    changes: s.changes,
                    manual: s.manual.push(from + ": conflicts with existing "@ + label),
                }
            }
        },
        _ => MigrationData { table: t1, ..s },
    }
}

/// Move a nested key to its new place, or record a manual step on a conflict.
pub fn move_nested_key(
    m: &mut Migration,
    src_path: &Vec<String>,
    src_key: &str,
    dest_path: &Vec<String>,
    dest_key: &str,
    label: &str,
)
    ensures
        final(m).data() == spec_move_nested(old(m).data(), views(src_path@), src_key@, views(dest_path@), dest_key@, label@),
{
    assert(views(dest_path@).skip(0) =~= views(dest_path@));
    assert(views(src_path@).skip(0) =~= views(src_path@));
    let removed = outcome_value(apply_at(&mut m.table, src_path, 0, false, PathOp::Remove(String::from_str(src_key))));
    let Some(source_value) = removed else {
        return;
    };
    let existing = outcome_value(apply_at(&mut m.table, dest_path, 0, true, PathOp::Get(String::from_str(dest_key))));
    let fits = match &existing {
        Some(e) => can_insert(Some(e), &source_value),
        None => true,
    };
    let mut from = join_strings(src_path, ".");
    from.append(".");
    from.append(src_key);
    if fits {
        let _ = apply_at(&mut m.table, dest_path, 0, true, PathOp::Insert(String::from_str(dest_key), source_value));
        from.append(" -> ");
        from.append(label);
        push_string(&mut m.changes, from);
    } else {
        let _ = apply_at(&mut m.table, src_path, 0, true, PathOp::Insert(String::from_str(src_key), source_value));
        from.append(": conflicts with existing ");
        from.append(label);
        push_string(&mut m.manual_steps, from);
    }
}

/// Replacing the string `old` under `key` of the table at `path` by `new`; whether it was replaced.
pub open spec fn spec_replace_string(t: TableData, path: Seq<Seq<char>>, key: Seq<char>, old: Seq<char>, new: Seq<char>) -> (TableData, bool) {
    let (t2, out) = apply_at_spec(t, path, false, OpData::ReplaceString(key, old, new));
    (t2, out == OutData::Flag(true))
}

pub fn replace_string(t: &mut TomlTable, path: &Vec<String>, key: &str, old_text: &str, new_text: &str) -> (r: bool)
    ensures
        (final(t)@, r) == spec_replace_string(old(t)@, views(path@), key@, old_text@, new_text@),
{
    assert(views(path@).skip(0) =~= views(path@));
    let o = apply_at(t, path, 0, false, PathOp::ReplaceString(String::from_str(key), String::from_str(old_text), String::from_str(new_text)));
    match o {
        Outcome::Flag(b) => b,
        _ => false,
    }
}

/// Setting `key` of the table at `path` to `text` unless present, recording `change` when set.
pub open spec fn spec_ensure_string(s: MigrationData, path: Seq<Seq<char>>, key: Seq<char>, text: Seq<char>, change: Seq<char>) -> MigrationData {
    let (t2, out) = apply_at_spec(s.table, path, true, OpData::EnsureString(key, text));
    MigrationData {
        table: t2,
        changes: if out == OutData::Flag(true) { s.changes.push(change) } else { s.changes },
        manual: s.manual,
    }
}

pub fn ensure_nested_string(m: &mut Migration, path: &Vec<String>, key: &str, text: &str, change: &str)
    ensures
        final(m).data() == spec_ensure_string(old(m).data(), views(path@), key@, text@, change@),
{
    assert(views(path@).skip(0) =~= views(path@));
    let o = apply_at(&mut m.table, path, 0, true, PathOp::EnsureString(String::from_str(key), String::from_str(text)));
    if let Outcome::Flag(true) = o {
        push_str(&mut m.changes, change);
    }
}

/// A path of one key.
fn path1(a: &str) -> (r: Vec<String>)
    ensures
        views(r@) == seq![a@],
{
    let r = vec![String::from_str(a)];
    assert(views(r@) =~= seq![a@]);
    r
}

/// A path of two keys.
fn path2(a: &str, b: &str) -> (r: Vec<String>)
    ensures
        views(r@) == seq![a@, b@],
{
    let r = vec![String::from_str(a), String::from_str(b)];
    assert(views(r@) =~= seq![a@, b@]);
    r
}

/// Moving the top-level `include` and `exclude` lists under `[workspace]`.
pub open spec fn spec_migrate_workspace_paths(s: MigrationData) -> MigrationData {
    let s1 = spec_move_top_level(s, "include"@, seq!["workspace"@], "workspace.include"@);
    spec_move_top_level(s1, "exclude"@, seq!["workspace"@], "workspace.exclude"@)
}

pub fn migrate_workspace_paths(m: &mut Migration)
    ensures
        final(m).data() == spec_migrate_workspace_paths(old(m).data()),
{
    let p = path1("workspace");
    move_top_level_key(m, "include", &p, "workspace.include");
    move_top_level_key(m, "exclude", &p, "workspace.exclude");
}

/// Renaming the output format `human` to `text` and moving `output.with_clippy`
/// to `adapters.clippy.enabled`.
pub open spec fn spec_migrate_output(s: MigrationData) -> MigrationData {
    let (t1, replaced) = spec_replace_string(s.table, seq!["output"@], "format"@, "human"@, "text"@);
    let s1 = MigrationData {
        table: t1,
        changes: if replaced { s.changes.push("output.format: human -> text"@) } else { s.changes },
        manual: s.manual,
    };
    spec_move_nested(s1, seq!["output"@], "with_clippy"@, seq!["adapters"@, "clippy"@], "enabled"@, "adapters.clippy.enabled"@)
}

pub fn migrate_output(m: &mut Migration)
    ensures
        final(m).data() == spec_migrate_output(old(m).data()),
{
    let out = path1("output");
    if replace_string(&mut m.table, &out, "format", "human", "text") {
        push_str(&mut m.changes, "output.format: human -> text");
    }
    let clippy = path2("adapters", "clippy");
    move_nested_key(m, &out, "with_clippy", &clippy, "enabled", "adapters.clippy.enabled");
}

/// Filling in the toolchain defaults of the current layout (for a table of the
/// previous layout) and renaming the toolchain `current` to `stable`.
pub open spec fn spec_migrate_toolchains(s: MigrationData, add_defaults: bool) -> MigrationData {
    let engine = seq!["engine"@];
    let clippy = seq!["adapters"@, "clippy"@];
    let s1 = if add_defaults {
        let a = spec_ensure_string(s, engine, "toolchain"@, "stable"@, "engine.toolchain: default stable"@);
        spec_ensure_string(a, engine, "nightly_toolchain"@, "nightly"@, "engine.nightly_toolchain: default nightly"@)
    } else {
        s
    };
    let (t2, r2) = spec_replace_string(s1.table, engine, "toolchain"@, "current"@, "stable"@);
    let s2 = MigrationData {
        table: t2,
        changes: if r2 { s1.changes.push("engine.toolchain: current -> stable"@) } else { s1.changes },
        manual: s1.manual,
    };
    let s3 = if add_defaults {
        spec_ensure_string(s2, clippy, "toolchain"@, "inherit"@, "adapters.clippy.toolchain: default inherit"@)
    } else {
        s2
    };
    let (t4, r4) = spec_replace_string(s3.table, clippy, "toolchain"@, "current"@, "stable"@);
    MigrationData {
        table: t4,
        changes: if r4 { s3.changes.push("adapters.clippy.toolchain: current -> stable"@) } else { s3.changes },
        manual: s3.manual,
    }
}

pub fn migrate_toolchains(m: &mut Migration, add_defaults: bool)
    ensures
        final(m).data() == spec_migrate_toolchains(old(m).data(), add_defaults),
{
    let engine = path1("engine");
    let clippy = path2("adapters", "clippy");
    if add_defaults {
        ensure_nested_string(m, &engine, "toolchain", "stable", "engine.toolchain: default stable");
        ensure_nested_string(m, &engine, "nightly_toolchain", "nightly", "engine.nightly_toolchain: default nightly");
    }
    if replace_string(&mut m.table, &engine, "toolchain", "current", "stable") {
        push_str(&mut m.changes, "engine.toolchain: current -> stable");
    }
    if add_defaults {
        ensure_nested_string(m, &clippy, "toolchain", "inherit", "adapters.clippy.toolchain: default inherit");
    }
    if replace_string(&mut m.table, &clippy, "toolchain", "current", "stable") {
        push_str(&mut m.changes, "adapters.clippy.toolchain: current -> stable");
    }
}

} // verus!
