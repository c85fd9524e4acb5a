//! The whole migration of a policy table, and its result.
use vstd::prelude::*;
use vstd::string::*;
use super::value::{
    TableData, TomlData, TomlTable, find_key, keys_unique, lemma_find_key_bounds, lemma_tget_tinsert, lemma_tinsert_same, tget,
    tinsert, tremove,
};
use super::path_ops::{OpData, OutData, apply_at_spec, at_path, lemma_apply_keeps};
use super::read::views;
use super::policy::ConfigError;
use super::legacy::{first_undotted, legacy_problem, validate_legacy_shape};
use super::migrate::{
    Migration, MigrationData, MigrationError, migrate_output, spec_rule_id_mapping, spec_can_insert, spec_ensure_string, spec_move_nested, spec_move_top_level,
    spec_replace_string, spec_should_migrate, spec_version, migrate_toolchains, migrate_version,
    migrate_workspace_paths, spec_migrate_output, spec_migrate_toolchains, spec_migrate_version,
    spec_migrate_workspace_paths,
};
use super::rule_keys::{
    migrate_rule_table, migrate_scope_rule_tables, spec_migrate_rule_table, spec_migrate_rules, spec_rules_step,
    spec_migrate_scopes, spec_scope_item, spec_scope_items, table_keys,
};
use super::policy::CURRENT_POLICY_VERSION;
use super::toml_text::{parse_toml_table, toml_parse_result};
use crate::text::{join, join_strings, chars_of};

verus! {

/// The steps after the version: workspace paths, output, toolchains, then the
/// rules of `[rules]` and of each `[[scope]]`.
pub open spec fn spec_migration_steps(s: MigrationData, legacy: bool) -> MigrationData {
    let s2 = spec_migrate_workspace_paths(s);
    let s3 = spec_migrate_output(s2);
    let s4 = spec_migrate_toolchains(s3, legacy);
    let s5 = spec_migrate_rule_table(s4, "rules"@);
    spec_migrate_scopes(s5)
}

/// A migration that starts from `t` with nothing recorded.
pub open spec fn fresh(t: TableData) -> MigrationData {
    MigrationData { table: t, changes: Seq::empty(), manual: Seq::empty() }
}

/// What migrating the policy table `t` of the file at `path` gives: the
/// version error, the manual steps (one per line), the key of an older layout
/// still left, or the migrated state.
pub open spec fn migration_outcome(t: TableData, path: Seq<char>, r: Result<Migration, MigrationError>) -> bool {
    match spec_migrate_version(fresh(t)) {
        Err(v) => r matches Err(MigrationError::UnsupportedVersion { path: p, version }) && p@ == path && version
            == v,
        Ok((s1, legacy)) => {
            let s = spec_migration_steps(s1, legacy);
            if s.manual.len() > 0 {
                r matches Err(MigrationError::Manual { path: p, message }) && p@ == path && message@ == join(
                    s.manual,
                    "\n"@,
                )
            } else {
                match legacy_problem(s.table) {
                    Some((k, msg)) => r matches Err(
                        MigrationError::InvalidMigratedPolicy(ConfigError::LegacyKey { path: p, key, message }),
                    ) && p@ == path && key@ == k && message@ == msg,
                    None => r matches Ok(m) && m.data() == s,
                }
            }
        },
    }
}

/// Migrate a parsed policy table to the current layout. It fails on a version
/// that cannot be migrated, on any step that needs a person (all such steps,
/// one per line), and when the result still has a key of the previous layout.
pub fn migrate_policy_table(table: TomlTable, path: &str) -> (r: Result<Migration, MigrationError>)
    ensures
        migration_outcome(table@, path@, r),
{
    let mut m = Migration { table, changes: Vec::new(), manual_steps: Vec::new() };
    assert(m.data().changes =~= Seq::<Seq<char>>::empty());
    assert(m.data().manual =~= Seq::<Seq<char>>::empty());
    let legacy = match migrate_version(&mut m, path) {
        Ok(b) => b,
        Err(e) => return Err(e),
    };
    migrate_workspace_paths(&mut m);
    migrate_output(&mut m);
    migrate_toolchains(&mut m, legacy);
    migrate_rule_table(&mut m, "rules");
    migrate_scope_rule_tables(&mut m);
    if m.manual_steps.len() > 0 {
        let message = join_strings(&m.manual_steps, "\n");
        assert(m.manual_steps@.map_values(|s: String| s@) =~= views(m.manual_steps@));
        return Err(MigrationError::Manual { path: path.to_owned(), message });
    }
    match validate_legacy_shape(&m.table, path) {
        Ok(()) => Ok(m),
        Err(e) => Err(MigrationError::InvalidMigratedPolicy(e)),
    }
}

/// Migrate the policy that the file at `path` holds as `text`: a parse error
/// names the file; a table is migrated as `migrate_policy_table` does.
pub fn migrate_policy_source(text: &str, path: &str) -> (r: Result<Migration, MigrationError>)
    ensures
        match toml_parse_result(text@) {
            Err(m) => r matches Err(MigrationError::Parse { path: p, message }) && p@ == path@ && message@ == m,
            Ok(t) => migration_outcome(t, path@, r),
        },
{
    match parse_toml_table(text) {
        Err(message) => Err(MigrationError::Parse { path: path.to_owned(), message }),
        Ok(table) => migrate_policy_table(table, path),
    }
}

/// What a migration produced: the new text and the changes made.
#[derive(Debug)]
pub struct MigrationResult {
    pub changed: bool,
    pub text: String,
    pub changes: Vec<String>,
}

/// `text` with a final newline.
pub open spec fn with_final_newline(text: Seq<char>) -> Seq<char> {
    if text.len() > 0 && text.last() == '\n' {
        text
    } else {
        text.push('\n')
    }
}

/// The result of a migration whose table was written out as `text`: the text
/// ends in a newline, and the result counts as a change when any change was made.
pub fn finish_migration(text: String, changes: Vec<String>) -> (r: MigrationResult)
    ensures
        r.changed == (changes@.len() > 0),
        r.text@ == with_final_newline(text@),
        r.changes@ == changes@,
{
    let cs = chars_of(text.as_str());
    let mut text = text;
    if cs.len() == 0 || cs[cs.len() - 1] != '\n' {
        crate::text::push_char(&mut text, '\n');
    }
    let changed = changes.len() > 0;
    MigrationResult { changed, text, changes }
}


/// No key of the rules table `r` is one that the migration renames.
pub open spec fn rules_current(r: TableData) -> bool {
    forall|i: int| 0 <= i < r.len() ==> !spec_should_migrate(#[trigger] r[i].0)
}

/// An item of the `scope` array whose rules table, if it has one, is current.
pub open spec fn scope_item_current(item: TomlData) -> bool {
    match item {
        TomlData::Table(st) => match tget(st, "rules"@) {
            Some(TomlData::Table(r)) => rules_current(r),
            _ => true,
        },
        _ => true,
    }
}

/// The string under `key` of the table at `path`, if there is one, is not `text`.
pub open spec fn string_at_is_not(t: TableData, path: Seq<Seq<char>>, key: Seq<char>, text: Seq<char>) -> bool {
    at_path(t, path) matches Some(u) ==> tget(u, key) != Some(TomlData::Str(text))
}

/// A policy table in the current layout: the current version, and none of the
/// keys or values that a migration step moves, renames or fills in.
pub open spec fn policy_is_current(t: TableData) -> bool {
    &&& spec_version(t) == Some(CURRENT_POLICY_VERSION)
    &&& tget(t, "include"@) is None
    &&& tget(t, "exclude"@) is None
    &&& (at_path(t, seq!["output"@]) matches Some(o) ==> tget(o, "with_clippy"@) is None)
    &&& string_at_is_not(t, seq!["output"@], "format"@, "human"@)
    &&& string_at_is_not(t, seq!["engine"@], "toolchain"@, "current"@)
    &&& string_at_is_not(t, seq!["adapters"@, "clippy"@], "toolchain"@, "current"@)
    &&& (tget(t, "rules"@) matches Some(TomlData::Table(r)) ==> rules_current(r))
    &&& (tget(t, "scope"@) matches Some(TomlData::Array(items)) ==> forall|i: int|
        0 <= i < items.len() ==> scope_item_current(#[trigger] items[i]))
}

proof fn lemma_rules_unchanged(s: MigrationData, ctx: Seq<char>, keys: Seq<Seq<char>>)
    requires
        forall|i: int| 0 <= i < keys.len() ==> !spec_should_migrate(#[trigger] keys[i]),
    ensures
        spec_migrate_rules(s, ctx, keys) == s,
    decreases keys.len(),
{
    if keys.len() > 0 {
        let d = keys.drop_last();
        assert forall|i: int| 0 <= i < d.len() implies !spec_should_migrate(#[trigger] d[i]) by {
            assert(d[i] == keys[i]);
        }
        lemma_rules_unchanged(s, ctx, d);
        assert(!spec_should_migrate(keys[keys.len() - 1]));
    }
}

proof fn lemma_rules_table_unchanged(r: TableData, ctx: Seq<char>, c: Seq<Seq<char>>, m: Seq<Seq<char>>)
    requires
        rules_current(r),
    ensures
        spec_migrate_rules(MigrationData { table: r, changes: c, manual: m }, ctx, table_keys(r))
            == (MigrationData { table: r, changes: c, manual: m }),
        first_undotted(r) is None,
    decreases r.len(),
{
    let keys = table_keys(r);
    assert forall|i: int| 0 <= i < keys.len() implies !spec_should_migrate(#[trigger] keys[i]) by {
        assert(keys[i] == r[i].0);
    }
    lemma_rules_unchanged(MigrationData { table: r, changes: c, manual: m }, ctx, keys);
    if r.len() > 0 {
        assert(!spec_should_migrate(r[0].0));
        let d = r.drop_first();
        assert forall|i: int| 0 <= i < d.len() implies !spec_should_migrate(#[trigger] d[i].0) by {
            assert(d[i] == r[i + 1]);
        }
        lemma_rules_table_unchanged(d, ctx, c, m);
    }
}

proof fn lemma_scope_items_unchanged(items: Seq<TomlData>, c: Seq<Seq<char>>, m: Seq<Seq<char>>)
    requires
        forall|i: int| 0 <= i < items.len() ==> scope_item_current(#[trigger] items[i]),
    ensures
        spec_scope_items(items, c, m) == (items, c, m),
    decreases items.len(),
{
    if items.len() > 0 {
        let d = items.drop_last();
        assert forall|i: int| 0 <= i < d.len() implies scope_item_current(#[trigger] d[i]) by {
            assert(d[i] == items[i]);
        }
        lemma_scope_items_unchanged(d, c, m);
        let last = items.last();
        assert(scope_item_current(items[items.len() - 1]));
        let idx = (items.len() - 1) as nat;
        match last {
            TomlData::Table(st) => match tget(st, "rules"@) {
                Some(TomlData::Table(r)) => {
                    lemma_rules_table_unchanged(r, super::rule_keys::scope_context(idx), c, m);
                    lemma_tinsert_same(st, "rules"@, TomlData::Table(r));
                },
                _ => {},
            },
            _ => {},
        }
        assert(spec_scope_item(last, idx, c, m) == (last, c, m));
        assert(d.push(last) =~= items);
    }
}

/// A policy table already in the current layout migrates to itself: the version
/// step keeps it and marks it as not coming from the previous layout, every
/// later step changes nothing and records no change and no manual step, and no
/// key of an older layout is found in it.
pub proof fn current_policy_migrates_to_itself(t: TableData)
    requires
        policy_is_current(t),
    ensures
        spec_migrate_version(fresh(t)) == Ok::<(MigrationData, bool), u32>((fresh(t), false)),
        spec_migration_steps(fresh(t), false) == fresh(t),
        legacy_problem(t) is None,
{
    let s = fresh(t);
    let out = seq!["output"@];
    let engine = seq!["engine"@];
    let clippy = seq!["adapters"@, "clippy"@];
    assert(out.drop_first() =~= Seq::<Seq<char>>::empty());
    assert(engine.drop_first() =~= Seq::<Seq<char>>::empty());
    assert(clippy.drop_first() =~= seq!["clippy"@]);
    assert(clippy.drop_first().drop_first() =~= Seq::<Seq<char>>::empty());
    lemma_apply_keeps(t, out, OpData::ReplaceString("format"@, "human"@, "text"@));
    lemma_apply_keeps(t, out, OpData::Remove("with_clippy"@));
    lemma_apply_keeps(t, engine, OpData::ReplaceString("toolchain"@, "current"@, "stable"@));
    lemma_apply_keeps(t, clippy, OpData::ReplaceString("toolchain"@, "current"@, "stable"@));
    match tget(t, "output"@) {
        Some(TomlData::Table(o)) => {
            assert(at_path(o, out.drop_first()) == Some(o));
            assert(at_path(t, out) == Some(o));
        },
        _ => {},
    }
    match tget(t, "rules"@) {
        Some(TomlData::Table(r)) => {
            lemma_rules_table_unchanged(r, "rules"@, s.changes, s.manual);
            lemma_tinsert_same(t, "rules"@, TomlData::Table(r));
        },
        _ => {},
    }
    match tget(t, "scope"@) {
        Some(TomlData::Array(items)) => {
            lemma_scope_items_unchanged(items, s.changes, s.manual);
            lemma_tinsert_same(t, "scope"@, TomlData::Array(items));
        },
        _ => {},
    }
}

// ---------------------------------------------------------------------------
// What a successful migration leaves
// ---------------------------------------------------------------------------

proof fn lemma_tget_tremove_other(t: TableData, k: Seq<char>, k2: Seq<char>)
    requires
        k2 != k,
    ensures
        tget(tremove(t, k), k2) == tget(t, k2),
{
    lemma_find_key_bounds(t, k);
    lemma_find_key_bounds(t, k2);
    let n = tremove(t, k);
    lemma_find_key_bounds(n, k2);
    let i = find_key(t, k);
    if 0 <= i < t.len() {
        let j = find_key(t, k2);
        let j2 = find_key(n, k2);
        if j >= 0 {
            let jj = if j < i { j } else { j - 1 };
            assert(n[jj] == t[j]);
            if j2 < jj {
                if j2 < i {
                    assert(n[j2] == t[j2]);
                } else {
                    assert(n[j2] == t[j2 + 1]);
                }
            }
        } else if j2 >= 0 {
            if j2 < i {
                assert(n[j2] == t[j2]);
            } else {
                assert(n[j2] == t[j2 + 1]);
            }
        }
    }
}

/// An operation at a path leaves every other top-level key as it was.
proof fn lemma_apply_other(t: TableData, path: Seq<Seq<char>>, create: bool, op: OpData, k2: Seq<char>)
    requires
        path.len() > 0,
        k2 != path[0],
    ensures
        tget(apply_at_spec(t, path, create, op).0, k2) == tget(t, k2),
{
    match tget(t, path[0]) {
        Some(TomlData::Table(inner)) => {
            lemma_tget_tinsert(t, path[0], TomlData::Table(apply_at_spec(inner, path.drop_first(), create, op).0), k2);
        },
        _ => {
            lemma_tget_tinsert(t, path[0], TomlData::Table(apply_at_spec(Seq::empty(), path.drop_first(), create, op).0), k2);
        },
    }
}

proof fn lemma_top_keys_distinct()
    ensures
        "version"@ != "include"@,
        "version"@ != "exclude"@,
        "version"@ != "workspace"@,
        "version"@ != "output"@,
        "version"@ != "adapters"@,
        "version"@ != "engine"@,
        "version"@ != "rules"@,
        "version"@ != "scope"@,
        "engine"@ != "include"@,
        "engine"@ != "exclude"@,
        "engine"@ != "workspace"@,
        "engine"@ != "output"@,
        "engine"@ != "adapters"@,
        "engine"@ != "rules"@,
        "engine"@ != "scope"@,
        "adapters"@ != "include"@,
        "adapters"@ != "exclude"@,
        "adapters"@ != "workspace"@,
        "adapters"@ != "output"@,
        "adapters"@ != "engine"@,
        "adapters"@ != "rules"@,
        "adapters"@ != "scope"@,
        "rules"@ != "include"@,
        "rules"@ != "exclude"@,
        "rules"@ != "workspace"@,
        "rules"@ != "output"@,
        "rules"@ != "adapters"@,
        "rules"@ != "engine"@,
        "rules"@ != "scope"@,
        "scope"@ != "include"@,
        "scope"@ != "exclude"@,
        "scope"@ != "workspace"@,
        "scope"@ != "output"@,
        "scope"@ != "adapters"@,
        "scope"@ != "engine"@,
        "scope"@ != "rules"@,
{
    reveal_strlit("version");
    reveal_strlit("include");
    reveal_strlit("exclude");
    reveal_strlit("workspace");
    reveal_strlit("output");
    reveal_strlit("adapters");
    reveal_strlit("engine");
    reveal_strlit("rules");
    reveal_strlit("scope");
    assert("version"@[0] != "include"@[0] && "version"@[0] != "exclude"@[0]);
    assert("engine"@[0] != "output"@[0]);
    assert("rules"@[0] != "scope"@[0]);
    assert("scope"@[0] != "rules"@[0]);
    assert("engine"@[1] != "exclude"@[1]);
    assert("adapters"@[0] != "workspace"@[0]);
}

proof fn lemma_move_top_keeps(s: MigrationData, src: Seq<char>, dest: Seq<Seq<char>>, label: Seq<char>, k2: Seq<char>)
    requires
        dest.len() > 0,
        k2 != src,
        k2 != dest[0],
    ensures
        tget(spec_move_top_level(s, src, dest, label).table, k2) == tget(s.table, k2),
{
    if let Some(v) = tget(s.table, src) {
        let t1 = tremove(s.table, src);
        lemma_tget_tremove_other(s.table, src, k2);
        let t2 = apply_at_spec(t1, dest, true, OpData::Get(src)).0;
        lemma_apply_other(t1, dest, true, OpData::Get(src), k2);
        lemma_apply_other(t2, dest, true, OpData::Insert(src, v), k2);
        lemma_tget_tinsert(t2, src, v, k2);
    }
}

proof fn lemma_move_nested_keeps(
    s: MigrationData,
    src_path: Seq<Seq<char>>,
    src_key: Seq<char>,
    dest_path: Seq<Seq<char>>,
    dest_key: Seq<char>,
    label: Seq<char>,
    k2: Seq<char>,
)
    requires
        src_path.len() > 0,
        dest_path.len() > 0,
        k2 != src_path[0],
        k2 != dest_path[0],
    ensures
        tget(spec_move_nested(s, src_path, src_key, dest_path, dest_key, label).table, k2) == tget(s.table, k2),
{
    let t1 = apply_at_spec(s.table, src_path, false, OpData::Remove(src_key)).0;
    lemma_apply_other(s.table, src_path, false, OpData::Remove(src_key), k2);
    let t2 = apply_at_spec(t1, dest_path, true, OpData::Get(dest_key)).0;
    lemma_apply_other(t1, dest_path, true, OpData::Get(dest_key), k2);
    if let OutData::Value(Some(v)) = apply_at_spec(s.table, src_path, false, OpData::Remove(src_key)).1 {
        lemma_apply_other(t2, dest_path, true, OpData::Insert(dest_key, v), k2);
        lemma_apply_other(t2, src_path, true, OpData::Insert(src_key, v), k2);
    }
}

proof fn lemma_ensure_keeps(
    s: MigrationData,
    path: Seq<Seq<char>>,
    key: Seq<char>,
    text: Seq<char>,
    change: Seq<char>,
    k2: Seq<char>,
)
    requires
        path.len() > 0,
        k2 != path[0],
    ensures
        tget(spec_ensure_string(s, path, key, text, change).table, k2) == tget(s.table, k2),
        spec_ensure_string(s, path, key, text, change).manual == s.manual,
{
    lemma_apply_other(s.table, path, true, OpData::EnsureString(key, text), k2);
}

/// The steps after the version keep each top-level key that none of them moves.
proof fn lemma_steps_keep(s: MigrationData, legacy: bool, k2: Seq<char>)
    requires
        k2 == "version"@ || k2 == "rules"@ || k2 == "scope"@,
    ensures
        tget(spec_migrate_toolchains(spec_migrate_output(spec_migrate_workspace_paths(s)), legacy).table, k2)
            == tget(s.table, k2),
{
    lemma_top_keys_distinct();
    let ws = seq!["workspace"@];
    let out = seq!["output"@];
    let engine = seq!["engine"@];
    let clippy = seq!["adapters"@, "clippy"@];
    let s1 = spec_move_top_level(s, "include"@, ws, "workspace.include"@);
    lemma_move_top_keeps(s, "include"@, ws, "workspace.include"@, k2);
    lemma_move_top_keeps(s1, "exclude"@, ws, "workspace.exclude"@, k2);
    let s2 = spec_migrate_workspace_paths(s);
    lemma_apply_other(s2.table, out, false, OpData::ReplaceString("format"@, "human"@, "text"@), k2);
    let (t1, replaced) = spec_replace_string(s2.table, out, "format"@, "human"@, "text"@);
    let s2b = MigrationData {
        table: t1,
        changes: if replaced { s2.changes.push("output.format: human -> text"@) } else { s2.changes },
        manual: s2.manual,
    };
    lemma_move_nested_keeps(s2b, out, "with_clippy"@, clippy, "enabled"@, "adapters.clippy.enabled"@, k2);
    let s3 = spec_migrate_output(s2);
    let a = spec_ensure_string(s3, engine, "toolchain"@, "stable"@, "engine.toolchain: default stable"@);
    lemma_ensure_keeps(s3, engine, "toolchain"@, "stable"@, "engine.toolchain: default stable"@, k2);
    lemma_ensure_keeps(a, engine, "nightly_toolchain"@, "nightly"@, "engine.nightly_toolchain: default nightly"@, k2);
    let s4a = if legacy {
        spec_ensure_string(a, engine, "nightly_toolchain"@, "nightly"@, "engine.nightly_toolchain: default nightly"@)
    } else {
        s3
    };
    lemma_apply_other(s4a.table, engine, false, OpData::ReplaceString("toolchain"@, "current"@, "stable"@), k2);
    let (t2, r2) = spec_replace_string(s4a.table, engine, "toolchain"@, "current"@, "stable"@);
    let s4b = MigrationData {
        table: t2,
        changes: if r2 { s4a.changes.push("engine.toolchain: current -> stable"@) } else { s4a.changes },
        manual: s4a.manual,
    };
    lemma_ensure_keeps(s4b, clippy, "toolchain"@, "inherit"@, "adapters.clippy.toolchain: default inherit"@, k2);
    let s4c = if legacy {
        spec_ensure_string(s4b, clippy, "toolchain"@, "inherit"@, "adapters.clippy.toolchain: default inherit"@)
    } else {
        s4b
    };
    lemma_apply_other(s4c.table, clippy, false, OpData::ReplaceString("toolchain"@, "current"@, "stable"@), k2);
}

/// No current rule id is renamed again: each is dotted and has no newer id.
proof fn lemma_mapping_targets_current(k: Seq<char>)
    ensures
        spec_rule_id_mapping(k) matches Some(n) ==> !spec_should_migrate(n),
{
    reveal_strlit("absolute_filesystem_paths");
    reveal_strlit("absolute_module_paths");
    reveal_strlit("architecture.absolute_module_paths");
    reveal_strlit("architecture.banned_dependencies");
    reveal_strlit("architecture.layer_direction");
    reveal_strlit("architecture.qualified_module_paths");
    reveal_strlit("banned_dependencies");
    reveal_strlit("custom_pattern");
    reveal_strlit("design.duplicate_types_alias");
    reveal_strlit("design.god_object");
    reveal_strlit("design.naming_policy");
    reveal_strlit("design.public_api_errors");
    reveal_strlit("design.repeated_type_aliases");
    reveal_strlit("duplicate_logic");
    reveal_strlit("duplicate_types_alias");
    reveal_strlit("external_test_modules");
    reveal_strlit("file_complexity");
    reveal_strlit("god_object");
    reveal_strlit("hot_path_allocations");
    reveal_strlit("layer_direction");
    reveal_strlit("naming_policy");
    reveal_strlit("pattern.custom");
    reveal_strlit("perf.hot_path_allocations");
    reveal_strlit("portability.absolute_filesystem_paths");
    reveal_strlit("portability.absolute_literal_paths");
    reveal_strlit("public_api_errors");
    reveal_strlit("shape.duplicate_logic");
    reveal_strlit("shape.file_complexity");
    reveal_strlit("shape.responsibility_split");
    reveal_strlit("shape.srp_heuristic");
    reveal_strlit("srp_heuristic");
    reveal_strlit("testing.external_test_modules");
    assert("architecture.qualified_module_paths"@[1] != "absolute_module_paths"@[1]);
    assert("architecture.qualified_module_paths"@[13] != "architecture.absolute_module_paths"@[13]);
    assert("architecture.qualified_module_paths"@[1] != "absolute_filesystem_paths"@[1]);
    assert("architecture.qualified_module_paths"@[12] == '.');
    assert(spec_rule_id_mapping("architecture.qualified_module_paths"@) is None);
    assert("portability.absolute_literal_paths"@[21] != "portability.absolute_filesystem_paths"@[21]);
    assert("portability.absolute_literal_paths"@[1] != "public_api_errors"@[1]);
    assert("portability.absolute_literal_paths"@[11] == '.');
    assert("portability.absolute_literal_paths"@[0] != "architecture.absolute_module_paths"@[0]);
    assert("portability.absolute_literal_paths"@.len() != "absolute_filesystem_paths"@.len());
    assert("portability.absolute_literal_paths"@.len() != "absolute_module_paths"@.len());
    assert(spec_rule_id_mapping("portability.absolute_literal_paths"@) is None);
    assert("architecture.banned_dependencies"@[1] != "absolute_module_paths"@[1]);
    assert("architecture.banned_dependencies"@[13] != "architecture.absolute_module_paths"@[13]);
    assert("architecture.banned_dependencies"@[1] != "absolute_filesystem_paths"@[1]);
    assert("architecture.banned_dependencies"@[12] == '.');
    assert(spec_rule_id_mapping("architecture.banned_dependencies"@) is None);
    assert("pattern.custom"@[1] != "portability.absolute_filesystem_paths"@[1]);
    assert("pattern.custom"@[1] != "public_api_errors"@[1]);
    assert("pattern.custom"@[7] == '.');
    assert(spec_rule_id_mapping("pattern.custom"@) is None);
    assert("shape.duplicate_logic"@[1] != "srp_heuristic"@[1]);
    assert("shape.duplicate_logic"@[6] != "shape.srp_heuristic"@[6]);
    assert("shape.duplicate_logic"@[5] == '.');
    assert(spec_rule_id_mapping("shape.duplicate_logic"@) is None);
    assert("design.repeated_type_aliases"@[1] != "duplicate_logic"@[1]);
    assert("design.repeated_type_aliases"@[1] != "duplicate_types_alias"@[1]);
    assert("design.repeated_type_aliases"@[7] != "design.duplicate_types_alias"@[7]);
    assert("design.repeated_type_aliases"@[6] == '.');
    assert(spec_rule_id_mapping("design.repeated_type_aliases"@) is None);
    assert("testing.external_test_modules"@[7] == '.');
    assert(spec_rule_id_mapping("testing.external_test_modules"@) is None);
    assert("shape.file_complexity"@[1] != "srp_heuristic"@[1]);
    assert("shape.file_complexity"@[6] != "shape.srp_heuristic"@[6]);
    assert("shape.file_complexity"@[5] == '.');
    assert(spec_rule_id_mapping("shape.file_complexity"@) is None);
    assert("design.god_object"@[1] != "duplicate_logic"@[1]);
    assert("design.god_object"@[1] != "duplicate_types_alias"@[1]);
    assert("design.god_object"@[7] != "design.duplicate_types_alias"@[7]);
    assert("design.god_object"@[6] == '.');
    assert(spec_rule_id_mapping("design.god_object"@) is None);
    assert("perf.hot_path_allocations"@[1] != "portability.absolute_filesystem_paths"@[1]);
    assert("perf.hot_path_allocations"@[1] != "public_api_errors"@[1]);
    assert("perf.hot_path_allocations"@[4] == '.');
    assert(spec_rule_id_mapping("perf.hot_path_allocations"@) is None);
    assert("architecture.layer_direction"@[1] != "absolute_module_paths"@[1]);
    assert("architecture.layer_direction"@[13] != "architecture.absolute_module_paths"@[13]);
    assert("architecture.layer_direction"@[1] != "absolute_filesystem_paths"@[1]);
    assert("architecture.layer_direction"@[12] == '.');
    assert(spec_rule_id_mapping("architecture.layer_direction"@) is None);
    assert("design.naming_policy"@[1] != "duplicate_logic"@[1]);
    assert("design.naming_policy"@[1] != "duplicate_types_alias"@[1]);
    assert("design.naming_policy"@[7] != "design.duplicate_types_alias"@[7]);
    assert("design.naming_policy"@[6] == '.');
    assert(spec_rule_id_mapping("design.naming_policy"@) is None);
    assert("design.public_api_errors"@[1] != "duplicate_logic"@[1]);
    assert("design.public_api_errors"@[1] != "duplicate_types_alias"@[1]);
    assert("design.public_api_errors"@[7] != "design.duplicate_types_alias"@[7]);
    assert("design.public_api_errors"@[6] == '.');
    assert(spec_rule_id_mapping("design.public_api_errors"@) is None);
    assert("shape.responsibility_split"@[1] != "srp_heuristic"@[1]);
    assert("shape.responsibility_split"@[6] != "shape.srp_heuristic"@[6]);
    assert("shape.responsibility_split"@[5] == '.');
    assert(spec_rule_id_mapping("shape.responsibility_split"@) is None);
}



/// Removing a key from a table without repeated keys leaves no entry with
/// that key, keeps the keys unique, and adds no key.
proof fn lemma_tremove_entries(t: TableData, k: Seq<char>)
    requires
        keys_unique(t),
    ensures
        keys_unique(tremove(t, k)),
        forall|j: int| 0 <= j < tremove(t, k).len() ==> #[trigger] tremove(t, k)[j].0 != k && exists|i: int|
            0 <= i < t.len() && t[i].0 == tremove(t, k)[j].0,
{
    lemma_find_key_bounds(t, k);
    let i = find_key(t, k);
    let n = tremove(t, k);
    if 0 <= i < t.len() {
        assert forall|a: int, b: int| 0 <= a < b < n.len() implies n[a].0 != n[b].0 by {
            let aa = if a < i { a } else { a + 1 };
            let bb = if b < i { b } else { b + 1 };
            assert(n[a] == t[aa] && n[b] == t[bb]);
        }
        assert forall|j: int| 0 <= j < n.len() implies #[trigger] n[j].0 != k && exists|x: int|
            0 <= x < t.len() && t[x].0 == n[j].0 by {
            let jj = if j < i { j } else { j + 1 };
            assert(n[j] == t[jj]);
            assert(jj != i);
        }
    } else {
        assert forall|j: int| 0 <= j < n.len() implies #[trigger] n[j].0 != k && exists|x: int|
            0 <= x < t.len() && t[x].0 == n[j].0 by {
            assert(t[j].0 == n[j].0);
        }
    }
}

/// Setting a key of a table without repeated keys keeps the keys unique and
/// adds no key but that one.
proof fn lemma_tinsert_entries(t: TableData, k: Seq<char>, v: TomlData)
    requires
        keys_unique(t),
    ensures
        keys_unique(tinsert(t, k, v)),
        forall|j: int| 0 <= j < tinsert(t, k, v).len() ==> #[trigger] tinsert(t, k, v)[j].0 == k || exists|i: int|
            0 <= i < t.len() && t[i].0 == tinsert(t, k, v)[j].0,
{
    lemma_find_key_bounds(t, k);
    let i = find_key(t, k);
    let n = tinsert(t, k, v);
    if 0 <= i < t.len() {
        assert forall|a: int, b: int| 0 <= a < b < n.len() implies n[a].0 != n[b].0 by {
            assert(n[a].0 == t[a].0 && n[b].0 == t[b].0);
        }
        assert forall|j: int| 0 <= j < n.len() implies #[trigger] n[j].0 == k || exists|x: int|
            0 <= x < t.len() && t[x].0 == n[j].0 by {
            assert(n[j].0 == t[j].0);
        }
    } else {
        let p = super::value::insert_pos(t, k);
        super::value::lemma_insert_pos_bounds(t, k);
        assert forall|a: int, b: int| 0 <= a < b < n.len() implies n[a].0 != n[b].0 by {
            if a != p && b != p {
                let aa = if a < p { a } else { a - 1 };
                let bb = if b < p { b } else { b - 1 };
                assert(n[a] == t[aa] && n[b] == t[bb]);
            } else if a == p {
                assert(n[b] == t[b - 1]);
            } else {
                assert(n[a] == t[a]);
            }
        }
        assert forall|j: int| 0 <= j < n.len() implies #[trigger] n[j].0 == k || exists|x: int|
            0 <= x < t.len() && t[x].0 == n[j].0 by {
            if j < p {
                assert(n[j] == t[j]);
            } else if j > p {
                assert(n[j] == t[j - 1]);
            }
        }
    }
}

/// Every key of `t` that a migration renames is one of `keys` from `n` on.
spec fn pending_only(t: TableData, keys: Seq<Seq<char>>, n: int) -> bool {
    forall|j: int|
        0 <= j < t.len() && spec_should_migrate(#[trigger] t[j].0) ==> exists|m: int|
            n <= m < keys.len() && keys[m] == t[j].0
}

/// Renaming the first `n` of `keys` adds manual steps or leaves only keys
/// from the `n`-th on to rename.
proof fn lemma_rules_renamed(s: MigrationData, ctx: Seq<char>, keys: Seq<Seq<char>>, n: int)
    requires
        0 <= n <= keys.len(),
        keys_unique(s.table),
        pending_only(s.table, keys, 0),
    ensures
        spec_migrate_rules(s, ctx, keys.take(n)).manual.len() >= s.manual.len(),
        spec_migrate_rules(s, ctx, keys.take(n)).manual.len() == s.manual.len() ==> keys_unique(
            spec_migrate_rules(s, ctx, keys.take(n)).table,
        ) && pending_only(spec_migrate_rules(s, ctx, keys.take(n)).table, keys, n),
    decreases n,
{
    if n == 0 {
        assert(keys.take(0) =~= Seq::<Seq<char>>::empty());
    } else {
        lemma_rules_renamed(s, ctx, keys, n - 1);
        assert(keys.take(n).drop_last() =~= keys.take(n - 1));
        let p = spec_migrate_rules(s, ctx, keys.take(n - 1));
        let k = keys[n - 1];
        assert(keys.take(n).last() == k);
        let r = spec_migrate_rules(s, ctx, keys.take(n));
        assert(r == spec_rules_step(p, ctx, k));
        if r.manual.len() == s.manual.len() && p.manual.len() == s.manual.len() {
            let t = p.table;
            if !spec_should_migrate(k) {
                assert forall|j: int| 0 <= j < t.len() && spec_should_migrate(#[trigger] t[j].0) implies exists|m: int|
                    n <= m < keys.len() && keys[m] == t[j].0 by {
                    let m = choose|m: int| n - 1 <= m < keys.len() && keys[m] == t[j].0;
                    assert(m != n - 1);
                }
            } else if let Some(nk) = spec_rule_id_mapping(k) {
                lemma_mapping_targets_current(k);
                lemma_find_key_bounds(t, k);
                match tget(t, k) {
                    None => {
                        assert forall|j: int| 0 <= j < t.len() && spec_should_migrate(#[trigger] t[j].0) implies exists|m: int|
                            n <= m < keys.len() && keys[m] == t[j].0 by {
                            let m = choose|m: int| n - 1 <= m < keys.len() && keys[m] == t[j].0;
                            assert(m != n - 1);
                        }
                    },
                    Some(v) => {
                        let t1 = tremove(t, k);
                        lemma_tremove_entries(t, k);
                        if spec_can_insert(tget(t1, nk), v) {
                            let t2 = tinsert(t1, nk, v);
                            lemma_tinsert_entries(t1, nk, v);
                            assert(r.table == t2);
                            assert forall|j: int| 0 <= j < t2.len() && spec_should_migrate(#[trigger] t2[j].0) implies exists|m: int|
                                n <= m < keys.len() && keys[m] == t2[j].0 by {
                                let x = t2[j].0;
                                assert(x != nk);
                                let i1 = choose|i1: int| 0 <= i1 < t1.len() && t1[i1].0 == x;
                                assert(t1[i1].0 != k);
                                let i0 = choose|i0: int| 0 <= i0 < t.len() && t[i0].0 == t1[i1].0;
                                assert(spec_should_migrate(t[i0].0));
                                let m = choose|m: int| n - 1 <= m < keys.len() && keys[m] == t[i0].0;
                                assert(m != n - 1);
                            }
                        }
                    },
                }
            }
        }
    }
}

/// A `scope` item whose rules table, if it has one, has unique keys.
pub open spec fn scope_rules_unique(item: TomlData) -> bool {
    match item {
        TomlData::Table(st) => match tget(st, "rules"@) {
            Some(TomlData::Table(r)) => keys_unique(r),
            _ => true,
        },
        _ => true,
    }
}

/// The rules table of a migrated rules table is current, unless a manual step was added.
proof fn lemma_rules_table_renamed(r: TableData, ctx: Seq<char>, c: Seq<Seq<char>>, m: Seq<Seq<char>>)
    requires
        keys_unique(r),
    ensures
        spec_migrate_rules(MigrationData { table: r, changes: c, manual: m }, ctx, table_keys(r)).manual.len() >= m.len(),
        spec_migrate_rules(MigrationData { table: r, changes: c, manual: m }, ctx, table_keys(r)).manual.len() == m.len()
            ==> rules_current(spec_migrate_rules(MigrationData { table: r, changes: c, manual: m }, ctx, table_keys(r)).table),
{
    let s = MigrationData { table: r, changes: c, manual: m };
    let keys = table_keys(r);
    assert forall|j: int| 0 <= j < r.len() && spec_should_migrate(#[trigger] r[j].0) implies exists|x: int|
        0 <= x < keys.len() && keys[x] == r[j].0 by {
        assert(keys[j] == r[j].0);
    }
    lemma_rules_renamed(s, ctx, keys, keys.len() as int);
    assert(keys.take(keys.len() as int) =~= keys);
}

proof fn lemma_scope_items_renamed(items: Seq<TomlData>, c: Seq<Seq<char>>, m: Seq<Seq<char>>)
    requires
        forall|i: int| 0 <= i < items.len() ==> scope_rules_unique(#[trigger] items[i]),
    ensures
        spec_scope_items(items, c, m).0.len() == items.len(),
        spec_scope_items(items, c, m).2.len() >= m.len(),
        spec_scope_items(items, c, m).2.len() == m.len() ==> forall|i: int|
            0 <= i < items.len() ==> scope_item_current(#[trigger] spec_scope_items(items, c, m).0[i]),
    decreases items.len(),
{
    if items.len() > 0 {
        let d = items.drop_last();
        assert forall|i: int| 0 <= i < d.len() implies scope_rules_unique(#[trigger] d[i]) by {
            assert(d[i] == items[i]);
        }
        lemma_scope_items_renamed(d, c, m);
        let (done, c1, mm) = spec_scope_items(d, c, m);
        let last = items.last();
        assert(scope_rules_unique(items[items.len() - 1]));
        let idx = (items.len() - 1) as nat;
        let (it, c2, m2) = spec_scope_item(last, idx, c1, mm);
        match last {
            TomlData::Table(st) => match tget(st, "rules"@) {
                Some(TomlData::Table(r)) => {
                    lemma_rules_table_renamed(r, super::rule_keys::scope_context(idx), c1, mm);
                    let res = spec_migrate_rules(
                        MigrationData { table: r, changes: c1, manual: mm },
                        super::rule_keys::scope_context(idx),
                        table_keys(r),
                    );
                    lemma_tget_tinsert(st, "rules"@, TomlData::Table(res.table), "rules"@);
                },
                _ => {},
            },
            _ => {},
        }
        let out = spec_scope_items(items, c, m);
        assert(out.0 == done.push(it));
        if out.2.len() == m.len() {
            assert forall|i: int| 0 <= i < items.len() implies scope_item_current(#[trigger] out.0[i]) by {
                if i < d.len() {
                    assert(out.0[i] == done[i]);
                }
            }
        }
    }
}

/// After replacing the string `old` at `key` of the table at `path`, that
/// string is not `old`.
proof fn lemma_replace_clears(t: TableData, path: Seq<Seq<char>>, key: Seq<char>, old: Seq<char>, new: Seq<char>)
    requires
        old != new,
    ensures
        string_at_is_not(apply_at_spec(t, path, false, OpData::ReplaceString(key, old, new)).0, path, key, old),
    decreases path.len(),
{
    let op = OpData::ReplaceString(key, old, new);
    if path.len() == 0 {
        lemma_tget_tinsert(t, key, TomlData::Str(new), key);
    } else {
        match tget(t, path[0]) {
            Some(TomlData::Table(inner)) => {
                lemma_replace_clears(inner, path.drop_first(), key, old, new);
                let inner2 = apply_at_spec(inner, path.drop_first(), false, op).0;
                lemma_tget_tinsert(t, path[0], TomlData::Table(inner2), path[0]);
            },
            _ => {},
        }
    }
}

/// Which table a path of one or two keys reaches depends only on the value
/// under its first key.
proof fn lemma_at_path_first(t: TableData, u: TableData, path: Seq<Seq<char>>)
    requires
        path.len() > 0,
        tget(t, path[0]) == tget(u, path[0]),
    ensures
        at_path(t, path) == at_path(u, path),
{
}

/// The state a migration of `t` ends in, when its version can be migrated.
pub open spec fn migration_of(t: TableData) -> Option<MigrationData> {
    match spec_migrate_version(fresh(t)) {
        Ok((s1, legacy)) => Some(spec_migration_steps(s1, legacy)),
        Err(_) => None,
    }
}

/// A migration of `t` that succeeds: its version can be migrated, no step
/// needs a person, and no key of an older layout is left.
pub open spec fn migration_succeeds(t: TableData) -> bool {
    migration_of(t) matches Some(s) && s.manual.len() == 0 && legacy_problem(s.table) is None
}

/// The rules tables of `t` (under `rules` and in each `scope` item) have no
/// key twice, as in any table read from TOML.
pub open spec fn rules_tables_unique(t: TableData) -> bool {
    &&& (tget(t, "rules"@) matches Some(TomlData::Table(r)) ==> keys_unique(r))
    &&& (tget(t, "scope"@) matches Some(TomlData::Array(items)) ==> forall|i: int|
        0 <= i < items.len() ==> scope_rules_unique(#[trigger] items[i]))
}

/// A policy table that migrates successfully ends in the current layout.
pub proof fn successful_migration_is_current(t: TableData)
    requires
        rules_tables_unique(t),
        migration_succeeds(t),
    ensures
        policy_is_current(migration_of(t)->0.table),
{
    lemma_top_keys_distinct();
    let (s1, legacy) = spec_migrate_version(fresh(t))->Ok_0;
    // version
    lemma_tget_tinsert(t, "version"@, TomlData::Int(3), "version"@);
    lemma_tget_tinsert(t, "version"@, TomlData::Int(3), "rules"@);
    lemma_tget_tinsert(t, "version"@, TomlData::Int(3), "scope"@);
    let s2 = spec_migrate_workspace_paths(s1);
    let s3 = spec_migrate_output(s2);
    let s4 = spec_migrate_toolchains(s3, legacy);
    lemma_steps_keep(s1, legacy, "version"@);
    lemma_steps_keep(s1, legacy, "rules"@);
    lemma_steps_keep(s1, legacy, "scope"@);
    let s5 = spec_migrate_rule_table(s4, "rules"@);
    let s6 = spec_migrate_scopes(s5);
    assert(s6 == migration_of(t)->0);
    // the rules table
    match tget(s4.table, "rules"@) {
        Some(TomlData::Table(r)) => {
            lemma_rules_table_renamed(r, "rules"@, s4.changes, s4.manual);
            let res = spec_migrate_rules(MigrationData { table: r, changes: s4.changes, manual: s4.manual }, "rules"@, table_keys(r));
            lemma_tget_tinsert(s4.table, "rules"@, TomlData::Table(res.table), "rules"@);
            lemma_tget_tinsert(s4.table, "rules"@, TomlData::Table(res.table), "scope"@);
            lemma_tget_tinsert(s4.table, "rules"@, TomlData::Table(res.table), "version"@);
            lemma_tget_tinsert(s4.table, "rules"@, TomlData::Table(res.table), "engine"@);
            lemma_tget_tinsert(s4.table, "rules"@, TomlData::Table(res.table), "adapters"@);
        },
        _ => {},
    }
    // the scope items
    match tget(s5.table, "scope"@) {
        Some(TomlData::Array(items)) => {
            lemma_scope_items_renamed(items, s5.changes, s5.manual);
            let (new_items, c, mm) = spec_scope_items(items, s5.changes, s5.manual);
            lemma_tget_tinsert(s5.table, "scope"@, TomlData::Array(new_items), "scope"@);
            lemma_tget_tinsert(s5.table, "scope"@, TomlData::Array(new_items), "rules"@);
            lemma_tget_tinsert(s5.table, "scope"@, TomlData::Array(new_items), "version"@);
            lemma_tget_tinsert(s5.table, "scope"@, TomlData::Array(new_items), "engine"@);
            lemma_tget_tinsert(s5.table, "scope"@, TomlData::Array(new_items), "adapters"@);
        },
        _ => {},
    }
    assert(s6.manual.len() >= s5.manual.len());
    assert(s5.manual.len() >= s4.manual.len());
    lemma_toolchains_current(s3, legacy);
    lemma_at_path_first(s6.table, s4.table, seq!["engine"@]);
    lemma_at_path_first(s6.table, s4.table, seq!["adapters"@, "clippy"@]);
    let f = s6.table;
    assert(seq!["output"@].drop_first() =~= Seq::<Seq<char>>::empty());
    match tget(f, "output"@) {
        Some(TomlData::Table(o)) => {
            assert(at_path(o, seq!["output"@].drop_first()) == Some(o));
            assert(at_path(f, seq!["output"@]) == Some(o));
        },
        _ => {},
    }
}

/// After the toolchain step, neither toolchain is `current`.
proof fn lemma_toolchains_current(s: MigrationData, legacy: bool)
    ensures
        string_at_is_not(spec_migrate_toolchains(s, legacy).table, seq!["engine"@], "toolchain"@, "current"@),
        string_at_is_not(spec_migrate_toolchains(s, legacy).table, seq!["adapters"@, "clippy"@], "toolchain"@, "current"@),
{
    lemma_top_keys_distinct();
    reveal_strlit("current");
    reveal_strlit("stable");
    assert("current"@[0] != "stable"@[0]);
    let engine = seq!["engine"@];
    let clippy = seq!["adapters"@, "clippy"@];
    let op = OpData::ReplaceString("toolchain"@, "current"@, "stable"@);
    let s1 = if legacy {
        let a = spec_ensure_string(s, engine, "toolchain"@, "stable"@, "engine.toolchain: default stable"@);
        spec_ensure_string(a, engine, "nightly_toolchain"@, "nightly"@, "engine.nightly_toolchain: default nightly"@)
    } else {
        s
    };
    let t2 = apply_at_spec(s1.table, engine, false, op).0;
    lemma_replace_clears(s1.table, engine, "toolchain"@, "current"@, "stable"@);
    let s2 = MigrationData {
        table: t2,
        changes: if spec_replace_string(s1.table, engine, "toolchain"@, "current"@, "stable"@).1 {
            s1.changes.push("engine.toolchain: current -> stable"@)
        } else {
            s1.changes
        },
        manual: s1.manual,
    };
    lemma_ensure_keeps(s2, clippy, "toolchain"@, "inherit"@, "adapters.clippy.toolchain: default inherit"@, "engine"@);
    let s3 = if legacy {
        spec_ensure_string(s2, clippy, "toolchain"@, "inherit"@, "adapters.clippy.toolchain: default inherit"@)
    } else {
        s2
    };
    lemma_apply_other(s3.table, clippy, false, op, "engine"@);
    lemma_replace_clears(s3.table, clippy, "toolchain"@, "current"@, "stable"@);
    let t4 = apply_at_spec(s3.table, clippy, false, op).0;
    lemma_at_path_first(t4, t2, engine);
}

/// Migrating a policy table that a migration produced changes nothing: the
/// version is kept, no step changes the table or records a change or a manual
/// step, and no key of an older layout is found.
pub proof fn migrating_twice_changes_nothing(t: TableData)
    requires
        rules_tables_unique(t),
        migration_succeeds(t),
    ensures
        migration_of(migration_of(t)->0.table) == Some(fresh(migration_of(t)->0.table)),
        migration_succeeds(migration_of(t)->0.table),
{
    successful_migration_is_current(t);
    current_policy_migrates_to_itself(migration_of(t)->0.table);
}

} // verus!
