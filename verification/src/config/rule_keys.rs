//! Renaming the rule keys of the previous layout inside `[rules]` and the
//! `rules` tables of each `[[scope]]`.
use vstd::prelude::*;
use vstd::string::*;
use super::value::{TableData, TomlData, TomlTable, TomlValue, tget, tinsert, tremove, copy_value, view_values};
use super::read::views;
use super::migrate::{
    Migration, MigrationData, can_insert, rule_id_mapping, should_migrate_rule_key, spec_can_insert,
    spec_rule_id_mapping, spec_should_migrate,
};
use crate::text::{decimal, u64_to_string};

verus! {

/// Renaming `src` of `t` to `dst`; `false` (and `t` unchanged as a map) when a
/// different value is already under `dst`. A missing `src` counts as done.
pub open spec fn spec_move_table_key(t: TableData, src: Seq<char>, dst: Seq<char>) -> (TableData, bool) {
    match tget(t, src) {
        None => (t, true),
        Some(v) => {
            let t1 = tremove(t, src);
            if spec_can_insert(tget(t1, dst), v) {
                (tinsert(t1, dst, v), true)
            } else {
                (tinsert(t1, src, v), false)
            }
        },
    }
}

/// Rename `source_key` to `destination_key`; `false` on a conflict.
pub fn move_table_key(t: &mut TomlTable, source_key: &str, destination_key: &str) -> (r: bool)
    ensures
        (final(t)@, r) == spec_move_table_key(old(t)@, source_key@, destination_key@),
{
    let Some(v) = t.remove(source_key) else {
        return true;
    };
    if can_insert(t.get(destination_key), &v) {
        t.insert(String::from_str(destination_key), v);
        true
    } else {
        t.insert(String::from_str(source_key), v);
        false
    }
}

pub open spec fn unknown_rule_step(ctx: Seq<char>, k: Seq<char>) -> Seq<char> {
    ctx + "."@ + k + ": unknown legacy rule id"@
}

pub open spec fn conflicting_rule_step(ctx: Seq<char>, k: Seq<char>, n: Seq<char>) -> Seq<char> {
    ctx + "."@ + k + ": conflicts with existing "@ + ctx + "."@ + n
}

pub open spec fn rule_move_change(ctx: Seq<char>, k: Seq<char>, n: Seq<char>) -> Seq<char> {
    ctx + "."@ + k + " -> "@ + ctx + "."@ + n
}

/// One key of a rules table under `ctx`: renamed, reported unknown, or
/// reported in conflict; keys that need no migration are left alone.
pub open spec fn spec_rules_step(s: MigrationData, ctx: Seq<char>, k: Seq<char>) -> MigrationData {
    if !spec_should_migrate(k) {
        s
    } else {
        match spec_rule_id_mapping(k) {
            None => MigrationData { table: s.table, changes: s.changes, manual: s.manual.push(unknown_rule_step(ctx, k)) },
            Some(n) => {
                let (t2, ok) = spec_move_table_key(s.table, k, n);
                if ok {
                    MigrationData { table: t2, changes: s.changes.push(rule_move_change(ctx, k, n)), manual: s.manual }
                } else {
                    MigrationData { table: t2, changes: s.changes, manual: s.manual.push(conflicting_rule_step(ctx, k, n)) }
                }
            },
        }
    }
}

/// The keys in `keys`, taken in order, each by [`spec_rules_step`].
pub open spec fn spec_migrate_rules(s: MigrationData, ctx: Seq<char>, keys: Seq<Seq<char>>) -> MigrationData
    decreases keys.len(),
{
    if keys.len() == 0 {
        s
    } else {
        spec_rules_step(spec_migrate_rules(s, ctx, keys.drop_last()), ctx, keys.last())
    }
}

/// The keys of a table, in order.
pub open spec fn table_keys(t: TableData) -> Seq<Seq<char>> {
    t.map_values(|e: (Seq<char>, TomlData)| e.0)
}

fn unknown_rule_message(ctx: &str, k: &str) -> (r: String)
    ensures
        r@ == unknown_rule_step(ctx@, k@),
{
    let mut s = String::from_str(ctx);
    s.append(".");
    s.append(k);
    s.append(": unknown legacy rule id");
    s
}

fn conflicting_rule_message(ctx: &str, k: &str, n: &str) -> (r: String)
    ensures
        r@ == conflicting_rule_step(ctx@, k@, n@),
{
    let mut s = String::from_str(ctx);
    s.append(".");
    s.append(k);
    s.append(": conflicts with existing ");
    s.append(ctx);
    s.append(".");
    s.append(n);
    s
}

fn rule_move_message(ctx: &str, k: &str, n: &str) -> (r: String)
    ensures
        r@ == rule_move_change(ctx@, k@, n@),
{
    let mut s = String::from_str(ctx);
    s.append(".");
    s.append(k);
    s.append(" -> ");
    s.append(ctx);
    s.append(".");
    s.append(n);
    s
}

/// Rename the legacy keys of a rules table found under `context`, recording
/// each rename in `changes` and each key that needs a person in `manual_steps`.
pub fn migrate_rules_in_table(
    rules: &mut TomlTable,
    context: &str,
    changes: &mut Vec<String>,
    manual_steps: &mut Vec<String>,
)
    ensures
        ({
            let s = spec_migrate_rules(
                MigrationData { table: old(rules)@, changes: views(old(changes)@), manual: views(old(manual_steps)@) },
                context@,
                table_keys(old(rules)@),
            );
            &&& final(rules)@ == s.table
            &&& views(final(changes)@) == s.changes
            &&& views(final(manual_steps)@) == s.manual
        }),
{
    let keys = rules.keys();
    let ghost k0 = table_keys(rules@);
    let ghost init = MigrationData { table: rules@, changes: views(changes@), manual: views(manual_steps@) };
    assert(views(keys@) =~= k0);
    assert(k0.take(0) =~= Seq::<Seq<char>>::empty());
    let mut i: usize = 0;
    while i < keys.len()
        invariant
            i <= keys@.len(),
            views(keys@) == k0,
            spec_migrate_rules(init, context@, k0.take(i as int)).table == rules@,
            spec_migrate_rules(init, context@, k0.take(i as int)).changes == views(changes@),
            spec_migrate_rules(init, context@, k0.take(i as int)).manual == views(manual_steps@),
        decreases keys.len() - i,
    {
        let k = keys[i].as_str();
        assert(k0.take(i + 1).drop_last() =~= k0.take(i as int));
        assert(k0.take(i + 1).last() == k@);
        let ghost before_c = changes@;
        let ghost before_m = manual_steps@;
        if should_migrate_rule_key(k) {
            match rule_id_mapping(k) {
                None => {
                    manual_steps.push(unknown_rule_message(context, k));
                    assert(views(manual_steps@) =~= views(before_m).push(unknown_rule_step(context@, k@)));
                },
                Some(n) => {
                    if move_table_key(rules, k, n) {
                        changes.push(rule_move_message(context, k, n));
                        assert(views(changes@) =~= views(before_c).push(rule_move_change(context@, k@, n@)));
                    } else {
                        manual_steps.push(conflicting_rule_message(context, k, n));
                        assert(views(manual_steps@) =~= views(before_m).push(
                            conflicting_rule_step(context@, k@, n@),
                        ));
                    }
                },
            }
        }
        i = i + 1;
    }
    assert(k0.take(keys@.len() as int) =~= k0);
}

/// Migrating the rules table under the top-level `key`, if there is one.
pub open spec fn spec_migrate_rule_table(s: MigrationData, key: Seq<char>) -> MigrationData {
    match tget(s.table, key) {
        Some(TomlData::Table(r)) => {
            let res = spec_migrate_rules(
                MigrationData { table: r, changes: s.changes, manual: s.manual },
                key,
                table_keys(r),
            );
            MigrationData { table: tinsert(s.table, key, TomlData::Table(res.table)), changes: res.changes, manual: res.manual }
        },
        _ => s,
    }
}

pub fn migrate_rule_table(m: &mut Migration, key: &str)
    ensures
        final(m).data() == spec_migrate_rule_table(old(m).data(), key@),
{
    let found = match m.table.get(key) {
        Some(TomlValue::Table(r)) => Some(r.copy()),
        _ => None,
    };
    let Some(mut rules) = found else {
        return;
    };
    migrate_rules_in_table(&mut rules, key, &mut m.changes, &mut m.manual_steps);
    m.table.insert(String::from_str(key), TomlValue::Table(rules));
}

/// The context under which the rules of the scope at `idx` are reported.
pub open spec fn scope_context(idx: nat) -> Seq<char> {
    "scope["@ + decimal(idx) + "].rules"@
}

/// One item of the `scope` array: its `rules` table migrated, if it has one.
pub open spec fn spec_scope_item(
    item: TomlData,
    idx: nat,
    changes: Seq<Seq<char>>,
    manual: Seq<Seq<char>>,
) -> (TomlData, Seq<Seq<char>>, Seq<Seq<char>>) {
    match item {
        TomlData::Table(st) => match tget(st, "rules"@) {
            Some(TomlData::Table(r)) => {
                let res = spec_migrate_rules(
                    MigrationData { table: r, changes, manual },
                    scope_context(idx),
                    table_keys(r),
                );
                (TomlData::Table(tinsert(st, "rules"@, TomlData::Table(res.table))), res.changes, res.manual)
            },
            _ => (item, changes, manual),
        },
        _ => (item, changes, manual),
    }
}

/// The items of the `scope` array, each by [`spec_scope_item`], in order.
pub open spec fn spec_scope_items(
    items: Seq<TomlData>,
    changes: Seq<Seq<char>>,
    manual: Seq<Seq<char>>,
) -> (Seq<TomlData>, Seq<Seq<char>>, Seq<Seq<char>>)
    decreases items.len(),
{
    if items.len() == 0 {
        (Seq::empty(), changes, manual)
    } else {
        let (done, c, mm) = spec_scope_items(items.drop_last(), changes, manual);
        let (it, c2, m2) = spec_scope_item(items.last(), (items.len() - 1) as nat, c, mm);
        (done.push(it), c2, m2)
    }
}

/// Migrating the rules tables of every `[[scope]]`.
pub open spec fn spec_migrate_scopes(s: MigrationData) -> MigrationData {
    match tget(s.table, "scope"@) {
        Some(TomlData::Array(items)) => {
            let (new_items, c, mm) = spec_scope_items(items, s.changes, s.manual);
            MigrationData { table: tinsert(s.table, "scope"@, TomlData::Array(new_items)), changes: c, manual: mm }
        },
        _ => s,
    }
}

fn scope_context_text(idx: u64) -> (r: String)
    ensures
        r@ == scope_context(idx as nat),
{
    let mut s = String::from_str("scope[");
    let d = u64_to_string(idx);
    s.append(d.as_str());
    s.append("].rules");
    s
}

fn migrate_scope_item(
    item: &TomlValue,
    idx: usize,
    changes: &mut Vec<String>,
    manual_steps: &mut Vec<String>,
) -> (r: TomlValue)
    ensures
        (r@, views(final(changes)@), views(final(manual_steps)@)) == spec_scope_item(
            item@,
            idx as nat,
            views(old(changes)@),
            views(old(manual_steps)@),
        ),
{
    match item {
        TomlValue::Table(st) => {
            let found = match st.get("rules") {
                Some(TomlValue::Table(r)) => Some(r.copy()),
                _ => None,
            };
            match found {
                Some(mut rules) => {
                    let ctx = scope_context_text(idx as u64);
                    migrate_rules_in_table(&mut rules, ctx.as_str(), changes, manual_steps);
                    let mut out = st.copy();
                    out.insert(String::from_str("rules"), TomlValue::Table(rules));
                    TomlValue::Table(out)
                },
                None => copy_value(item),
            }
        },
        _ => copy_value(item),
    }
}

pub fn migrate_scope_rule_tables(m: &mut Migration)
    ensures
        final(m).data() == spec_migrate_scopes(old(m).data()),
{
    let mut out: Vec<TomlValue> = Vec::new();
    let found: Option<&Vec<TomlValue>> = match m.table.get("scope") {
        Some(TomlValue::Array(items)) => Some(items),
        _ => None,
    };
    let Some(items) = found else {
        return;
    };
    let ghost vs = view_values(items@);
    let ghost c0 = views(m.changes@);
    let ghost m0 = views(m.manual_steps@);
    assert(vs.take(0) =~= Seq::<TomlData>::empty());
    assert(view_values(out@) =~= Seq::<TomlData>::empty());
    let mut i: usize = 0;
    while i < items.len()
        invariant
            i <= items@.len(),
            vs == view_values(items@),
            m.table@ == old(m).table@,
            tget(m.table@, "scope"@) == Some(TomlData::Array(vs)),
            view_values(out@) == spec_scope_items(vs.take(i as int), c0, m0).0,
            views(m.changes@) == spec_scope_items(vs.take(i as int), c0, m0).1,
            views(m.manual_steps@) == spec_scope_items(vs.take(i as int), c0, m0).2,
        decreases items.len() - i,
    {
        assert(vs.take(i + 1).drop_last() =~= vs.take(i as int));
        assert(vs.take(i + 1).last() == items@[i as int]@);
        let ghost before = view_values(out@);
        let v = migrate_scope_item(&items[i], i, &mut m.changes, &mut m.manual_steps);
        out.push(v);
        assert(view_values(out@) =~= before.push(v@));
        i = i + 1;
    }
    assert(vs.take(items@.len() as int) =~= vs);
    let ghost res = spec_scope_items(vs, c0, m0);
    m.table.insert(String::from_str("scope"), TomlValue::Array(out));
}

} // verus!
