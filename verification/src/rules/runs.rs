//! Running the rules that read a file's top-level items, types or text on
//! one workspace file: the rule's options are read for the file, a file whose
//! options do not decode is passed over, and so is a file that did not parse.
use vstd::prelude::*;
use crate::config::policy::{Policy, resolved_settings};
use crate::config::rule_options::{
    DuplicateTypesAliasConfig, GodObjectConfig, PublicApiErrorsConfig, RuleOptions, SrpHeuristicConfig,
    settings_table,
};
use crate::config::value::TableData;
use crate::emit::{Emitter, ReportEmitter};
use crate::report::{Finding, FindingView, Severity};
use crate::rules::catalog::{
    CustomPatternRule, DuplicateTypesAliasCandidateRule, GodObjectRule, PublicApiErrorsRule, SrpHeuristicRule, custom_pattern_info,
    god_object_info, public_api_errors_info, repeated_type_aliases_info, responsibility_split_info,
};
use crate::rules::custom_pattern::{CustomPatternConfig, patterns_findings};
use crate::rules::top_items::{TopItem, api_findings, god_findings, srp_findings};
use crate::rules::type_aliases::{TypeRef, alias_findings, kept_texts};
use crate::sorted::strictly_sorted;
use crate::config::level::Level;

verus! {

/// The table a rule's options are read from for the file at `path`.
pub open spec fn file_table<T: RuleOptions>(policy: Policy, rule_id: Seq<char>, path: Seq<char>) -> TableData {
    settings_table(resolved_settings(policy, rule_id, Some(path), T::spec_default_level()))
}

/// The emitter gained `added`, after what it had, and nothing else.
pub open spec fn emitted(before: ReportEmitter, after: ReportEmitter, added: Seq<FindingView>) -> bool {
    &&& after.findings@.map_values(|f: Finding| f@) == before.findings@.map_values(|f: Finding| f@) + added
    &&& after.metrics@ == before.metrics@
}

fn emit_all(out: &mut ReportEmitter, findings: Vec<Finding>)
    ensures
        emitted(*old(out), *final(out), findings@.map_values(|f: Finding| f@)),
{
    let ghost start = out.findings@.map_values(|f: Finding| f@);
    let ghost fv = findings@.map_values(|f: Finding| f@);
    let mut rest = findings;
    let ghost mut i: int = 0;
    while rest.len() > 0
        invariant
            0 <= i <= fv.len(),
            rest@.map_values(|f: Finding| f@) == fv.skip(i),
            out.findings@.map_values(|f: Finding| f@) == start + fv.take(i),
            out.metrics@ == old(out).metrics@,
            start == old(out).findings@.map_values(|f: Finding| f@),
        decreases rest@.len(),
    {
        let ghost before = out.findings@.map_values(|f: Finding| f@);
        let ghost rv = rest@.map_values(|f: Finding| f@);
        let f = rest.remove(0);
        let ghost v = f@;
        assert(v == rv[0]);
        assert(rest@.map_values(|f: Finding| f@) =~= rv.drop_first());
        assert(rv.drop_first() =~= fv.skip(i + 1));
        out.emit(f);
        assert(out.findings@.map_values(|f: Finding| f@) =~= before.push(v));
        assert(fv.take(i + 1) =~= fv.take(i).push(fv[i]));
        proof {
            i = i + 1;
        }
    }
    assert(fv.take(i) =~= fv);
}

impl GodObjectRule {
    /// Runs the rule on one file, given its top-level items (`None` when it did
    /// not parse).
    pub fn run_file(policy: &Policy, path: &str, items: Option<&Vec<TopItem>>, out: &mut ReportEmitter)
        ensures
            ({
                let t = file_table::<GodObjectConfig>(*policy, god_object_info().id@, path@);
                if GodObjectConfig::decodable(t) && items is Some {
                    exists|cfg: GodObjectConfig|
                        GodObjectConfig::decodes(t, cfg) && emitted(
                            *old(out),
                            *final(out),
                            if cfg.level.spec_severity() == Severity::Info {
                                Seq::empty()
                            } else {
                                god_findings(path@, cfg, items.unwrap()@)
                            },
                        )
                } else {
                    emitted(*old(out), *final(out), Seq::empty())
                }
            }),
    {
        let cfg = match policy.decode_rule::<GodObjectConfig>(GodObjectRule::static_info().id, Some(path)) {
            Ok(c) => c,
            Err(_) => {
                assert(out.findings@.map_values(|f: Finding| f@) =~= out.findings@.map_values(|f: Finding| f@) + Seq::<FindingView>::empty());
                return;
            },
        };
        match items {
            Some(items) => {
                let found = GodObjectRule::check_items(path, &cfg, items);
                emit_all(out, found);
            },
            None => {
                assert(out.findings@.map_values(|f: Finding| f@) =~= out.findings@.map_values(|f: Finding| f@) + Seq::<FindingView>::empty());
            },
        }
    }
}

impl SrpHeuristicRule {
    /// Runs the rule on one file, given its top-level items (`None` when it did
    /// not parse).
    pub fn run_file(policy: &Policy, path: &str, items: Option<&Vec<TopItem>>, out: &mut ReportEmitter)
        ensures
            ({
                let t = file_table::<SrpHeuristicConfig>(*policy, responsibility_split_info().id@, path@);
                if SrpHeuristicConfig::decodable(t) && items is Some {
                    exists|cfg: SrpHeuristicConfig|
                        SrpHeuristicConfig::decodes(t, cfg) && emitted(
                            *old(out),
                            *final(out),
                            srp_findings(path@, cfg, items.unwrap()@),
                        )
                } else {
                    emitted(*old(out), *final(out), Seq::empty())
                }
            }),
    {
        let cfg = match policy.decode_rule::<SrpHeuristicConfig>(SrpHeuristicRule::static_info().id, Some(path)) {
            Ok(c) => c,
            Err(_) => {
                assert(out.findings@.map_values(|f: Finding| f@) =~= out.findings@.map_values(|f: Finding| f@) + Seq::<FindingView>::empty());
                return;
            },
        };
        match items {
            Some(items) => {
                let found = SrpHeuristicRule::check_items(path, &cfg, items);
                emit_all(out, found);
            },
            None => {
                assert(out.findings@.map_values(|f: Finding| f@) =~= out.findings@.map_values(|f: Finding| f@) + Seq::<FindingView>::empty());
            },
        }
    }
}

impl PublicApiErrorsRule {
    /// Runs the rule on one file, given its top-level items (`None` when it did
    /// not parse).
    pub fn run_file(policy: &Policy, path: &str, items: Option<&Vec<TopItem>>, out: &mut ReportEmitter)
        ensures
            ({
                let t = file_table::<PublicApiErrorsConfig>(*policy, public_api_errors_info().id@, path@);
                if PublicApiErrorsConfig::decodable(t) && items is Some {
                    exists|cfg: PublicApiErrorsConfig|
                        PublicApiErrorsConfig::decodes(t, cfg) && emitted(
                            *old(out),
                            *final(out),
                            if cfg.level.spec_severity() == Severity::Info {
                                Seq::empty()
                            } else {
                                api_findings(path@, cfg, items.unwrap()@)
                            },
                        )
                } else {
                    emitted(*old(out), *final(out), Seq::empty())
                }
            }),
    {
        let cfg = match policy.decode_rule::<PublicApiErrorsConfig>(PublicApiErrorsRule::static_info().id, Some(path)) {
            Ok(c) => c,
            Err(_) => {
                assert(out.findings@.map_values(|f: Finding| f@) =~= out.findings@.map_values(|f: Finding| f@) + Seq::<FindingView>::empty());
                return;
            },
        };
        match items {
            Some(items) => {
                let found = PublicApiErrorsRule::check_items(path, &cfg, items);
                emit_all(out, found);
            },
            None => {
                assert(out.findings@.map_values(|f: Finding| f@) =~= out.findings@.map_values(|f: Finding| f@) + Seq::<FindingView>::empty());
            },
        }
    }
}

impl DuplicateTypesAliasCandidateRule {
    /// Runs the rule on one file, given the types written in it (`None` when it
    /// did not parse).
    pub fn run_file(policy: &Policy, path: &str, types: Option<&Vec<TypeRef>>, out: &mut ReportEmitter)
        ensures
            ({
                let t = file_table::<DuplicateTypesAliasConfig>(*policy, repeated_type_aliases_info().id@, path@);
                if DuplicateTypesAliasConfig::decodable(t) && types is Some {
                    exists|cfg: DuplicateTypesAliasConfig, texts: Seq<Seq<char>>|
                        DuplicateTypesAliasConfig::decodes(t, cfg) && strictly_sorted(texts) && texts.to_set()
                            == kept_texts(cfg, types.unwrap()@) && emitted(
                            *old(out),
                            *final(out),
                            alias_findings(path@, cfg, types.unwrap()@, texts),
                        )
                } else {
                    emitted(*old(out), *final(out), Seq::empty())
                }
            }),
    {
        let cfg = match policy.decode_rule::<DuplicateTypesAliasConfig>(
            DuplicateTypesAliasCandidateRule::static_info().id,
            Some(path),
        ) {
            Ok(c) => c,
            Err(_) => {
                assert(out.findings@.map_values(|f: Finding| f@) =~= out.findings@.map_values(|f: Finding| f@) + Seq::<FindingView>::empty());
                return;
            },
        };
        match types {
            Some(types) => {
                let found = DuplicateTypesAliasCandidateRule::check_types(path, &cfg, types);
                emit_all(out, found);
            },
            None => {
                assert(out.findings@.map_values(|f: Finding| f@) =~= out.findings@.map_values(|f: Finding| f@) + Seq::<FindingView>::empty());
            },
        }
    }
}

impl CustomPatternRule {
    /// Runs the rule on one file, at `rel` below the workspace root, given its
    /// text; this rule reads the text only, so it runs on files that did not
    /// parse too.
    pub fn run_file(policy: &Policy, path: &str, rel: &str, text: &str, out: &mut ReportEmitter)
        ensures
            ({
                let t = file_table::<CustomPatternConfig>(*policy, custom_pattern_info().id@, path@);
                if CustomPatternConfig::decodable(t) {
                    exists|cfg: CustomPatternConfig|
                        CustomPatternConfig::decodes(t, cfg) && emitted(
                            *old(out),
                            *final(out),
                            if cfg.level == Level::Allow {
                                Seq::empty()
                            } else {
                                patterns_findings(cfg, path@, rel@, text@, cfg.patterns@)
                            },
                        )
                } else {
                    emitted(*old(out), *final(out), Seq::empty())
                }
            }),
    {
        let cfg = match policy.decode_rule::<CustomPatternConfig>(CustomPatternRule::static_info().id, Some(path)) {
            Ok(c) => c,
            Err(_) => {
                assert(out.findings@.map_values(|f: Finding| f@) =~= out.findings@.map_values(|f: Finding| f@) + Seq::<FindingView>::empty());
                return;
            },
        };
        let found = CustomPatternRule::check_file(&cfg, path, rel, text);
        emit_all(out, found);
    }
}

} // verus!
