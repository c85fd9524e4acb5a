//! One check run: which rules run, which are skipped, and the report.
use vstd::prelude::*;
use vstd::string::*;
use crate::config::policy::{EngineMode, Policy};
use crate::emit::ReportEmitter;
use crate::report::{AdapterRun, Metrics, Report, RunSummary, RuleCatalogEntry};
use crate::rules::{RuleBackend, RuleInfo};
use crate::rules::catalog::{catalog, enabled_catalog, enabled_rules, entry_of, rule_catalog_entries};
use crate::semantic::{SemanticBackendAvailability, SemanticBackendStatus};

verus! {

/// Why a run cannot start.
#[derive(Debug)]
pub enum RunError {
    SemanticBackendRequired(String),
}

/// What a run does with the enabled rules, in order: the ids of the semantic
/// rules it skips (when the semantic backend is unavailable), the backends it
/// uses (each once, in first use), and the rules it runs.
pub open spec fn plan_of(rules: Seq<RuleInfo>, available: bool) -> (Seq<Seq<char>>, Seq<RuleBackend>, Seq<RuleInfo>)
    decreases rules.len(),
{
    if rules.len() == 0 {
        (Seq::empty(), Seq::empty(), Seq::empty())
    } else {
        let (skipped, engines, run) = plan_of(rules.drop_last(), available);
        let info = rules.last();
        if info.backend == RuleBackend::Semantic && !available {
            (skipped.push(info.id@), engines, run)
        } else {
            (skipped, if engines.contains(info.backend) { engines } else { engines.push(info.backend) }, run.push(info))
        }
    }
}

/// Every enabled rule is either run or skipped, and skipped only when it needs
/// the unavailable semantic backend; each backend is listed once, and the
/// backends listed are exactly those of the rules that run.
pub proof fn plan_accounts_for_every_rule(rules: Seq<RuleInfo>, available: bool)
    ensures
        ({
            let (skipped, engines, run) = plan_of(rules, available);
            &&& skipped.len() + run.len() == rules.len()
            &&& forall|i: int| 0 <= i < run.len() ==> !((#[trigger] run[i]).backend == RuleBackend::Semantic && !available)
            &&& forall|i: int, j: int| 0 <= i < j < engines.len() ==> engines[i] != engines[j]
            &&& forall|i: int| 0 <= i < run.len() ==> engines.contains((#[trigger] run[i]).backend)
            &&& forall|i: int| 0 <= i < engines.len() ==> exists|j: int| 0 <= j < run.len() && (#[trigger] run[j]).backend == #[trigger] engines[i]
        }),
    decreases rules.len(),
{
    if rules.len() > 0 {
        plan_accounts_for_every_rule(rules.drop_last(), available);
        let (skipped, engines, run) = plan_of(rules.drop_last(), available);
        let info = rules.last();
        if !(info.backend == RuleBackend::Semantic && !available) {
            let run2 = run.push(info);
            let engines2 = if engines.contains(info.backend) { engines } else { engines.push(info.backend) };
            assert forall|i: int| 0 <= i < run2.len() implies engines2.contains((#[trigger] run2[i]).backend) by {
                if i < run.len() {
                    assert(run2[i] == run[i]);
                    assert(engines.contains(run[i].backend));
                    if !engines.contains(info.backend) {
                        let k = choose|k: int| 0 <= k < engines.len() && engines[k] == run[i].backend;
                        assert(engines2[k] == engines[k]);
                    }
                } else {
                    if !engines.contains(info.backend) {
                        assert(engines2[engines.len() as int] == info.backend);
                    }
                }
            }
            assert forall|i: int| 0 <= i < engines2.len() implies exists|j: int| 0 <= j < run2.len() && (#[trigger] run2[j]).backend == #[trigger] engines2[i] by {
                if i < engines.len() {
                    let j = choose|j: int| 0 <= j < run.len() && (#[trigger] run[j]).backend == engines[i];
                    assert(engines2[i] == engines[i]);
                    assert(run2[j] == run[j]);
                } else {
                    assert(run2[run.len() as int] == info);
                }
            }
        }
    }
}

/// The plan of a run: the report before any rule ran, and the rules to run.
#[derive(Debug)]
pub struct RunPlan {
    pub report: Report,
    pub rules: Vec<RuleInfo>,
}

/// The run cannot start: the policy requires the semantic backend and it is unavailable.
pub open spec fn blocked(policy: Policy, status: SemanticBackendStatus) -> bool {
    policy.engine.semantic == EngineMode::Require && status.availability != SemanticBackendAvailability::Available
}

/// The report that a run starts from, before any rule ran.
pub open spec fn starting_report(r: Report, policy: Policy, status: SemanticBackendStatus) -> bool {
    let available = status.availability == SemanticBackendAvailability::Available;
    let (skipped, engines, _) = plan_of(enabled_catalog(policy), available);
    &&& r.rule_catalog@.len() == catalog().len()
    &&& forall|i: int| 0 <= i < r.rule_catalog@.len() ==> entry_of(#[trigger] r.rule_catalog@[i], catalog()[i])
    &&& r.summary.skipped_rules@.map_values(|s: String| s@) == skipped
    &&& r.summary.engine_used@ == engines
    &&& r.summary.semantic_backend_available == available
    &&& r.summary.semantic_backend_reason == status.reason
    &&& r.summary.toolchain is None
    &&& r.summary.adapter_runs@.len() == 1
    &&& r.summary.adapter_runs@[0].name@ == "clippy"@
    &&& r.summary.adapter_runs@[0].enabled == policy.adapters.clippy.enabled
    &&& r.summary.adapter_runs@[0].toolchain is None
    &&& r.summary.adapter_runs@[0].status is None
}

fn unavailable_message(status: &SemanticBackendStatus) -> (r: String)
    ensures
        r@ == match status.reason {
            Some(m) => m@,
            None => "semantic backend unavailable"@,
        },
{
    match &status.reason {
        Some(m) => m.clone(),
        None => String::from_str("semantic backend unavailable"),
    }
}

pub struct Runner;

impl Runner {
    /// Decide what a run does: fail when the policy requires the semantic
    /// backend and it is unavailable; otherwise the starting report and the
    /// enabled rules to run, semantic ones left out when the backend is unavailable.
    pub fn plan(policy: &Policy, semantic_status: &SemanticBackendStatus) -> (r: Result<RunPlan, RunError>)
        ensures
            blocked(*policy, *semantic_status) ==> (r matches Err(RunError::SemanticBackendRequired(m)) && m@
                == match semantic_status.reason {
                    Some(x) => x@,
                    None => "semantic backend unavailable"@,
                }),
            !blocked(*policy, *semantic_status) ==> (r matches Ok(p) && starting_report(p.report, *policy, *semantic_status)
                && p.report.findings@.len() == 0 && p.report.metrics.per_file@.len() == 0
                && p.rules@ == plan_of(enabled_catalog(*policy), semantic_status.availability == SemanticBackendAvailability::Available).2),
    {
        let available = semantic_status.is_available();
        if policy.engine.semantic == EngineMode::Require && !available {
            return Err(RunError::SemanticBackendRequired(unavailable_message(semantic_status)));
        }
        let enabled = enabled_rules(policy);
        let mut skipped: Vec<String> = Vec::new();
        let mut engines: Vec<RuleBackend> = Vec::new();
        let mut run: Vec<RuleInfo> = Vec::new();
        let mut i: usize = 0;
        assert(enabled@.take(0) =~= Seq::<RuleInfo>::empty());
        assert(skipped@.map_values(|s: String| s@) =~= Seq::<Seq<char>>::empty());
        while i < enabled.len()
            invariant
                i <= enabled@.len(),
                skipped@.map_values(|s: String| s@) == plan_of(enabled@.take(i as int), available).0,
                engines@ == plan_of(enabled@.take(i as int), available).1,
                run@ == plan_of(enabled@.take(i as int), available).2,
            decreases enabled.len() - i,
        {
            let info = enabled[i];
            assert(enabled@.take(i + 1).drop_last() =~= enabled@.take(i as int));
            assert(enabled@.take(i + 1).last() == info);
            if info.backend == RuleBackend::Semantic && !available {
                let ghost before = skipped@;
                skipped.push(info.id.to_owned());
                assert(skipped@.map_values(|s: String| s@) =~= before.map_values(|s: String| s@).push(info.id@));
            } else {
                let mut seen = false;
                let mut j: usize = 0;
                while j < engines.len()
                    invariant
                        j <= engines@.len(),
                        seen <==> exists|k: int| 0 <= k < j && engines@[k] == info.backend,
                    decreases engines.len() - j,
                {
                    if engines[j] == info.backend {
                        seen = true;
                    }
                    j = j + 1;
                }
                assert(seen == engines@.contains(info.backend));
                if !seen {
                    engines.push(info.backend);
                }
                run.push(info);
            }
            i = i + 1;
        }
        assert(enabled@.take(enabled@.len() as int) =~= enabled@);
        let summary = RunSummary {
            engine_used: engines,
            semantic_backend_available: available,
            semantic_backend_reason: semantic_status.reason.clone(),
            toolchain: None,
            skipped_rules: skipped,
            adapter_runs: vec![AdapterRun {
                name: String::from_str("clippy"),
                enabled: policy.adapters.clippy.enabled,
                toolchain: None,
                status: None,
            }],
        };
        let report = Report {
            findings: Vec::new(),
            metrics: Metrics { per_file: Vec::new() },
            rule_catalog: rule_catalog_entries(),
            summary,
        };
        Ok(RunPlan { report, rules: run })
    }

    /// The report of a run whose planned rules emitted into `emitter`: the
    /// starting report with the emitted findings and metrics.
    pub fn run_with_semantic_status(
        policy: &Policy,
        semantic_status: &SemanticBackendStatus,
        emitter: ReportEmitter,
    ) -> (r: Result<Report, RunError>)
        ensures
            blocked(*policy, *semantic_status) ==> (r matches Err(RunError::SemanticBackendRequired(m)) && m@
                == match semantic_status.reason {
                    Some(x) => x@,
                    None => "semantic backend unavailable"@,
                }),
            !blocked(*policy, *semantic_status) ==> (r matches Ok(rep) && starting_report(rep, *policy, *semantic_status)
                && rep.findings@ == emitter.findings@ && rep.metrics.per_file@ == emitter.metrics@),
    {
        match Runner::plan(policy, semantic_status) {
            Err(e) => Err(e),
            Ok(plan) => {
                let mut report = plan.report;
                report.findings = emitter.findings;
                report.metrics = Metrics { per_file: emitter.metrics };
                Ok(report)
            },
        }
    }
}

} // verus!
