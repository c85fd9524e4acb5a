//! Whether the semantic backend can run.
use vstd::prelude::*;
use vstd::string::*;

verus! {

#[derive(Debug, Clone, Copy, PartialEq, Eq, Structural)]
pub enum SemanticBackendAvailability {
    Available,
    Unavailable,
}

/// The semantic backend's availability on a toolchain, with the reason when it
/// is unavailable.
#[derive(Debug, Clone)]
pub struct SemanticBackendStatus {
    pub availability: SemanticBackendAvailability,
    pub runtime: String,
    pub reason: Option<String>,
}

/// Why a build without the semantic backend cannot run it on `runtime`.
pub open spec fn built_without_reason(runtime: Seq<char>) -> Seq<char> {
    "semantic backend unavailable on `"@ + runtime
        + "` because rscheck-semantic was built without the `nightly` feature"@
}

impl SemanticBackendStatus {
    pub fn available(runtime: &str) -> (r: SemanticBackendStatus)
        ensures
            r.availability == SemanticBackendAvailability::Available,
            r.runtime@ == runtime@,
            r.reason is None,
    {
        SemanticBackendStatus {
            availability: SemanticBackendAvailability::Available,
            runtime: runtime.to_owned(),
            reason: None,
        }
    }

    pub fn unavailable(runtime: &str, reason: String) -> (r: SemanticBackendStatus)
        ensures
            r.availability == SemanticBackendAvailability::Unavailable,
            r.runtime@ == runtime@,
            r.reason == Some(reason),
    {
        SemanticBackendStatus {
            availability: SemanticBackendAvailability::Unavailable,
            runtime: runtime.to_owned(),
            reason: Some(reason),
        }
    }

    /// The status on the toolchain the process runs on.
    pub fn probe() -> (r: SemanticBackendStatus)
        ensures
            r.availability == SemanticBackendAvailability::Unavailable,
            r.runtime@ == "current"@,
            r.reason matches Some(m) && m@ == built_without_reason("current"@),
    {
        SemanticBackendStatus::probe_for_runtime("current")
    }

    /// The status on `runtime`. This build carries no semantic backend, so it
    /// is unavailable on every toolchain.
    pub fn probe_for_runtime(runtime: &str) -> (r: SemanticBackendStatus)
        ensures
            r.availability == SemanticBackendAvailability::Unavailable,
            r.runtime@ == runtime@,
            r.reason matches Some(m) && m@ == built_without_reason(runtime@),
    {
        let mut reason = String::from_str("semantic backend unavailable on `");
        reason.append(runtime);
        reason.append("` because rscheck-semantic was built without the `nightly` feature");
        SemanticBackendStatus {
            availability: SemanticBackendAvailability::Unavailable,
            runtime: runtime.to_owned(),
            reason: Some(reason),
        }
    }

    pub fn is_available(&self) -> (r: bool)
        ensures
            r == (self.availability == SemanticBackendAvailability::Available),
    {
        self.availability == SemanticBackendAvailability::Available
    }
}

} // verus!
