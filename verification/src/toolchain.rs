//! Choosing the toolchain that the semantic backend and the clippy adapter run on.
use vstd::prelude::*;
use vstd::string::*;
use crate::chars::{line_at, contains_chars, has_sub, slice_chars, starts_with_chars, strip_all, strip_all_chars, trim, trim_str};
use crate::config::policy::{AdapterToolchainMode, EngineMode, Policy, ToolchainMode};
use crate::config::read::views;
use crate::fix::{lemma_line_end_bounds, line_end_from, starts_with, utf8};
use crate::report::ToolchainSummary;
use crate::semantic::{SemanticBackendAvailability, SemanticBackendStatus, built_without_reason};
use crate::text::{chars_of, string_of};

verus! {

/// The release channel of a `rustc`.
#[derive(Debug, Clone, Copy, PartialEq, Eq, Structural)]
pub enum RustcChannel {
    Stable,
    Beta,
    Nightly,
    Dev,
    Unknown,
}

/// A program with the arguments that select its toolchain.
#[derive(Debug)]
pub struct ToolCommand {
    pub program: String,
    pub prefix_args: Vec<String>,
}

impl ToolCommand {
    pub open spec fn data(&self) -> (Seq<char>, Seq<Seq<char>>) {
        (self.program@, views(self.prefix_args@))
    }

    /// The program as it is found on the path.
    pub fn direct(program: &str) -> (r: ToolCommand)
        ensures
            r.data() == (program@, Seq::<Seq<char>>::empty()),
    {
        let r = ToolCommand { program: program.to_owned(), prefix_args: Vec::new() };
        assert(views(r.prefix_args@) =~= Seq::<Seq<char>>::empty());
        r
    }

    /// The program through its rustup proxy: `program +selector`.
    pub fn with_selector(program: &str, selector: &str) -> (r: ToolCommand)
        ensures
            r.data() == (program@, seq!["+"@ + selector@]),
    {
        let mut arg = String::from_str("+");
        arg.append(selector);
        let r = ToolCommand { program: program.to_owned(), prefix_args: vec![arg] };
        assert(views(r.prefix_args@) =~= seq!["+"@ + selector@]);
        r
    }

    /// The program through `rustup run selector program`.
    pub fn rustup_run(selector: &str, program: &str) -> (r: ToolCommand)
        ensures
            r.data() == ("rustup"@, seq!["run"@, selector@, program@]),
    {
        let r = ToolCommand {
            program: String::from_str("rustup"),
            prefix_args: vec![String::from_str("run"), selector.to_owned(), program.to_owned()],
        };
        assert(views(r.prefix_args@) =~= seq!["run"@, selector@, program@]);
        r
    }

    /// An exact copy.
    pub fn copy(&self) -> (r: ToolCommand)
        ensures
            r.data() == self.data(),
    {
        let mut args: Vec<String> = Vec::new();
        let mut i: usize = 0;
        while i < self.prefix_args.len()
            invariant
                i <= self.prefix_args@.len(),
                views(args@) == views(self.prefix_args@).take(i as int),
            decreases self.prefix_args.len() - i,
        {
            let ghost before = args@;
            args.push(self.prefix_args[i].clone());
            assert(views(args@) =~= views(before).push(self.prefix_args@[i as int]@));
            assert(views(self.prefix_args@).take(i + 1) =~= views(self.prefix_args@).take(i as int).push(
                self.prefix_args@[i as int]@,
            ));
            i = i + 1;
        }
        assert(views(self.prefix_args@).take(self.prefix_args@.len() as int) =~= views(self.prefix_args@));
        ToolCommand { program: self.program.clone(), prefix_args: args }
    }
}

/// What probing one toolchain found.
#[derive(Debug)]
pub struct ToolchainProbe {
    pub runtime_label: String,
    pub cargo: ToolCommand,
    pub channel: RustcChannel,
}

impl ToolchainProbe {
    pub open spec fn data(&self) -> (Seq<char>, (Seq<char>, Seq<Seq<char>>), RustcChannel) {
        (self.runtime_label@, self.cargo.data(), self.channel)
    }

    /// An exact copy.
    pub fn copy(&self) -> (r: ToolchainProbe)
        ensures
            r.data() == self.data(),
    {
        ToolchainProbe { runtime_label: self.runtime_label.clone(), cargo: self.cargo.copy(), channel: self.channel }
    }
}

/// Why a toolchain cannot be used.
#[derive(Debug)]
pub enum ToolchainError {
    Probe(String),
    ProbeStatus { runtime: String, reason: String },
    NightlyUnavailable(String),
}

/// The commands to try for a toolchain, in order, each as (cargo, rustc): the
/// plain commands without a selector; with one, the rustup proxies first and
/// `rustup run` second.
pub fn tool_command_candidates(selector: Option<&str>) -> (r: Vec<(ToolCommand, ToolCommand)>)
    ensures
        selector is None ==> r@.len() == 1 && r@[0].0.data() == ("cargo"@, Seq::<Seq<char>>::empty())
            && r@[0].1.data() == ("rustc"@, Seq::<Seq<char>>::empty()),
        selector matches Some(s) ==> r@.len() == 2 && r@[0].0.data() == ("cargo"@, seq!["+"@ + s@])
            && r@[0].1.data() == ("rustc"@, seq!["+"@ + s@]) && r@[1].0.data() == (
            "rustup"@,
            seq!["run"@, s@, "cargo"@],
        ) && r@[1].1.data() == ("rustup"@, seq!["run"@, s@, "rustc"@]),
{
    match selector {
        None => vec![(ToolCommand::direct("cargo"), ToolCommand::direct("rustc"))],
        Some(s) => vec![
            (ToolCommand::with_selector("cargo", s), ToolCommand::with_selector("rustc", s)),
            (ToolCommand::rustup_run(s, "cargo"), ToolCommand::rustup_run(s, "rustc")),
        ],
    }
}

// ---------------------------------------------------------------------------
// Reading `rustc -vV`
// ---------------------------------------------------------------------------

/// The first line at or after `p` that starts with `release: `.
pub open spec fn release_line_from(s: Seq<char>, p: int) -> Option<Seq<char>>
    decreases s.len() - p,
{
    if p < 0 || p >= s.len() {
        None
    } else if starts_with(line_at(s, p), "release: "@) {
        Some(line_at(s, p))
    } else {
        proof {
            lemma_line_end_bounds(s, p);
        }
        release_line_from(s, line_end_from(s, p))
    }
}

/// The channel a release string names.
pub open spec fn channel_of(release: Seq<char>) -> RustcChannel {
    if has_sub(release, "nightly"@) {
        RustcChannel::Nightly
    } else if has_sub(release, "beta"@) {
        RustcChannel::Beta
    } else if has_sub(release, "dev"@) {
        RustcChannel::Dev
    } else if release.contains('.') {
        RustcChannel::Stable
    } else {
        RustcChannel::Unknown
    }
}

/// The channel of a `rustc -vV` output: from its first `release: ` line, or
/// `Unknown` when there is none.
pub open spec fn spec_parse_channel(stdout: Seq<char>) -> RustcChannel {
    match release_line_from(stdout, 0) {
        Some(line) => channel_of(strip_all(line, "release: "@)),
        None => RustcChannel::Unknown,
    }
}

fn classify(release: &Vec<char>) -> (r: RustcChannel)
    ensures
        r == channel_of(release@),
{
    if contains_chars(release, &chars_of("nightly")) {
        return RustcChannel::Nightly;
    }
    if contains_chars(release, &chars_of("beta")) {
        return RustcChannel::Beta;
    }
    if contains_chars(release, &chars_of("dev")) {
        return RustcChannel::Dev;
    }
    let mut i: usize = 0;
    while i < release.len()
        invariant
            i <= release@.len(),
            forall|j: int| 0 <= j < i ==> release@[j] != '.',
            !has_sub(release@, "nightly"@),
            !has_sub(release@, "beta"@),
            !has_sub(release@, "dev"@),
        decreases release.len() - i,
    {
        if release[i] == '.' {
            assert(release@.contains('.'));
            return RustcChannel::Stable;
        }
        i = i + 1;
    }
    RustcChannel::Unknown
}

/// The release channel named in the output of `rustc -vV`.
pub fn parse_channel(stdout: &str) -> (r: RustcChannel)
    ensures
        r == spec_parse_channel(stdout@),
{
    let cs = chars_of(stdout);
    let prefix = chars_of("release: ");
    let mut p: usize = 0;
    loop
        invariant
            p <= cs@.len(),
            cs@ == stdout@,
            prefix@ == "release: "@,
            release_line_from(cs@, 0) == release_line_from(cs@, p as int),
        decreases cs.len() - p,
    {
        if p >= cs.len() {
            assert(release_line_from(cs@, p as int) is None);
            return RustcChannel::Unknown;
        }
        let mut e: usize = p;
        while e < cs.len() && cs[e] != '\n'
            invariant
                p <= e <= cs@.len(),
                p < cs@.len(),
                forall|q: int| p <= q < e ==> cs@[q] != '\n',
                line_end_from(cs@, p as int) == line_end_from(cs@, e as int),
            decreases cs.len() - e,
        {
            e = e + 1;
        }
        let next = if e < cs.len() { e + 1 } else { e };
        assert(line_end_from(cs@, p as int) == next);
        let mut line = slice_chars(&cs, p, e);
        if line.len() > 0 && line[line.len() - 1] == '\r' {
            line.pop();
            proof {
                assert(line@ =~= cs@.subrange(p as int, e as int).drop_last());
            }
        }
        assert(line@ == line_at(cs@, p as int));
        if starts_with_chars(&line, &prefix) {
            let release = strip_all_chars(&line, &prefix);
            return classify(&release);
        }
        proof {
            lemma_line_end_bounds(cs@, p as int);
        }
        p = next;
    }
}

// ---------------------------------------------------------------------------
// Probe results
// ---------------------------------------------------------------------------

/// The text that `String::from_utf8_lossy` makes of `bytes`.
pub uninterp spec fn lossy_text(bytes: Seq<u8>) -> Seq<char>;

/// `String::from_utf8_lossy`: the text of `bytes`, with each invalid sequence
/// replaced by U+FFFD. The contract names the result and states the one fact
/// the documentation gives outright: valid UTF-8 comes back as the text it encodes.
#[verifier::external_body]
fn utf8_lossy(bytes: &[u8]) -> (r: String)
    ensures
        r@ == lossy_text(bytes@),
        (exists|s: Seq<char>| #[trigger] utf8(s) == bytes@) ==> utf8(r@) == bytes@,
{
    String::from_utf8_lossy(bytes).into_owned()
}

/// The reason a failed probe gives from its error output as text: the text,
/// trimmed, or a fixed text when nothing is left.
pub open spec fn reason_of_text(text: Seq<char>) -> Seq<char> {
    let t = trim(text);
    if t.len() == 0 {
        "command exited unsuccessfully"@
    } else {
        t
    }
}

/// The reason a failed probe gives from its error output `stderr`.
pub open spec fn spec_stderr_reason(stderr: Seq<u8>) -> Seq<char> {
    reason_of_text(lossy_text(stderr))
}

/// The reason a failed probe gives, from its error output as text.
pub fn reason_from_text(text: &str) -> (r: String)
    ensures
        r@ == reason_of_text(text@),
{
    let t = trim_str(text);
    if t.as_str().unicode_len() == 0 {
        String::from_str("command exited unsuccessfully")
    } else {
        t
    }
}

proof fn lemma_lossy_valid(bytes: Seq<u8>, text: Seq<char>, s: Seq<char>)
    requires
        utf8(text) == bytes,
        utf8(s) == bytes,
    ensures
        text == s,
{
    vstd::utf8::encode_utf8_decode_utf8(text);
    vstd::utf8::encode_utf8_decode_utf8(s);
}

/// The reason a failed probe gives; error output that is valid UTF-8 is taken
/// as the text it encodes.
pub fn stderr_reason(stderr: &[u8]) -> (r: String)
    ensures
        r@ == spec_stderr_reason(stderr@),
        forall|s: Seq<char>| #[trigger] utf8(s) == stderr@ ==> r@ == reason_of_text(s),
{
    let text = utf8_lossy(stderr);
    proof {
        assert forall|s: Seq<char>| #[trigger] utf8(s) == stderr@ implies text@ == s by {
            lemma_lossy_valid(stderr@, text@, s);
        }
    }
    reason_from_text(text.as_str())
}

/// The outcome of running a probe command: `Ok` when it succeeded, else the
/// reason from its error output, for `runtime_label`.
pub fn probe_status(success: bool, stderr: &[u8], runtime_label: &str) -> (r: Result<(), ToolchainError>)
    ensures
        success ==> r is Ok,
        !success ==> (r matches Err(ToolchainError::ProbeStatus { runtime, reason }) && runtime@
            == runtime_label@ && reason@ == spec_stderr_reason(stderr@)),
{
    if success {
        return Ok(());
    }
    Err(ToolchainError::ProbeStatus { runtime: runtime_label.to_owned(), reason: stderr_reason(stderr) })
}

/// The output of a probe command that must succeed: its standard output as
/// text, or the reason it failed.
pub fn probe_output(success: bool, stdout: &[u8], stderr: &[u8], runtime_label: &str) -> (r: Result<String, ToolchainError>)
    ensures
        success ==> (r matches Ok(t) && t@ == lossy_text(stdout@)),
        success ==> forall|s: Seq<char>| #[trigger] utf8(s) == stdout@ ==> (r matches Ok(t) && t@ == s),
        !success ==> (r matches Err(ToolchainError::ProbeStatus { runtime, reason }) && runtime@
            == runtime_label@ && reason@ == spec_stderr_reason(stderr@)),
{
    if !success {
        return Err(ToolchainError::ProbeStatus { runtime: runtime_label.to_owned(), reason: stderr_reason(stderr) });
    }
    let text = utf8_lossy(stdout);
    proof {
        assert forall|s: Seq<char>| #[trigger] utf8(s) == stdout@ implies text@ == s by {
            lemma_lossy_valid(stdout@, text@, s);
        }
    }
    Ok(text)
}

// ---------------------------------------------------------------------------
// Semantic status and toolchain choice
// ---------------------------------------------------------------------------

/// Why a toolchain that is not nightly cannot run the semantic backend.
pub open spec fn requires_nightly_reason(label: Seq<char>) -> Seq<char> {
    "semantic backend requires nightly rustc; resolved toolchain `"@ + label + "` is not nightly"@
}

/// The semantic backend's status on the probed toolchain: unavailable off
/// nightly; on nightly, what this build provides (no semantic backend).
pub fn semantic_status_for_probe(probe: &ToolchainProbe) -> (r: SemanticBackendStatus)
    ensures
        r.availability == SemanticBackendAvailability::Unavailable,
        r.runtime@ == probe.runtime_label@,
        probe.channel != RustcChannel::Nightly ==> (r.reason matches Some(m) && m@ == requires_nightly_reason(
            probe.runtime_label@,
        )),
        probe.channel == RustcChannel::Nightly ==> (r.reason matches Some(m) && m@ == built_without_reason(
            probe.runtime_label@,
        )),
{
    if probe.channel != RustcChannel::Nightly {
        let mut reason = String::from_str("semantic backend requires nightly rustc; resolved toolchain `");
        reason.append(probe.runtime_label.as_str());
        reason.append("` is not nightly");
        return SemanticBackendStatus::unavailable(probe.runtime_label.as_str(), reason);
    }
    let compiled = SemanticBackendStatus::probe_for_runtime(probe.runtime_label.as_str());
    if compiled.is_available() {
        SemanticBackendStatus::available(probe.runtime_label.as_str())
    } else {
        compiled
    }
}

pub open spec fn spec_mode_name(mode: ToolchainMode) -> Seq<char> {
    match mode {
        ToolchainMode::Stable => "stable"@,
        ToolchainMode::Auto => "auto"@,
        ToolchainMode::Nightly => "nightly"@,
    }
}

pub fn toolchain_mode_name(mode: ToolchainMode) -> (r: &'static str)
    ensures
        r@ == spec_mode_name(mode),
{
    match mode {
        ToolchainMode::Stable => "stable",
        ToolchainMode::Auto => "auto",
        ToolchainMode::Nightly => "nightly",
    }
}

/// The probe the semantic backend runs on: `None` when nightly was requested
/// and is unavailable.
pub open spec fn semantic_choice<T>(requested: ToolchainMode, semantic_mode: EngineMode, current: T, nightly: Option<T>) -> Option<T> {
    match requested {
        ToolchainMode::Stable => Some(current),
        ToolchainMode::Nightly => nightly,
        ToolchainMode::Auto => if semantic_mode == EngineMode::Off {
            Some(current)
        } else {
            match nightly {
                Some(n) => Some(n),
                None => Some(current),
            }
        },
    }
}

pub fn select_semantic_probe(
    requested: ToolchainMode,
    semantic_mode: EngineMode,
    current: &ToolchainProbe,
    nightly: Option<&ToolchainProbe>,
) -> (r: Result<ToolchainProbe, ToolchainError>)
    ensures
        match semantic_choice(
            requested,
            semantic_mode,
            current.data(),
            match nightly {
                Some(n) => Some(n.data()),
                None => None,
            },
        ) {
            Some(d) => r matches Ok(p) && p.data() == d,
            None => r matches Err(ToolchainError::NightlyUnavailable(m))
                && m@ == "nightly toolchain was requested but cargo cannot run it"@,
        },
{
    match requested {
        ToolchainMode::Stable => Ok(current.copy()),
        ToolchainMode::Nightly => match nightly {
            Some(n) => Ok(n.copy()),
            None => Err(
                ToolchainError::NightlyUnavailable(
                    String::from_str("nightly toolchain was requested but cargo cannot run it"),
                ),
            ),
        },
        ToolchainMode::Auto => {
            if semantic_mode == EngineMode::Off {
                return Ok(current.copy());
            }
            match nightly {
                Some(n) => Ok(n.copy()),
                None => Ok(current.copy()),
            }
        },
    }
}

/// The toolchains a run uses.
#[derive(Debug)]
pub struct ResolvedToolchain {
    pub current: ToolchainProbe,
    pub nightly: Option<ToolchainProbe>,
    pub semantic: ToolchainProbe,
    pub summary: ToolchainSummary,
}

/// The probe the clippy adapter runs on in `mode`: `None` when nightly is
/// asked for and unavailable.
pub open spec fn clippy_choice(t: ResolvedToolchain, mode: AdapterToolchainMode) -> Option<ToolchainProbe> {
    match mode {
        AdapterToolchainMode::Inherit => Some(t.semantic),
        AdapterToolchainMode::Stable => Some(t.current),
        AdapterToolchainMode::Nightly => t.nightly,
        AdapterToolchainMode::Auto => match t.nightly {
            Some(n) => Some(n),
            None => Some(t.current),
        },
    }
}

impl ResolvedToolchain {
    pub fn semantic_status(&self) -> (r: SemanticBackendStatus)
        ensures
            r.availability == SemanticBackendAvailability::Unavailable,
            r.runtime@ == self.semantic.runtime_label@,
            self.semantic.channel != RustcChannel::Nightly ==> (r.reason matches Some(m) && m@
                == requires_nightly_reason(self.semantic.runtime_label@)),
            self.semantic.channel == RustcChannel::Nightly ==> (r.reason matches Some(m) && m@
                == built_without_reason(self.semantic.runtime_label@)),
    {
        semantic_status_for_probe(&self.semantic)
    }

    /// The summary of the run's toolchains, as the report records it.
    pub fn summary(&self) -> (r: ToolchainSummary)
        ensures
            r.requested@ == self.summary.requested@,
            r.resolved@ == self.summary.resolved@,
            r.semantic@ == self.summary.semantic@,
            r.nightly_available == self.summary.nightly_available,
            crate::report::opt_text(r.reason) == crate::report::opt_text(self.summary.reason),
    {
        ToolchainSummary {
            requested: self.summary.requested.clone(),
            resolved: self.summary.resolved.clone(),
            semantic: self.summary.semantic.clone(),
            nightly_available: self.summary.nightly_available,
            reason: match &self.summary.reason {
                Some(m) => Some(m.clone()),
                None => None,
            },
        }
    }

    fn clippy_probe(&self, mode: AdapterToolchainMode) -> (r: Result<&ToolchainProbe, ToolchainError>)
        ensures
            match clippy_choice(*self, mode) {
                Some(p) => r matches Ok(q) && *q == p,
                None => r matches Err(ToolchainError::NightlyUnavailable(m)) && m@ == "nightly cargo is unavailable"@,
            },
    {
        match mode {
            AdapterToolchainMode::Inherit => Ok(&self.semantic),
            AdapterToolchainMode::Stable => Ok(&self.current),
            AdapterToolchainMode::Nightly => match &self.nightly {
                Some(n) => Ok(n),
                None => Err(ToolchainError::NightlyUnavailable(String::from_str("nightly cargo is unavailable"))),
            },
            AdapterToolchainMode::Auto => match &self.nightly {
                Some(n) => Ok(n),
                None => Ok(&self.current),
            },
        }
    }

    /// The cargo command the clippy adapter runs in `mode`.
    pub fn clippy_command(&self, mode: AdapterToolchainMode) -> (r: Result<ToolCommand, ToolchainError>)
        ensures
            match clippy_choice(*self, mode) {
                Some(p) => r matches Ok(c) && c.data() == p.cargo.data(),
                None => r matches Err(ToolchainError::NightlyUnavailable(m)) && m@ == "nightly cargo is unavailable"@,
            },
    {
        match self.clippy_probe(mode) {
            Ok(p) => Ok(p.cargo.copy()),
            Err(e) => Err(e),
        }
    }

    /// The label of the toolchain the clippy adapter runs on in `mode`.
    pub fn clippy_runtime_label(&self, mode: AdapterToolchainMode) -> (r: Result<String, ToolchainError>)
        ensures
            match clippy_choice(*self, mode) {
                Some(p) => r matches Ok(l) && l@ == p.runtime_label@,
                None => r matches Err(ToolchainError::NightlyUnavailable(m)) && m@ == "nightly cargo is unavailable"@,
            },
    {
        match self.clippy_probe(mode) {
            Ok(p) => Ok(p.runtime_label.clone()),
            Err(e) => Err(e),
        }
    }
}

/// Resolve the toolchains of a run from the probe of the current toolchain and
/// that of the policy's nightly toolchain: the requested mode (the command
/// line's, else the policy's) picks the semantic toolchain, and the summary
/// records the choice.
pub fn resolve_toolchain(
    policy: &Policy,
    cli_override: Option<ToolchainMode>,
    current: ToolchainProbe,
    nightly: Result<ToolchainProbe, ToolchainError>,
) -> (r: Result<ResolvedToolchain, ToolchainError>)
    ensures
        ({
            let requested = match cli_override {
                Some(m) => m,
                None => policy.engine.toolchain,
            };
            let nd = match nightly {
                Ok(n) => Some(n.data()),
                Err(_) => None,
            };
            match semantic_choice(requested, policy.engine.semantic, current.data(), nd) {
                None => r matches Err(ToolchainError::NightlyUnavailable(m))
                    && m@ == "nightly toolchain was requested but cargo cannot run it"@,
                Some(d) => r matches Ok(t) && t.semantic.data() == d && t.current.data() == current.data()
                    && (match t.nightly {
                        Some(n) => nd == Some(n.data()),
                        None => nd is None,
                    }) && t.summary.requested@ == spec_mode_name(requested) && t.summary.resolved@ == d.0
                    && t.summary.semantic@ == "unavailable"@ && t.summary.nightly_available == nightly is Ok
                    && (t.summary.reason matches Some(m) && m@ == if d.2 == RustcChannel::Nightly {
                        built_without_reason(d.0)
                    } else {
                        requires_nightly_reason(d.0)
                    }),
            }
        }),
{
    let requested = match cli_override {
        Some(m) => m,
        None => policy.engine.toolchain,
    };
    let nightly_probe: Option<ToolchainProbe> = match nightly {
        Ok(n) => Some(n),
        Err(_) => None,
    };
    let semantic = match &nightly_probe {
        Some(n) => select_semantic_probe(requested, policy.engine.semantic, &current, Some(n)),
        None => select_semantic_probe(requested, policy.engine.semantic, &current, None),
    };
    let semantic = match semantic {
        Ok(s) => s,
        Err(e) => return Err(e),
    };
    let status = semantic_status_for_probe(&semantic);
    let semantic_text = if status.is_available() {
        String::from_str("available")
    } else {
        String::from_str("unavailable")
    };
    let summary = ToolchainSummary {
        requested: String::from_str(toolchain_mode_name(requested)),
        resolved: semantic.runtime_label.clone(),
        semantic: semantic_text,
        nightly_available: nightly_probe.is_some(),
        reason: status.reason,
    };
    Ok(ResolvedToolchain { current, nightly: nightly_probe, semantic, summary })
}

} // verus!
