use rscheck::config::policy::{EngineMode, Policy, ToolchainMode};
use rscheck::toolchain::{
    parse_channel, resolve_toolchain, semantic_status_for_probe, stderr_reason, RustcChannel, ToolCommand,
    ToolchainError, ToolchainProbe,
};

#[test]
fn parses_nightly_release() {
    let channel = parse_channel("release: 1.92.0-nightly\n");
    assert_eq!(channel, RustcChannel::Nightly);
}

#[test]
fn semantic_status_requires_nightly_runtime() {
    let probe = ToolchainProbe {
        runtime_label: "current".to_string(),
        cargo: ToolCommand::direct("cargo"),
        channel: RustcChannel::Stable,
    };
    let status = semantic_status_for_probe(&probe);
    assert!(!status.is_available());
    assert!(status.reason.as_deref().is_some_and(|reason| reason.contains("requires nightly rustc")));
}

#[test]
fn keeps_stderr_reason_text() {
    let reason = stderr_reason(b"error: no such command: `+nightly`\n");
    assert!(reason.contains("no such command"));
}

#[test]
fn tool_command_selector_uses_cargo_proxy_shape() {
    let command = ToolCommand::with_selector("cargo", "nightly");

    assert_eq!(command.program, "cargo");
    assert_eq!(command.prefix_args, vec!["+nightly"]);
}

#[test]
fn tool_command_rustup_run_uses_non_proxy_fallback_shape() {
    let command = ToolCommand::rustup_run("nightly", "cargo");

    assert_eq!(command.program, "rustup");
    assert_eq!(command.prefix_args, vec!["run", "nightly", "cargo"]);
}

#[test]
fn parses_stable_and_beta_releases() {
    assert_eq!(parse_channel("rustc 1.80.0\nrelease: 1.80.0\n"), RustcChannel::Stable);
    assert_eq!(parse_channel("release: 1.81.0-beta.3\n"), RustcChannel::Beta);
}

#[test]
fn stderr_reason_falls_back_when_empty() {
    let reason = stderr_reason(b"  \n");
    assert_eq!(reason, "command exited unsuccessfully");
}

fn probe(label: &str, channel: RustcChannel) -> ToolchainProbe {
    ToolchainProbe { runtime_label: label.to_string(), cargo: ToolCommand::direct("cargo"), channel }
}

#[test]
fn nightly_request_without_nightly_fails() {
    let mut policy = Policy::default();
    policy.engine.semantic = EngineMode::Auto;
    let r = resolve_toolchain(
        &policy,
        Some(ToolchainMode::Nightly),
        probe("current", RustcChannel::Stable),
        Err(ToolchainError::ProbeStatus { runtime: "nightly".to_string(), reason: "missing".to_string() }),
    );
    assert!(matches!(r, Err(ToolchainError::NightlyUnavailable(_))));
}

#[test]
fn stable_request_records_summary() {
    let policy = Policy::default();
    let r = resolve_toolchain(&policy, None, probe("current", RustcChannel::Stable), Err(ToolchainError::ProbeStatus {
        runtime: "nightly".to_string(),
        reason: "missing".to_string(),
    }))
    .ok()
    .unwrap();
    let summary = r.summary();
    assert_eq!(summary.resolved, "current");
    assert_eq!(summary.semantic, "unavailable");
    assert!(!summary.nightly_available);
}
