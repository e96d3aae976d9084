use rho::agent_turns::AgentRuntimeStatus;
use rho::startup::{
    bootstrap_probes, needs_attention_view, probe_spawn_failed_view, probing_view, ready_view,
    state_unavailable_view,
};
use rho::startup::{
    bounded_diagnostic, classify_startup_error, ensure_supported_r_version, parse_r_runtime_probe,
    probe_value, startup_recovery_actions, ProbeField, RuntimeProbeError, StartupSeverity,
};

#[test]
fn enforces_the_documented_minimum_r_version() {
    assert!(ensure_supported_r_version("4.3.3").is_err());
    assert!(ensure_supported_r_version("4.4.0").is_ok());
    assert!(ensure_supported_r_version("5.0.0").is_ok());
    assert!(ensure_supported_r_version("invalid").is_err());
}

#[test]
fn parses_base_r_probe_without_requiring_aisdk_output() {
    let probe = parse_r_runtime_probe(
        "__RHO_HOME__C:/Program Files/R/R-4.4.2\n\
         __RHO_VERSION__R version 4.4.2\n\
         __RHO_VERSION_NUMBER__4.4.2\n\
         __RHO_PROFILE_USER__C:/Users/test/Documents/.Rprofile\n\
         __RHO_ENVIRON_USER__C:/Users/test/Documents/.Renviron\n\
         __RHO_LIBS__C:/Users/test/R/win-library/4.4;C:/Program Files/R/R-4.4.2/library\n",
    )
    .unwrap();
    assert_eq!(probe.r_home, "C:/Program Files/R/R-4.4.2");
    assert_eq!(probe.r_version, "R version 4.4.2");
    assert!(probe.r_libs.contains("win-library"));
    assert!(probe.r_profile_user.ends_with(".Rprofile"));
    assert!(probe.r_environ_user.ends_with(".Renviron"));
}

#[test]
fn classifies_empty_stderr_probe_exit_as_recoverable() {
    let issue = classify_startup_error(
        "R runtime probe failed (exit_code=Some(1), timed_out=false): stdout= stderr=",
        "C:\\Users\\test\\AppData\\logs\\startup.jsonl",
    );
    assert_eq!(issue.code, "R_PROBE_EXITED");
    assert!(issue.actions.contains(&"choose_rscript".to_string()));
}

#[test]
fn bounds_multiline_subprocess_diagnostics() {
    let value = format!("secret-free\r\n{}", "x".repeat(5000));
    let bounded = bounded_diagnostic(&value);
    assert!(!bounded.contains(['\r', '\n']));
    assert_eq!(bounded.chars().count(), 4096);
}

#[test]
fn redacts_common_secret_shapes_from_diagnostics() {
    let bounded = bounded_diagnostic(
        "DEEPSEEK_API_KEY=secret Authorization=token Bearer another-secret safe",
    );
    assert!(!bounded.contains("secret"));
    assert!(!bounded.contains("another-secret"));
    assert!(bounded.contains("<redacted>"));
    assert!(bounded.ends_with("safe"));
}

#[test]
fn redaction_keeps_the_marker_and_collapses_whitespace() {
    assert_eq!(
        bounded_diagnostic("  a\t\tb  apiKey=xyz tail\n"),
        "a b apiKey=<redacted> tail"
    );
    assert_eq!(bounded_diagnostic("bearer"), "Bearer");
    assert_eq!(bounded_diagnostic(""), "");
}

#[test]
fn version_errors_are_typed() {
    assert_eq!(
        ensure_supported_r_version("4"),
        Err(RuntimeProbeError::VersionNoMinor)
    );
    assert_eq!(
        ensure_supported_r_version("4.x"),
        Err(RuntimeProbeError::VersionInvalid("4.x".to_string()))
    );
    assert_eq!(
        ensure_supported_r_version("3.99.0"),
        Err(RuntimeProbeError::VersionUnsupported("3.99.0".to_string()))
    );
    assert!(ensure_supported_r_version("+4.10").is_ok());
    assert!(ensure_supported_r_version("99999999999999999999.0").is_err());
}

#[test]
fn probe_values_come_from_the_first_matching_line() {
    assert_eq!(
        probe_value("x\r\n__A__ one \r\n__A__two\n", "__A__").as_deref(),
        Some("one")
    );
    assert_eq!(probe_value("nothing here", "__A__"), None);
    assert_eq!(
        parse_r_runtime_probe("__RHO_HOME__/r\n").unwrap_err(),
        RuntimeProbeError::Missing(ProbeField::Version)
    );
}

#[test]
fn startup_issues_by_phrase() {
    let issue = classify_startup_error("the bundled Ark executable is missing", "/tmp/log");
    assert_eq!(issue.code, "ARK_RESOURCE_MISSING");
    assert_eq!(issue.phase, "checking_installation");
    assert_eq!(issue.actions, vec!["retry", "open_log", "exit"]);
    assert!(issue.severity == StartupSeverity::Recoverable);
    let issue = classify_startup_error("Rho requires R 4.4 or later; found R 4.3.1", "/tmp/log");
    assert_eq!(issue.code, "R_VERSION_UNSUPPORTED");
    let issue = classify_startup_error("probe (timed_out=true) R runtime probe failed", "/tmp/log");
    assert_eq!(issue.code, "R_PROBE_TIMED_OUT");
    let issue = classify_startup_error("anything else", "C:\\a\\b.log");
    assert_eq!(issue.code, "R_PROBE_SPAWN_FAILED");
    assert_eq!(issue.diagnostics_path, "C:/a/b.log");
    assert_eq!(issue.technical_detail, "anything else");
    assert_eq!(startup_recovery_actions().len(), 5);
}

#[test]
fn bootstrap_views_follow_the_probe() {
    assert!(!bootstrap_probes(true, false, false));
    assert!(bootstrap_probes(true, true, false));
    assert!(!bootstrap_probes(false, false, true));
    assert!(bootstrap_probes(false, false, false));
    let ready = ready_view(
        r"C:\R\bin\Rscript.exe",
        "4.4.2".to_string(),
        AgentRuntimeStatus {
            available: true,
            aisdk_version: None,
            error: None,
        },
    );
    assert_eq!(ready.phase, "runtime_ready");
    assert_eq!(ready.runtime.as_ref().unwrap().rscript, "C:/R/bin/Rscript.exe");
    let probing = probing_view(ready);
    assert!(probing.busy);
    assert_eq!(probing.phase, "probing_runtime");
    let failed = probe_spawn_failed_view("boom".to_string(), "C:/logs/startup.log");
    assert_eq!(failed.issue.as_ref().unwrap().code, "R_PROBE_SPAWN_FAILED");
    let attention = needs_attention_view("Rho requires R 4.4 or later; found R 4.3.1", "/log");
    assert_eq!(attention.phase, "needs_attention");
    assert!(attention.issue.is_some());
    let broken = state_unavailable_view("/log");
    assert_eq!(broken.phase, "failed");
    assert_eq!(broken.issue.unwrap().actions, vec!["open_log", "exit"]);
}

#[test]
fn probe_errors_have_their_messages() {
    assert_eq!(
        RuntimeProbeError::Missing(ProbeField::Libraries).message(),
        "R library paths were absent from runtime probe"
    );
    assert_eq!(
        RuntimeProbeError::VersionInvalid("x.y".to_string()).message(),
        "invalid R version `x.y`"
    );
    assert_eq!(
        ensure_supported_r_version("4.3.3").unwrap_err().message(),
        "Rho requires R 4.4 or later; found R 4.3.3"
    );
}
