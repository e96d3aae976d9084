use rho::plugin_permissions::{
    decision_reason_code, grant_lifetime_minutes, parse_permission_decision, plugin_status,
    registry_key, review_failure, review_state, PermissionDecision, ReviewState,
};
use rho::agent_turns::{
    act_admission, cancellation_records, check_agent_request, check_approval_decision,
    undelivered_approval_record, AgentRuntimeStatus,
};
use rho::kernel::ArkLaunchConfig;
use rho::package_trash::{
    decide_move, decide_restore, move_evidence, step_outcome, validate_component, ComponentLabel,
    PluginPackageOwnershipOutcome, PluginPackageTrash, PluginPackageTrashError, TrashFailurePoint,
    TrashStep,
};
use rho::run_store::{
    cancel_applies, code_preview, is_active_run_status, list_limit, recover_run,
    restart_terminal_reason,
};
use rho::wasm_identity::WasmHostIdentity;

#[test]
fn trash_components_stay_single_names() {
    assert_eq!(
        validate_component(" example-plugin ", ComponentLabel::PluginDirectory).unwrap(),
        "example-plugin"
    );
    for bad in ["", "  ", ".", "..", "a/b", "a\\b", "c:", &"x".repeat(129)] {
        assert_eq!(
            validate_component(bad, ComponentLabel::TrashKey),
            Err(PluginPackageTrashError::InvalidIdentity("invalid trash key".to_string()))
        );
    }
    assert!(validate_component(&"x".repeat(128), ComponentLabel::TrashKey).is_ok());
}

#[test]
fn move_restore_and_replays_are_exact_and_idempotent() {
    assert_eq!(decide_move(true, false), Ok(TrashStep::Rename));
    assert_eq!(decide_move(false, true), Ok(TrashStep::AlreadyDone));
    assert_eq!(decide_restore(false, true), Ok(TrashStep::Rename));
    assert_eq!(decide_restore(true, false), Ok(TrashStep::AlreadyDone));
    assert_eq!(
        decide_move(true, true),
        Err(PluginPackageTrashError::UnsafeOwnership(
            "source and trash both exist for one package".to_string()
        ))
    );
    assert_eq!(
        decide_move(false, false),
        Err(PluginPackageTrashError::UnsafeOwnership(
            "neither source nor trash owns the exact package".to_string()
        ))
    );
    assert_eq!(
        decide_restore(true, true),
        Err(PluginPackageTrashError::UnsafeOwnership(
            "restore source and trash target both exist".to_string()
        ))
    );
    assert_eq!(
        decide_restore(false, false),
        Err(PluginPackageTrashError::UnsafeOwnership(
            "restore package is missing from source and trash".to_string()
        ))
    );
    assert_eq!(step_outcome(false, TrashStep::Rename), PluginPackageOwnershipOutcome::Moved);
    assert_eq!(
        step_outcome(true, TrashStep::AlreadyDone),
        PluginPackageOwnershipOutcome::AlreadyRestored
    );
    let evidence = move_evidence(
        PluginPackageOwnershipOutcome::Moved,
        "org.example.plugin",
        "d",
        "example-plugin",
        "trash.1",
    );
    assert_eq!(evidence.trash_key, "trash.1");
}

#[test]
fn injected_failures_fire_only_where_set() {
    assert!(PluginPackageTrash::new().injected(TrashFailurePoint::BeforeRename).is_ok());
    let failing = PluginPackageTrash::failing_at(TrashFailurePoint::AfterRename);
    assert!(failing.injected(TrashFailurePoint::BeforeRename).is_ok());
    let error = failing.injected(TrashFailurePoint::AfterRename).unwrap_err();
    assert_eq!(error.message(), "injected plugin package move failure: AfterRename");
    assert_eq!(
        PluginPackageTrashError::UnsafeOwnership("x".to_string()).message(),
        "plugin package ownership is unsafe: x"
    );
}

#[test]
fn code_previews_show_the_first_meaningful_line() {
    assert_eq!(code_preview("stop('boom')"), "stop('boom')");
    assert_eq!(code_preview("\n   \n  x <- 1  \ny <- 2"), "x <- 1");
    assert_eq!(code_preview("   \n\t"), "<empty>");
    assert_eq!(code_preview(""), "<empty>");
    let long = "a".repeat(81);
    assert_eq!(code_preview(&long), format!("{}…", "a".repeat(80)));
    assert_eq!(code_preview(&"a".repeat(80)), "a".repeat(80));
}

#[test]
fn recovers_active_runs() {
    assert!(is_active_run_status("queued"));
    assert!(!is_active_run_status("failed"));
    assert_eq!(recover_run("running", false), Some(("interrupted", "broker_restart")));
    assert_eq!(
        recover_run("waiting", true),
        Some(("interrupted", "cancelled_during_restart"))
    );
    // A recovered run is no longer active, so a second restart leaves it.
    assert_eq!(recover_run("interrupted", false), None);
    assert_eq!(restart_terminal_reason(false), "broker_restart");
    assert!(cancel_applies("running"));
    assert!(!cancel_applies("completed"));
    assert_eq!(list_limit(None), 50);
    assert_eq!(list_limit(Some(3)), 3);
}

#[test]
fn agent_requests_are_checked_in_order() {
    let ready = AgentRuntimeStatus {
        available: true,
        aisdk_version: Some("1.0".to_string()),
        error: None,
    };
    assert_eq!(
        check_agent_request("   ", "ask", &ready, false).unwrap_err(),
        "Agent prompt is empty"
    );
    assert_eq!(
        check_agent_request("hi", "run", &ready, false).unwrap_err(),
        "unsupported Agent mode `run`"
    );
    let missing = AgentRuntimeStatus {
        available: false,
        aisdk_version: None,
        error: None,
    };
    assert_eq!(
        check_agent_request("hi", "ask", &missing, false).unwrap_err(),
        "aisdk is unavailable in Agent R"
    );
    assert_eq!(
        check_agent_request("hi", "ask", &ready, true).unwrap_err(),
        "An Agent turn is already running"
    );
    assert!(check_agent_request("hi", "plan", &ready, false).is_ok());
    assert_eq!(
        act_admission("act", "no", Some(true)).unwrap_err(),
        "The selected model does not support Act mode."
    );
    assert_eq!(act_admission("act", "yes", Some(true)), Ok(true));
    assert_eq!(act_admission("ask", "no", Some(true)), Ok(false));
    assert_eq!(act_admission("act", "yes", None), Ok(false));
}

#[test]
fn cancelling_records_only_live_turns() {
    let (event, finish) =
        cancellation_records("turn.1", Some("waiting"), "ws_1", 3, 4).unwrap();
    assert_eq!(event.event_type, "agent.cancelled");
    assert_eq!(finish.status, "interrupted");
    assert_eq!(finish.state_revision_after, Some(3));
    assert_eq!(
        finish.error_message.as_deref(),
        Some("Agent turn cancelled by the user.")
    );
    assert!(cancellation_records("turn.1", Some("completed"), "ws_1", 3, 4).is_none());
    assert!(cancellation_records("turn.1", None, "ws_1", 3, 4).is_none());
}

#[test]
fn approval_decisions() {
    assert!(check_approval_decision("approve").is_ok());
    assert_eq!(
        check_approval_decision("maybe").unwrap_err(),
        "unsupported approval decision `maybe`"
    );
    let record = undelivered_approval_record();
    assert_eq!(record.decision, "cancel");
    assert_eq!(record.continuation_outcome.as_deref(), Some("agent_unavailable"));
}

#[test]
fn launch_config_and_host_identity() {
    let config = ArkLaunchConfig::new("/k/kernel.json".to_string());
    assert_eq!(config.session_name, "rho");
    assert!(config.connection_file.is_none());
    let identity = WasmHostIdentity::new(
        "project.a".to_string(),
        "org.example.plugin".to_string(),
        "d".repeat(64),
        7,
        "host.1".to_string(),
    );
    assert_eq!(identity.project_id(), "project.a");
    assert_eq!(identity.plugin_id(), "org.example.plugin");
    assert_eq!(identity.package_digest(), "d".repeat(64));
    assert_eq!(identity.activation_generation(), 7);
    assert_eq!(identity.host_instance_id(), "host.1");
}

#[test]
fn permission_decisions_and_grant_lifetimes() {
    assert_eq!(parse_permission_decision("deny"), Ok(PermissionDecision::Deny));
    assert_eq!(
        parse_permission_decision("allow_project"),
        Ok(PermissionDecision::AllowProject)
    );
    assert_eq!(
        parse_permission_decision("always").unwrap_err(),
        "unsupported plugin permission decision"
    );
    assert_eq!(grant_lifetime_minutes(PermissionDecision::AllowOnce), Some(5));
    assert_eq!(grant_lifetime_minutes(PermissionDecision::AllowProject), Some(30 * 24 * 60));
    assert_eq!(grant_lifetime_minutes(PermissionDecision::Deny), None);
    assert_eq!(decision_reason_code(PermissionDecision::Deny).as_deref(), Some("user_denied"));
    assert_eq!(decision_reason_code(PermissionDecision::AllowOnce), None);
    assert_eq!(registry_key("/p", "org.x"), "/p\0org.x");
    assert_eq!(plugin_status(true, 3, true), "enabled");
    assert_eq!(plugin_status(false, 1, true), "permission_required");
    assert_eq!(plugin_status(false, 0, true), "denied");
    assert_eq!(plugin_status(false, 0, false), "disabled");
    let statuses = |v: &[&str]| v.iter().map(|s| s.to_string()).collect::<Vec<_>>();
    assert_eq!(review_state(&statuses(&["granted", "pending"])), ReviewState::Pending);
    assert_eq!(review_state(&statuses(&["granted", "denied"])), ReviewState::Denied);
    assert_eq!(review_state(&statuses(&["granted", "granted"])), ReviewState::Granted);
    assert_eq!(
        review_failure("error: plugin package changed while permission review was open").0,
        "stale_digest"
    );
    assert_eq!(review_failure("host crashed").0, "host_unavailable");
}
