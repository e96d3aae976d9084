use rho::lifecycle_details::{check_detail_members, validate_details_json, DetailKind};
use rho::plugin_journal::{
    allocate_generation, apply_discovery, decide_advance, decide_tombstone,
    decide_transition_request, synthetic_transition, transition_matches_draft,
};
use rho::plugin_lifecycle::{
    desired_state_for_kind, is_terminal_transition_status, phase_rank, validate_digest,
    validate_directory_name, validate_discovered, validate_identifier, validate_opaque_key,
    validate_tombstone, validate_transition_advance, validate_transition_draft, validate_version,
    LifecycleError, LifecycleLabel, PluginLifecycleMutationOutcome, WorkspacePluginDiscoveredDraft,
    WorkspacePluginTombstoneDraft, WorkspacePluginTransition, WorkspacePluginTransitionAdvance,
    WorkspacePluginTransitionDraft,
};

fn digest(value: char) -> String {
    value.to_string().repeat(64)
}

fn now() -> String {
    "2025-01-01T00:00:00+00:00".to_string()
}

fn discovered(project_root: &str) -> WorkspacePluginDiscoveredDraft {
    WorkspacePluginDiscoveredDraft {
        project_root: project_root.to_string(),
        plugin_id: "org.example.plugin".to_string(),
        directory_name: "example-plugin".to_string(),
        plugin_version: "1.0.0".to_string(),
        runtime_kind: "wasm".to_string(),
        discovered_digest: digest('a'),
    }
}

fn transition(
    transition_id: &str,
    kind: &str,
    desired_state: &str,
    expected_old_digest: Option<String>,
    candidate_digest: Option<String>,
) -> WorkspacePluginTransitionDraft {
    WorkspacePluginTransitionDraft {
        transition_id: transition_id.to_string(),
        project_root: "/project/a".to_string(),
        plugin_id: "org.example.plugin".to_string(),
        kind: kind.to_string(),
        desired_state: desired_state.to_string(),
        expected_old_digest,
        candidate_digest,
        rollback_digest: None,
        backup_path_key: None,
    }
}

fn advance(
    transition_id: &str,
    expected_phase: &str,
    next_phase: &str,
    status: &str,
    observed_state: &str,
) -> WorkspacePluginTransitionAdvance {
    WorkspacePluginTransitionAdvance {
        project_root: "/project/a".to_string(),
        transition_id: transition_id.to_string(),
        expected_phase: expected_phase.to_string(),
        next_phase: next_phase.to_string(),
        status: status.to_string(),
        observed_state: observed_state.to_string(),
        accepted_digest: None,
        pending_digest: None,
        rollback_digest: None,
        clear_pending_digest: false,
        last_host_session_id: None,
        last_error_code: None,
        reason_code: None,
        event_type: "preflight".to_string(),
        event_status: "completed".to_string(),
        details_json: "{}".to_string(),
    }
}

#[test]
fn identifiers_digests_and_names_are_validated() {
    assert_eq!(
        validate_identifier("  org.example-plugin_1 ", LifecycleLabel::PluginId),
        Ok("org.example-plugin_1".to_string())
    );
    assert_eq!(
        validate_identifier("bad id", LifecycleLabel::PluginId),
        Err(LifecycleError::InvalidIdentifier(LifecycleLabel::PluginId))
    );
    assert!(validate_digest(&digest('a'), LifecycleLabel::PackageDigest).is_ok());
    assert!(validate_digest(&digest('A'), LifecycleLabel::PackageDigest).is_err());
    assert!(validate_digest("abc", LifecycleLabel::PackageDigest).is_err());
    assert!(validate_directory_name("example-plugin").is_ok());
    assert!(validate_directory_name("..").is_err());
    assert!(validate_directory_name("a/b").is_err());
    assert_eq!(
        validate_opaque_key("../escape"),
        Err(LifecycleError::InvalidIdentifier(LifecycleLabel::OpaqueBackupKey))
    );
    assert_eq!(validate_opaque_key("trash.key"), Ok("trash.key".to_string()));
}

#[test]
fn versions_must_be_semantic() {
    assert_eq!(validate_version(" 1.2.3 "), Ok("1.2.3".to_string()));
    assert!(validate_version("1.2.3-beta.1").is_ok());
    assert_eq!(validate_version("1.2"), Err(LifecycleError::VersionNotSemantic));
    assert_eq!(validate_version("one"), Err(LifecycleError::VersionNotSemantic));
}

#[test]
fn phases_and_kinds() {
    assert_eq!(phase_rank("requested"), Ok(0));
    assert_eq!(phase_rank("completed"), Ok(13));
    assert_eq!(phase_rank("bogus"), Err(LifecycleError::UnsupportedPhase));
    assert_eq!(desired_state_for_kind("upgrade"), "enabled");
    assert_eq!(desired_state_for_kind("uninstall"), "uninstalled");
    assert_eq!(desired_state_for_kind("shutdown"), "disabled");
    assert!(is_terminal_transition_status("cancelled"));
    assert!(!is_terminal_transition_status("running"));
}

#[test]
fn discovery_is_idempotent_and_update_pending_after_acceptance() {
    let draft = validate_discovered(&discovered("/project/a")).unwrap();
    let (outcome, state, event) = apply_discovery(None, &draft, &now());
    assert_eq!(outcome, PluginLifecycleMutationOutcome::Applied);
    assert_eq!(state.desired_state, "disabled");
    assert_eq!(state.observed_state, "discovered");
    assert!(state.accepted_digest.is_none());
    assert_eq!(state.pending_digest, Some(digest('a')));
    let event = event.unwrap();
    assert_eq!(event.event_type, "discovery");
    assert_eq!(event.package_digest, Some(digest('a')));

    let (again, same, none) = apply_discovery(Some(state.clone()), &draft, &now());
    assert_eq!(again, PluginLifecycleMutationOutcome::Unchanged);
    assert_eq!(same, state);
    assert!(none.is_none());

    let mut accepted = state.clone();
    accepted.accepted_digest = Some(digest('a'));
    accepted.observed_state = "active".to_string();
    let mut update = draft.clone();
    update.discovered_digest = digest('b');
    let (outcome, updated, _) = apply_discovery(Some(accepted.clone()), &update, &now());
    assert_eq!(outcome, PluginLifecycleMutationOutcome::Applied);
    assert_eq!(updated.observed_state, "update_pending");
    assert_eq!(updated.pending_digest, Some(digest('b')));
    assert_eq!(updated.accepted_digest, Some(digest('a')));
}

#[test]
fn transition_requests_are_idempotent_stale_or_conflicting() {
    let draft = validate_discovered(&discovered("/project/a")).unwrap();
    let (_, state, _) = apply_discovery(None, &draft, &now());
    assert_eq!(
        decide_transition_request(None, None, &Vec::new(), &transition("t.1", "enable", "enabled", None, None), &now()).unwrap_err(),
        LifecycleError::NotDiscovered
    );
    let enable = validate_transition_draft(&transition(
        "transition.enable",
        "enable",
        "enabled",
        None,
        Some(digest('a')),
    ))
    .unwrap();
    let (result, event) =
        decide_transition_request(None, Some(state.clone()), &Vec::new(), &enable, &now()).unwrap();
    assert_eq!(result.outcome, PluginLifecycleMutationOutcome::Applied);
    assert_eq!(result.state.desired_state, "enabled");
    assert_eq!(result.state.transition_id.as_deref(), Some("transition.enable"));
    assert_eq!(result.transition.phase, "requested");
    assert_eq!(result.transition.status, "pending");
    assert_eq!(event.unwrap().event_type, "user_requested");
    let stored: WorkspacePluginTransition = result.transition.clone();
    assert!(transition_matches_draft(&stored, &enable));

    // Replaying the same request changes nothing.
    let (replay, none) = decide_transition_request(
        Some(stored.clone()),
        Some(result.state.clone()),
        &vec![stored.clone()],
        &enable,
        &now(),
    )
    .unwrap();
    assert_eq!(replay.outcome, PluginLifecycleMutationOutcome::Unchanged);
    assert!(none.is_none());

    // The same ID with another intent is refused.
    let mut other = enable.clone();
    other.kind = "disable".to_string();
    assert_eq!(
        decide_transition_request(Some(stored.clone()), Some(result.state.clone()), &Vec::new(), &other, &now())
            .unwrap_err(),
        LifecycleError::TransitionIdConflict
    );

    // While it is active, another request conflicts.
    let retry = validate_transition_draft(&transition("transition.retry", "retry", "enabled", None, Some(digest('a')))).unwrap();
    let (conflict, _) = decide_transition_request(
        None,
        Some(result.state.clone()),
        &vec![stored.clone()],
        &retry,
        &now(),
    )
    .unwrap();
    assert_eq!(conflict.outcome, PluginLifecycleMutationOutcome::Conflict);
    assert_eq!(conflict.transition, synthetic_transition(&retry));

    // A request that names another accepted package is stale.
    let stale = validate_transition_draft(&transition(
        "transition.uninstall.stale",
        "uninstall",
        "uninstalled",
        Some(digest('b')),
        None,
    ))
    .unwrap();
    let (stale_result, _) =
        decide_transition_request(None, Some(result.state.clone()), &Vec::new(), &stale, &now()).unwrap();
    assert_eq!(stale_result.outcome, PluginLifecycleMutationOutcome::Stale);
}

#[test]
fn advances_move_forward_only() {
    let draft = validate_discovered(&discovered("/project/a")).unwrap();
    let (_, state, _) = apply_discovery(None, &draft, &now());
    let enable = validate_transition_draft(&transition("transition.enable", "enable", "enabled", None, Some(digest('a')))).unwrap();
    let (result, _) =
        decide_transition_request(None, Some(state), &Vec::new(), &enable, &now()).unwrap();

    let preflight = validate_transition_advance(&advance(
        "transition.enable",
        "requested",
        "preflight",
        "running",
        "activating",
    ))
    .unwrap();
    let effect = decide_advance(
        Some(result.transition.clone()),
        Some(result.state.clone()),
        &preflight,
        &now(),
    )
    .unwrap();
    assert_eq!(effect.outcome, PluginLifecycleMutationOutcome::Applied);
    let moved = effect.transition.unwrap();
    assert_eq!(moved.phase, "preflight");
    assert_eq!(moved.status, "running");
    assert!(moved.completed_at.is_none());

    // Replaying reports unchanged; going back is stale.
    let again = decide_advance(Some(moved.clone()), None, &preflight, &now()).unwrap();
    assert_eq!(again.outcome, PluginLifecycleMutationOutcome::Unchanged);
    let back = validate_transition_advance(&advance(
        "transition.enable",
        "preflight",
        "requested",
        "running",
        "activating",
    ))
    .unwrap();
    assert_eq!(
        decide_advance(Some(moved.clone()), None, &back, &now()).unwrap().outcome,
        PluginLifecycleMutationOutcome::Stale
    );
    assert_eq!(
        decide_advance(None, None, &preflight, &now()).unwrap().outcome,
        PluginLifecycleMutationOutcome::NotFound
    );

    let mut completed = advance("transition.enable", "preflight", "completed", "completed", "active");
    completed.accepted_digest = Some(digest('a'));
    completed.clear_pending_digest = true;
    completed.event_type = "transition_completed".to_string();
    let completed = validate_transition_advance(&completed).unwrap();
    let done = decide_advance(
        Some(moved.clone()),
        Some(effect.state.unwrap()),
        &completed,
        &now(),
    )
    .unwrap();
    let finished = done.transition.unwrap();
    assert_eq!(finished.completed_at, Some(now()));
    let state = done.state.unwrap();
    assert_eq!(state.accepted_digest, Some(digest('a')));
    assert!(state.pending_digest.is_none());
    assert_eq!(state.enabled_at, Some(now()));
    assert_eq!(state.observed_state, "active");
    let event = done.event.unwrap();
    assert_eq!(event.package_digest, Some(digest('a')));
    assert_eq!(event.phase, "completed");

    // A terminal transition is never advanced again.
    let after = validate_transition_advance(&advance(
        "transition.enable",
        "completed",
        "completed",
        "failed",
        "crashed",
    ));
    assert!(after.is_ok());
    assert_eq!(
        decide_advance(Some(finished), None, &after.unwrap(), &now()).unwrap().outcome,
        PluginLifecycleMutationOutcome::Stale
    );
}

#[test]
fn advance_validation_checks_terminal_phase_and_details() {
    let terminal = advance("t.1", "requested", "preflight", "completed", "active");
    assert_eq!(
        validate_transition_advance(&terminal).unwrap_err(),
        LifecycleError::TerminalRequiresCompleted
    );
    let mut secret = advance("t.1", "requested", "preflight", "running", "activating");
    secret.details_json = "{\"token\":\"x\"}".to_string();
    assert_eq!(
        validate_transition_advance(&secret).unwrap_err(),
        LifecycleError::DetailsForbiddenField
    );
    let mut spaced = advance("t.1", "requested", "preflight", "running", "activating");
    spaced.details_json = "{ \"attempt\" : 2 }".to_string();
    assert_eq!(
        validate_transition_advance(&spaced).unwrap().details_json,
        "{\"attempt\":2}"
    );
}

#[test]
fn details_are_small_flat_and_harmless() {
    assert_eq!(validate_details_json("{}"), Ok("{}".to_string()));
    assert_eq!(
        validate_details_json("{\"b\": true, \"a\": null}"),
        Ok("{\"a\":null,\"b\":true}".to_string())
    );
    assert_eq!(validate_details_json("not json"), Err(LifecycleError::DetailsNotJson));
    assert_eq!(validate_details_json("[1]"), Err(LifecycleError::DetailsNotObject));
    assert_eq!(
        validate_details_json("{\"Header_Value\": 1}"),
        Err(LifecycleError::DetailsForbiddenField)
    );
    assert_eq!(
        validate_details_json("{\"where\": \"https://example.org\"}"),
        Err(LifecycleError::DetailsUnsafeValue)
    );
    assert_eq!(
        validate_details_json("{\"nested\": {\"a\": 1}}"),
        Err(LifecycleError::DetailsUnsafeValue)
    );
    let many: Vec<String> = (0..25).map(|i| format!("\"k{i}\": {i}")).collect();
    assert_eq!(
        validate_details_json(&format!("{{{}}}", many.join(","))),
        Err(LifecycleError::DetailsTooManyFields)
    );
    assert_eq!(
        validate_details_json(&format!("{{\"a\":\"{}\"}}", "x".repeat(9000))),
        Err(LifecycleError::DetailsTooLarge)
    );
    assert_eq!(
        check_detail_members(&vec![
            ("ok".to_string(), DetailKind::Text, "fine".to_string()),
            ("path".to_string(), DetailKind::Text, "a/b".to_string()),
        ]),
        Err(LifecycleError::DetailsUnsafeValue)
    );
}

#[test]
fn generations_increase_only_for_the_holding_active_transition() {
    let draft = validate_discovered(&discovered("/project/a")).unwrap();
    let (_, state, _) = apply_discovery(None, &draft, &now());
    let enable = validate_transition_draft(&transition("transition.enable", "enable", "enabled", None, Some(digest('a')))).unwrap();
    let (result, _) =
        decide_transition_request(None, Some(state), &Vec::new(), &enable, &now()).unwrap();
    let (allocation, stored) = allocate_generation(
        "org.example.plugin",
        "transition.enable",
        0,
        Some(result.state.clone()),
        Some(result.transition.clone()),
        &now(),
    )
    .unwrap();
    assert_eq!(allocation.outcome, PluginLifecycleMutationOutcome::Applied);
    assert_eq!(allocation.generation, 1);
    let stored = stored.unwrap();
    assert_eq!(stored.last_activation_generation, 1);
    let (stale, none) = allocate_generation(
        "org.example.plugin",
        "transition.enable",
        0,
        Some(stored.clone()),
        Some(result.transition.clone()),
        &now(),
    )
    .unwrap();
    assert_eq!(stale.outcome, PluginLifecycleMutationOutcome::Stale);
    assert_eq!(stale.generation, 1);
    assert!(none.is_none());
    let (missing, _) =
        allocate_generation("org.example.plugin", "transition.enable", 4, None, None, &now()).unwrap();
    assert_eq!(missing.outcome, PluginLifecycleMutationOutcome::NotFound);
    assert_eq!(missing.generation, 4);
    assert_eq!(
        allocate_generation("org.example.plugin", "t", -1, None, None, &now()).unwrap_err(),
        LifecycleError::GenerationExpectationInvalid
    );
    assert_eq!(
        allocate_generation("org.example.plugin", "t", i64::MAX, None, None, &now()).unwrap_err(),
        LifecycleError::GenerationExpectationInvalid
    );
}

#[test]
fn tombstones_need_uninstall_intent_and_exact_evidence() {
    let draft = validate_discovered(&discovered("/project/a")).unwrap();
    let (_, mut state, _) = apply_discovery(None, &draft, &now());
    let tombstone = validate_tombstone(&WorkspacePluginTombstoneDraft {
        tombstone_id: "tombstone.a".to_string(),
        project_root: "/project/a".to_string(),
        plugin_id: "org.example.plugin".to_string(),
        package_digest: digest('a'),
        backup_path_key: "trash.transition_uninstall".to_string(),
        original_directory_name: "example-plugin".to_string(),
        retention_class: "recoverable".to_string(),
        reason_code: "user_uninstall".to_string(),
    })
    .unwrap();
    assert_eq!(
        decide_tombstone(Some(state.clone()), None, &tombstone, &now()).unwrap_err(),
        LifecycleError::TombstoneNeedsUninstall
    );
    assert_eq!(
        decide_tombstone(None, None, &tombstone, &now()).unwrap_err(),
        LifecycleError::TombstoneStateMissing
    );
    state.desired_state = "uninstalled".to_string();
    let (outcome, stored) = decide_tombstone(Some(state.clone()), None, &tombstone, &now()).unwrap();
    assert_eq!(outcome, PluginLifecycleMutationOutcome::Applied);
    assert_eq!(stored.moved_at, now());
    let (again, _) =
        decide_tombstone(Some(state.clone()), Some(stored.clone()), &tombstone, &now()).unwrap();
    assert_eq!(again, PluginLifecycleMutationOutcome::Unchanged);
    let mut other = tombstone.clone();
    other.reason_code = "other".to_string();
    assert_eq!(
        decide_tombstone(Some(state), Some(stored), &other, &now()).unwrap_err(),
        LifecycleError::TombstoneIdConflict
    );
    let mut unsafe_tombstone = tombstone.clone();
    unsafe_tombstone.backup_path_key = "../escape".to_string();
    assert!(validate_tombstone(&unsafe_tombstone).is_err());
}
