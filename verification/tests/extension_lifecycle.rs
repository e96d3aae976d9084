use rho::extension_lifecycle::{
    begin_quiesce, bounded_message, candidate_publish_refusal, check_attach_child,
    finish_scope_dispose, mark_active, next_generation, parse_mode, timed_out_scope_report,
    validate_current, ActivationError, ActivationOutcome, BuildStep, CandidateBuild,
    CandidateBuildError, CollectingDiagnosticSink, DiagnosticCode, DiagnosticSeverity,
    DisposeAttempt, DisposeError, DisposeOutcome, EffectSink, EffectStatus,
    InternalExtensionRuntimeMode, LifecycleDeadlines, NoopDiagnosticSink, PluginInstanceIdentity,
    RegistryError, RegistryMarkers, ScopeIdentity, ScopeLifecycleState, ScopeStateError,
};

fn scope(id: &str, generation: u64) -> ScopeIdentity {
    ScopeIdentity::new(
        "project".to_string(),
        id.to_string(),
        Some("application".to_string()),
        generation,
    )
}

fn instance(plugin: &str) -> PluginInstanceIdentity {
    PluginInstanceIdentity {
        plugin_id: plugin.to_string(),
        scope: scope("project.a", 2),
    }
}

#[test]
fn invalid_runtime_mode_falls_back_to_legacy_with_one_typed_diagnostic() {
    let mut collecting = CollectingDiagnosticSink::new();
    let invalid = "x".repeat(2_000);
    assert_eq!(
        InternalExtensionRuntimeMode::parse(Some(&invalid), &mut collecting),
        InternalExtensionRuntimeMode::Legacy
    );
    let diagnostics = collecting.diagnostics();
    assert_eq!(diagnostics.len(), 1);
    assert_eq!(diagnostics[0].code, DiagnosticCode::InvalidRuntimeMode);
    assert!(!diagnostics[0].message.contains(&invalid));
    assert!(diagnostics[0].message.len() <= 512);

    assert_eq!(
        InternalExtensionRuntimeMode::parse(None, &mut collecting),
        InternalExtensionRuntimeMode::Legacy
    );
    assert_eq!(
        InternalExtensionRuntimeMode::parse(Some("candidate"), &mut collecting),
        InternalExtensionRuntimeMode::Candidate
    );
    assert_eq!(collecting.diagnostics().len(), 1);
}

#[test]
fn invalid_mode_warning_gives_the_length_only() {
    let (mode, warning) = parse_mode(Some("bogus"));
    assert_eq!(mode, InternalExtensionRuntimeMode::Legacy);
    let warning = warning.unwrap();
    assert_eq!(warning.severity, DiagnosticSeverity::Warning);
    assert_eq!(
        warning.message,
        "invalid RHO_INTERNAL_EXTENSION_RUNTIME value; using legacy (5 bytes)"
    );
    assert!(parse_mode(Some("legacy")).1.is_none());
    let mut noop = NoopDiagnosticSink;
    assert_eq!(
        InternalExtensionRuntimeMode::parse(Some("bogus"), &mut noop),
        InternalExtensionRuntimeMode::Legacy
    );
}

#[test]
fn bounded_messages_cut_at_a_character_boundary() {
    assert_eq!(bounded_message("short".to_string()), "short");
    let exact = "a".repeat(512);
    assert_eq!(bounded_message(exact.clone()), exact);
    let long = "a".repeat(600);
    let bounded = bounded_message(long);
    assert_eq!(bounded.len(), 512);
    assert!(bounded.ends_with('…'));
    assert_eq!(bounded, format!("{}…", "a".repeat(509)));
    // Two-byte characters: 254 of them fit in 509 bytes.
    let wide = "é".repeat(400);
    let bounded = bounded_message(wide);
    assert_eq!(bounded, format!("{}…", "é".repeat(254)));
    assert!(bounded.len() <= 512);
}

#[test]
fn errors_bound_their_code_and_message() {
    let error = ActivationError::new("code".to_string(), "x".repeat(1_000));
    assert_eq!(error.code(), "code");
    assert!(error.message().len() <= 512);
    let dispose = DisposeError::new("cleanup".to_string(), "failed".to_string());
    assert_eq!(dispose.code(), "cleanup");
    assert_eq!(dispose.message(), "failed");
}

#[test]
fn default_deadlines_and_limits() {
    let deadlines = LifecycleDeadlines::default();
    assert_eq!(deadlines.quiesce, 5000);
    assert_eq!(deadlines.effect, 2000);
    assert_eq!(deadlines.scope, 10000);
    assert_eq!(deadlines.quiesce_limit(), 5000);
    assert_eq!(deadlines.scope_remaining(12000), None);
    assert_eq!(deadlines.scope_remaining(9000), Some(1000));
    assert_eq!(deadlines.effect_limit(1000), 1000);
    assert_eq!(deadlines.effect_limit(5000), 2000);
}

#[test]
fn effects_get_creation_order_and_dispose_in_reverse() {
    let mut sink: EffectSink<&str> = EffectSink::new(instance("plugin.a"));
    assert_eq!(sink.push("first"), 0);
    assert_eq!(sink.push("second"), 1);
    assert_eq!(sink.push("third"), 2);
    let (mut stack, disposers) = sink.into_stack();
    assert_eq!(disposers, vec!["first", "second", "third"]);
    let mut order = Vec::new();
    while let Some(index) = stack.next_to_dispose() {
        order.push(index);
        stack.begin_next();
        stack.settle_next(DisposeAttempt::Completed);
    }
    assert_eq!(order, vec![2, 1, 0]);
    let report = stack.finish();
    assert_eq!(report.outcome, DisposeOutcome::Disposed);
    assert!(report
        .records
        .iter()
        .all(|record| record.status == EffectStatus::Disposed));
}

#[test]
fn cleanup_failure_and_timeout_continue_remaining_effects() {
    let mut sink: EffectSink<()> = EffectSink::new(instance("plugin.a"));
    sink.push(());
    sink.push(());
    sink.push(());
    let (mut stack, _) = sink.into_stack();
    let failed = stack.settle_next(DisposeAttempt::Failed(DisposeError::new(
        "boom".to_string(),
        "cleanup failed".to_string(),
    )));
    let failed = failed.unwrap();
    assert_eq!(failed.code, DiagnosticCode::EffectDisposeFailed);
    assert_eq!(failed.message, "effect cleanup failed: boom");
    assert_eq!(failed.effect_order, Some(2));
    let timed_out = stack.settle_next(DisposeAttempt::TimedOut).unwrap();
    assert_eq!(timed_out.message, "effect cleanup exceeded its deadline");
    assert!(stack.settle_next(DisposeAttempt::Completed).is_none());
    assert_eq!(stack.next_to_dispose(), None);
    let report = stack.finish();
    assert_eq!(report.outcome, DisposeOutcome::Failed);
    assert_eq!(report.records[0].status, EffectStatus::Disposed);
    assert_eq!(report.records[1].status, EffectStatus::Failed);
    assert_eq!(
        report.records[1].cleanup_error.as_ref().unwrap().code(),
        "effect_dispose_timeout"
    );
    assert_eq!(report.records[2].cleanup_error.as_ref().unwrap().code(), "boom");
}

#[test]
fn expired_scope_deadline_marks_unstarted_effects_as_leaked() {
    let mut sink: EffectSink<()> = EffectSink::new(instance("plugin.a"));
    sink.push(());
    let (mut stack, _) = sink.into_stack();
    assert!(stack.settle_next(DisposeAttempt::DeadlineExpired).is_none());
    let report = stack.finish();
    assert_eq!(report.outcome, DisposeOutcome::Failed);
    assert_eq!(
        report.records[0].cleanup_error.as_ref().unwrap().code(),
        "scope_dispose_timeout"
    );
}

#[test]
fn disposer_panic_is_contained_and_reported() {
    let mut sink: EffectSink<()> = EffectSink::new(instance("plugin.a"));
    sink.push(());
    let (mut stack, _) = sink.into_stack();
    let diagnostic = stack.settle_next(DisposeAttempt::Panicked).unwrap();
    assert_eq!(diagnostic.message, "effect cleanup panicked at the host boundary");
    assert_eq!(stack.finish().outcome, DisposeOutcome::Failed);
}

#[test]
fn dispose_report_is_kept_and_repeated() {
    let mut sink: EffectSink<()> = EffectSink::new(instance("plugin.a"));
    sink.push(());
    let (mut stack, _) = sink.into_stack();
    stack.settle_next(DisposeAttempt::Completed);
    let first = stack.finish();
    assert_eq!(stack.next_to_dispose(), None);
    let second = stack.finish();
    assert_eq!(first, second);
}

#[test]
fn empty_effect_stack_disposes_cleanly() {
    let sink: EffectSink<()> = EffectSink::new(instance("plugin.a"));
    let (mut stack, _) = sink.into_stack();
    assert_eq!(stack.next_to_dispose(), None);
    let report = stack.finish();
    assert_eq!(report.outcome, DisposeOutcome::Disposed);
    assert!(report.records.is_empty());
}

#[test]
fn scope_states_round_trip_through_their_stored_numbers() {
    for state in [
        ScopeLifecycleState::Ready,
        ScopeLifecycleState::Active,
        ScopeLifecycleState::Quiescing,
        ScopeLifecycleState::Disposing,
        ScopeLifecycleState::Disposed,
        ScopeLifecycleState::Failed,
    ] {
        assert_eq!(ScopeLifecycleState::from_u8(state.as_u8()), state);
    }
    assert_eq!(ScopeLifecycleState::from_u8(200), ScopeLifecycleState::Failed);
}

#[test]
fn only_ready_scopes_activate_and_quiesce_is_announced_once() {
    assert_eq!(mark_active(ScopeLifecycleState::Ready), Ok(ScopeLifecycleState::Active));
    assert_eq!(
        mark_active(ScopeLifecycleState::Active),
        Err(ScopeStateError::InvalidTransition {
            expected: ScopeLifecycleState::Ready,
            actual: ScopeLifecycleState::Active,
        })
    );
    assert_eq!(
        begin_quiesce(ScopeLifecycleState::Active),
        (ScopeLifecycleState::Quiescing, true)
    );
    assert_eq!(
        begin_quiesce(ScopeLifecycleState::Quiescing),
        (ScopeLifecycleState::Quiescing, false)
    );
    assert_eq!(
        ScopeStateError::InvalidTransition {
            expected: ScopeLifecycleState::Ready,
            actual: ScopeLifecycleState::Disposed,
        }
        .message(),
        "invalid scope lifecycle transition: expected Ready, actual Disposed"
    );
    assert_eq!(
        candidate_publish_refusal(ScopeLifecycleState::Active).unwrap(),
        "invalid scope lifecycle transition: expected Ready, actual Active"
    );
    assert!(candidate_publish_refusal(ScopeLifecycleState::Ready).is_none());
}

#[test]
fn children_attach_only_to_their_open_parent() {
    let parent = ScopeIdentity::new("application".to_string(), "application".to_string(), None, 1);
    let child = scope("project.a", 2);
    assert!(check_attach_child(ScopeLifecycleState::Active, &parent, &child).is_ok());
    let stranger = ScopeIdentity::new(
        "project".to_string(),
        "project.b".to_string(),
        Some("other".to_string()),
        3,
    );
    assert_eq!(
        check_attach_child(ScopeLifecycleState::Active, &parent, &stranger),
        Err(ScopeStateError::InvalidChildParent)
    );
    assert_eq!(
        check_attach_child(ScopeLifecycleState::Disposed, &parent, &child),
        Err(ScopeStateError::InvalidTransition {
            expected: ScopeLifecycleState::Active,
            actual: ScopeLifecycleState::Disposed,
        })
    );
}

#[test]
fn scope_dispose_fails_on_any_leak() {
    let s = scope("project.a", 2);
    let (report, state, diagnostic) =
        finish_scope_dispose(&s, false, false, 0, 0, Vec::new(), Vec::new());
    assert_eq!(report.outcome, DisposeOutcome::Disposed);
    assert_eq!(state, ScopeLifecycleState::Disposed);
    assert_eq!(diagnostic.code, DiagnosticCode::ScopeDisposed);
    let child = timed_out_scope_report(&scope("child", 3), 1, 0);
    let (report, state, diagnostic) =
        finish_scope_dispose(&s, false, false, 1, 0, vec![child], Vec::new());
    assert_eq!(report.outcome, DisposeOutcome::Failed);
    assert_eq!(state, ScopeLifecycleState::Failed);
    assert_eq!(diagnostic.message, "scope disposal completed with leaked resources");
    let (report, _, _) = finish_scope_dispose(&s, true, false, 0, 0, Vec::new(), Vec::new());
    assert!(report.quiesce_timed_out);
    assert_eq!(report.outcome, DisposeOutcome::Failed);
}

#[test]
fn stale_completions_are_refused() {
    let current = scope("project.a", 3);
    assert!(validate_current(&Some(current.clone()), &current).is_ok());
    let error = validate_current(&Some(current.clone()), &scope("project.a", 2)).unwrap_err();
    assert_eq!(error.context.actual, Some(current));
    assert_eq!(error.context.completed.generation, 2);
    assert!(validate_current(&None, &scope("project.a", 2)).is_err());
}

#[test]
fn generations_never_repeat() {
    assert_eq!(next_generation(2), Some((2, 3)));
    assert_eq!(next_generation(u64::MAX), None);
}

#[test]
fn registry_markers_are_exclusive_and_released_only_by_their_owner() {
    let mut markers = RegistryMarkers::new();
    assert!(markers.register("cap.x".to_string(), instance("plugin.a")).is_ok());
    assert_eq!(
        markers.register("cap.x".to_string(), instance("plugin.b")),
        Err(RegistryError::DuplicateMarker {
            capability_id: "cap.x".to_string()
        })
    );
    markers.release("cap.x", &instance("plugin.b"));
    assert_eq!(markers.owner("cap.x"), Some(instance("plugin.a")));
    markers.release("cap.x", &instance("plugin.a"));
    assert_eq!(markers.owner("cap.x"), None);
    assert!(markers.register("cap.x".to_string(), instance("plugin.b")).is_ok());
    assert_eq!(
        RegistryError::DuplicateMarker {
            capability_id: "cap.y".to_string()
        }
        .message(),
        "registry marker already exists: cap.y"
    );
}

#[test]
fn activation_failure_rolls_back_and_reports() {
    let mut build = CandidateBuild::new(
        scope("project.a", 2),
        vec!["plugin.a".to_string(), "plugin.b".to_string()],
    );
    let (first, started) = build.next_plugin().unwrap();
    assert_eq!(first.plugin_id, "plugin.a");
    assert_eq!(started.code, DiagnosticCode::ActivationStarted);
    let (step, done) = build.record(ActivationOutcome::Succeeded);
    assert_eq!(step, BuildStep::Continue);
    assert_eq!(done.code, DiagnosticCode::ActivationSucceeded);
    let (second, _) = build.next_plugin().unwrap();
    assert_eq!(second.plugin_id, "plugin.b");
    let (step, failed) = build.record(ActivationOutcome::Panicked);
    assert_eq!(step, BuildStep::RollBack);
    assert_eq!(failed.message, "plugin activation failed: activation_panicked");
    assert!(build.next_plugin().is_none());
    let rollback = timed_out_scope_report(&scope("project.a", 2), 1, 0);
    let (error, diagnostic) = build.rolled_back(rollback);
    match error {
        CandidateBuildError::Activation { plugin_id, error, .. } => {
            assert_eq!(plugin_id, "plugin.b");
            assert_eq!(error.code(), "activation_panicked");
        }
        _ => panic!("expected an activation error"),
    }
    assert_eq!(
        diagnostic.unwrap().code,
        DiagnosticCode::ActivationRollbackFailed
    );
}
