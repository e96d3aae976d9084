use rho::agent_llm::check_probe_run;
use rho::extension_lifecycle::{
    CollectingDiagnosticSink, DiagnosticSink, EffectSink, InternalExtensionRuntimeMode,
    NoopDiagnosticSink, PluginInstanceIdentity, RegistryError, RegistryMarkers, ScopeIdentity,
};
use rho::package_trash::{
    check_found_package, check_package_digest, decide_exact_move, decide_exact_restore,
    settle_step, PluginPackageOwnershipOutcome, PluginPackageTrashError, TrashStep,
    ValidatedMoveIdentity,
};
use rho::plugin_permissions::{
    decide_enable, permissions_to_review, ActiveEnable, EnableStep, PendingEnableRequest,
};
use rho::project::{check_relative_project_path, ProjectError};
use rho::run_store::{check_schema_version, SCHEMA_VERSION};

fn instance(project: &str, plugin: &str) -> PluginInstanceIdentity {
    PluginInstanceIdentity {
        plugin_id: plugin.to_string(),
        scope: ScopeIdentity::new(
            "project".to_string(),
            project.to_string(),
            Some("application".to_string()),
            2,
        ),
    }
}

#[test]
fn markers_register_through_the_effect_sink() {
    let mut markers = RegistryMarkers::new();
    let mut sink: EffectSink<&str> = EffectSink::new(instance("project.a", "plugin.a"));
    assert_eq!(sink.push("first"), 0);
    assert_eq!(
        sink.register_marker(&mut markers, "cap.marker".to_string(), "release"),
        Ok(1)
    );
    assert_eq!(
        markers.owner("cap.marker"),
        Some(instance("project.a", "plugin.a"))
    );
    let mut other: EffectSink<&str> = EffectSink::new(instance("project.a", "plugin.b"));
    assert_eq!(
        other.register_marker(&mut markers, "cap.marker".to_string(), "release"),
        Err(RegistryError::DuplicateMarker {
            capability_id: "cap.marker".to_string()
        })
    );
    let (stack, disposers) = other.into_stack();
    assert!(disposers.is_empty());
    drop(stack);
    // Another candidate's markers are its own.
    let mut markers_b = RegistryMarkers::new();
    let mut sink_b: EffectSink<&str> = EffectSink::new(instance("project.b", "plugin.a"));
    assert_eq!(
        sink_b.register_marker(&mut markers_b, "cap.marker".to_string(), "release"),
        Ok(0)
    );
}

#[test]
fn dropping_sink_keeps_nothing_and_collecting_sink_keeps_one_warning() {
    let mut noop = NoopDiagnosticSink;
    let mut collecting = CollectingDiagnosticSink::new();
    assert_eq!(
        InternalExtensionRuntimeMode::parse(Some("bogus"), &mut noop),
        InternalExtensionRuntimeMode::Legacy
    );
    assert_eq!(
        InternalExtensionRuntimeMode::parse(Some("legacy"), &mut collecting),
        InternalExtensionRuntimeMode::Legacy
    );
    assert_eq!(collecting.len(), 0);
    InternalExtensionRuntimeMode::parse(Some("bogus"), &mut collecting);
    assert_eq!(collecting.len(), 1);
    let first = collecting.diagnostics()[0].clone();
    collecting.emit(first);
    assert_eq!(collecting.len(), 2);
}

#[test]
fn windows_paths_with_parents_roots_or_drives_are_refused() {
    assert_eq!(
        check_relative_project_path("..\\outside.R"),
        Err(ProjectError::ParentRootOrPrefix)
    );
    assert_eq!(
        check_relative_project_path("R\\..\\..\\x.R"),
        Err(ProjectError::ParentRootOrPrefix)
    );
    assert_eq!(
        check_relative_project_path("\\Windows\\x.R"),
        Err(ProjectError::NotRelative)
    );
    assert_eq!(
        check_relative_project_path("C:\\Users\\x.R"),
        Err(ProjectError::NotRelative)
    );
    assert_eq!(
        check_relative_project_path("C:x.R"),
        Err(ProjectError::ParentRootOrPrefix)
    );
    assert!(check_relative_project_path("R\\analysis.R").is_ok());
}

#[test]
fn probe_runs_report_cancel_then_timeout_then_failure() {
    assert_eq!(
        check_probe_run(true, true, false, "boom"),
        Err("Agent model test cancelled.".to_string())
    );
    assert_eq!(
        check_probe_run(false, true, false, "boom"),
        Err("Agent model test timed out after 30 seconds.".to_string())
    );
    assert_eq!(
        check_probe_run(false, false, false, "boom"),
        Err("R probe failed: boom".to_string())
    );
    assert_eq!(check_probe_run(false, false, true, "noise"), Ok(()));
}

#[test]
fn schema_versions_open_only_when_known() {
    assert_eq!(check_schema_version(None), Ok(()));
    assert_eq!(check_schema_version(Some(1)), Ok(()));
    assert_eq!(check_schema_version(Some(SCHEMA_VERSION)), Ok(()));
    assert_eq!(check_schema_version(Some(3)), Err(3));
    assert_eq!(check_schema_version(Some(0)), Err(0));
}

#[test]
fn trash_identity_and_found_package_are_checked() {
    let digest = "a".repeat(64);
    let identity =
        ValidatedMoveIdentity::new("example-plugin", "org.example.plugin", &digest, "trash-1")
            .unwrap();
    assert_eq!(identity.plugin_id, "org.example.plugin");
    assert_eq!(
        ValidatedMoveIdentity::new("example-plugin", "org.example.plugin", "short", "trash-1"),
        Err(PluginPackageTrashError::InvalidIdentity(
            "invalid package digest".to_string()
        ))
    );
    assert_eq!(
        ValidatedMoveIdentity::new("../escape", "org.example.plugin", &digest, "trash-1"),
        Err(PluginPackageTrashError::InvalidIdentity(
            "invalid plugin directory".to_string()
        ))
    );
    assert_eq!(
        check_found_package(&identity, "org.example.plugin", Some(("example-plugin", &digest))),
        Ok(())
    );
    assert_eq!(
        check_found_package(&identity, "org.other.plugin", Some(("example-plugin", &digest))),
        Err(PluginPackageTrashError::ValidationFailed(
            "source plugin ID changed before move".to_string()
        ))
    );
    assert_eq!(
        check_found_package(&identity, "org.example.plugin", None),
        Err(PluginPackageTrashError::ValidationFailed(
            "source plugin disappeared before move".to_string()
        ))
    );
    let wrong = "b".repeat(64);
    assert_eq!(
        check_found_package(&identity, "org.example.plugin", Some(("example-plugin", &wrong))),
        Err(PluginPackageTrashError::ValidationFailed(
            "source directory or digest changed before move".to_string()
        ))
    );
    assert!(check_package_digest(&identity, &digest).is_ok());
    assert!(check_package_digest(&identity, &wrong).is_err());
}

#[test]
fn exact_moves_refuse_a_package_whose_digest_changed() {
    let digest = "a".repeat(64);
    let wrong = "f".repeat(64);
    let identity =
        ValidatedMoveIdentity::new("example", "org.example.plugin", &digest, "trash.move-a")
            .unwrap();
    assert_eq!(
        decide_exact_move(&identity, true, false, "org.example.plugin", Some(("example", &digest))),
        Ok(TrashStep::Rename)
    );
    assert_eq!(
        decide_exact_move(&identity, true, false, "org.example.plugin", Some(("example", &wrong))),
        Err(PluginPackageTrashError::ValidationFailed(
            "source directory or digest changed before move".to_string()
        ))
    );
    assert_eq!(
        decide_exact_move(&identity, false, true, "", None),
        Ok(TrashStep::AlreadyDone)
    );
    assert_eq!(
        decide_exact_move(&identity, true, true, "org.example.plugin", None),
        Err(PluginPackageTrashError::UnsafeOwnership(
            "source and trash both exist for one package".to_string()
        ))
    );
    let moved = settle_step(&identity, false, TrashStep::Rename, &digest).unwrap();
    assert_eq!(moved.outcome, PluginPackageOwnershipOutcome::Moved);
    assert_eq!(moved.trash_key, "trash.move-a");
    assert_eq!(moved.package_digest, digest);
    let again = settle_step(&identity, false, TrashStep::AlreadyDone, &digest).unwrap();
    assert_eq!(again.outcome, PluginPackageOwnershipOutcome::AlreadyMoved);
    assert_eq!(
        settle_step(&identity, false, TrashStep::AlreadyDone, &wrong),
        Err(PluginPackageTrashError::ValidationFailed(
            "package digest changed during ownership validation".to_string()
        ))
    );
    assert_eq!(
        settle_step(&identity, true, TrashStep::Rename, &wrong),
        Err(PluginPackageTrashError::ValidationFailed(
            "restored package digest changed".to_string()
        ))
    );
    assert_eq!(
        decide_exact_restore(&identity, false, true, &wrong),
        Err(PluginPackageTrashError::ValidationFailed(
            "package digest changed during ownership validation".to_string()
        ))
    );
    assert_eq!(decide_exact_restore(&identity, true, false, &wrong), Ok(TrashStep::AlreadyDone));
}

#[test]
fn enabling_reuses_what_is_already_under_way_for_the_exact_package() {
    let active = Some(ActiveEnable {
        package_digest: "d1".to_string(),
        plugin_version: "1.0.0".to_string(),
        grant_count: 2,
    });
    let pending = Some(PendingEnableRequest {
        package_digest: "d1".to_string(),
        plugin_version: "1.0.0".to_string(),
        expected_project_revision: 4,
        request_ids: vec!["request.a".to_string()],
    });
    assert_eq!(
        decide_enable(4, true, "d1", "1.0.0", &active, &pending),
        Ok(EnableStep::AlreadyEnabled { active_grant_count: 2 })
    );
    assert_eq!(
        decide_enable(4, true, "d1", "1.0.0", &None, &pending),
        Ok(EnableStep::PendingReused {
            request_ids: vec!["request.a".to_string()]
        })
    );
    assert_eq!(
        decide_enable(5, true, "d1", "1.0.0", &None, &pending),
        Ok(EnableStep::StartOver)
    );
    assert_eq!(
        decide_enable(4, true, "d2", "1.0.0", &active, &None),
        Ok(EnableStep::StartOver)
    );
    assert_eq!(
        decide_enable(-1, true, "d1", "1.0.0", &None, &None),
        Err("plugin enable requires a current project revision".to_string())
    );
    assert_eq!(
        decide_enable(0, false, "d1", "1.0.0", &None, &None),
        Err("only Wasm workspace plugins are executable in Phase 2".to_string())
    );
    let asked = vec![
        ("fs.read".to_string(), "c1".to_string()),
        ("fs.write".to_string(), "c2".to_string()),
        ("fs.read".to_string(), "c3".to_string()),
    ];
    let durable = vec![("fs.read".to_string(), "c1".to_string())];
    assert_eq!(permissions_to_review(&asked, &durable), vec![false, true, true]);
}
