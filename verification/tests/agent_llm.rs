use rho::agent_llm::{
    build_settings_view, cancel_test, default_settings, delete_model, delete_provider,
    inherited_user_environ, plan_connection_test, probed_user_environ, record_connection_test,
    resolve_model_for_turn, resolve_model_with_settings, save_model, save_provider,
    select_model, selector_status, settings_path, validate_settings, AgentConnectionTestResponse,
    AgentModelCapabilities, AgentModelTestState, AgentUserEnvironInfo, DeleteModelRequest,
    SettingsError, SettingsField,
};

#[test]
fn default_migration_preserves_deepseek_flash() {
    let settings = default_settings();
    assert_eq!(settings.selected_model_id, "model-deepseek-v4-flash");
    assert_eq!(settings.models[0].model_id, "deepseek-v4-flash");
    assert_eq!(
        settings.providers[0].registered_provider_id.as_deref(),
        Some("deepseek")
    );
}

#[test]
fn duplicate_provider_ids_are_rejected() {
    let mut settings = default_settings();
    settings.providers.push(settings.providers[0].clone());
    assert!(validate_settings(&settings).is_err());
}

#[test]
fn selected_model_must_exist_and_be_enabled() {
    let mut settings = default_settings();
    settings.selected_model_id = "missing".to_string();
    assert!(validate_settings(&settings).is_err());
    let mut settings = default_settings();
    settings.models[0].enabled = false;
    assert!(validate_settings(&settings).is_err());
}

#[test]
fn environment_variable_names_are_validated() {
    let mut settings = default_settings();
    settings.providers[0].api_key_env = Some("1BAD".to_string());
    assert!(validate_settings(&settings).is_err());
}

#[test]
fn base_urls_reject_secret_like_query_parameters() {
    let mut settings = default_settings();
    settings.providers[0].kind = "openai_compatible".to_string();
    settings.providers[0].registered_provider_id = None;
    settings.providers[0].base_url = Some("https://example.test/v1?api_key=secret".to_string());
    settings.providers[0].wire_api = Some("chat_completions".to_string());
    settings.providers[0].api_key_env = Some("OPENAI_API_KEY".to_string());
    assert!(validate_settings(&settings).is_err());
}

#[test]
fn resolves_requested_model_without_fallback() {
    let settings = default_settings();
    let resolved =
        resolve_model_with_settings(&settings, Some("model-deepseek-v4-flash")).unwrap();
    assert_eq!(resolved.effective_model_ref, "deepseek:deepseek-v4-flash");
    assert_eq!(resolved.runtime_profile.tool_calling, "yes");
}

fn compatible_settings() -> rho::agent_llm::AgentLlmSettings {
    let mut settings = default_settings();
    settings.providers[0].kind = "openai_compatible".to_string();
    settings.providers[0].registered_provider_id = None;
    settings.providers[0].base_url = Some("https://example.test/v1".to_string());
    settings.providers[0].wire_api = Some("chat_completions".to_string());
    settings.providers[0].api_key_env = Some("OPENAI_API_KEY".to_string());
    settings
}

#[test]
fn default_settings_are_valid() {
    assert!(validate_settings(&default_settings()).is_ok());
}

#[test]
fn validation_errors_name_the_first_broken_rule() {
    let mut settings = default_settings();
    settings.schema_version = 2;
    assert_eq!(
        validate_settings(&settings),
        Err(SettingsError::UnsupportedSchemaVersion)
    );
    let mut settings = default_settings();
    settings.selected_model_id = "   ".to_string();
    assert_eq!(
        validate_settings(&settings),
        Err(SettingsError::Empty(SettingsField::SelectedModelId))
    );
    let mut settings = default_settings();
    settings.providers[0].kind = "mystery".to_string();
    assert_eq!(
        validate_settings(&settings),
        Err(SettingsError::UnsupportedProviderKind)
    );
    let mut settings = default_settings();
    settings.providers[0].api_key_env = Some("GOOD-NAME".to_string());
    assert_eq!(validate_settings(&settings), Err(SettingsError::EnvNameChars));
    let mut settings = default_settings();
    settings.providers[0].api_key_env = None;
    assert_eq!(validate_settings(&settings), Err(SettingsError::EnvNameMissing));
    let mut settings = default_settings();
    settings.models[0].capabilities.reasoning = "maybe".to_string();
    assert_eq!(validate_settings(&settings), Err(SettingsError::CapabilityValue));
    let mut settings = default_settings();
    settings.models[0].provider_id = "provider-other".to_string();
    assert_eq!(
        validate_settings(&settings),
        Err(SettingsError::UnknownModelProvider)
    );
    let mut settings = default_settings();
    settings.models[0].id = "x".repeat(121);
    assert_eq!(
        validate_settings(&settings),
        Err(SettingsError::TooLong(SettingsField::ModelId))
    );
}

#[test]
fn base_url_rules() {
    assert!(validate_settings(&compatible_settings()).is_ok());
    let mut settings = compatible_settings();
    settings.providers[0].base_url = Some("ftp://example.test".to_string());
    assert_eq!(validate_settings(&settings), Err(SettingsError::BaseUrlScheme));
    let mut settings = compatible_settings();
    settings.providers[0].base_url = Some("https://user@example.test/v1".to_string());
    assert_eq!(validate_settings(&settings), Err(SettingsError::BaseUrlUserInfo));
    let mut settings = compatible_settings();
    settings.providers[0].base_url = Some("https://example.test/v1?Token=abc".to_string());
    assert_eq!(validate_settings(&settings), Err(SettingsError::BaseUrlSecret));
    let mut settings = compatible_settings();
    settings.providers[0].base_url_env = Some("BASE_URL".to_string());
    assert_eq!(validate_settings(&settings), Err(SettingsError::BaseUrlConflict));
    let mut settings = compatible_settings();
    settings.providers[0].wire_api = Some("grpc".to_string());
    assert_eq!(validate_settings(&settings), Err(SettingsError::CompatibleWireApi));
    let mut settings = default_settings();
    settings.providers[0].base_url = Some("https://example.test".to_string());
    assert_eq!(validate_settings(&settings), Err(SettingsError::BuiltInBaseUrl));
}

#[test]
fn saving_a_provider_replaces_by_id_or_appends() {
    let settings = default_settings();
    let mut provider = settings.providers[0].clone();
    provider.display_name = "DeepSeek (renamed)".to_string();
    let saved = save_provider(settings, provider).unwrap();
    assert_eq!(saved.providers.len(), 1);
    assert_eq!(saved.providers[0].display_name, "DeepSeek (renamed)");

    let mut extra = saved.providers[0].clone();
    extra.id = "provider-second".to_string();
    let saved = save_provider(saved, extra).unwrap();
    assert_eq!(saved.providers.len(), 2);
    assert_eq!(saved.providers[1].id, "provider-second");

    let mut broken = saved.providers[0].clone();
    broken.kind = "nope".to_string();
    assert_eq!(
        save_provider(saved, broken).unwrap_err(),
        SettingsError::UnsupportedProviderKind
    );
}

#[test]
fn deleting_providers_and_models() {
    let settings = default_settings();
    assert_eq!(
        delete_provider(settings.clone(), "provider-deepseek-existing").unwrap_err(),
        SettingsError::ProviderHasModels
    );
    assert_eq!(
        delete_provider(settings.clone(), "provider-missing").unwrap_err(),
        SettingsError::UnknownProvider("provider-missing".to_string())
    );

    let mut second = settings.models[0].clone();
    second.id = "model-second".to_string();
    let settings = save_model(settings, second).unwrap();
    assert_eq!(settings.models.len(), 2);

    let request = DeleteModelRequest {
        model_id: "model-deepseek-v4-flash".to_string(),
        replacement_model_id: None,
    };
    assert_eq!(
        delete_model(settings.clone(), &request).unwrap_err(),
        SettingsError::ReplacementRequired
    );
    let request = DeleteModelRequest {
        model_id: "model-deepseek-v4-flash".to_string(),
        replacement_model_id: Some("model-deepseek-v4-flash".to_string()),
    };
    assert_eq!(
        delete_model(settings.clone(), &request).unwrap_err(),
        SettingsError::ReplacementSame
    );
    let request = DeleteModelRequest {
        model_id: "model-deepseek-v4-flash".to_string(),
        replacement_model_id: Some("model-second".to_string()),
    };
    let after = delete_model(settings.clone(), &request).unwrap();
    assert_eq!(after.selected_model_id, "model-second");
    assert_eq!(after.models.len(), 1);
    assert_eq!(after.models[0].id, "model-second");

    let request = DeleteModelRequest {
        model_id: "model-unknown".to_string(),
        replacement_model_id: None,
    };
    assert_eq!(
        delete_model(settings, &request).unwrap_err(),
        SettingsError::UnknownModel("model-unknown".to_string())
    );
}

#[test]
fn selecting_a_model() {
    let settings = default_settings();
    let mut second = settings.models[0].clone();
    second.id = "model-second".to_string();
    second.enabled = false;
    let settings = save_model(settings, second).unwrap();
    assert_eq!(
        select_model(settings.clone(), "model-second").unwrap_err(),
        SettingsError::SelectedMustBeEnabled
    );
    assert_eq!(
        select_model(settings.clone(), "nope").unwrap_err(),
        SettingsError::UnknownModel("nope".to_string())
    );
    let chosen = select_model(settings, "model-deepseek-v4-flash").unwrap();
    assert_eq!(chosen.selected_model_id, "model-deepseek-v4-flash");
}

#[test]
fn compatible_providers_use_a_sanitized_runtime_id() {
    let mut settings = compatible_settings();
    settings.providers[0].id = "my provider.1".to_string();
    settings.models[0].provider_id = "my provider.1".to_string();
    let resolved = resolve_model_for_turn(&settings, None).unwrap();
    assert_eq!(
        resolved.runtime_profile.runtime_provider_id,
        "rho_profile_provider_my_provider_1"
    );
    assert_eq!(
        resolved.effective_model_ref,
        "rho_profile_provider_my_provider_1:deepseek-v4-flash"
    );
    assert!(!resolved.runtime_profile.disable_stream_options);
    assert_eq!(
        resolve_model_with_settings(&settings, Some("missing")).unwrap_err(),
        SettingsError::UnknownAgentModel("missing".to_string())
    );
}

#[test]
fn settings_view_reports_statuses() {
    let settings = default_settings();
    let environ = AgentUserEnvironInfo {
        path: "C:/Users/test/.Renviron".to_string(),
        source: "default".to_string(),
    };
    let statuses = vec![(
        "provider-deepseek-existing".to_string(),
        "not_detected".to_string(),
    )];
    assert_eq!(
        selector_status(&settings.models[0], &statuses, &settings.providers),
        "Key missing"
    );
    let view = build_settings_view(settings.clone(), environ.clone(), &statuses);
    assert_eq!(view.providers[0].credential_status, "not_detected");
    assert_eq!(view.models[0].provider_display_name, "DeepSeek");
    assert!(view.models[0].selected);
    assert!(view.models[0].act_enabled);
    let selected = view.selected_model.unwrap();
    assert_eq!(selected.id, "model-deepseek-v4-flash");
    assert_eq!(selected.selector_status, "Key missing");

    let detected = vec![(
        "provider-deepseek-existing".to_string(),
        "detected".to_string(),
    )];
    assert_eq!(
        selector_status(&settings.models[0], &detected, &settings.providers),
        "Untested"
    );
}

#[test]
fn connection_tests_need_a_detected_key_and_an_unchanged_profile() {
    let settings = default_settings();
    let missing = vec![(
        "provider-deepseek-existing".to_string(),
        "not_detected".to_string(),
    )];
    let (resolved, early) =
        plan_connection_test(&settings, &missing, "model-deepseek-v4-flash").unwrap();
    let early = early.unwrap();
    assert_eq!(early.status, "error");
    assert_eq!(early.error_class.as_deref(), Some("credential"));
    assert_eq!(early.capabilities.reasoning, "unknown");

    let detected = vec![(
        "provider-deepseek-existing".to_string(),
        "detected".to_string(),
    )];
    let (_, run) = plan_connection_test(&settings, &detected, "model-deepseek-v4-flash").unwrap();
    assert!(run.is_none());

    let result = AgentConnectionTestResponse {
        status: "ready".to_string(),
        credential_status: "detected".to_string(),
        model_resolved: true,
        latency_ms: Some(120),
        capabilities: AgentModelCapabilities {
            tool_calling: "yes".to_string(),
            reasoning: "no".to_string(),
            vision_input: "no".to_string(),
            source: "probe".to_string(),
        },
        message: "ok".to_string(),
        error_class: None,
    };
    let recorded = record_connection_test(
        settings.clone(),
        "model-deepseek-v4-flash",
        &resolved.runtime_profile,
        &result,
        "2026-01-02T03:04:05+00:00".to_string(),
    )
    .unwrap();
    let last = recorded.models[0].last_test.clone().unwrap();
    assert_eq!(last.status, "ready");
    assert_eq!(last.checked_at, "2026-01-02T03:04:05+00:00");
    assert_eq!(last.latency_ms, Some(120));
    assert_eq!(recorded.models[0].capabilities.source, "probe");

    let mut changed = settings.clone();
    changed.models[0].model_id = "deepseek-v5".to_string();
    assert_eq!(
        record_connection_test(
            changed,
            "model-deepseek-v4-flash",
            &resolved.runtime_profile,
            &result,
            "2026-01-02T03:04:05+00:00".to_string()
        )
        .unwrap_err(),
        SettingsError::ConfigurationChanged
    );
}

#[test]
fn cancelling_marks_only_a_running_test() {
    let mut idle = AgentModelTestState::default();
    assert_eq!(cancel_test(&mut idle), None);
    assert!(!idle.cancel_requested);
    let mut running = AgentModelTestState {
        pid: Some(42),
        cancel_requested: false,
    };
    assert_eq!(cancel_test(&mut running), Some(42));
    assert!(running.cancel_requested);
}

#[test]
fn settings_path_and_user_environ() {
    assert_eq!(settings_path("/data"), "/data/llm-profiles.json");
    assert_eq!(settings_path("/data/"), "/data/llm-profiles.json");
    let inherited = inherited_user_environ(Some("C:\\Users\\test\\custom.Renviron".to_string()))
        .unwrap();
    assert_eq!(inherited.path, "C:/Users/test/custom.Renviron");
    assert_eq!(inherited.source, "inherited");
    assert!(inherited_user_environ(Some(String::new())).is_none());
    assert!(probed_user_environ("  \n").is_none());
    let probed = probed_user_environ(" /home/u/.Renviron\n").unwrap();
    assert_eq!(probed.path, "/home/u/.Renviron");
    assert_eq!(probed.source, "default");
}

#[test]
fn settings_errors_read_as_the_user_sees_them() {
    assert_eq!(
        SettingsError::Empty(SettingsField::ProviderId).message(),
        "Provider ID must not be empty."
    );
    assert_eq!(
        SettingsError::UnknownModel("m".to_string()).message(),
        "Unknown model: m"
    );
    assert_eq!(
        SettingsError::BaseUrlSecret.message(),
        "Put signed or secret-bearing endpoints in an environment variable."
    );
}

#[test]
fn selecting_an_enabled_model_keeps_valid_settings_valid() {
    let mut second = default_settings().models[0].clone();
    second.id = "model-second".to_string();
    let settings = save_model(default_settings(), second).unwrap();
    assert!(validate_settings(&settings).is_ok());
    let chosen = select_model(settings, "model-second").unwrap();
    assert_eq!(chosen.selected_model_id, "model-second");
    assert!(validate_settings(&chosen).is_ok());
}

#[test]
fn turn_resolution_matches_resolution_on_valid_settings() {
    let settings = default_settings();
    let for_turn = resolve_model_for_turn(&settings, None).unwrap();
    let direct = resolve_model_with_settings(&settings, None).unwrap();
    assert_eq!(for_turn.effective_model_ref, direct.effective_model_ref);
    assert_eq!(for_turn.provider_id, direct.provider_id);
    assert_eq!(
        for_turn.runtime_profile.runtime_provider_id,
        direct.runtime_profile.runtime_provider_id
    );
    let mut broken = settings.clone();
    broken.schema_version = 7;
    assert_eq!(
        resolve_model_for_turn(&broken, None).unwrap_err(),
        SettingsError::UnsupportedSchemaVersion
    );
    assert!(resolve_model_with_settings(&broken, None).is_ok());
}
