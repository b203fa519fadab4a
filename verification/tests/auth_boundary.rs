use async_demos::auth_boundary::{
    build_sampler_config, session_token_auth_gate, AuthMethod, CredentialSource, Endpoint,
    ModelByok, ModelEntry, Recovery, SamplerConfig, Secret, TurnAuthRecovery,
};

#[test]
fn auth_gate_table() {
    assert!(session_token_auth_gate(AuthMethod::Oidc, ModelByok::NotByok, Endpoint::FirstParty));
    assert!(!session_token_auth_gate(AuthMethod::ApiKey, ModelByok::NotByok, Endpoint::FirstParty));
    assert!(!session_token_auth_gate(AuthMethod::CachedToken, ModelByok::Byok, Endpoint::ThirdParty));
    assert!(session_token_auth_gate(AuthMethod::CachedToken, ModelByok::Unknown, Endpoint::FirstParty));
    assert!(!session_token_auth_gate(AuthMethod::CachedToken, ModelByok::Unknown, Endpoint::ThirdParty));
    assert!(AuthMethod::Oidc.is_session_based());
    assert!(!AuthMethod::ApiKey.is_session_based());
}

#[test]
fn auth_sampler_config_and_single_recovery() {
    let unsafe_route = ModelEntry {
        alias: "misconfigured",
        display_name: "Misconfigured model",
        wire_model: "third-party-model",
        endpoint: Endpoint::ThirdParty,
        byok: ModelByok::NotByok,
        model_key: None,
    };
    assert_eq!(
        build_sampler_config(&unsafe_route, AuthMethod::Oidc, 1).unwrap_err(),
        "no credential allowed for model/endpoint"
    );

    let first_party = ModelEntry {
        alias: "fast",
        display_name: "Fast model",
        wire_model: "grok-4-real-id",
        endpoint: Endpoint::FirstParty,
        byok: ModelByok::NotByok,
        model_key: None,
    };
    let initial = build_sampler_config(&first_party, AuthMethod::Oidc, 7).unwrap();
    assert_eq!(first_party.alias, "fast");
    assert_eq!(first_party.display_name, "Fast model");
    assert_eq!(initial.wire_model, "grok-4-real-id");
    assert_eq!(initial.credential_source, CredentialSource::Session);

    let mut turn = TurnAuthRecovery {
        used: false,
        refresh_calls: 0,
        sampler_generation: initial.generation,
    };
    let recovered = turn.handle_401(&first_party, AuthMethod::Oidc, true);
    assert!(matches!(
        recovered,
        Recovery::RefreshAndResubmit(SamplerConfig {
            generation: 8,
            credential_source: CredentialSource::Session,
            ..
        })
    ));
    assert_eq!(turn.refresh_calls, 1);
    assert_eq!(
        turn.handle_401(&first_party, AuthMethod::Oidc, true),
        Recovery::SurfaceUnauthorized
    );
    assert_eq!(turn.refresh_calls, 1);

    let third_party = ModelEntry {
        alias: "custom",
        display_name: "Custom gateway",
        wire_model: "vendor-model-v2",
        endpoint: Endpoint::ThirdParty,
        byok: ModelByok::Byok,
        model_key: Some(Secret("third-party-secret")),
    };
    let config = build_sampler_config(&third_party, AuthMethod::Oidc, 1).unwrap();
    assert_eq!(config.credential_source, CredentialSource::ModelByok);
    let mut third_party_turn = TurnAuthRecovery {
        used: false,
        refresh_calls: 0,
        sampler_generation: 1,
    };
    assert_eq!(
        third_party_turn.handle_401(&third_party, AuthMethod::Oidc, true),
        Recovery::SurfaceUnauthorized
    );
    assert_eq!(third_party_turn.refresh_calls, 0);

    let secret_debug = third_party.model_key.as_ref().unwrap().debug_text();
    assert_eq!(secret_debug, "<redacted>");
    assert!(!secret_debug.contains(third_party.model_key.as_ref().unwrap().0));
}

#[test]
fn auth_failed_refresh_spends_the_budget() {
    let model = ModelEntry {
        alias: "fast",
        display_name: "Fast",
        wire_model: "m",
        endpoint: Endpoint::FirstParty,
        byok: ModelByok::NotByok,
        model_key: None,
    };
    let mut turn = TurnAuthRecovery { used: false, refresh_calls: 0, sampler_generation: 3 };
    assert_eq!(turn.handle_401(&model, AuthMethod::CachedToken, false), Recovery::SurfaceUnauthorized);
    assert!(turn.used);
    assert_eq!(turn.refresh_calls, 1);
    assert_eq!(turn.sampler_generation, 3);
    assert_eq!(turn.handle_401(&model, AuthMethod::CachedToken, true), Recovery::SurfaceUnauthorized);
    assert_eq!(turn.refresh_calls, 1);
}
