use byok_server::local_app::{
    enable_readiness, harness_status, integration_prerequisites_ready, integration_state,
    is_local_cursor_authorization, local_account_entries, proxy_host_allowed,
    request_uses_local_cursor_token, restores_on_startup, CaState,
    IntegrationState,
};
use byok_server::error::Error;
use byok_server::proxy::{
    is_cursor_host, is_local_path, local_stub_status, relay_action, routed_target,
    should_route_locally, RelayAction, TabMode,
};
use byok_server::skills::{SkillPlatform, SkillSyncServer};

#[test]
fn status_classifies_integration_without_changing_it() {
    assert_eq!(integration_state(false, false), IntegrationState::Disabled);
    assert_eq!(integration_state(true, true), IntegrationState::Enabled);
    assert_eq!(integration_state(true, false), IntegrationState::Degraded);
    assert_eq!(integration_state(false, true), IntegrationState::Degraded);
}

#[test]
fn startup_restore_requires_both_ca_and_backend() {
    assert!(integration_prerequisites_ready(&CaState::Ready, true));
    assert!(!integration_prerequisites_ready(&CaState::Ready, false));
    assert!(!integration_prerequisites_ready(&CaState::Missing, true));
    assert!(!integration_prerequisites_ready(&CaState::Untrusted, true));
    assert!(!integration_prerequisites_ready(&CaState::Invalid, true));
}

#[test]
fn startup_restores_only_a_switched_on_integration() {
    assert!(restores_on_startup(true, &CaState::Ready, true));
    assert!(!restores_on_startup(false, &CaState::Ready, true));
    assert!(!restores_on_startup(true, &CaState::Untrusted, true));
}

#[test]
fn enabling_names_the_first_missing_prerequisite() {
    assert!(enable_readiness(&CaState::Ready, true).is_ok());
    assert!(matches!(
        enable_readiness(&CaState::Missing, false),
        Err(Error::Config(message)) if message == "initialize and trust the CA before enabling Cursor"
    ));
    assert!(matches!(
        enable_readiness(&CaState::Ready, false),
        Err(Error::Config(message)) if message == "desktop management server is not ready"
    ));
}

#[test]
fn status_counts_configured_and_enabled_models() {
    let status = harness_status(
        "linux".into(),
        CaState::Ready,
        &[true, false, true],
        true,
        Some("http://127.0.0.1:9000".into()),
        false,
        None,
    );
    assert_eq!(status.configured_models, 3);
    assert_eq!(status.enabled_models, 2);
    assert_eq!(status.integration, IntegrationState::Degraded);
    assert_eq!(status.proxy_url.as_deref(), Some("http://127.0.0.1:9000"));
    assert!(!status.settings_applied);
}

#[test]
fn limits_interception_to_cursor_hosts_and_local_paths() {
    assert!(is_cursor_host("api2.cursor.sh"));
    assert!(is_cursor_host("repo42.cursor.sh"));
    assert!(!is_cursor_host("example.com"));
    assert!(is_local_path("/agent.v1.AgentService/RunSSE"));
    assert!(is_local_path("/aiserver.v1.AnalyticsService/BootstrapStatsig"));
    assert!(is_local_path("/aiserver.v1.AiService/KnowledgeBaseAdd"));
    assert!(is_local_path("/aiserver.v1.AiService/KnowledgeBaseList"));
    assert!(is_local_path("/aiserver.v1.AiService/KnowledgeBaseUpdate"));
    assert!(is_local_path("/aiserver.v1.AiService/KnowledgeBaseRemove"));
    assert!(!is_local_path("/unrelated"));
    assert!(should_route_locally("/aiserver.v1.AiService/StreamCpp", TabMode::Public));
    assert!(should_route_locally("/aiserver.v1.AiService/StreamCpp", TabMode::Custom));
    assert!(!should_route_locally("/aiserver.v1.AiService/StreamCpp", TabMode::Direct));
}

#[test]
fn cursor_cli_transport_and_model_metadata_routes_stay_local() {
    for path in [
        "/aiserver.v1.AiService/GetServerConfig",
        "/aiserver.v1.ServerConfigService/GetServerConfig",
        "/agent.v1.AgentService/GetDefaultModelForCli",
        "/aiserver.v1.AiService/GetDefaultModelForCli",
        "/aiserver.v1.AiService/GetDefaultModel",
        "/aiserver.v1.AiService/GetDefaultModelNudgeData",
        "/aiserver.v1.AiService/AvailableDocs",
        "/aiserver.v1.DashboardService/GetEffectiveUserPlugins",
        "/aiserver.v1.DashboardService/GetUserPrivacyMode",
        "/aiserver.v1.DashboardService/GetTeamReposOrEmptyIfNotInTeam",
        "/aiserver.v1.DashboardService/GetTeamAdminSettingsOrEmptyIfNotInTeam",
        "/aiserver.v1.AuthService/GetUserMeta",
        "/agent.v1.AgentService/UpdateConversationMetadata",
        "/auth/full_stripe_profile",
        "/auth/stripe_profile",
        "/aiserver.v1.AiService/FetchRelevantKnowledgeForConversation",
    ] {
        assert!(is_local_path(path), "{path} must not reach Cursor upstream");
    }
}

#[test]
fn cursor_hosts_ignore_case_and_trailing_dots() {
    assert!(is_cursor_host("API2.CURSOR.SH."));
    assert!(is_cursor_host("api3.cursor.sh.."));
    assert!(!is_cursor_host("cursor.sh"));
    assert!(!is_cursor_host("api2.cursor.sh.example.com"));
}

#[test]
fn rejected_upstream_paths_are_answered_locally() {
    assert_eq!(local_stub_status("/agent/v1/run"), Some(404));
    assert_eq!(
        local_stub_status("/aiserver.v1.BackgroundComposerService/MintAgentStoreToken"),
        Some(400)
    );
    assert_eq!(local_stub_status("/aiserver.v1.FileSyncService/FSSyncFile"), Some(404));
    assert_eq!(local_stub_status("/ws-reachability-probe"), Some(404));
    assert_eq!(local_stub_status("/agent.v1.AgentService/RunSSE"), None);
}

#[test]
fn relay_preserves_websocket_upgrade_requests() {
    let skills = SkillSyncServer::at("/missing".into(), "test-token");
    assert_eq!(
        relay_action(
            false,
            true,
            true,
            "api2.cursor.sh",
            "/ws-reachability-probe",
            TabMode::Public,
            &skills
        ),
        RelayAction::Forward
    );
}

#[test]
fn relay_preserves_tunnels_hosts_tab_modes_and_skill_ownership() {
    let skills = SkillSyncServer::at("/missing".into(), "test-token");
    for mode in [TabMode::Public, TabMode::Custom, TabMode::Direct] {
        let relay = |is_connect, is_get, host: &str, path: &str| {
            relay_action(is_connect, false, is_get, host, path, mode, &skills)
        };
        assert_eq!(relay(true, false, "api2.cursor.sh", ""), RelayAction::Forward);
        assert_eq!(relay(true, false, "example.com", ""), RelayAction::Forward);
        assert_eq!(relay(false, true, "API2.CURSOR.SH.", "/unknown"), RelayAction::RouteLocally);
        assert_eq!(relay(false, false, "api2.cursor.sh", "/unknown"), RelayAction::RouteLocally);
        assert_eq!(
            relay(false, true, "example.com", "/agent.v1.AgentService/RunSSE"),
            RelayAction::Forward
        );
        assert_eq!(
            relay(false, false, "api2.cursor.sh", "/aiserver.v1.AiService/StreamCpp"),
            if mode == TabMode::Direct {
                RelayAction::Forward
            } else {
                RelayAction::RouteLocally
            }
        );
        assert_eq!(
            relay(false, true, "127.0.0.1", "/.cursor-byok/remote-ssh/skills/test-token/unix"),
            RelayAction::SkillScript(SkillPlatform::Unix)
        );
        assert_eq!(
            relay(false, true, "api2.cursor.sh", "/.cursor-byok/remote-ssh/skills/test-token/windows"),
            RelayAction::SkillScript(SkillPlatform::Windows)
        );
        assert_eq!(
            relay(false, false, "api2.cursor.sh", "/agent/v1/run"),
            RelayAction::Stub {
                status: 404,
                grpc: false
            }
        );
        assert_eq!(
            relay(
                false,
                false,
                "api2.cursor.sh",
                "/aiserver.v1.BackgroundComposerService/ListEnvironments"
            ),
            RelayAction::Stub {
                status: 400,
                grpc: true
            }
        );
    }
    for url in ["https://api2.cursor.sh/unknown?x=1", "https://API2.CURSOR.SH./unknown?x=1"] {
        let (uri, upstream) = routed_target("127.0.0.1:12346", url, Some("/unknown?x=1"));
        assert_eq!(uri, "http://127.0.0.1:12346/unknown?x=1");
        assert_eq!(upstream, url);
    }
    let (uri, _) = routed_target("127.0.0.1:12346", "https://api2.cursor.sh", None);
    assert_eq!(uri, "http://127.0.0.1:12346/");
}

#[test]
fn only_the_injected_identity_is_a_local_authorization() {
    let token = "header.payload.cursor-local-user";
    assert!(is_local_cursor_authorization(&format!("Bearer {token}"), token));
    assert!(!is_local_cursor_authorization(token, token));
    assert!(!is_local_cursor_authorization("Bearer real-account-token", token));
    assert!(!is_local_cursor_authorization("Bearer ", token));
}

#[test]
fn the_local_account_is_injected_only_without_a_real_one() {
    let keys = |entries: Vec<(String, String)>| {
        entries.into_iter().map(|(key, _)| key).collect::<Vec<_>>()
    };
    let injected = local_account_entries(None, "local");
    assert_eq!(injected.len(), 7);
    assert_eq!(injected[0], ("cursorAuth/accessToken".to_owned(), "local".to_owned()));
    assert_eq!(keys(local_account_entries(Some("   "), "local")).len(), 7);
    assert_eq!(keys(local_account_entries(Some("local"), "local")).len(), 7);
    assert_eq!(
        keys(local_account_entries(Some("real-token"), "local")),
        vec![
            "cursorAuth/stripeMembershipType".to_owned(),
            "cursorAuth/stripeSubscriptionStatus".to_owned()
        ]
    );
}

#[test]
fn the_proxy_serves_only_cursor_hosts() {
    assert!(proxy_host_allowed("api2.cursor.sh"));
    assert!(proxy_host_allowed("API3.Cursor.SH."));
    assert!(proxy_host_allowed("repo42.cursor.sh"));
    assert!(!proxy_host_allowed("example.com"));
    assert!(!proxy_host_allowed("cursor.sh.example.com"));
}

#[test]
fn a_request_uses_the_local_token_only_with_its_bearer_header() {
    assert!(request_uses_local_cursor_token(Some("Bearer local"), "local"));
    assert!(!request_uses_local_cursor_token(Some("Bearer other"), "local"));
    assert!(!request_uses_local_cursor_token(None, "local"));
}
