//! Which requests the local proxy intercepts, answers itself, or sends to the local backend.
use vstd::prelude::*;

use crate::skills::{platform_of, SkillPlatform, SkillSyncServer};
use crate::text::{ends_with, lower, starts_with, str_eq, to_lower};

verus! {

/// How tab completions are served.
#[derive(Clone, Copy, Debug, PartialEq, Eq, Structural)]
pub enum TabMode {
    /// Through the local backend, with the public tab model.
    Public,
    /// Through the local backend, with a configured model.
    Custom,
    /// Straight to the official upstream.
    Direct,
}

/// The text without its trailing dots.
pub open spec fn trim_dots(s: Seq<char>) -> Seq<char>
    decreases s.len(),
{
    if s.len() > 0 && s.last() == '.' {
        trim_dots(s.drop_last())
    } else {
        s
    }
}

/// Whether `host` names a Cursor service: after trailing dots are dropped and ASCII letters
/// lowered, one of the two API hosts or any host under `.cursor.sh`.
pub open spec fn cursor_host(host: Seq<char>) -> bool {
    let h = lower(trim_dots(host));
    h == "api2.cursor.sh"@ || h == "api3.cursor.sh"@ || (".cursor.sh"@.len() <= h.len() && h.skip(
        h.len() - ".cursor.sh"@.len(),
    ) == ".cursor.sh"@)
}

fn trim_trailing_dots(s: &str) -> (r: String)
    ensures
        r@ == trim_dots(s@),
{
    let chars = crate::text::chars_of(s);
    let mut end: usize = chars.len();
    assert(chars@.take(end as int) == s@);
    while end > 0 && chars[end - 1] == '.'
        invariant
            end <= chars.len(),
            chars@ == s@,
            trim_dots(chars@.take(end as int)) == trim_dots(s@),
        decreases end,
    {
        assert(chars@.take(end as int).drop_last() == chars@.take(end - 1));
        end = end - 1;
    }
    assert(chars@.take(end as int) == chars@.subrange(0, end as int));
    crate::text::string_of_range(&chars, 0, end)
}

/// Whether the proxy intercepts traffic for `host`.
pub fn is_cursor_host(host: &str) -> (r: bool)
    ensures
        r == cursor_host(host@),
{
    let trimmed = trim_trailing_dots(host);
    let h = to_lower(trimmed.as_str());
    str_eq(h.as_str(), "api2.cursor.sh") || str_eq(h.as_str(), "api3.cursor.sh") || ends_with(
        h.as_str(),
        ".cursor.sh",
    )
}

/// The paths of the tab completion services.
pub open spec fn tab_path(p: Seq<char>) -> bool {
    ||| p == "/aiserver.v1.AiService/StreamCpp"@
    ||| p == "/aiserver.v1.AiService/CppConfig"@
    ||| p == "/aiserver.v1.AiService/CppEditHistoryStatus"@
    ||| ("/aiserver.v1.CppService/"@.len() <= p.len() && p.take("/aiserver.v1.CppService/"@.len() as int)
        == "/aiserver.v1.CppService/"@)
}

/// Whether `path` belongs to the tab completion services.
pub fn is_tab_path(path: &str) -> (r: bool)
    ensures
        r == tab_path(path@),
{
    str_eq(path, "/aiserver.v1.AiService/StreamCpp") || str_eq(
        path,
        "/aiserver.v1.AiService/CppConfig",
    ) || str_eq(path, "/aiserver.v1.AiService/CppEditHistoryStatus") || starts_with(
        path,
        "/aiserver.v1.CppService/",
    )
}

/// The status with which the proxy answers a path that the official upstream always rejects
/// for accounts without the matching cloud features.
pub open spec fn stub_status(p: Seq<char>) -> Option<u16> {
    if p == "/agent/v1/run"@ {
        Some(404)
    } else if p == "/aiserver.v1.BackgroundComposerService/MintAgentStoreToken"@
        || p == "/aiserver.v1.BackgroundComposerService/ListPrivateWorkers"@
        || p == "/aiserver.v1.BackgroundComposerService/ListEnvironments"@
        || p == "/aiserver.v1.BackgroundComposerService/ListBackgroundComposers"@ {
        Some(400)
    } else if p == "/aiserver.v1.FileSyncService/FSSyncFile"@ {
        Some(404)
    } else if p == "/ws-reachability-probe"@ {
        Some(404)
    } else {
        None
    }
}

/// The status of the local answer to `path`, if the proxy answers it itself.
pub fn local_stub_status(path: &str) -> (r: Option<u16>)
    ensures
        r == stub_status(path@),
{
    if str_eq(path, "/agent/v1/run") {
        Some(404)
    } else if str_eq(path, "/aiserver.v1.BackgroundComposerService/MintAgentStoreToken")
        || str_eq(path, "/aiserver.v1.BackgroundComposerService/ListPrivateWorkers")
        || str_eq(path, "/aiserver.v1.BackgroundComposerService/ListEnvironments")
        || str_eq(path, "/aiserver.v1.BackgroundComposerService/ListBackgroundComposers") {
        Some(400)
    } else if str_eq(path, "/aiserver.v1.FileSyncService/FSSyncFile") {
        Some(404)
    } else if str_eq(path, "/ws-reachability-probe") {
        Some(404)
    } else {
        None
    }
}

/// The paths that the local backend serves.
pub open spec fn local_path(p: Seq<char>) -> bool {
    ||| p == "/agent.v1.AgentService/RunSSE"@
    ||| p == "/aiserver.v1.BidiService/BidiAppend"@
    ||| p == "/aiserver.v1.AiService/AvailableDocs"@
    ||| p == "/aiserver.v1.DashboardService/GetEffectiveUserPlugins"@
    ||| p == "/aiserver.v1.DashboardService/GetUserPrivacyMode"@
    ||| p == "/aiserver.v1.DashboardService/GetTeamReposOrEmptyIfNotInTeam"@
    ||| p == "/aiserver.v1.DashboardService/GetTeamAdminSettingsOrEmptyIfNotInTeam"@
    ||| p == "/agent.v1.AgentService/UpdateConversationMetadata"@
    ||| p == "/aiserver.v1.AiService/GetServerConfig"@
    ||| p == "/aiserver.v1.ServerConfigService/GetServerConfig"@
    ||| p == "/aiserver.v1.AiService/AvailableModels"@
    ||| p == "/agent.v1.AgentService/GetUsableModels"@
    ||| p == "/aiserver.v1.AiService/GetUsableModels"@
    ||| p == "/agent.v1.AgentService/GetDefaultModelForCli"@
    ||| p == "/aiserver.v1.AiService/GetDefaultModelForCli"@
    ||| p == "/aiserver.v1.AiService/GetDefaultModel"@
    ||| p == "/aiserver.v1.AiService/GetDefaultModelNudgeData"@
    ||| p == "/aiserver.v1.AuthService/GetEmail"@
    ||| p == "/aiserver.v1.AuthService/GetUserMeta"@
    ||| p == "/aiserver.v1.DashboardService/GetMe"@
    ||| p == "/aiserver.v1.DashboardService/GetTeams"@
    ||| p == "/aiserver.v1.DashboardService/GetUserProfile"@
    ||| p == "/aiserver.v1.DashboardService/GetCurrentPeriodUsage"@
    ||| p == "/aiserver.v1.DashboardService/GetUsageLimitStatusAndActiveGrants"@
    ||| p == "/aiserver.v1.AiService/KnowledgeBaseAdd"@
    ||| p == "/aiserver.v1.AiService/KnowledgeBaseList"@
    ||| p == "/aiserver.v1.AiService/KnowledgeBaseUpdate"@
    ||| p == "/aiserver.v1.AiService/KnowledgeBaseRemove"@
    ||| p == "/aiserver.v1.AiService/FetchRelevantKnowledgeForConversation"@
    ||| p == "/aiserver.v1.AiService/WriteGitCommitMessage"@
    ||| p == "/aiserver.v1.NetworkService/IsConnected"@
    ||| p == "/aiserver.v1.AnalyticsService/BootstrapStatsig"@
    ||| p == "/auth/full_stripe_profile"@
    ||| p == "/auth/stripe_profile"@
}

/// Whether the local backend serves `path`.
pub fn is_local_path(path: &str) -> (r: bool)
    ensures
        r == local_path(path@),
{
    str_eq(path, "/agent.v1.AgentService/RunSSE") || str_eq(path, "/aiserver.v1.BidiService/BidiAppend") || str_eq(path, "/aiserver.v1.AiService/AvailableDocs") || str_eq(path, "/aiserver.v1.DashboardService/GetEffectiveUserPlugins") || str_eq(path, "/aiserver.v1.DashboardService/GetUserPrivacyMode") || str_eq(path, "/aiserver.v1.DashboardService/GetTeamReposOrEmptyIfNotInTeam") || str_eq(path, "/aiserver.v1.DashboardService/GetTeamAdminSettingsOrEmptyIfNotInTeam") || str_eq(path, "/agent.v1.AgentService/UpdateConversationMetadata") || str_eq(path, "/aiserver.v1.AiService/GetServerConfig") || str_eq(path, "/aiserver.v1.ServerConfigService/GetServerConfig") || str_eq(path, "/aiserver.v1.AiService/AvailableModels") || str_eq(path, "/agent.v1.AgentService/GetUsableModels") || str_eq(path, "/aiserver.v1.AiService/GetUsableModels") || str_eq(path, "/agent.v1.AgentService/GetDefaultModelForCli") || str_eq(path, "/aiserver.v1.AiService/GetDefaultModelForCli") || str_eq(path, "/aiserver.v1.AiService/GetDefaultModel") || str_eq(path, "/aiserver.v1.AiService/GetDefaultModelNudgeData") || str_eq(path, "/aiserver.v1.AuthService/GetEmail") || str_eq(path, "/aiserver.v1.AuthService/GetUserMeta") || str_eq(path, "/aiserver.v1.DashboardService/GetMe") || str_eq(path, "/aiserver.v1.DashboardService/GetTeams") || str_eq(path, "/aiserver.v1.DashboardService/GetUserProfile") || str_eq(path, "/aiserver.v1.DashboardService/GetCurrentPeriodUsage") || str_eq(path, "/aiserver.v1.DashboardService/GetUsageLimitStatusAndActiveGrants") || str_eq(path, "/aiserver.v1.AiService/KnowledgeBaseAdd") || str_eq(path, "/aiserver.v1.AiService/KnowledgeBaseList") || str_eq(path, "/aiserver.v1.AiService/KnowledgeBaseUpdate") || str_eq(path, "/aiserver.v1.AiService/KnowledgeBaseRemove") || str_eq(path, "/aiserver.v1.AiService/FetchRelevantKnowledgeForConversation") || str_eq(path, "/aiserver.v1.AiService/WriteGitCommitMessage") || str_eq(path, "/aiserver.v1.NetworkService/IsConnected") || str_eq(path, "/aiserver.v1.AnalyticsService/BootstrapStatsig") || str_eq(path, "/auth/full_stripe_profile") || str_eq(path, "/auth/stripe_profile")
}

/// Whether a request for `path` goes to the local backend under a tab mode.
pub open spec fn routes_locally(p: Seq<char>, tab_mode: TabMode) -> bool {
    local_path(p) || (tab_path(p) && tab_mode != TabMode::Direct)
}

/// Whether a request for `path` goes to the local backend under a tab mode: a local path, or a
/// tab path unless tab completions go straight upstream.
pub fn should_route_locally(path: &str, tab_mode: TabMode) -> (r: bool)
    ensures
        r == routes_locally(path@, tab_mode),
{
    is_local_path(path) || (is_tab_path(path) && tab_mode != TabMode::Direct)
}

/// What the proxy does with one request.
#[derive(Clone, Copy, Debug, PartialEq, Eq, Structural)]
pub enum RelayAction {
    /// Let the request through unchanged.
    Forward,
    /// Answer at once with an empty body and `status`; `grpc` marks a gRPC content type.
    Stub { status: u16, grpc: bool },
    /// Answer with the skill script of a platform.
    SkillScript(SkillPlatform),
    /// Send the request to the local backend, with the URL it was sent to in a header.
    RouteLocally,
}

/// Whether a path is a gRPC service path.
pub open spec fn grpc_path(p: Seq<char>) -> bool {
    ("/aiserver.v1."@.len() <= p.len() && p.take("/aiserver.v1."@.len() as int) == "/aiserver.v1."@)
        || ("/agent.v1."@.len() <= p.len() && p.take("/agent.v1."@.len() as int) == "/agent.v1."@)
}

/// What the proxy does with a request: tunnels and upgrades pass untouched; stubbed paths are
/// answered locally; a GET for a skill script is served; a request for a Cursor host goes to
/// the local backend unless it is a tab path that tab completions send straight upstream.
pub open spec fn relay_of(
    is_connect: bool,
    has_upgrade: bool,
    is_get: bool,
    host: Seq<char>,
    path: Seq<char>,
    tab_mode: TabMode,
    token: Seq<char>,
) -> RelayAction {
    if is_connect || has_upgrade {
        RelayAction::Forward
    } else if stub_status(path) is Some {
        RelayAction::Stub { status: stub_status(path)->0, grpc: grpc_path(path) }
    } else if is_get && platform_of(path, token) is Some {
        RelayAction::SkillScript(platform_of(path, token)->0)
    } else if cursor_host(host) && (routes_locally(path, tab_mode) || !tab_path(path)) {
        RelayAction::RouteLocally
    } else {
        RelayAction::Forward
    }
}

/// Decides what the proxy does with a request, from its method (`CONNECT`, `GET`), whether it
/// asks for an upgrade, its host (empty when it has none) and its path.
pub fn relay_action(
    is_connect: bool,
    has_upgrade: bool,
    is_get: bool,
    host: &str,
    path: &str,
    tab_mode: TabMode,
    skill_sync: &SkillSyncServer,
) -> (r: RelayAction)
    ensures
        r == relay_of(is_connect, has_upgrade, is_get, host@, path@, tab_mode, skill_sync.token@),
{
    if is_connect || has_upgrade {
        return RelayAction::Forward;
    }
    if let Some(status) = local_stub_status(path) {
        let grpc = starts_with(path, "/aiserver.v1.") || starts_with(path, "/agent.v1.");
        return RelayAction::Stub { status, grpc };
    }
    if is_get {
        if let Some(platform) = skill_sync.script_for_path(path) {
            return RelayAction::SkillScript(platform);
        }
    }
    if is_cursor_host(host) && (should_route_locally(path, tab_mode) || !is_tab_path(path)) {
        RelayAction::RouteLocally
    } else {
        RelayAction::Forward
    }
}

/// The URI a locally routed request is sent to: the backend's address over plain HTTP with the
/// request's path and query (`/` when it has none).
pub open spec fn routed_uri(backend: Seq<char>, path_and_query: Option<Seq<char>>) -> Seq<char> {
    "http://"@ + backend + match path_and_query {
        Some(p) => p,
        None => "/"@,
    }
}

/// Where a request that the proxy routes locally goes: the backend URI (see [`routed_uri`]) and
/// the value of the header that carries the URL it was sent to.
pub fn routed_target(backend: &str, original_url: &str, path_and_query: Option<&str>) -> (r: (
    String,
    String,
))
    ensures
        r.0@ == routed_uri(backend@, match path_and_query {
            Some(p) => Some(p@),
            None => None,
        }),
        r.1@ == original_url@,
{
    let mut uri = crate::text::copy("http://");
    crate::text::push_str(&mut uri, backend);
    match path_and_query {
        Some(p) => crate::text::push_str(&mut uri, p),
        None => crate::text::push_str(&mut uri, "/"),
    }
    (uri, crate::text::copy(original_url))
}

} // verus!
