//! The state of the local desktop integration: the certificate authority, the proxy and the
//! Cursor settings that route Cursor through it.
use vstd::prelude::*;

use crate::error::{is_config, Error};

verus! {

/// Whether the local certificate authority exists and is trusted.
#[derive(Clone, Copy, Debug, PartialEq, Eq, Structural)]
pub enum CaState {
    Missing,
    Untrusted,
    Ready,
    Invalid,
}

/// How far the integration is applied.
#[derive(Clone, Copy, Debug, PartialEq, Eq, Structural)]
pub enum IntegrationState {
    /// Neither the proxy runs nor do the settings point at it.
    Disabled,
    /// The proxy runs and the settings point at it.
    Enabled,
    /// Only one of the two holds.
    Degraded,
}

/// What the status endpoint reports of the integration.
#[derive(Clone, Debug)]
pub struct CursorHarnessStatus {
    pub platform: String,
    pub ca: CaState,
    pub configured_models: usize,
    pub enabled_models: usize,
    pub integration: IntegrationState,
    pub settings_applied: bool,
    pub proxy_url: Option<String>,
    pub ca_install_command: Option<String>,
}

/// A request to switch the integration on or off.
#[derive(Clone, Copy, Debug)]
pub struct SetEnabled {
    pub enabled: bool,
}

/// The integration state of a proxy that runs or not, under settings that point at it or not.
pub open spec fn integration_of(proxy_running: bool, settings_applied: bool) -> IntegrationState {
    if !proxy_running && !settings_applied {
        IntegrationState::Disabled
    } else if proxy_running && settings_applied {
        IntegrationState::Enabled
    } else {
        IntegrationState::Degraded
    }
}

/// Classifies the integration from what is observed, without changing it.
pub fn integration_state(proxy_running: bool, settings_applied: bool) -> (r: IntegrationState)
    ensures
        r == integration_of(proxy_running, settings_applied),
{
    match (proxy_running, settings_applied) {
        (false, false) => IntegrationState::Disabled,
        (true, true) => IntegrationState::Enabled,
        _ => IntegrationState::Degraded,
    }
}

/// Whether the integration can be restored at startup: the authority is ready and the
/// backend address is known.
pub fn integration_prerequisites_ready(ca: &CaState, backend_ready: bool) -> (r: bool)
    ensures
        r == (*ca == CaState::Ready && backend_ready),
{
    matches!(ca, CaState::Ready) && backend_ready
}

/// Whether a startup restores the integration: the user left it on and its prerequisites hold.
pub fn restores_on_startup(enabled_preference: bool, ca: &CaState, backend_ready: bool) -> (r: bool)
    ensures
        r == (enabled_preference && *ca == CaState::Ready && backend_ready),
{
    enabled_preference && integration_prerequisites_ready(ca, backend_ready)
}

/// The message when the authority is not ready.
pub const CA_NOT_READY: &'static str = "initialize and trust the CA before enabling Cursor";

/// The message when the backend address is not known yet.
pub const BACKEND_NOT_READY: &'static str = "desktop management server is not ready";

/// Checks what enabling the integration needs before anything is started: a ready authority,
/// then a known backend address.
pub fn enable_readiness(ca: &CaState, backend_ready: bool) -> (r: Result<(), Error>)
    ensures
        r is Ok <==> (*ca == CaState::Ready && backend_ready),
        *ca != CaState::Ready ==> r is Err && is_config(r->Err_0, CA_NOT_READY@),
        *ca == CaState::Ready && !backend_ready ==> r is Err && is_config(
            r->Err_0,
            BACKEND_NOT_READY@,
        ),
{
    if !matches!(ca, CaState::Ready) {
        return Err(crate::error::config_message(CA_NOT_READY));
    }
    if !backend_ready {
        return Err(crate::error::config_message(BACKEND_NOT_READY));
    }
    Ok(())
}

/// The number of `true` entries in `flags`.
pub open spec fn count_true(flags: Seq<bool>) -> nat
    decreases flags.len(),
{
    if flags.len() == 0 {
        0
    } else {
        count_true(flags.drop_last()) + if flags.last() {
            1nat
        } else {
            0nat
        }
    }
}

proof fn lemma_count_true_bound(flags: Seq<bool>)
    ensures
        count_true(flags) <= flags.len(),
    decreases flags.len(),
{
    if flags.len() > 0 {
        lemma_count_true_bound(flags.drop_last());
    }
}

/// The status of the integration from what was observed: one `enabled` flag per configured
/// model, the authority, whether the proxy runs and at which address, and whether the
/// settings point at it.
pub fn harness_status(
    platform: String,
    ca: CaState,
    model_enabled: &[bool],
    proxy_running: bool,
    proxy_url: Option<String>,
    settings_applied: bool,
    ca_install_command: Option<String>,
) -> (r: CursorHarnessStatus)
    ensures
        r.platform == platform,
        r.ca == ca,
        r.configured_models == model_enabled@.len(),
        r.enabled_models == count_true(model_enabled@),
        r.integration == integration_of(proxy_running, settings_applied),
        r.settings_applied == settings_applied,
        r.proxy_url == proxy_url,
        r.ca_install_command == ca_install_command,
{
    let mut enabled: usize = 0;
    let mut i: usize = 0;
    while i < model_enabled.len()
        invariant
            i <= model_enabled.len(),
            enabled == count_true(model_enabled@.take(i as int)),
        decreases model_enabled.len() - i,
    {
        proof {
            assert(model_enabled@.take(i as int + 1).drop_last() == model_enabled@.take(i as int));
            lemma_count_true_bound(model_enabled@.take(i as int));
        }
        if model_enabled[i] {
            enabled = enabled + 1;
        }
        i = i + 1;
    }
    assert(model_enabled@.take(model_enabled.len() as int) == model_enabled@);
    CursorHarnessStatus {
        platform,
        ca,
        configured_models: model_enabled.len(),
        enabled_models: enabled,
        integration: integration_state(proxy_running, settings_applied),
        settings_applied,
        proxy_url,
        ca_install_command,
    }
}

/// Whether an `Authorization` header carries the injected local identity: `Bearer ` and the
/// local token.
pub fn is_local_cursor_authorization(authorization: &str, local_token: &str) -> (r: bool)
    ensures
        r == (authorization@ == "Bearer "@ + local_token@),
{
    crate::access::admits(false, Some(authorization), local_token)
}

/// Whether the local proxy serves a host: exactly Cursor's hosts.
pub fn proxy_host_allowed(host: &str) -> (r: bool)
    ensures
        r == crate::proxy::cursor_host(host@),
{
    crate::proxy::is_cursor_host(host)
}

/// Whether a request's authorization header carries the injected local identity.
pub fn request_uses_local_cursor_token(authorization: Option<&str>, local_token: &str) -> (r: bool)
    ensures
        r == (authorization matches Some(a) && a@ == "Bearer "@ + local_token@),
{
    match authorization {
        Some(a) => is_local_cursor_authorization(a, local_token),
        None => false,
    }
}

/// The local account's email.
pub const EMAIL: &'static str = "cursor@ai.com";

/// The local account's sign-up type.
pub const SIGN_UP_TYPE: &'static str = "Google";

/// The local account's subject.
pub const SUBJECT: &'static str = "cursor-local-user";

/// The membership the local account reports.
pub const MEMBERSHIP_TYPE: &'static str = "ultra";

/// The subscription status the local account reports.
pub const SUBSCRIPTION_STATUS: &'static str = "active";

/// Whether Cursor holds a real account: an access token that is not blank and is not the
/// local one.
pub open spec fn real_account(existing: Option<Seq<char>>, local_token: Seq<char>) -> bool {
    match existing {
        Some(t) => crate::text::trim(t).len() > 0 && t != local_token,
        None => false,
    }
}

/// The identity entries written when Cursor holds no real account.
pub open spec fn identity_entries(local_token: Seq<char>) -> Seq<(Seq<char>, Seq<char>)> {
    seq![
        ("cursorAuth/accessToken"@, local_token),
        ("cursorAuth/refreshToken"@, local_token),
        ("cursorAuth/cachedEmail"@, EMAIL@),
        ("cursorAuth/cachedSignUpType"@, SIGN_UP_TYPE@),
        ("cursorAuth/stripeMembershipAuthId"@, SUBJECT@),
    ]
}

/// The membership entries written in every case.
pub open spec fn membership_entries() -> Seq<(Seq<char>, Seq<char>)> {
    seq![
        ("cursorAuth/stripeMembershipType"@, MEMBERSHIP_TYPE@),
        ("cursorAuth/stripeSubscriptionStatus"@, SUBSCRIPTION_STATUS@),
    ]
}

fn entry(key: &str, value: &str) -> (r: (String, String))
    ensures
        r.0@ == key@,
        r.1@ == value@,
{
    (crate::text::copy(key), crate::text::copy(value))
}

/// The key-value entries to write into Cursor's state database, given the access token it
/// holds: the local identity unless a real account is signed in, then the membership.
pub fn local_account_entries(existing_access_token: Option<&str>, local_token: &str) -> (r: Vec<
    (String, String),
>)
    ensures
        r@.map_values(|e: (String, String)| (e.0@, e.1@)) == if real_account(
            match existing_access_token {
                Some(t) => Some(t@),
                None => None,
            },
            local_token@,
        ) {
            membership_entries()
        } else {
            identity_entries(local_token@) + membership_entries()
        },
{
    let signed_in = match existing_access_token {
        Some(t) => {
            let trimmed = crate::text::trim_str(t);
            !trimmed.as_str().is_empty() && !crate::text::str_eq(t, local_token)
        },
        None => false,
    };
    let mut entries: Vec<(String, String)> = Vec::new();
    if !signed_in {
        entries.push(entry("cursorAuth/accessToken", local_token));
        entries.push(entry("cursorAuth/refreshToken", local_token));
        entries.push(entry("cursorAuth/cachedEmail", EMAIL));
        entries.push(entry("cursorAuth/cachedSignUpType", SIGN_UP_TYPE));
        entries.push(entry("cursorAuth/stripeMembershipAuthId", SUBJECT));
    }
    entries.push(entry("cursorAuth/stripeMembershipType", MEMBERSHIP_TYPE));
    entries.push(entry("cursorAuth/stripeSubscriptionStatus", SUBSCRIPTION_STATUS));
    proof {
        let expected = if signed_in {
            membership_entries()
        } else {
            identity_entries(local_token@) + membership_entries()
        };
        assert(entries@.map_values(|e: (String, String)| (e.0@, e.1@)) =~= expected);
    }
    entries
}

} // verus!
