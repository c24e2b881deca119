//! Connects Cursor Remote SSH sessions to the local proxy: the SSH configuration that forwards
//! the proxy port and runs a bootstrap on the remote host, and the settings it manages.
use vstd::prelude::*;
use vstd::utf8::encode_utf8;

use crate::blob::{base64_encode, base64_standard};
use crate::cursor_settings::{
    clear_proxy_values, is_text, is_true, lemma_without_member, managed_proxy,
    managed_proxy_values, proxy_key, proxy_values_agree, proxy_values_match, put_member,
    remove_member, loopback_proxy, CONFIG_KEY, NO_PROXY_KEY, PROXY_KEY, PROXY_PRINCIPAL_KEY,
    PROXY_SUPPORT_KEY, DISABLE_HTTP2_KEY, SYSTEM_CERTIFICATES_KEY, REMOTE_COMMAND_KEY,
};
use crate::error::{is_config, Error};
use crate::json::{member_of, text_of, JsonValue};
use crate::skills::{script_url, SkillSyncServer};
use crate::text::{decimal, join, lower, push_char, push_str, sorted_texts, views};

verus! {

/// The Remote SSH entries as they were before the integration replaced them; `None` where the
/// entry was absent.
pub struct SettingsBackup {
    pub config_file: Option<JsonValue>,
    pub enable_remote_command: Option<JsonValue>,
}

/// Sets the member `key` back to what the backup kept: its value, or no member.
fn restore_value(settings: Vec<(String, JsonValue)>, key: &str, value: Option<JsonValue>) -> (r: Vec<
    (String, JsonValue),
>)
    ensures
        member_of(r@, key@) == value,
        forall|k: Seq<char>| k != key@ ==> #[trigger] member_of(r@, k) == member_of(settings@, k),
{
    match value {
        Some(v) => put_member(settings, key, v),
        None => {
            let r = remove_member(settings, key);
            proof {
                lemma_without_member(settings@, key@, key@);
                assert forall|k: Seq<char>| k != key@ implies #[trigger] member_of(r@, k)
                    == member_of(settings@, k) by {
                    lemma_without_member(settings@, key@, k);
                }
            }
            r
        },
    }
}

/// Whether Remote SSH uses the generated configuration at `config_path`.
pub open spec fn uses_config(settings: Seq<(String, JsonValue)>, config_path: Seq<char>) -> bool {
    is_text(settings, CONFIG_KEY@, config_path)
}

/// The settings after the integration is switched off: its proxy entries go when they look like
/// its own; where Remote SSH uses the generated configuration, the configuration and remote
/// command entries return to the backup (or go, without one). Every other entry stays.
pub open spec fn disabled_member(
    settings: Seq<(String, JsonValue)>,
    config_path: Seq<char>,
    backup: Option<SettingsBackup>,
    k: Seq<char>,
) -> Option<JsonValue> {
    if uses_config(settings, config_path) && k == CONFIG_KEY@ {
        match backup {
            Some(b) => b.config_file,
            None => None,
        }
    } else if uses_config(settings, config_path) && k == REMOTE_COMMAND_KEY@ {
        match backup {
            Some(b) => b.enable_remote_command,
            None => None,
        }
    } else if managed_proxy(settings) && proxy_key(k) {
        None
    } else {
        member_of(settings, k)
    }
}

/// The Cursor settings once the integration is switched off (see [`disabled_member`]).
pub fn disable(
    settings: Vec<(String, JsonValue)>,
    config_path: &str,
    backup: Option<SettingsBackup>,
) -> (r: Vec<(String, JsonValue)>)
    ensures
        forall|k: Seq<char>| #[trigger]
            member_of(r@, k) == disabled_member(settings@, config_path@, backup, k),
{
    proof {
        reveal_strlit("remote.SSH.configFile");
        reveal_strlit("remote.SSH.enableRemoteCommand");
        reveal_strlit("http.proxy");
        reveal_strlit("http.proxyKerberosServicePrincipal");
        reveal_strlit("http.proxySupport");
        reveal_strlit("cursor.general.disableHttp2");
        reveal_strlit("http.experimental.systemCertificatesV2");
    }
    let ghost given = settings@;
    let managed = match crate::json::text_member(&settings, CONFIG_KEY) {
        Some(path) => crate::text::str_eq(path, config_path),
        None => false,
    };
    let cleared = if managed_proxy_values(&settings) {
        clear_proxy_values(settings)
    } else {
        settings
    };
    let ghost mid = cleared@;
    assert(forall|k: Seq<char>| !(managed_proxy(given) && proxy_key(k)) ==> #[trigger] member_of(mid, k) == member_of(given, k));
    if managed {
        let (config, command) = match backup {
            Some(b) => (b.config_file, b.enable_remote_command),
            None => (None, None),
        };
        let s1 = restore_value(cleared, CONFIG_KEY, config);
        let s2 = restore_value(s1, REMOTE_COMMAND_KEY, command);
        proof {
            assert(CONFIG_KEY@.len() == 21);
            assert(REMOTE_COMMAND_KEY@.len() == 30);
            assert(member_of(s2@, CONFIG_KEY@) == member_of(s1@, CONFIG_KEY@));
        }
        s2
    } else {
        cleared
    }
}

/// The backup taken of the settings when the integration is first switched on: their Remote
/// SSH configuration and remote command entries.
pub open spec fn backup_of(settings: Seq<(String, JsonValue)>) -> SettingsBackup {
    SettingsBackup {
        config_file: member_of(settings, CONFIG_KEY@),
        enable_remote_command: member_of(settings, REMOTE_COMMAND_KEY@),
    }
}

/// Switching the integration on (with a proxy on the local machine and no earlier backup) and
/// then off gives back the settings it started from, without a user no-proxy list and without
/// the proxy entries. The local proxy's address ([`crate::cursor_settings::loopback_proxy_address`]) is such a proxy.
pub proof fn lemma_disable_undoes_enable(
    before: Seq<(String, JsonValue)>,
    after: Seq<(String, JsonValue)>,
    proxy_url: Seq<char>,
    config_path: Seq<char>,
)
    requires
        loopback_proxy(Some(proxy_url)),
        member_of(after, NO_PROXY_KEY@) is None,
        is_text(after, PROXY_KEY@, proxy_url),
        is_text(after, PROXY_PRINCIPAL_KEY@, proxy_url),
        is_text(after, PROXY_SUPPORT_KEY@, "on"@),
        is_true(after, DISABLE_HTTP2_KEY@),
        is_true(after, SYSTEM_CERTIFICATES_KEY@),
        is_text(after, CONFIG_KEY@, config_path),
        is_true(after, REMOTE_COMMAND_KEY@),
        forall|k: Seq<char>|
            !proxy_key(k) && k != NO_PROXY_KEY@ && k != CONFIG_KEY@ && k != REMOTE_COMMAND_KEY@
                ==> #[trigger] member_of(after, k) == member_of(before, k),
    ensures
        forall|k: Seq<char>| #[trigger]
            disabled_member(after, config_path, Some(backup_of(before)), k) == if proxy_key(k) || k
                == NO_PROXY_KEY@ {
                None::<JsonValue>
            } else {
                member_of(before, k)
            },
{
    reveal_strlit("http.noProxy");
    reveal_strlit("http.proxy");
    reveal_strlit("http.proxyKerberosServicePrincipal");
    reveal_strlit("http.proxySupport");
    reveal_strlit("cursor.general.disableHttp2");
    reveal_strlit("http.experimental.systemCertificatesV2");
    reveal_strlit("remote.SSH.configFile");
    reveal_strlit("remote.SSH.enableRemoteCommand");
    assert(PROXY_KEY@.len() == 10);
    assert(PROXY_PRINCIPAL_KEY@.len() == 34);
    assert(PROXY_SUPPORT_KEY@.len() == 17);
    assert(DISABLE_HTTP2_KEY@.len() == 27);
    assert(SYSTEM_CERTIFICATES_KEY@.len() == 38);
    assert(CONFIG_KEY@.len() == 21);
    assert(REMOTE_COMMAND_KEY@.len() == 30);
    assert(NO_PROXY_KEY@.len() == 12);
    assert(uses_config(after, config_path));
    assert(managed_proxy(after));
}

/// Whether the settings route Cursor through the proxy at `proxy_url` and Remote SSH through
/// the generated configuration, which exists.
pub open spec fn settings_agree(
    settings: Seq<(String, JsonValue)>,
    proxy_url: Seq<char>,
    config_path: Seq<char>,
    config_exists: bool,
) -> bool {
    &&& proxy_values_agree(settings, proxy_url)
    &&& uses_config(settings, config_path)
    &&& is_true(settings, REMOTE_COMMAND_KEY@)
    &&& config_exists
}

/// Whether the integration's settings are in place for the proxy at `proxy_url`.
pub fn settings_match(
    settings: &Vec<(String, JsonValue)>,
    proxy_url: &str,
    config_path: &str,
    config_exists: bool,
) -> (r: bool)
    ensures
        r == settings_agree(settings@, proxy_url@, config_path@, config_exists),
{
    let uses = match crate::json::text_member(settings, CONFIG_KEY) {
        Some(path) => crate::text::str_eq(path, config_path),
        None => false,
    };
    let command = match crate::json::find_member(settings, REMOTE_COMMAND_KEY) {
        Some(i) => match &settings[i].1 {
            JsonValue::Bool(b) => *b,
            _ => false,
        },
        None => false,
    };
    proxy_values_match(settings, proxy_url) && uses && command && config_exists
}

/// The SSH configuration the generated one includes: the one Cursor used before, unless that
/// is the generated one itself; else the user's default.
pub open spec fn source_config_of(
    backup: SettingsBackup,
    managed_config: Seq<char>,
    default_config: Seq<char>,
) -> Seq<char> {
    match backup.config_file {
        Some(JsonValue::Text(path)) => if path@ != managed_config {
            path@
        } else {
            default_config
        },
        _ => default_config,
    }
}

/// The SSH configuration the generated one includes.
pub fn source_config(backup: &SettingsBackup, managed_config: &str, default_config: &str) -> (r:
    String)
    ensures
        r@ == source_config_of(*backup, managed_config@, default_config@),
{
    match &backup.config_file {
        Some(JsonValue::Text(path)) => if !crate::text::str_eq(path.as_str(), managed_config) {
            crate::text::copy(path.as_str())
        } else {
            crate::text::copy(default_config)
        },
        _ => crate::text::copy(default_config),
    }
}

/// A character a Windows host pattern may hold.
pub open spec fn host_pattern_char(c: char) -> bool {
    ('a' <= c && c <= 'z') || ('A' <= c && c <= 'Z') || ('0' <= c && c <= '9') || c == '.' || c
        == '-' || c == '_' || c == ':' || c == '*' || c == '?' || c == '!'
}

/// Whether `host` is a usable host pattern.
pub open spec fn valid_host_pattern(host: Seq<char>) -> bool {
    host.len() > 0 && forall|i: int| 0 <= i < host.len() ==> host_pattern_char(#[trigger] host[i])
}

/// The hosts a platform map marks as Windows (any ASCII case), in map order.
pub open spec fn windows_marked(members: Seq<(String, JsonValue)>) -> Seq<Seq<char>>
    decreases members.len(),
{
    if members.len() == 0 {
        Seq::empty()
    } else {
        let rest = windows_marked(members.drop_last());
        match members.last().1 {
            JsonValue::Text(p) => if lower(p@) == "windows"@ {
                rest.push(members.last().0@)
            } else {
                rest
            },
            _ => rest,
        }
    }
}

pub const PLATFORM_MAP_ERROR: &'static str = "remote.SSH.remotePlatform must be a hostname map";

pub const HOST_PATTERN_ERROR: &'static str = "invalid Windows host pattern in remote.SSH.remotePlatform: ";

fn valid_host(host: &str) -> (r: bool)
    ensures
        r == valid_host_pattern(host@),
{
    let chars = crate::text::chars_of(host);
    if chars.len() == 0 {
        return false;
    }
    let mut i: usize = 0;
    while i < chars.len()
        invariant
            i <= chars.len(),
            chars@ == host@,
            forall|j: int| 0 <= j < i ==> host_pattern_char(#[trigger] host@[j]),
        decreases chars.len() - i,
    {
        let c = chars[i];
        if !(('a' <= c && c <= 'z') || ('A' <= c && c <= 'Z') || ('0' <= c && c <= '9') || c
            == '.' || c == '-' || c == '_' || c == ':' || c == '*' || c == '?' || c == '!') {
            return false;
        }
        i = i + 1;
    }
    true
}

/// The hosts that Remote SSH treats as Windows, sorted, from the `remote.SSH.remotePlatform`
/// setting: none without it; an error when it is not a map, or at the first (in map order)
/// marked host that is not a usable pattern.
pub fn windows_hosts(platforms: Option<&JsonValue>) -> (r: Result<Vec<String>, Error>)
    ensures
        platforms is None ==> r is Ok && r->Ok_0@.len() == 0,
        platforms matches Some(v) && !(v is Object) ==> r is Err && is_config(
            r->Err_0,
            PLATFORM_MAP_ERROR@,
        ),
        platforms matches Some(JsonValue::Object(members)) ==> {
            let marked = windows_marked(members@);
            &&& r is Ok <==> forall|i: int| 0 <= i < marked.len() ==> valid_host_pattern(
                #[trigger] marked[i],
            )
            &&& r matches Ok(hosts) ==> sorted_texts(views(hosts@)) && views(hosts@).to_multiset()
                == marked.to_multiset()
            &&& r matches Err(e) ==> exists|i: int|
                0 <= i < marked.len() && !valid_host_pattern(#[trigger] marked[i]) && (forall|
                    j: int,
                | 0 <= j < i ==> valid_host_pattern(#[trigger] marked[j])) && is_config(
                    e,
                    HOST_PATTERN_ERROR@ + marked[i],
                )
        },
{
    let members = match platforms {
        None => return Ok(Vec::new()),
        Some(JsonValue::Object(members)) => members,
        Some(_) => return Err(crate::error::config_message(PLATFORM_MAP_ERROR)),
    };
    let mut hosts: Vec<String> = Vec::new();
    let mut i: usize = 0;
    while i < members.len()
        invariant
            i <= members.len(),
            platforms matches Some(JsonValue::Object(m)) && m@ == members@,
            views(hosts@) == windows_marked(members@.take(i as int)),
        decreases members.len() - i,
    {
        assert(members@.take(i as int + 1).drop_last() == members@.take(i as int));
        if let JsonValue::Text(p) = &members[i].1 {
            let lowered = crate::text::to_lower(p.as_str());
            if crate::text::str_eq(lowered.as_str(), "windows") {
                hosts.push(crate::text::copy(members[i].0.as_str()));
                assert(views(hosts@) =~= windows_marked(members@.take(i as int)).push(
                    members@[i as int].0@,
                ));
            }
        }
        i = i + 1;
    }
    assert(members@.take(members.len() as int) == members@);
    let mut k: usize = 0;
    while k < hosts.len()
        invariant
            k <= hosts.len(),
            platforms matches Some(JsonValue::Object(m)) && m@ == members@,
            views(hosts@) == windows_marked(members@),
            forall|j: int| 0 <= j < k ==> valid_host_pattern(#[trigger] views(hosts@)[j]),
        decreases hosts.len() - k,
    {
        if !valid_host(hosts[k].as_str()) {
            proof {
                let marked = windows_marked(members@);
                assert(marked[k as int] == hosts@[k as int]@);
                assert(!valid_host_pattern(marked[k as int]));
                assert(forall|j: int| 0 <= j < k ==> valid_host_pattern(#[trigger] marked[j]));
            }
            return Err(crate::error::config_error(HOST_PATTERN_ERROR, hosts[k].as_str()));
        }
        k = k + 1;
    }
    Ok(crate::text::sort_strings(hosts))
}

/// The header of the generated SSH configuration.
pub const CONFIG_HEADER: &'static str = "# Generated by Cursor BYOK. Changes are replaced while integration is enabled.\n";

/// The text with `\` and `"` escaped for a quoted SSH configuration value.
pub open spec fn ssh_escaped(s: Seq<char>) -> Seq<char>
    decreases s.len(),
{
    if s.len() == 0 {
        Seq::empty()
    } else {
        ssh_escaped(s.drop_last()) + if s.last() == '\\' {
            "\\\\"@
        } else if s.last() == '"' {
            "\\\""@
        } else {
            seq![s.last()]
        }
    }
}

/// `path` escaped for a quoted SSH configuration value.
pub fn escape_ssh_quoted(path: &str) -> (r: String)
    ensures
        r@ == ssh_escaped(path@),
{
    let v = crate::text::chars_of(path);
    let mut out = String::new();
    let mut i: usize = 0;
    while i < v.len()
        invariant
            i <= v.len(),
            v@ == path@,
            out@ == ssh_escaped(v@.take(i as int)),
        decreases v.len() - i,
    {
        assert(v@.take(i as int + 1).drop_last() == v@.take(i as int));
        let c = v[i];
        if c == '\\' {
            push_str(&mut out, "\\\\");
        } else if c == '"' {
            push_str(&mut out, "\\\"");
        } else {
            push_char(&mut out, c);
        }
        i = i + 1;
    }
    assert(v@.take(v.len() as int) == v@);
    out
}

/// Pieces of the Unix bootstrap.
pub const UNIX_BOOT_START: &'static str = "#!/usr/bin/env bash\nset +e\nrm -f \"$0\"\nbyok_dir=\"$HOME/.cursor-byok-v3\"\nmkdir -p \"$byok_dir\"\n(printf %s ";

pub const UNIX_BOOT_DECODE_OR: &'static str = " | base64 --decode 2>/dev/null || printf %s ";

pub const UNIX_BOOT_PROXY: &'static str = " | base64 -D) > \"$byok_dir/ca.crt.tmp\" && mv \"$byok_dir/ca.crt.tmp\" \"$byok_dir/ca.crt\"\nexport NODE_EXTRA_CA_CERTS=\"$byok_dir/ca.crt\"\nexport HTTP_PROXY=\"http://127.0.0.1:";

pub const UNIX_BOOT_SKILLS: &'static str = "\"\nexport HTTPS_PROXY=\"$HTTP_PROXY\"\nexport NO_PROXY=\"localhost,127.0.0.1,::1\"\nskill_sync=\"$byok_dir/remote-ssh/sync-skills.$$\"\nif curl -fsS --noproxy '*' '";

pub const UNIX_BOOT_END: &'static str = "' -o \"$skill_sync.tmp\"; then\n  chmod 700 \"$skill_sync.tmp\" && mv \"$skill_sync.tmp\" \"$skill_sync\"\n  bash \"$skill_sync\" >&2 || printf '%s\\n' 'Cursor BYOK: user skill sync failed; continuing the Remote SSH connection.' >&2\n  rm -f \"$skill_sync\"\nelse\n  rm -f \"$skill_sync.tmp\"\n  printf '%s\\n' 'Cursor BYOK: user skill sync download failed; continuing the Remote SSH connection.' >&2\nfi\nexport PATH=\"$HOME/.local/bin:$HOME/.cargo/bin:$PATH\"\nif ! command -v uv >/dev/null 2>&1; then\n  curl -LsSf https://astral.sh/uv/install.sh | sh >&2\n  export PATH=\"$HOME/.local/bin:$HOME/.cargo/bin:$PATH\"\nfi\nif command -v uv >/dev/null 2>&1 && ! command -v semble >/dev/null 2>&1; then\n  uv tool install semble >&2\nfi\nif command -v semble >/dev/null 2>&1; then\n  semble install --agent cursor --type mcp --yes >&2\nelse\n  printf '%s\\n' 'Cursor BYOK: Semble installation failed; continuing without remote code search.' >&2\nfi\nexec bash\n";

/// The Unix bootstrap: trusts the local authority, exports the forwarded proxy, syncs the user
/// skills from `skill_sync_url`, installs Semble, then hands over to a login shell.
pub open spec fn unix_bootstrap_text(port: u16, certificate_pem: Seq<char>, skill_sync_url: Seq<
    char,
>) -> Seq<char> {
    let certificate = base64_standard(encode_utf8(certificate_pem));
    UNIX_BOOT_START@ + certificate + UNIX_BOOT_DECODE_OR@ + certificate + UNIX_BOOT_PROXY@
        + decimal(port as nat) + UNIX_BOOT_SKILLS@ + skill_sync_url + UNIX_BOOT_END@
}

/// The Unix bootstrap script.
pub fn unix_bootstrap(proxy_port: u16, certificate_pem: &str, skill_sync_url: &str) -> (r: String)
    ensures
        r@ == unix_bootstrap_text(proxy_port, certificate_pem@, skill_sync_url@),
{
    let certificate = base64_encode(certificate_pem.as_bytes());
    let port = crate::text::decimal_string(proxy_port as u64);
    let mut out = crate::text::copy(UNIX_BOOT_START);
    push_str(&mut out, certificate.as_str());
    push_str(&mut out, UNIX_BOOT_DECODE_OR);
    push_str(&mut out, certificate.as_str());
    push_str(&mut out, UNIX_BOOT_PROXY);
    push_str(&mut out, port.as_str());
    push_str(&mut out, UNIX_BOOT_SKILLS);
    push_str(&mut out, skill_sync_url);
    push_str(&mut out, UNIX_BOOT_END);
    out
}

pub const UNIX_COMMAND_START: &'static str = "bash -c 'd=\"$HOME/.cursor-byok-v3/remote-ssh\"; mkdir -p \"$d\"; f=\"$d/start.$$\"; (printf %%s ";

pub const UNIX_COMMAND_DECODE_OR: &'static str = " | base64 --decode 2>/dev/null || printf %%s ";

pub const UNIX_COMMAND_END: &'static str = " | base64 -D) > \"$f\" && chmod 700 \"$f\" && exec bash \"$f\"'";

/// The remote command of Unix hosts: writes the base64 bootstrap to a file and runs it.
pub open spec fn unix_command_text(port: u16, certificate_pem: Seq<char>, token: Seq<char>) -> Seq<
    char,
> {
    let encoded = base64_standard(
        encode_utf8(unix_bootstrap_text(port, certificate_pem, script_url(port, token, "unix"@))),
    );
    UNIX_COMMAND_START@ + encoded + UNIX_COMMAND_DECODE_OR@ + encoded + UNIX_COMMAND_END@
}

/// The remote command of Unix hosts.
pub fn unix_remote_command(proxy_port: u16, certificate_pem: &str, skill_sync: &SkillSyncServer) -> (r:
    String)
    ensures
        r@ == unix_command_text(proxy_port, certificate_pem@, skill_sync.token@),
{
    let url = skill_sync.unix_url(proxy_port);
    let script = unix_bootstrap(proxy_port, certificate_pem, url.as_str());
    let encoded = base64_encode(script.as_str().as_bytes());
    let mut out = crate::text::copy(UNIX_COMMAND_START);
    push_str(&mut out, encoded.as_str());
    push_str(&mut out, UNIX_COMMAND_DECODE_OR);
    push_str(&mut out, encoded.as_str());
    push_str(&mut out, UNIX_COMMAND_END);
    out
}

/// The certificate escaped for a PowerShell here-string: backticks doubled, quotes preceded by
/// a backtick.
pub open spec fn powershell_escaped(s: Seq<char>) -> Seq<char>
    decreases s.len(),
{
    if s.len() == 0 {
        Seq::empty()
    } else {
        powershell_escaped(s.drop_last()) + if s.last() == '`' {
            "``"@
        } else if s.last() == '"' {
            "`\""@
        } else {
            seq![s.last()]
        }
    }
}

fn escape_powershell(s: &str) -> (r: String)
    ensures
        r@ == powershell_escaped(s@),
{
    let v = crate::text::chars_of(s);
    let mut out = String::new();
    let mut i: usize = 0;
    while i < v.len()
        invariant
            i <= v.len(),
            v@ == s@,
            out@ == powershell_escaped(v@.take(i as int)),
        decreases v.len() - i,
    {
        assert(v@.take(i as int + 1).drop_last() == v@.take(i as int));
        let c = v[i];
        if c == '`' {
            push_str(&mut out, "``");
        } else if c == '"' {
            push_str(&mut out, "`\"");
        } else {
            push_char(&mut out, c);
        }
        i = i + 1;
    }
    assert(v@.take(v.len() as int) == v@);
    out
}

/// Pieces of the PowerShell bootstrap.
pub const WINDOWS_BOOT_START: &'static str = "$ErrorActionPreference = 'Continue'\n$byokDir = Join-Path $HOME '.cursor-byok-v3'\nNew-Item -ItemType Directory -Force -Path $byokDir | Out-Null\n$certificate = @\"\n";

pub const WINDOWS_BOOT_PROXY: &'static str = "\"@\n$certificatePath = Join-Path $byokDir 'ca.crt'\n[System.IO.File]::WriteAllText($certificatePath, $certificate)\n$env:NODE_EXTRA_CA_CERTS = $certificatePath\n$env:HTTP_PROXY = 'http://127.0.0.1:";

pub const WINDOWS_BOOT_SKILLS: &'static str = "'\n$env:HTTPS_PROXY = $env:HTTP_PROXY\n$env:NO_PROXY = 'localhost,127.0.0.1,::1'\n$skillSyncPath = Join-Path $byokDir \"sync-skills-$PID.ps1\"\ntry {\n  $client = New-Object System.Net.WebClient\n  $client.Proxy = [System.Net.GlobalProxySelection]::GetEmptyWebProxy()\n  $client.DownloadFile('";

pub const WINDOWS_BOOT_END: &'static str = "', \"$skillSyncPath.tmp\")\n  Move-Item -Force -LiteralPath \"$skillSyncPath.tmp\" -Destination $skillSyncPath\n  & powershell -NoProfile -ExecutionPolicy Bypass -File $skillSyncPath 1>&2\n} catch {\n  [Console]::Error.WriteLine(\"Cursor BYOK: user skill sync download failed; continuing the Remote SSH connection. $($_.Exception.Message)\")\n} finally {\n  if ($client) { $client.Dispose() }\n  Remove-Item -Force -ErrorAction SilentlyContinue -LiteralPath $skillSyncPath, \"$skillSyncPath.tmp\"\n}\n$env:PATH = \"$HOME\\.local\\bin;$env:PATH\"\nif (-not (Get-Command uv -ErrorAction SilentlyContinue)) {\n  Invoke-RestMethod https://astral.sh/uv/install.ps1 | Invoke-Expression\n  $env:PATH = \"$HOME\\.local\\bin;$env:PATH\"\n}\nif ((Get-Command uv -ErrorAction SilentlyContinue) -and -not (Get-Command semble -ErrorAction SilentlyContinue)) {\n  uv tool install semble 1>&2\n}\nif (Get-Command semble -ErrorAction SilentlyContinue) {\n  semble install --agent cursor --type mcp --yes 1>&2\n} else {\n  [Console]::Error.WriteLine('Cursor BYOK: Semble installation failed; continuing without remote code search.')\n}\n& powershell -NoProfile -Command -\nexit $LASTEXITCODE\n";

/// The PowerShell bootstrap.
pub open spec fn windows_bootstrap_text(port: u16, certificate_pem: Seq<char>, skill_sync_url: Seq<
    char,
>) -> Seq<char> {
    WINDOWS_BOOT_START@ + powershell_escaped(certificate_pem) + WINDOWS_BOOT_PROXY@ + decimal(
        port as nat,
    ) + WINDOWS_BOOT_SKILLS@ + skill_sync_url + WINDOWS_BOOT_END@
}

/// The PowerShell bootstrap script.
pub fn windows_bootstrap(proxy_port: u16, certificate_pem: &str, skill_sync_url: &str) -> (r: String)
    ensures
        r@ == windows_bootstrap_text(proxy_port, certificate_pem@, skill_sync_url@),
{
    let certificate = escape_powershell(certificate_pem);
    let port = crate::text::decimal_string(proxy_port as u64);
    let mut out = crate::text::copy(WINDOWS_BOOT_START);
    push_str(&mut out, certificate.as_str());
    push_str(&mut out, WINDOWS_BOOT_PROXY);
    push_str(&mut out, port.as_str());
    push_str(&mut out, WINDOWS_BOOT_SKILLS);
    push_str(&mut out, skill_sync_url);
    push_str(&mut out, WINDOWS_BOOT_END);
    out
}

/// The little-endian bytes of one UTF-16 code unit.
pub open spec fn unit_bytes(u: int) -> Seq<u8> {
    seq![(u % 256) as u8, (u / 256) as u8]
}

/// The UTF-16LE bytes of one character: one code unit below U+10000, else a surrogate pair.
pub open spec fn utf16le_char(c: char) -> Seq<u8> {
    let v = (c as u32) as int;
    if v < 0x10000 {
        unit_bytes(v)
    } else {
        unit_bytes(0xD800 + (v - 0x10000) / 1024) + unit_bytes(0xDC00 + (v - 0x10000) % 1024)
    }
}

/// The UTF-16LE encoding of a text.
pub open spec fn utf16le(s: Seq<char>) -> Seq<u8>
    decreases s.len(),
{
    if s.len() == 0 {
        Seq::empty()
    } else {
        utf16le(s.drop_last()) + utf16le_char(s.last())
    }
}

fn push_unit(out: &mut Vec<u8>, u: u32)
    requires
        u < 0x10000,
    ensures
        final(out)@ == old(out)@ + unit_bytes(u as int),
{
    out.push((u % 256) as u8);
    out.push((u / 256) as u8);
    assert(final(out)@ == old(out)@ + unit_bytes(u as int));
}

/// The UTF-16LE bytes of `s`.
pub fn utf16le_bytes(s: &str) -> (r: Vec<u8>)
    ensures
        r@ == utf16le(s@),
{
    let v = crate::text::chars_of(s);
    let mut out: Vec<u8> = Vec::new();
    let mut i: usize = 0;
    while i < v.len()
        invariant
            i <= v.len(),
            v@ == s@,
            out@ == utf16le(v@.take(i as int)),
        decreases v.len() - i,
    {
        assert(v@.take(i as int + 1).drop_last() == v@.take(i as int));
        let ch = v[i];
        let c = ch as u32;
        proof {
            vstd::utf8::char_is_scalar(ch);
        }
        if c < 0x10000 {
            push_unit(&mut out, c);
        } else {
            let w = c - 0x10000;
            push_unit(&mut out, 0xD800 + w / 1024);
            push_unit(&mut out, 0xDC00 + w % 1024);
        }
        i = i + 1;
    }
    assert(v@.take(v.len() as int) == v@);
    out
}

pub const WINDOWS_COMMAND_START: &'static str = "powershell -NoProfile -EncodedCommand ";

/// The remote command of Windows hosts: the bootstrap as a base64 UTF-16LE encoded command.
pub open spec fn windows_command_text(port: u16, certificate_pem: Seq<char>, token: Seq<char>) -> Seq<
    char,
> {
    WINDOWS_COMMAND_START@ + base64_standard(
        utf16le(windows_bootstrap_text(port, certificate_pem, script_url(port, token, "windows"@))),
    )
}

/// The remote command of Windows hosts.
pub fn windows_remote_command(
    proxy_port: u16,
    certificate_pem: &str,
    skill_sync: &SkillSyncServer,
) -> (r: String)
    ensures
        r@ == windows_command_text(proxy_port, certificate_pem@, skill_sync.token@),
{
    let url = skill_sync.windows_url(proxy_port);
    let script = windows_bootstrap(proxy_port, certificate_pem, url.as_str());
    let bytes = utf16le_bytes(script.as_str());
    let encoded = base64_encode(bytes.as_slice());
    let mut out = crate::text::copy(WINDOWS_COMMAND_START);
    push_str(&mut out, encoded.as_str());
    out
}

pub const CONFIG_WINDOWS_HOST: &'static str = "Host ";

pub const CONFIG_REMOTE_COMMAND: &'static str = "\n    RemoteCommand ";

pub const CONFIG_DEFAULT_HOST: &'static str = "Host *\n    ClearAllForwardings no\n    ExitOnForwardFailure no\n    RemoteForward 127.0.0.1:";

pub const CONFIG_INCLUDE: &'static str = "\n\nInclude \"";

/// The generated SSH configuration: Windows hosts first with the PowerShell bootstrap, then
/// every host with the forwarded proxy port and the Unix bootstrap, then the user's own
/// configuration.
pub open spec fn config_text(
    source_config: Seq<char>,
    port: u16,
    certificate_pem: Seq<char>,
    windows_hosts: Seq<Seq<char>>,
    token: Seq<char>,
) -> Seq<char> {
    let windows = if windows_hosts.len() == 0 {
        Seq::empty()
    } else {
        CONFIG_WINDOWS_HOST@ + join(windows_hosts, " "@) + CONFIG_REMOTE_COMMAND@
            + windows_command_text(port, certificate_pem, token) + "\n\n"@
    };
    CONFIG_HEADER@ + windows + CONFIG_DEFAULT_HOST@ + decimal(port as nat) + " 127.0.0.1:"@
        + decimal(port as nat) + CONFIG_REMOTE_COMMAND@ + unix_command_text(
        port,
        certificate_pem,
        token,
    ) + CONFIG_INCLUDE@ + ssh_escaped(source_config) + "\"\n"@
}

/// The generated SSH configuration.
pub fn render_config(
    source_config: &str,
    proxy_port: u16,
    certificate_pem: &str,
    windows_hosts: &Vec<String>,
    skill_sync: &SkillSyncServer,
) -> (r: String)
    ensures
        r@ == config_text(
            source_config@,
            proxy_port,
            certificate_pem@,
            views(windows_hosts@),
            skill_sync.token@,
        ),
{
    let unix_command = unix_remote_command(proxy_port, certificate_pem, skill_sync);
    let windows_command = windows_remote_command(proxy_port, certificate_pem, skill_sync);
    let mut out = crate::text::copy(CONFIG_HEADER);
    if windows_hosts.len() > 0 {
        let hosts = crate::text::join_strs(windows_hosts, " ");
        push_str(&mut out, CONFIG_WINDOWS_HOST);
        push_str(&mut out, hosts.as_str());
        push_str(&mut out, CONFIG_REMOTE_COMMAND);
        push_str(&mut out, windows_command.as_str());
        push_str(&mut out, "\n\n");
    }
    let port = crate::text::decimal_string(proxy_port as u64);
    let escaped = escape_ssh_quoted(source_config);
    push_str(&mut out, CONFIG_DEFAULT_HOST);
    push_str(&mut out, port.as_str());
    push_str(&mut out, " 127.0.0.1:");
    push_str(&mut out, port.as_str());
    push_str(&mut out, CONFIG_REMOTE_COMMAND);
    push_str(&mut out, unix_command.as_str());
    push_str(&mut out, CONFIG_INCLUDE);
    push_str(&mut out, escaped.as_str());
    push_str(&mut out, "\"\n");
    out
}

} // verus!
