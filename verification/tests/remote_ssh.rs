use byok_server::cursor_settings::{
    clear_stale_proxy_settings, loopback_proxy_address, managed_proxy_values, proxy_values_match,
    set_managed_integration,
};
use byok_server::error::Error;
use byok_server::json::JsonValue;
use byok_server::remote_ssh::{
    disable, escape_ssh_quoted, render_config, settings_match, source_config, unix_bootstrap,
    utf16le_bytes, windows_bootstrap, windows_hosts, SettingsBackup,
};
use byok_server::skills::SkillSyncServer;

fn skill_sync() -> SkillSyncServer {
    SkillSyncServer::at("/missing".into(), "test-token")
}

#[test]
fn generated_config_forwards_the_proxy_and_preserves_user_config() {
    let rendered = render_config(
        "/Users/test/My Config/ssh",
        31_245,
        "certificate",
        &Vec::new(),
        &skill_sync(),
    );

    assert!(rendered.contains("RemoteForward 127.0.0.1:31245 127.0.0.1:31245"));
    assert!(rendered.contains("ExitOnForwardFailure no"));
    assert!(rendered.contains("RemoteCommand bash -c"));
    assert!(rendered.contains("start.$$"));
    assert!(rendered.contains("Include \"/Users/test/My Config/ssh\""));
}

#[test]
fn windows_hosts_receive_powershell_before_the_unix_default() {
    let rendered = render_config(
        "/home/test/.ssh/config",
        31_245,
        "certificate",
        &vec!["windows-box".into()],
        &skill_sync(),
    );
    let windows = rendered.find("Host windows-box").unwrap();
    let powershell = rendered.find("RemoteCommand powershell").unwrap();
    let fallback = rendered.find("Host *").unwrap();

    assert!(windows < powershell && powershell < fallback);
}

#[test]
fn bootstrap_configures_proxy_trust_and_official_semble_installer() {
    let script = unix_bootstrap(31_245, "certificate", "http://127.0.0.1:31245/skills/test/unix");

    assert!(script.contains("NODE_EXTRA_CA_CERTS"));
    assert!(script.contains("http://127.0.0.1:31245"));
    assert!(script.contains("uv tool install semble"));
    assert!(script.contains("semble install --agent cursor --type mcp --yes"));
    assert!(script.ends_with("exec bash\n"));
}

#[test]
fn powershell_bootstrap_escapes_the_certificate_for_a_here_string() {
    let script = windows_bootstrap(8, "a`b\"c", "http://127.0.0.1:8/x");
    assert!(script.contains("a``b`\"c"));
    assert!(script.contains("$env:HTTP_PROXY = 'http://127.0.0.1:8'"));
    assert!(script.ends_with("exit $LASTEXITCODE\n"));
}

#[test]
fn ssh_include_paths_escape_backslashes_and_quotes() {
    assert_eq!(escape_ssh_quoted(r#"C:\Users\a "b""#), r#"C:\\Users\\a \"b\""#);
    assert_eq!(escape_ssh_quoted("/plain/path"), "/plain/path");
}

#[test]
fn utf16_little_endian_covers_surrogate_pairs() {
    assert_eq!(utf16le_bytes("A"), vec![0x41, 0x00]);
    assert_eq!(utf16le_bytes("\u{20AC}"), vec![0xAC, 0x20]);
    assert_eq!(utf16le_bytes("\u{1F600}"), vec![0x3D, 0xD8, 0x00, 0xDE]);
    let expected: Vec<u8> = "h\u{e9}\u{1F600}"
        .encode_utf16()
        .flat_map(u16::to_le_bytes)
        .collect();
    assert_eq!(utf16le_bytes("h\u{e9}\u{1F600}"), expected);
}

fn text(value: &str) -> JsonValue {
    JsonValue::Text(value.into())
}

fn platforms(members: Vec<(&str, JsonValue)>) -> JsonValue {
    JsonValue::Object(
        members
            .into_iter()
            .map(|(name, value)| (name.to_owned(), value))
            .collect(),
    )
}

#[test]
fn windows_hosts_are_sorted_and_validated() {
    assert!(windows_hosts(None).unwrap().is_empty());
    let map = platforms(vec![
        ("zeta", text("Windows")),
        ("alpha", text("WINDOWS")),
        ("linux-box", text("linux")),
        ("other", JsonValue::Bool(true)),
    ]);
    assert_eq!(windows_hosts(Some(&map)).unwrap(), vec!["alpha", "zeta"]);
    assert!(matches!(
        windows_hosts(Some(&text("windows"))),
        Err(Error::Config(message)) if message == "remote.SSH.remotePlatform must be a hostname map"
    ));
    let bad = platforms(vec![("bad host", text("windows"))]);
    assert!(matches!(
        windows_hosts(Some(&bad)),
        Err(Error::Config(message))
            if message == "invalid Windows host pattern in remote.SSH.remotePlatform: bad host"
    ));
}

fn member<'a>(settings: &'a [(String, JsonValue)], key: &str) -> Option<&'a JsonValue> {
    settings.iter().find(|(name, _)| name == key).map(|(_, value)| value)
}

fn is_text(value: Option<&JsonValue>, expected: &str) -> bool {
    matches!(value, Some(JsonValue::Text(t)) if t == expected)
}

#[test]
fn managed_settings_route_cursor_through_the_proxy_and_switch_off_cleanly() {
    let current = vec![
        ("http.noProxy".to_owned(), text("example.com")),
        ("editor.fontSize".to_owned(), JsonValue::Number("14".into())),
        ("remote.SSH.configFile".to_owned(), text("/home/u/.ssh/custom")),
    ];
    let managed = set_managed_integration(current, "http://127.0.0.1:9000", "/data/ssh-config");
    assert!(member(&managed, "http.noProxy").is_none());
    assert!(is_text(member(&managed, "http.proxy"), "http://127.0.0.1:9000"));
    assert!(is_text(member(&managed, "remote.SSH.configFile"), "/data/ssh-config"));
    assert!(matches!(member(&managed, "editor.fontSize"), Some(JsonValue::Number(n)) if n == "14"));
    assert!(proxy_values_match(&managed, "http://127.0.0.1:9000"));
    assert!(!proxy_values_match(&managed, "http://127.0.0.1:9001"));
    assert!(managed_proxy_values(&managed));
    assert!(settings_match(&managed, "http://127.0.0.1:9000", "/data/ssh-config", true));
    assert!(!settings_match(&managed, "http://127.0.0.1:9000", "/data/ssh-config", false));

    let backup = SettingsBackup {
        config_file: Some(text("/home/u/.ssh/custom")),
        enable_remote_command: None,
    };
    assert_eq!(source_config(&backup, "/data/ssh-config", "/home/u/.ssh/config"), "/home/u/.ssh/custom");
    let restored = disable(managed, "/data/ssh-config", Some(backup));
    assert!(member(&restored, "http.proxy").is_none());
    assert!(member(&restored, "http.proxySupport").is_none());
    assert!(is_text(member(&restored, "remote.SSH.configFile"), "/home/u/.ssh/custom"));
    assert!(member(&restored, "remote.SSH.enableRemoteCommand").is_none());
    assert!(matches!(member(&restored, "editor.fontSize"), Some(JsonValue::Number(n)) if n == "14"));
}

#[test]
fn stale_proxy_settings_are_cleared_only_when_they_point_at_this_machine() {
    let local = set_managed_integration(Vec::new(), "http://127.0.0.1:9000", "/c");
    let cleared = clear_stale_proxy_settings(local).expect("stale settings");
    assert!(member(&cleared, "http.proxy").is_none());
    assert!(is_text(member(&cleared, "remote.SSH.configFile"), "/c"));

    let remote = set_managed_integration(Vec::new(), "http://proxy.example:3128", "/c");
    assert!(clear_stale_proxy_settings(remote).is_none());
    assert!(clear_stale_proxy_settings(Vec::new()).is_none());
}

#[test]
fn the_local_proxy_address_is_recognized_as_the_integrations_own() {
    let address = loopback_proxy_address(9000);
    assert_eq!(address, "http://127.0.0.1:9000");
    let managed = set_managed_integration(Vec::new(), &address, "/c");
    assert!(managed_proxy_values(&managed));
    assert_eq!(loopback_proxy_address(0), "http://127.0.0.1:0");
}
