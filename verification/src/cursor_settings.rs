//! The entries of Cursor's user settings that route it through the local proxy.
//!
//! The settings are a JSON object, held as its members in order.
use vstd::prelude::*;

use crate::json::{member_of, text_of, JsonValue};
use crate::request_url::{is_loopback_proxy_url, loopback_proxy_url, parse_url, url_parse};

verus! {

/// A user list of hosts that bypass the proxy; it would bypass the local proxy entirely.
pub const NO_PROXY_KEY: &'static str = "http.noProxy";

pub const PROXY_KEY: &'static str = "http.proxy";

pub const PROXY_PRINCIPAL_KEY: &'static str = "http.proxyKerberosServicePrincipal";

pub const PROXY_SUPPORT_KEY: &'static str = "http.proxySupport";

pub const DISABLE_HTTP2_KEY: &'static str = "cursor.general.disableHttp2";

pub const SYSTEM_CERTIFICATES_KEY: &'static str = "http.experimental.systemCertificatesV2";

/// The Remote SSH configuration file Cursor uses.
pub const CONFIG_KEY: &'static str = "remote.SSH.configFile";

/// Whether Remote SSH runs the configured remote command.
pub const REMOTE_COMMAND_KEY: &'static str = "remote.SSH.enableRemoteCommand";

/// The Remote SSH platform of each host.
pub const REMOTE_PLATFORM_KEY: &'static str = "remote.SSH.remotePlatform";

/// The members without any named `key`, in order.
pub open spec fn without_member(members: Seq<(String, JsonValue)>, key: Seq<char>) -> Seq<
    (String, JsonValue),
>
    decreases members.len(),
{
    if members.len() == 0 {
        Seq::empty()
    } else if members.last().0@ == key {
        without_member(members.drop_last(), key)
    } else {
        without_member(members.drop_last(), key).push(members.last())
    }
}

/// Whether the member `key` is the JSON string `text`.
pub open spec fn is_text(members: Seq<(String, JsonValue)>, key: Seq<char>, text: Seq<char>) -> bool {
    text_of(member_of(members, key)) == Some(text)
}

/// Whether the member `key` is `true`.
pub open spec fn is_true(members: Seq<(String, JsonValue)>, key: Seq<char>) -> bool {
    member_of(members, key) matches Some(JsonValue::Bool(b)) && b
}

proof fn lemma_member_of_push(members: Seq<(String, JsonValue)>, m: (String, JsonValue), k: Seq<char>)
    ensures
        member_of(members.push(m), k) == if member_of(members, k) is Some {
            member_of(members, k)
        } else if m.0@ == k {
            Some(m.1)
        } else {
            None::<JsonValue>
        },
    decreases members.len(),
{
    if members.len() > 0 {
        assert(members.push(m).drop_first() == members.drop_first().push(m));
        assert(members.push(m)[0] == members[0]);
        lemma_member_of_push(members.drop_first(), m, k);
    } else {
        assert(members.push(m).drop_first() =~= Seq::<(String, JsonValue)>::empty());
        assert(members.push(m)[0] == m);
        assert(member_of(Seq::<(String, JsonValue)>::empty(), k) is None);
    }
}

/// Dropping the members named `key` leaves every other member as it was.
pub proof fn lemma_without_member(members: Seq<(String, JsonValue)>, key: Seq<char>, k: Seq<char>)
    ensures
        member_of(without_member(members, key), k) == if k == key {
            None::<JsonValue>
        } else {
            member_of(members, k)
        },
    decreases members.len(),
{
    if members.len() > 0 {
        let rest = members.drop_last();
        lemma_without_member(rest, key, k);
        assert(members == rest.push(members.last()));
        lemma_member_of_push(rest, members.last(), k);
        if members.last().0@ != key {
            lemma_member_of_push(without_member(rest, key), members.last(), k);
        }
    }
}

/// Removes every member named `key`.
pub fn remove_member(members: Vec<(String, JsonValue)>, key: &str) -> (r: Vec<(String, JsonValue)>)
    ensures
        r@ == without_member(members@, key@),
{
    let ghost all = members@;
    let mut rest = members;
    let mut kept: Vec<(String, JsonValue)> = Vec::new();
    let ghost mut i: int = 0;
    while rest.len() > 0
        invariant
            0 <= i <= all.len(),
            rest@ == all.skip(i),
            kept@ == without_member(all.take(i), key@),
        decreases rest.len(),
    {
        let m = rest.remove(0);
        proof {
            assert(all.take(i + 1).drop_last() == all.take(i));
            assert(all.take(i + 1).last() == m);
        }
        if !crate::text::str_eq(m.0.as_str(), key) {
            kept.push(m);
        }
        proof {
            i = i + 1;
            assert(rest@ == all.skip(i));
        }
    }
    assert(all.take(all.len() as int) == all);
    kept
}

/// Sets the member `key` to `value`, replacing any member of that name.
pub fn put_member(members: Vec<(String, JsonValue)>, key: &str, value: JsonValue) -> (r: Vec<
    (String, JsonValue),
>)
    ensures
        member_of(r@, key@) == Some(value),
        forall|k: Seq<char>| k != key@ ==> #[trigger] member_of(r@, k) == member_of(members@, k),
{
    let mut r = remove_member(members, key);
    let ghost before = r@;
    r.push((crate::text::copy(key), value));
    proof {
        lemma_without_member(members@, key@, key@);
        lemma_member_of_push(before, (r@.last().0, value), key@);
        assert forall|k: Seq<char>| k != key@ implies #[trigger] member_of(r@, k) == member_of(
            members@,
            k,
        ) by {
            lemma_without_member(members@, key@, k);
            lemma_member_of_push(before, (r@.last().0, value), k);
        }
    }
    r
}

/// The members named by the proxy keys, the ones the integration manages.
pub open spec fn proxy_key(k: Seq<char>) -> bool {
    k == PROXY_KEY@ || k == PROXY_PRINCIPAL_KEY@ || k == PROXY_SUPPORT_KEY@ || k
        == DISABLE_HTTP2_KEY@ || k == SYSTEM_CERTIFICATES_KEY@
}

/// Removes the proxy entries.
pub fn clear_proxy_values(settings: Vec<(String, JsonValue)>) -> (r: Vec<(String, JsonValue)>)
    ensures
        forall|k: Seq<char>| #[trigger]
            member_of(r@, k) == if proxy_key(k) {
                None::<JsonValue>
            } else {
                member_of(settings@, k)
            },
{
    let s0 = settings;
    let s1 = remove_member(s0, PROXY_KEY);
    let s2 = remove_member(s1, PROXY_PRINCIPAL_KEY);
    let s3 = remove_member(s2, PROXY_SUPPORT_KEY);
    let s4 = remove_member(s3, DISABLE_HTTP2_KEY);
    let s5 = remove_member(s4, SYSTEM_CERTIFICATES_KEY);
    proof {
        assert forall|k: Seq<char>| #[trigger]
            member_of(s5@, k) == if proxy_key(k) {
                None::<JsonValue>
            } else {
                member_of(s0@, k)
            } by {
            lemma_without_member(s0@, PROXY_KEY@, k);
            lemma_without_member(s1@, PROXY_PRINCIPAL_KEY@, k);
            lemma_without_member(s2@, PROXY_SUPPORT_KEY@, k);
            lemma_without_member(s3@, DISABLE_HTTP2_KEY@, k);
            lemma_without_member(s4@, SYSTEM_CERTIFICATES_KEY@, k);
        }
    }
    s5
}

/// The entries that route Cursor through the proxy at `proxy_url` and make Remote SSH use the
/// generated configuration at `config_path`: the proxy address twice, proxy support on,
/// HTTP/2 off, system certificates on, the configuration file, remote commands on; a user
/// no-proxy list is dropped. Every other entry stays.
pub fn set_managed_integration(
    settings: Vec<(String, JsonValue)>,
    proxy_url: &str,
    config_path: &str,
) -> (r: Vec<(String, JsonValue)>)
    ensures
        member_of(r@, NO_PROXY_KEY@) is None,
        is_text(r@, PROXY_KEY@, proxy_url@),
        is_text(r@, PROXY_PRINCIPAL_KEY@, proxy_url@),
        is_text(r@, PROXY_SUPPORT_KEY@, "on"@),
        is_true(r@, DISABLE_HTTP2_KEY@),
        is_true(r@, SYSTEM_CERTIFICATES_KEY@),
        is_text(r@, CONFIG_KEY@, config_path@),
        is_true(r@, REMOTE_COMMAND_KEY@),
        forall|k: Seq<char>|
            !proxy_key(k) && k != NO_PROXY_KEY@ && k != CONFIG_KEY@ && k != REMOTE_COMMAND_KEY@
                ==> #[trigger] member_of(r@, k) == member_of(settings@, k),
{
    let s0 = settings;
    let s1 = remove_member(s0, NO_PROXY_KEY);
    let s2 = put_member(s1, PROXY_KEY, JsonValue::Text(crate::text::copy(proxy_url)));
    let s3 = put_member(s2, PROXY_PRINCIPAL_KEY, JsonValue::Text(crate::text::copy(proxy_url)));
    let s4 = put_member(s3, PROXY_SUPPORT_KEY, JsonValue::Text(crate::text::copy("on")));
    let s5 = put_member(s4, DISABLE_HTTP2_KEY, JsonValue::Bool(true));
    let s6 = put_member(s5, SYSTEM_CERTIFICATES_KEY, JsonValue::Bool(true));
    let s7 = put_member(s6, CONFIG_KEY, JsonValue::Text(crate::text::copy(config_path)));
    let s8 = put_member(s7, REMOTE_COMMAND_KEY, JsonValue::Bool(true));
    proof {
        lemma_without_member(s0@, NO_PROXY_KEY@, NO_PROXY_KEY@);
        assert forall|k: Seq<char>|
            !proxy_key(k) && k != NO_PROXY_KEY@ && k != CONFIG_KEY@ && k != REMOTE_COMMAND_KEY@
                implies #[trigger] member_of(s8@, k) == member_of(s0@, k) by {
            lemma_without_member(s0@, NO_PROXY_KEY@, k);
        }
        reveal_strlit("http.noProxy");
        reveal_strlit("http.proxy");
        reveal_strlit("http.proxyKerberosServicePrincipal");
        reveal_strlit("http.proxySupport");
        reveal_strlit("cursor.general.disableHttp2");
        reveal_strlit("http.experimental.systemCertificatesV2");
        reveal_strlit("remote.SSH.configFile");
        reveal_strlit("remote.SSH.enableRemoteCommand");
        assert(PROXY_KEY@.len() == 10);
        assert(PROXY_PRINCIPAL_KEY@.len() == 34);
        assert(PROXY_SUPPORT_KEY@.len() == 17);
        assert(DISABLE_HTTP2_KEY@.len() == 27);
        assert(SYSTEM_CERTIFICATES_KEY@.len() == 38);
        assert(CONFIG_KEY@.len() == 21);
        assert(REMOTE_COMMAND_KEY@.len() == 30);
        assert(NO_PROXY_KEY@.len() == 12);
        assert(member_of(s8@, PROXY_KEY@) == member_of(s2@, PROXY_KEY@));
        assert(member_of(s8@, PROXY_PRINCIPAL_KEY@) == member_of(s3@, PROXY_PRINCIPAL_KEY@));
        assert(member_of(s8@, PROXY_SUPPORT_KEY@) == member_of(s4@, PROXY_SUPPORT_KEY@));
        assert(member_of(s8@, DISABLE_HTTP2_KEY@) == member_of(s5@, DISABLE_HTTP2_KEY@));
        assert(member_of(s8@, SYSTEM_CERTIFICATES_KEY@) == member_of(s6@, SYSTEM_CERTIFICATES_KEY@));
        assert(member_of(s8@, CONFIG_KEY@) == member_of(s7@, CONFIG_KEY@));
        assert(member_of(s8@, NO_PROXY_KEY@) == member_of(s1@, NO_PROXY_KEY@));
    }
    s8
}

/// Whether the proxy entries route Cursor through the proxy at `proxy_url`.
pub open spec fn proxy_values_agree(settings: Seq<(String, JsonValue)>, proxy_url: Seq<char>) -> bool {
    &&& is_text(settings, PROXY_KEY@, proxy_url)
    &&& is_text(settings, PROXY_PRINCIPAL_KEY@, proxy_url)
    &&& is_text(settings, PROXY_SUPPORT_KEY@, "on"@)
    &&& is_true(settings, DISABLE_HTTP2_KEY@)
    &&& is_true(settings, SYSTEM_CERTIFICATES_KEY@)
}

fn text_is(settings: &Vec<(String, JsonValue)>, key: &str, text: &str) -> (r: bool)
    ensures
        r == is_text(settings@, key@, text@),
{
    match crate::json::text_member(settings, key) {
        Some(t) => crate::text::str_eq(t, text),
        None => false,
    }
}

fn true_at(settings: &Vec<(String, JsonValue)>, key: &str) -> (r: bool)
    ensures
        r == is_true(settings@, key@),
{
    match crate::json::find_member(settings, key) {
        Some(i) => match &settings[i].1 {
            JsonValue::Bool(b) => *b,
            _ => false,
        },
        None => false,
    }
}

/// Whether the proxy entries route Cursor through the proxy at `proxy_url`.
pub fn proxy_values_match(settings: &Vec<(String, JsonValue)>, proxy_url: &str) -> (r: bool)
    ensures
        r == proxy_values_agree(settings@, proxy_url@),
{
    text_is(settings, PROXY_KEY, proxy_url) && text_is(settings, PROXY_PRINCIPAL_KEY, proxy_url)
        && text_is(settings, PROXY_SUPPORT_KEY, "on") && true_at(settings, DISABLE_HTTP2_KEY)
        && true_at(settings, SYSTEM_CERTIFICATES_KEY)
}

/// Whether a proxy address is a URL whose host is the local machine.
pub open spec fn loopback_proxy(value: Option<Seq<char>>) -> bool {
    match value {
        Some(text) => match url_parse(text) {
            Ok(f) => match f.host {
                Some(h) => h == "127.0.0.1"@ || h == "localhost"@ || h == "::1"@,
                None => false,
            },
            Err(_) => false,
        },
        None => false,
    }
}

/// The address of the local proxy listening at `port` on the IPv4 loopback address, as the
/// settings name it; the URL parser reads it as a proxy on the local machine.
pub fn loopback_proxy_address(port: u16) -> (r: String)
    ensures
        r@ == loopback_proxy_url(port),
        loopback_proxy(Some(r@)),
{
    let mut r = crate::text::copy("http://127.0.0.1:");
    let digits = crate::text::decimal_string(port as u64);
    crate::text::push_str(&mut r, digits.as_str());
    assert(loopback_proxy_url(port) == r@);
    assert(is_loopback_proxy_url(r@));
    let _parsed = parse_url(r.as_str());
    proof {
        reveal_strlit("127.0.0.1");
    }
    r
}

/// Whether the proxy entries look like the integration wrote them: its signature (proxy support
/// on, HTTP/2 off, system certificates on) and a proxy on the local machine.
pub open spec fn managed_proxy(settings: Seq<(String, JsonValue)>) -> bool {
    &&& is_text(settings, PROXY_SUPPORT_KEY@, "on"@)
    &&& is_true(settings, DISABLE_HTTP2_KEY@)
    &&& is_true(settings, SYSTEM_CERTIFICATES_KEY@)
    &&& loopback_proxy(text_of(member_of(settings, PROXY_KEY@)))
}

/// Whether the proxy entries look like the integration wrote them.
pub fn managed_proxy_values(settings: &Vec<(String, JsonValue)>) -> (r: bool)
    ensures
        r == managed_proxy(settings@),
{
    let signature = text_is(settings, PROXY_SUPPORT_KEY, "on") && true_at(
        settings,
        DISABLE_HTTP2_KEY,
    ) && true_at(settings, SYSTEM_CERTIFICATES_KEY);
    let loopback = match crate::json::text_member(settings, PROXY_KEY) {
        Some(value) => match parse_url(value) {
            Ok(url) => match &url.host {
                Some(h) => crate::text::str_eq(h.as_str(), "127.0.0.1") || crate::text::str_eq(
                    h.as_str(),
                    "localhost",
                ) || crate::text::str_eq(h.as_str(), "::1"),
                None => false,
            },
            Err(_) => false,
        },
        None => false,
    };
    signature && loopback
}

/// The settings to write when stale proxy entries of the integration remain: the settings
/// without them; `None` when there are none to clear.
pub fn clear_stale_proxy_settings(settings: Vec<(String, JsonValue)>) -> (r: Option<
    Vec<(String, JsonValue)>,
>)
    ensures
        r is Some <==> managed_proxy(settings@),
        r matches Some(s) ==> forall|k: Seq<char>| #[trigger]
            member_of(s@, k) == if proxy_key(k) {
                None::<JsonValue>
            } else {
                member_of(settings@, k)
            },
{
    if managed_proxy_values(&settings) {
        Some(clear_proxy_values(settings))
    } else {
        None
    }
}

} // verus!
