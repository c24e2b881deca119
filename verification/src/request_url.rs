//! Resolves the exact URL a configured model is called at.
use vstd::prelude::*;

use crate::configuration::{has_prefix, ModelType, OPENAI_CHAT_ENDPOINT, OPENAI_RESPONSES_ENDPOINT};
use crate::error::{reports, Error};
use crate::text::{all_digits, decimal, last_index, lower, trim};

verus! {

/// What the URL parser reports of a text: scheme, host, whether there is a fragment, and the
/// path.
pub struct UrlFacts {
    pub scheme: Seq<char>,
    pub host: Option<Seq<char>>,
    pub has_fragment: bool,
    pub path: Seq<char>,
}

/// The parsed parts of a URL, as plain strings.
pub struct ParsedUrl {
    pub scheme: String,
    pub host: Option<String>,
    pub has_fragment: bool,
    pub path: String,
}

impl View for ParsedUrl {
    type V = UrlFacts;

    open spec fn view(&self) -> UrlFacts {
        UrlFacts {
            scheme: self.scheme@,
            host: crate::configuration::opt_view(self.host),
            has_fragment: self.has_fragment,
            path: self.path@,
        }
    }
}

/// What `reqwest::Url::parse` makes of a text: its facts, or the text of its error.
pub uninterp spec fn url_parse(text: Seq<char>) -> Result<UrlFacts, Seq<char>>;

/// The serialization of the URL `text` with its path set to `path` (`Url::set_path`), or
/// `None` when `text` does not parse.
pub uninterp spec fn url_with_path(text: Seq<char>, path: Seq<char>) -> Option<Seq<char>>;

/// The URL of an HTTP proxy on the IPv4 loopback address at `port`.
pub open spec fn loopback_proxy_url(port: u16) -> Seq<char> {
    "http://127.0.0.1:"@ + decimal(port as nat)
}

/// Whether `text` is the URL of an HTTP proxy on the IPv4 loopback address at some port.
pub open spec fn is_loopback_proxy_url(text: Seq<char>) -> bool {
    exists|port: u16| #[trigger] loopback_proxy_url(port) == text
}

/// Parses a URL with `reqwest::Url::parse` and reads its scheme, host, fragment and path.
/// The contract names the result; beyond that it states one fact of the parser: an `http`
/// URL of the IPv4 loopback address with a port (any `u16` in decimal) parses, with the host
/// `127.0.0.1`. What else the parser accepts and how it normalizes is the URL standard's, not
/// restated here.
#[verifier::external_body]
pub(crate) fn parse_url(text: &str) -> (r: Result<ParsedUrl, String>)
    ensures
        match r {
            Ok(p) => url_parse(text@) == Ok::<UrlFacts, Seq<char>>(p@),
            Err(m) => url_parse(text@) == Err::<UrlFacts, Seq<char>>(m@),
        },
        is_loopback_proxy_url(text@) ==> (r is Ok && r->Ok_0@.host == Some("127.0.0.1"@)),
{
    match reqwest::Url::parse(text) {
        Ok(url) => Ok(ParsedUrl {
            scheme: url.scheme().to_string(),
            host: url.host_str().map(|host| host.to_string()),
            has_fragment: url.fragment().is_some(),
            path: url.path().to_string(),
        }),
        Err(error) => Err(error.to_string()),
    }
}

/// Parses `text` with `reqwest::Url::parse`, replaces its path with `Url::set_path` and
/// serializes it with `Url::as_str`. The contract names the result, and states that it is
/// there whenever `text` parses: setting the path cannot fail.
#[verifier::external_body]
fn replace_path(text: &str, path: &str) -> (r: Option<String>)
    ensures
        match r {
            Some(s) => url_with_path(text@, path@) == Some(s@),
            None => url_with_path(text@, path@) is None,
        },
        url_parse(text@) is Ok ==> r is Some,
{
    let mut url = reqwest::Url::parse(text).ok()?;
    url.set_path(path);
    Some(url.as_str().to_string())
}

/// A model request URL after trimming, when it is an HTTP(S) URL with a host and without a
/// fragment; otherwise the error message.
pub open spec fn normalized_url(text: Seq<char>) -> Result<Seq<char>, Seq<char>> {
    let t = trim(text);
    match url_parse(t) {
        Err(m) => Err("invalid model request URL: "@ + m),
        Ok(f) => if !((f.scheme == "http"@ || f.scheme == "https"@) && f.host is Some) {
            Err("model request URL must be an HTTP(S) URL with a host"@)
        } else if f.has_fragment {
            Err("model request URL cannot contain a fragment"@)
        } else {
            Ok(t)
        },
    }
}

/// Validates a model request URL: trimmed, HTTP(S), with a host, without a fragment.
pub fn normalize_request_url(value: &str) -> (r: Result<String, Error>)
    ensures
        reports(r, normalized_url(value@)),
{
    let value = crate::text::trim_str(value);
    match parse_url(value.as_str()) {
        Err(message) => Err(
            crate::error::config_error("invalid model request URL: ", message.as_str()),
        ),
        Ok(url) => {
            let http = crate::text::str_eq(url.scheme.as_str(), "http") || crate::text::str_eq(
                url.scheme.as_str(),
                "https",
            );
            if !(http && url.host.is_some()) {
                Err(
                    crate::error::config_message(
                        "model request URL must be an HTTP(S) URL with a host",
                    ),
                )
            } else if url.has_fragment {
                Err(crate::error::config_message("model request URL cannot contain a fragment"))
            } else {
                Ok(value)
            }
        },
    }
}

/// The OpenAI endpoint after trimming: empty selects the Responses API.
pub open spec fn openai_endpoint(value: Seq<char>) -> Result<Seq<char>, Seq<char>> {
    let v = trim(value);
    if v.len() == 0 || v == "/v1/responses"@ {
        Ok("/v1/responses"@)
    } else if v == "/v1/chat/completions"@ {
        Ok("/v1/chat/completions"@)
    } else {
        Err("unsupported OpenAI endpoint: "@ + v)
    }
}

/// The OpenAI endpoint a configuration names (see [`openai_endpoint`]).
pub fn normalize_openai_endpoint(value: &str) -> (r: Result<String, Error>)
    ensures
        reports(r, openai_endpoint(value@)),
{
    let v = crate::text::trim_str(value);
    let empty = crate::text::chars_of(v.as_str()).len() == 0;
    proof {
        reveal_strlit("/v1/responses");
        reveal_strlit("/v1/chat/completions");
    }
    if empty || crate::text::str_eq(v.as_str(), OPENAI_RESPONSES_ENDPOINT) {
        Ok(crate::text::copy(OPENAI_RESPONSES_ENDPOINT))
    } else if crate::text::str_eq(v.as_str(), OPENAI_CHAT_ENDPOINT) {
        Ok(crate::text::copy(OPENAI_CHAT_ENDPOINT))
    } else {
        Err(crate::error::config_error("unsupported OpenAI endpoint: ", v.as_str()))
    }
}

/// The path without its trailing slashes.
pub open spec fn trim_slashes(s: Seq<char>) -> Seq<char>
    decreases s.len(),
{
    if s.len() > 0 && s.last() == '/' {
        trim_slashes(s.drop_last())
    } else {
        s
    }
}

/// The last path segment (after the last `/`).
pub open spec fn last_segment(path: Seq<char>) -> Seq<char> {
    match last_index(path, '/') {
        Some(p) => path.skip(p + 1),
        None => path,
    }
}

/// Whether the path ends in a version segment such as `v1` or `v42`.
pub open spec fn trailing_version(path: Seq<char>) -> bool {
    let segment = last_segment(path);
    segment.len() > 1 && segment[0] == 'v' && all_digits(segment.skip(1))
}

fn has_trailing_version(path: &str) -> (r: bool)
    ensures
        r == trailing_version(path@),
{
    let p = crate::text::chars_of(path);
    let start = match crate::text::rfind_char(&p, '/') {
        Some(i) => i + 1,
        None => 0,
    };
    assert(p@.skip(start as int) == last_segment(path@)) by {
        if start == 0 {
            assert(p@.skip(0) == p@);
        }
    }
    if p.len() - start < 2 || p[start] != 'v' {
        return false;
    }
    let mut i: usize = start + 1;
    while i < p.len()
        invariant
            start + 1 <= i <= p.len(),
            p@ == path@,
            p@.skip(start as int) == last_segment(path@),
            forall|k: int| start + 1 <= k < i ==> crate::text::is_digit(#[trigger] p@[k]),
        decreases p.len() - i,
    {
        if !('0' <= p[i] && p[i] <= '9') {
            assert(!crate::text::is_digit(last_segment(path@).skip(1)[i - start - 1]));
            return false;
        }
        i = i + 1;
    }
    assert forall|k: int| 0 <= k < last_segment(path@).skip(1).len() implies crate::text::is_digit(
        #[trigger] last_segment(path@).skip(1)[k],
    ) by {
        assert(last_segment(path@).skip(1)[k] == p@[k + start + 1]);
    }
    true
}

fn trim_trailing_slashes(s: &str) -> (r: String)
    ensures
        r@ == trim_slashes(s@),
{
    let v = crate::text::chars_of(s);
    let mut end: usize = v.len();
    assert(v@.take(end as int) == v@);
    while end > 0 && v[end - 1] == '/'
        invariant
            end <= v.len(),
            trim_slashes(v@.take(end as int)) == trim_slashes(s@),
            v@ == s@,
        decreases end,
    {
        assert(v@.take(end as int).drop_last() == v@.take(end - 1));
        end = end - 1;
    }
    crate::text::string_of_range(&v, 0, end)
}

/// The standard endpoint appended to a server URL's path (trailing slashes dropped); when the
/// path already ends in a version segment the endpoint's leading `/v1` is not repeated.
pub open spec fn appended_url(base: Seq<char>, endpoint: Seq<char>) -> Result<Seq<char>, Seq<char>> {
    match url_parse(base) {
        Err(m) => Err("invalid model server URL: "@ + m),
        Ok(f) => match url_with_path(base, appended_path(f.path, endpoint)) {
            None => Err("invalid model server URL"@),
            Some(u) => normalized_url(u),
        },
    }
}

/// The path of a server URL with the standard endpoint appended (see [`appended_url`]).
pub open spec fn appended_path(path: Seq<char>, endpoint: Seq<char>) -> Seq<char> {
    let base_path = trim_slashes(path);
    let e = if trailing_version(base_path) && has_prefix(endpoint, "/v1"@) {
        endpoint.skip(3)
    } else {
        endpoint
    };
    base_path + e
}

fn append_standard_endpoint(base_url: &str, endpoint: &str) -> (r: Result<String, Error>)
    ensures
        reports(r, appended_url(base_url@, endpoint@)),
        url_parse(base_url@) matches Ok(f) ==> url_with_path(
            base_url@,
            appended_path(f.path, endpoint@),
        ) is Some,
{
    let url = match parse_url(base_url) {
        Ok(url) => url,
        Err(message) => {
            return Err(crate::error::config_error("invalid model server URL: ", message.as_str()));
        },
    };
    let base_path = trim_trailing_slashes(url.path.as_str());
    let e = if has_trailing_version(base_path.as_str()) && crate::text::starts_with(endpoint, "/v1") {
        let ev = crate::text::chars_of(endpoint);
        proof {
            reveal_strlit("/v1");
        }
        crate::text::string_of_range(&ev, 3, ev.len())
    } else {
        crate::text::copy(endpoint)
    };
    let mut path = base_path;
    crate::text::push_str(&mut path, e.as_str());
    match replace_path(base_url, path.as_str()) {
        None => Err(crate::error::config_message("invalid model server URL")),
        Some(u) => normalize_request_url(u.as_str()),
    }
}

/// The exact URL a model is called at: the validated base URL itself when `use_full_url`,
/// otherwise the base URL with the protocol's standard endpoint appended.
pub open spec fn request_url(
    model_type: ModelType,
    base_url: Seq<char>,
    endpoint: Seq<char>,
    use_full_url: bool,
) -> Result<Seq<char>, Seq<char>> {
    match normalized_url(base_url) {
        Err(m) => Err(m),
        Ok(base) => {
            let e = match model_type {
                ModelType::OpenAi => openai_endpoint(endpoint),
                ModelType::Anthropic => Ok("/v1/messages"@),
            };
            match e {
                Err(m) => Err(m),
                Ok(e) => if use_full_url {
                    Ok(base)
                } else {
                    appended_url(base, e)
                },
            }
        },
    }
}

/// Resolves the exact URL a model is called at.
pub fn resolve_request_url(
    model_type: ModelType,
    base_url: &str,
    openai_endpoint: &str,
    use_full_url: bool,
) -> (r: Result<String, Error>)
    ensures
        reports(r, request_url(model_type, base_url@, openai_endpoint@, use_full_url)),
{
    let base = match normalize_request_url(base_url) {
        Ok(base) => base,
        Err(e) => {
            return Err(e);
        },
    };
    let endpoint = match model_type {
        ModelType::OpenAi => match normalize_openai_endpoint(openai_endpoint) {
            Ok(e) => e,
            Err(e) => {
                return Err(e);
            },
        },
        ModelType::Anthropic => crate::text::copy("/v1/messages"),
    };
    if use_full_url {
        return Ok(base);
    }
    append_standard_endpoint(base.as_str(), endpoint.as_str())
}

/// Header names whose values are credentials.
pub open spec fn sensitive_header(name: Seq<char>) -> bool {
    let n = lower(name);
    n == "authorization"@ || n == "proxy-authorization"@ || n == "x-api-key"@ || n == "api-key"@
        || n == "cookie"@ || n == "set-cookie"@
}

/// Whether a header carries a credential (see [`sensitive_header`]).
pub fn is_sensitive_header(name: &str) -> (r: bool)
    ensures
        r == sensitive_header(name@),
{
    let n = crate::text::to_lower(name);
    let n = n.as_str();
    crate::text::str_eq(n, "authorization") || crate::text::str_eq(n, "proxy-authorization")
        || crate::text::str_eq(n, "x-api-key") || crate::text::str_eq(n, "api-key")
        || crate::text::str_eq(n, "cookie") || crate::text::str_eq(n, "set-cookie")
}

} // verus!
