//! Submitted model configurations: their validation, their identity hash, and what a stored
//! configuration contributes to a model request.
use vstd::prelude::*;

use crate::configuration::{
    find_with_count, first_with_count, opt_view, ModelType, ModelVariantAxis, ProviderType,
};
use crate::error::{is_config, reports, Error};
use crate::json::{json_object_members, member_views};
use crate::request_url::{normalized_url, openai_endpoint, request_url};
use crate::digest::{hex_lower, sha256};
use crate::text::{decimal, join, lower, trim, views};
use crate::tokens::token_count;
use vstd::utf8::encode_utf8;

verus! {

/// A model configuration as submitted, before validation. Extra parameters and custom headers
/// are JSON texts.
pub struct ModelConfigInput {
    pub sort_order: i64,
    pub display_name: String,
    /// Custom display name for a provider group; shared by all models under the same base_url
    /// host.
    pub group_name: Option<String>,
    pub model_type: ModelType,
    pub base_url: String,
    pub use_full_url: bool,
    pub api_key: String,
    pub tooltip_data: String,
    pub model_id: String,
    pub reasoning_effort: Option<String>,
    pub effort_options: Vec<String>,
    pub context_options: Vec<String>,
    pub openai_endpoint: String,
    pub openai_extra_params_enabled: bool,
    pub openai_extra_params: String,
    pub custom_headers_enabled: bool,
    pub custom_headers: String,
    pub anthropic_extra_params_enabled: bool,
    pub anthropic_extra_params: String,
    pub context_window_tokens: Option<u64>,
    pub max_completion_tokens: Option<u64>,
    pub anthropic_max_tokens: Option<u64>,
    pub anthropic_thinking_effort: Option<String>,
    pub thinking_budget_tokens: Option<u64>,
}

/// The text of a required field after trimming, or the message that it is empty.
pub open spec fn required_value(value: Seq<char>, label: Seq<char>) -> Result<Seq<char>, Seq<char>> {
    let t = trim(value);
    if t.len() == 0 {
        Err(label + " cannot be empty"@)
    } else {
        Ok(t)
    }
}

/// Trims a required field; empty is an error naming `label`.
pub fn required(value: &str, label: &str) -> (r: Result<String, Error>)
    ensures
        reports(r, required_value(value@, label@)),
{
    let t = crate::text::trim_str(value);
    if t.as_str().is_empty() {
        Err(crate::error::config_error(label, " cannot be empty"))
    } else {
        Ok(t)
    }
}

/// The view of an optional text.
pub open spec fn str_opt_view(o: Option<&str>) -> Option<Seq<char>> {
    match o {
        Some(s) => Some(s@),
        None => None,
    }
}

/// An effort after trimming and ASCII lowercasing; absent counts as empty.
pub open spec fn effort_text(value: Option<Seq<char>>) -> Seq<char> {
    lower(
        trim(
            match value {
                Some(v) => v,
                None => Seq::empty(),
            },
        ),
    )
}

/// The reasoning efforts the providers accept.
pub open spec fn is_effort_name(v: Seq<char>) -> bool {
    v == "low"@ || v == "medium"@ || v == "high"@ || v == "xhigh"@ || v == "max"@
}

/// A normalized reasoning effort: none when empty and that is allowed, otherwise one of the
/// accepted names, otherwise the error message.
pub open spec fn normalized_effort(value: Option<Seq<char>>, allow_empty: bool) -> Result<
    Option<Seq<char>>,
    Seq<char>,
> {
    let v = effort_text(value);
    if v.len() == 0 && allow_empty {
        Ok(None)
    } else if is_effort_name(v) {
        Ok(Some(v))
    } else {
        Err("unsupported reasoning effort: "@ + v)
    }
}

/// A text without white space at either end and without ASCII capitals is its own effort text.
proof fn lemma_plain_effort_text(v: Seq<char>)
    requires
        v.len() > 0,
        !crate::text::is_space(v[0]),
        !crate::text::is_space(v.last()),
        forall|i: int| 0 <= i < v.len() ==> !('A' <= #[trigger] v[i] && v[i] <= 'Z'),
    ensures
        effort_text(Some(v)) == v,
{
    assert(crate::text::trim_start(v) == v);
    assert(crate::text::trim_end(v) == v);
    assert(crate::text::lower(v) =~= v);
}

/// Each documented effort (`low`, `medium`, `high`, `xhigh`, `max`) is accepted as itself,
/// whether or not an empty effort is allowed.
pub proof fn lemma_documented_efforts_are_accepted(allow_empty: bool)
    ensures
        normalized_effort(Some("low"@), allow_empty) == Ok::<Option<Seq<char>>, Seq<char>>(Some("low"@)),
        normalized_effort(Some("medium"@), allow_empty) == Ok::<Option<Seq<char>>, Seq<char>>(
            Some("medium"@),
        ),
        normalized_effort(Some("high"@), allow_empty) == Ok::<Option<Seq<char>>, Seq<char>>(
            Some("high"@),
        ),
        normalized_effort(Some("xhigh"@), allow_empty) == Ok::<Option<Seq<char>>, Seq<char>>(
            Some("xhigh"@),
        ),
        normalized_effort(Some("max"@), allow_empty) == Ok::<Option<Seq<char>>, Seq<char>>(
            Some("max"@),
        ),
{
    reveal_strlit("low");
    reveal_strlit("medium");
    reveal_strlit("high");
    reveal_strlit("xhigh");
    reveal_strlit("max");
    lemma_plain_effort_text("low"@);
    lemma_plain_effort_text("medium"@);
    lemma_plain_effort_text("high"@);
    lemma_plain_effort_text("xhigh"@);
    lemma_plain_effort_text("max"@);
}

/// Normalizes a reasoning effort (see [`normalized_effort`]).
pub fn normalize_effort(value: Option<&str>, allow_empty: bool) -> (r: Result<
    Option<String>,
    Error,
>)
    ensures
        match (r, normalized_effort(str_opt_view(value), allow_empty)) {
            (Ok(o), Ok(e)) => opt_view(o) == e,
            (Err(err), Err(m)) => is_config(err, m),
            _ => false,
        },
{
    let raw = match value {
        Some(v) => v,
        None => "",
    };
    proof {
        reveal_strlit("");
    }
    assert(raw@ == match str_opt_view(value) {
        Some(v) => v,
        None => Seq::<char>::empty(),
    });
    let t = crate::text::trim_str(raw);
    let v = crate::text::to_lower(t.as_str());
    if v.as_str().is_empty() && allow_empty {
        return Ok(None);
    }
    let s = v.as_str();
    if crate::text::str_eq(s, "low") || crate::text::str_eq(s, "medium") || crate::text::str_eq(
        s,
        "high",
    ) || crate::text::str_eq(s, "xhigh") || crate::text::str_eq(s, "max") {
        Ok(Some(v))
    } else {
        Err(crate::error::config_error("unsupported reasoning effort: ", s))
    }
}

/// A token limit that must be positive when present, or the message naming `label`.
pub open spec fn positive_value(value: Option<u64>, label: Seq<char>) -> Result<
    Option<u64>,
    Seq<char>,
> {
    match value {
        Some(n) => if n == 0 {
            Err(label + " must be greater than zero"@)
        } else {
            Ok(value)
        },
        None => Ok(value),
    }
}

/// Checks that a present token limit is positive.
pub fn positive(value: Option<u64>, label: &str) -> (r: Result<Option<u64>, Error>)
    ensures
        match (r, positive_value(value, label@)) {
            (Ok(o), Ok(e)) => o == e,
            (Err(err), Err(m)) => is_config(err, m),
            _ => false,
        },
{
    match value {
        Some(n) => if n == 0 {
            Err(crate::error::config_error(label, " must be greater than zero"))
        } else {
            Ok(value)
        },
        None => Ok(value),
    }
}

/// The message when the JSON text `text` is not an object.
pub open spec fn object_check(text: Seq<char>, label: Seq<char>) -> Option<Seq<char>> {
    if json_object_members(text) is Some {
        None
    } else {
        Some(label + " must be a JSON object"@)
    }
}

/// Whether `r` is success exactly when `check` finds nothing, and otherwise its message.
pub open spec fn checked(r: Result<(), Error>, check: Option<Seq<char>>) -> bool {
    match (r, check) {
        (Ok(_), None) => true,
        (Err(e), Some(m)) => is_config(e, m),
        _ => false,
    }
}

/// Checks that the JSON text `value` is an object.
fn validate_object(value: &str, label: &str) -> (r: Result<(), Error>)
    ensures
        checked(r, object_check(value@, label@)),
{
    if crate::json::is_object(value) {
        Ok(())
    } else {
        Err(crate::error::config_error(label, " must be a JSON object"))
    }
}

/// A custom header has a name that is not blank and a string value.
pub open spec fn valid_header(member: (Seq<char>, bool)) -> bool {
    trim(member.0).len() > 0 && member.1
}

/// Every member is a valid custom header.
pub open spec fn all_valid_headers(members: Seq<(Seq<char>, bool)>) -> bool {
    forall|i: int| 0 <= i < members.len() ==> valid_header(#[trigger] members[i])
}

/// The message when custom headers are not an object of named string values.
pub open spec fn headers_check(text: Seq<char>) -> Option<Seq<char>> {
    match json_object_members(text) {
        None => Some("custom headers must be a JSON object"@),
        Some(members) => if all_valid_headers(members) {
            None
        } else {
            Some("custom headers must have non-empty names and string values"@)
        },
    }
}

/// Checks that custom headers are a JSON object of non-blank names with string values.
fn validate_headers(value: &str) -> (r: Result<(), Error>)
    ensures
        checked(r, headers_check(value@)),
{
    let members = match crate::json::object_members(value) {
        Some(members) => members,
        None => {
            return Err(crate::error::config_message("custom headers must be a JSON object"));
        },
    };
    let mut i: usize = 0;
    while i < members.len()
        invariant
            i <= members.len(),
            json_object_members(value@) == Some(member_views(members@)),
            forall|k: int| 0 <= k < i ==> valid_header(#[trigger] member_views(members@)[k]),
        decreases members.len() - i,
    {
        let name = crate::text::trim_str(members[i].0.as_str());
        if name.as_str().is_empty() || !members[i].1 {
            assert(!valid_header(member_views(members@)[i as int]));
            return Err(
                crate::error::config_message(
                    "custom headers must have non-empty names and string values",
                ),
            );
        }
        i = i + 1;
    }
    Ok(())
}

/// The first of two possible errors.
pub open spec fn first_error(a: Option<Seq<char>>, b: Option<Seq<char>>) -> Option<Seq<char>> {
    match a {
        Some(m) => Some(m),
        None => b,
    }
}

/// The error of a result, if it is one.
pub open spec fn error_of<T>(r: Result<T, Seq<char>>) -> Option<Seq<char>> {
    match r {
        Ok(_) => None,
        Err(m) => Some(m),
    }
}

/// The value of a result, or `default` for an error.
pub open spec fn ok_or<T>(r: Result<T, Seq<char>>, default: T) -> T {
    match r {
        Ok(v) => v,
        Err(_) => default,
    }
}

/// The OpenAI endpoint a configuration is called with; empty for Anthropic.
pub open spec fn normalized_endpoint(i: ModelConfigInput) -> Seq<char> {
    match i.model_type {
        ModelType::OpenAi => ok_or(openai_endpoint(i.openai_endpoint@), Seq::empty()),
        ModelType::Anthropic => Seq::empty(),
    }
}

/// The Anthropic thinking effort as submitted; absent selects `xhigh`.
pub open spec fn anthropic_effort_input(i: ModelConfigInput) -> Option<Seq<char>> {
    match opt_view(i.anthropic_thinking_effort) {
        Some(e) => Some(e),
        None => Some("xhigh"@),
    }
}

/// The request URL of a configuration that passed the field checks.
pub open spec fn input_request_url(i: ModelConfigInput) -> Result<Seq<char>, Seq<char>> {
    request_url(i.model_type, trim(i.base_url@), normalized_endpoint(i), i.use_full_url)
}

/// The first error in a submitted configuration, checked in the order: display name, base
/// URL, API key, tooltip, model id, reasoning effort, Anthropic thinking effort, OpenAI
/// endpoint, OpenAI and Anthropic extra parameters, custom headers, the four token limits,
/// and finally the resolved request URL.
pub open spec fn input_error(i: ModelConfigInput) -> Option<Seq<char>> {
    first_error(
        error_of(required_value(i.display_name@, "model display name"@)),
        first_error(
            error_of(normalized_url(i.base_url@)),
            first_error(
                error_of(required_value(i.api_key@, "model API key"@)),
                first_error(
                    error_of(required_value(i.tooltip_data@, "model tooltip"@)),
                    first_error(
                        error_of(required_value(i.model_id@, "model id"@)),
                        first_error(
                            error_of(normalized_effort(opt_view(i.reasoning_effort), true)),
                            first_error(
                                match i.model_type {
                                    ModelType::Anthropic => error_of(
                                        normalized_effort(anthropic_effort_input(i), false),
                                    ),
                                    ModelType::OpenAi => None,
                                },
                                first_error(
                                    match i.model_type {
                                        ModelType::OpenAi => error_of(
                                            openai_endpoint(i.openai_endpoint@),
                                        ),
                                        ModelType::Anthropic => None,
                                    },
                                    later_input_error(i),
                                ),
                            ),
                        ),
                    ),
                ),
            ),
        ),
    )
}

/// The errors [`input_error`] checks after the OpenAI endpoint.
pub open spec fn later_input_error(i: ModelConfigInput) -> Option<Seq<char>> {
    first_error(
        object_check(i.openai_extra_params@, "OpenAI extra params"@),
        first_error(
            object_check(i.anthropic_extra_params@, "Anthropic extra params"@),
            first_error(
                headers_check(i.custom_headers@),
                first_error(
                    error_of(positive_value(i.context_window_tokens, "context window"@)),
                    first_error(
                        error_of(positive_value(i.max_completion_tokens, "max completion tokens"@)),
                        first_error(
                            error_of(positive_value(i.anthropic_max_tokens, "Anthropic max tokens"@)),
                            first_error(
                                error_of(positive_value(i.thinking_budget_tokens, "thinking budget"@)),
                                error_of(input_request_url(i)),
                            ),
                        ),
                    ),
                ),
            ),
        ),
    )
}

/// A group name after trimming; blank means none.
pub open spec fn group_view(g: Option<Seq<char>>) -> Option<Seq<char>> {
    match g {
        Some(v) => if trim(v).len() == 0 {
            None
        } else {
            Some(trim(v))
        },
        None => None,
    }
}

/// Effort options after trimming and ASCII lowercasing.
pub open spec fn effort_options_of(list: Seq<Seq<char>>) -> Seq<Seq<char>> {
    list.map_values(|v: Seq<char>| lower(trim(v)))
}

/// `n` is the normalized form of `i`: text fields trimmed, a negative sort order raised to
/// zero, efforts normalized, the fields of the other protocol cleared, and the rest kept.
pub open spec fn normalized_input(i: ModelConfigInput, n: ModelConfigInput) -> bool {
    let openai = i.model_type is OpenAi;
    &&& n.sort_order == (if i.sort_order < 0 {
        0
    } else {
        i.sort_order
    })
    &&& n.display_name@ == trim(i.display_name@)
    &&& opt_view(n.group_name) == group_view(opt_view(i.group_name))
    &&& n.model_type == i.model_type
    &&& n.base_url@ == trim(i.base_url@)
    &&& n.use_full_url == i.use_full_url
    &&& n.api_key@ == trim(i.api_key@)
    &&& n.tooltip_data@ == trim(i.tooltip_data@)
    &&& n.model_id@ == trim(i.model_id@)
    &&& opt_view(n.reasoning_effort) == (if openai {
        ok_or(normalized_effort(opt_view(i.reasoning_effort), true), None)
    } else {
        None
    })
    &&& views(n.effort_options@) == effort_options_of(views(i.effort_options@))
    &&& views(n.context_options@) == views(i.context_options@)
    &&& n.openai_endpoint@ == normalized_endpoint(i)
    &&& n.openai_extra_params_enabled == (openai && i.openai_extra_params_enabled)
    &&& n.openai_extra_params@ == (if openai {
        i.openai_extra_params@
    } else {
        "{}"@
    })
    &&& n.custom_headers_enabled == i.custom_headers_enabled
    &&& n.custom_headers@ == i.custom_headers@
    &&& n.anthropic_extra_params_enabled == (!openai && i.anthropic_extra_params_enabled)
    &&& n.anthropic_extra_params@ == (if openai {
        "{}"@
    } else {
        i.anthropic_extra_params@
    })
    &&& n.context_window_tokens == i.context_window_tokens
    &&& n.max_completion_tokens == i.max_completion_tokens
    &&& n.anthropic_max_tokens == i.anthropic_max_tokens
    &&& opt_view(n.anthropic_thinking_effort) == (if openai {
        None
    } else {
        ok_or(normalized_effort(anthropic_effort_input(i), false), None)
    })
    &&& n.thinking_budget_tokens == i.thinking_budget_tokens
}

/// A copy of an optional text.
pub fn copy_opt(o: &Option<String>) -> (r: Option<String>)
    ensures
        opt_view(r) == opt_view(*o),
{
    match o {
        Some(s) => Some(crate::text::copy(s.as_str())),
        None => None,
    }
}

/// An optional text borrowed as `&str`.
pub fn opt_str(o: &Option<String>) -> (r: Option<&str>)
    ensures
        str_opt_view(r) == opt_view(*o),
{
    match o {
        Some(s) => Some(s.as_str()),
        None => None,
    }
}

/// Trims and ASCII-lowercases each effort option.
fn normalize_effort_options(list: &Vec<String>) -> (r: Vec<String>)
    ensures
        views(r@) == effort_options_of(views(list@)),
{
    let mut r: Vec<String> = Vec::new();
    let mut k: usize = 0;
    while k < list.len()
        invariant
            k <= list.len(),
            views(r@) == effort_options_of(views(list@)).take(k as int),
        decreases list.len() - k,
    {
        let t = crate::text::trim_str(list[k].as_str());
        let v = crate::text::to_lower(t.as_str());
        let ghost before = r@;
        r.push(v);
        assert(views(r@) == views(before).push(v@));
        assert(effort_options_of(views(list@)).take(k + 1) == effort_options_of(views(list@)).take(
            k as int,
        ).push(lower(trim(list@[k as int]@))));
        k = k + 1;
    }
    assert(effort_options_of(views(list@)).take(list.len() as int) == effort_options_of(
        views(list@),
    ));
    r
}

/// Validates and normalizes a submitted model configuration (see [`input_error`] for the
/// checks and [`normalized_input`] for the result).
pub fn normalize_model_input(input: &ModelConfigInput) -> (r: Result<ModelConfigInput, Error>)
    ensures
        match r {
            Ok(n) => input_error(*input) is None && normalized_input(*input, n),
            Err(e) => match input_error(*input) {
                Some(m) => is_config(e, m),
                None => false,
            },
        },
{
    let openai = match input.model_type {
        ModelType::OpenAi => true,
        ModelType::Anthropic => false,
    };
    let display_name = match required(input.display_name.as_str(), "model display name") {
        Ok(v) => v,
        Err(e) => {
            return Err(e);
        },
    };
    let group_name = match &input.group_name {
        Some(g) => {
            let t = crate::text::trim_str(g.as_str());
            if t.as_str().is_empty() {
                None
            } else {
                Some(t)
            }
        },
        None => None,
    };
    let base_url = match crate::request_url::normalize_request_url(input.base_url.as_str()) {
        Ok(v) => v,
        Err(e) => {
            return Err(e);
        },
    };
    let api_key = match required(input.api_key.as_str(), "model API key") {
        Ok(v) => v,
        Err(e) => {
            return Err(e);
        },
    };
    let tooltip_data = match required(input.tooltip_data.as_str(), "model tooltip") {
        Ok(v) => v,
        Err(e) => {
            return Err(e);
        },
    };
    let model_id = match required(input.model_id.as_str(), "model id") {
        Ok(v) => v,
        Err(e) => {
            return Err(e);
        },
    };
    let reasoning_effort = match normalize_effort(opt_str(&input.reasoning_effort), true) {
        Ok(v) => v,
        Err(e) => {
            return Err(e);
        },
    };
    let anthropic_thinking_effort = if openai {
        None
    } else {
        let given = match opt_str(&input.anthropic_thinking_effort) {
            Some(v) => v,
            None => "xhigh",
        };
        match normalize_effort(Some(given), false) {
            Ok(v) => v,
            Err(e) => {
                return Err(e);
            },
        }
    };
    let openai_endpoint = if openai {
        match crate::request_url::normalize_openai_endpoint(input.openai_endpoint.as_str()) {
            Ok(v) => v,
            Err(e) => {
                return Err(e);
            },
        }
    } else {
        String::new()
    };
    if let Err(e) = validate_object(input.openai_extra_params.as_str(), "OpenAI extra params") {
        return Err(e);
    }
    if let Err(e) = validate_object(
        input.anthropic_extra_params.as_str(),
        "Anthropic extra params",
    ) {
        return Err(e);
    }
    if let Err(e) = validate_headers(input.custom_headers.as_str()) {
        return Err(e);
    }
    let context_window_tokens = match positive(input.context_window_tokens, "context window") {
        Ok(v) => v,
        Err(e) => {
            return Err(e);
        },
    };
    let max_completion_tokens = match positive(
        input.max_completion_tokens,
        "max completion tokens",
    ) {
        Ok(v) => v,
        Err(e) => {
            return Err(e);
        },
    };
    let anthropic_max_tokens = match positive(input.anthropic_max_tokens, "Anthropic max tokens") {
        Ok(v) => v,
        Err(e) => {
            return Err(e);
        },
    };
    let thinking_budget_tokens = match positive(input.thinking_budget_tokens, "thinking budget") {
        Ok(v) => v,
        Err(e) => {
            return Err(e);
        },
    };
    let normalized = ModelConfigInput {
        sort_order: if input.sort_order < 0 {
            0
        } else {
            input.sort_order
        },
        display_name,
        group_name,
        model_type: input.model_type,
        base_url,
        use_full_url: input.use_full_url,
        api_key,
        tooltip_data,
        model_id,
        reasoning_effort: if openai {
            reasoning_effort
        } else {
            None
        },
        effort_options: normalize_effort_options(&input.effort_options),
        context_options: crate::text::copy_strings(&input.context_options),
        openai_endpoint,
        openai_extra_params_enabled: openai && input.openai_extra_params_enabled,
        openai_extra_params: if openai {
            crate::text::copy(input.openai_extra_params.as_str())
        } else {
            crate::text::copy(crate::json::EMPTY_OBJECT)
        },
        custom_headers_enabled: input.custom_headers_enabled,
        custom_headers: crate::text::copy(input.custom_headers.as_str()),
        anthropic_extra_params_enabled: !openai && input.anthropic_extra_params_enabled,
        anthropic_extra_params: if openai {
            crate::text::copy(crate::json::EMPTY_OBJECT)
        } else {
            crate::text::copy(input.anthropic_extra_params.as_str())
        },
        context_window_tokens,
        max_completion_tokens,
        anthropic_max_tokens,
        anthropic_thinking_effort,
        thinking_budget_tokens,
    };
    if let Err(e) = crate::request_url::resolve_request_url(
        normalized.model_type,
        normalized.base_url.as_str(),
        normalized.openai_endpoint.as_str(),
        normalized.use_full_url,
    ) {
        return Err(e);
    }
    Ok(normalized)
}

/// The texts a configuration's identity is hashed from: request URL, model id, API key and
/// display name, and for OpenAI the endpoint.
pub open spec fn hash_parts(i: ModelConfigInput) -> Seq<Seq<char>> {
    let base = seq![
        ok_or(input_request_url(i), Seq::empty()),
        trim(i.model_id@),
        trim(i.api_key@),
        trim(i.display_name@),
    ];
    if i.model_type is OpenAi {
        base.push(normalized_endpoint(i))
    } else {
        base
    }
}

/// A configuration's identity: the lowercase hex of the first 8 bytes of the SHA-256 of its
/// hash parts joined by newlines (UTF-8).
pub open spec fn model_hash_of(i: ModelConfigInput) -> Seq<char> {
    hex_lower(sha256(encode_utf8(join(hash_parts(i), "\n"@))).take(8))
}

/// The identity hash of a submitted configuration; fails as [`normalize_model_input`] does.
pub fn model_hash(input: &ModelConfigInput) -> (r: Result<String, Error>)
    ensures
        match r {
            Ok(h) => input_error(*input) is None && h@ == model_hash_of(*input),
            Err(e) => match input_error(*input) {
                Some(m) => is_config(e, m),
                None => false,
            },
        },
{
    let normalized = match normalize_model_input(input) {
        Ok(n) => n,
        Err(e) => {
            return Err(e);
        },
    };
    let request_url = match crate::request_url::resolve_request_url(
        normalized.model_type,
        normalized.base_url.as_str(),
        normalized.openai_endpoint.as_str(),
        normalized.use_full_url,
    ) {
        Ok(u) => u,
        Err(e) => {
            return Err(e);
        },
    };
    let mut parts: Vec<String> = Vec::new();
    parts.push(request_url);
    parts.push(normalized.model_id);
    parts.push(normalized.api_key);
    parts.push(normalized.display_name);
    match normalized.model_type {
        ModelType::OpenAi => parts.push(normalized.openai_endpoint),
        ModelType::Anthropic => {},
    }
    assert(views(parts@) == hash_parts(*input));
    let text = crate::text::join_strs(&parts, "\n");
    let digest = crate::digest::sha256_digest(text.as_str().as_bytes());
    let mut prefix: Vec<u8> = Vec::new();
    let mut k: usize = 0;
    while k < 8
        invariant
            k <= 8,
            digest@.len() == 32,
            prefix@ == digest@.take(k as int),
        decreases 8 - k,
    {
        prefix.push(digest[k]);
        assert(digest@.take(k + 1) == digest@.take(k as int).push(digest@[k as int]));
        k = k + 1;
    }
    Ok(crate::digest::hex_encode(prefix.as_slice()))
}

/// The default reasoning efforts a model offers.
pub fn default_effort_options() -> (r: Vec<String>)
    ensures
        views(r@) == seq!["low"@, "medium"@, "high"@, "xhigh"@, "max"@],
{
    let mut r: Vec<String> = Vec::new();
    r.push(crate::text::copy("low"));
    r.push(crate::text::copy("medium"));
    r.push(crate::text::copy("high"));
    r.push(crate::text::copy("xhigh"));
    r.push(crate::text::copy("max"));
    assert(views(r@) == seq!["low"@, "medium"@, "high"@, "xhigh"@, "max"@]);
    r
}

/// The default context windows a model offers.
pub fn default_context_options() -> (r: Vec<String>)
    ensures
        views(r@) == seq!["200k"@, "356k"@, "800k"@, "1m"@],
{
    let mut r: Vec<String> = Vec::new();
    r.push(crate::text::copy("200k"));
    r.push(crate::text::copy("356k"));
    r.push(crate::text::copy("800k"));
    r.push(crate::text::copy("1m"));
    assert(views(r@) == seq!["200k"@, "356k"@, "800k"@, "1m"@]);
    r
}

/// Reasoning settings of a model request.
pub struct ReasoningSpec {
    pub enabled: bool,
    pub effort: Option<String>,
    pub explicitly_disabled: bool,
}

/// The latency tier of a model request.
#[derive(Clone, Copy, Debug, PartialEq, Eq)]
pub enum ModelLatency {
    Standard,
    Fast,
}

/// The model a request is made with, as the request selects it. Extra parameters are a JSON
/// text.
pub struct ModelSpec {
    pub model_id: String,
    pub display_name: Option<String>,
    pub reasoning: ReasoningSpec,
    pub latency: ModelLatency,
    pub max_output_tokens: Option<u64>,
    pub context_window_tokens: Option<u64>,
    pub supports_image_generation: bool,
    pub extra_params: String,
}

impl ModelSpec {
    /// A request for `model_id` with nothing else selected.
    pub fn new(model_id: &str) -> (r: ModelSpec)
        ensures
            r.model_id@ == model_id@,
            r.display_name is None,
            !r.reasoning.enabled,
            r.reasoning.effort is None,
            !r.reasoning.explicitly_disabled,
            r.latency == ModelLatency::Standard,
            r.max_output_tokens is None,
            r.context_window_tokens is None,
            !r.supports_image_generation,
            r.extra_params@ == "{}"@,
    {
        ModelSpec {
            model_id: crate::text::copy(model_id),
            display_name: None,
            reasoning: ReasoningSpec { enabled: false, effort: None, explicitly_disabled: false },
            latency: ModelLatency::Standard,
            max_output_tokens: None,
            context_window_tokens: None,
            supports_image_generation: false,
            extra_params: crate::text::copy(crate::json::EMPTY_OBJECT),
        }
    }
}

/// A stored model configuration. Extra parameters and custom headers are JSON texts.
pub struct ModelConfig {
    pub model_hash: String,
    pub sort_order: i64,
    pub display_name: String,
    pub group_name: Option<String>,
    /// Whether the model is published to Cursor's model catalog: the group switch toggles
    /// this flag in bulk; it does not affect the identity hash.
    pub enabled: bool,
    pub model_type: ModelType,
    pub base_url: String,
    pub use_full_url: bool,
    pub api_key: String,
    pub tooltip_data: String,
    pub model_id: String,
    pub reasoning_effort: Option<String>,
    pub effort_options: Vec<String>,
    pub context_options: Vec<String>,
    pub openai_endpoint: String,
    pub openai_extra_params_enabled: bool,
    pub openai_extra_params: String,
    pub custom_headers_enabled: bool,
    pub custom_headers: String,
    pub anthropic_extra_params_enabled: bool,
    pub anthropic_extra_params: String,
    pub context_window_tokens: Option<u64>,
    pub max_completion_tokens: Option<u64>,
    pub anthropic_max_tokens: Option<u64>,
    pub anthropic_thinking_effort: Option<String>,
    pub thinking_budget_tokens: Option<u64>,
    pub created_at_ms: i64,
    pub updated_at_ms: i64,
}

/// The output limit of a configuration: OpenAI's max completion tokens; for Anthropic its
/// own max tokens, falling back to max completion tokens.
pub open spec fn config_max_output(c: ModelConfig) -> Option<u64> {
    match c.model_type {
        ModelType::OpenAi => c.max_completion_tokens,
        ModelType::Anthropic => if c.anthropic_max_tokens is Some {
            c.anthropic_max_tokens
        } else {
            c.max_completion_tokens
        },
    }
}

/// The configured efforts of the configuration's protocol.
pub open spec fn config_effort(c: ModelConfig) -> Option<Seq<char>> {
    match c.model_type {
        ModelType::OpenAi => opt_view(c.reasoning_effort),
        ModelType::Anthropic => opt_view(c.anthropic_thinking_effort),
    }
}

/// The options of `list` that do not name `tokens`, in order.
pub open spec fn without_count(list: Seq<Seq<char>>, tokens: u64) -> Seq<Seq<char>>
    decreases list.len(),
{
    if list.len() == 0 {
        list
    } else {
        let rest = without_count(list.drop_last(), tokens);
        if token_count(list.last()) == Some(tokens) {
            rest
        } else {
            rest.push(list.last())
        }
    }
}

/// The context axis of a configuration: with a configured window, the option naming it (or
/// its bare token count) leads and the other options follow in order; otherwise the options.
pub open spec fn axis_contexts(options: Seq<Seq<char>>, window: Option<u64>) -> Seq<Seq<char>> {
    match window {
        None => options,
        Some(t) => seq![
            match first_with_count(options, t) {
                Some(v) => v,
                None => decimal(t as nat),
            },
        ] + without_count(options, t),
    }
}

/// `new` is the request `old` with the configuration `c` applied (see
/// [`ModelConfig::configure`]).
pub open spec fn configured_by(c: ModelConfig, old: ModelSpec, new: ModelSpec) -> bool {
    &&& new.model_id == old.model_id
    &&& opt_view(new.display_name) == Some(c.display_name@)
    &&& new.context_window_tokens == (if c.context_window_tokens is Some {
                c.context_window_tokens
            } else {
                old.context_window_tokens
            })
    &&& new.max_output_tokens == (if old.max_output_tokens is None {
                config_max_output(c)
            } else {
                old.max_output_tokens
            })
    &&& new.reasoning.explicitly_disabled == old.reasoning.explicitly_disabled
    &&& old.reasoning.explicitly_disabled ==> !new.reasoning.enabled
                && new.reasoning.effort is None
    &&& !old.reasoning.explicitly_disabled ==> opt_view(new.reasoning.effort)
                == (if old.reasoning.effort is Some {
                opt_view(old.reasoning.effort)
            } else {
                config_effort(c)
            }) && new.reasoning.enabled == (old.reasoning.enabled
                || new.reasoning.effort is Some)
    &&& new.latency == old.latency
    &&& new.supports_image_generation == old.supports_image_generation
    &&& new.extra_params == old.extra_params
}

impl ModelConfig {
    /// The wire protocol: Anthropic, or OpenAI Responses when that endpoint is configured,
    /// otherwise OpenAI Chat Completions.
    pub fn provider_type(&self) -> (r: ProviderType)
        ensures
            r == match self.model_type {
                ModelType::Anthropic => ProviderType::Anthropic,
                ModelType::OpenAi => if self.openai_endpoint@ == "/v1/responses"@ {
                    ProviderType::OpenAiResponses
                } else {
                    ProviderType::OpenAiChat
                },
            },
    {
        match self.model_type {
            ModelType::Anthropic => ProviderType::Anthropic,
            ModelType::OpenAi => if crate::text::str_eq(
                self.openai_endpoint.as_str(),
                crate::configuration::OPENAI_RESPONSES_ENDPOINT,
            ) {
                ProviderType::OpenAiResponses
            } else {
                ProviderType::OpenAiChat
            },
        }
    }

    /// The exact URL the model is called at.
    pub fn request_url(&self) -> (r: Result<String, Error>)
        ensures
            reports(
                r,
                request_url(
                    self.model_type,
                    self.base_url@,
                    self.openai_endpoint@,
                    self.use_full_url,
                ),
            ),
    {
        crate::request_url::resolve_request_url(
            self.model_type,
            self.base_url.as_str(),
            self.openai_endpoint.as_str(),
            self.use_full_url,
        )
    }

    /// The output token limit (see [`config_max_output`]).
    pub fn max_output_tokens(&self) -> (r: Option<u64>)
        ensures
            r == config_max_output(*self),
    {
        match self.model_type {
            ModelType::OpenAi => self.max_completion_tokens,
            ModelType::Anthropic => match self.anthropic_max_tokens {
                Some(n) => Some(n),
                None => self.max_completion_tokens,
            },
        }
    }

    /// The extra request parameters of the configuration's protocol when enabled, otherwise
    /// an empty object.
    pub fn extra_params(&self) -> (r: &str)
        ensures
            r@ == match self.model_type {
                ModelType::OpenAi => if self.openai_extra_params_enabled {
                    self.openai_extra_params@
                } else {
                    "{}"@
                },
                ModelType::Anthropic => if self.anthropic_extra_params_enabled {
                    self.anthropic_extra_params@
                } else {
                    "{}"@
                },
            },
    {
        match self.model_type {
            ModelType::OpenAi => if self.openai_extra_params_enabled {
                self.openai_extra_params.as_str()
            } else {
                crate::json::EMPTY_OBJECT
            },
            ModelType::Anthropic => if self.anthropic_extra_params_enabled {
                self.anthropic_extra_params.as_str()
            } else {
                crate::json::EMPTY_OBJECT
            },
        }
    }

    /// Applies the configuration to a request: its display name; its context window, which
    /// has priority over the request's selection; its output limit when the request has none;
    /// and its effort when the request has none, unless reasoning is explicitly disabled.
    pub fn configure(&self, model: &mut ModelSpec)
        ensures
            configured_by(*self, *old(model), *final(model)),
    {
        model.display_name = Some(crate::text::copy(self.display_name.as_str()));
        if self.context_window_tokens.is_some() {
            model.context_window_tokens = self.context_window_tokens;
        }
        if model.max_output_tokens.is_none() {
            model.max_output_tokens = self.max_output_tokens();
        }
        if model.reasoning.explicitly_disabled {
            model.reasoning.enabled = false;
            model.reasoning.effort = None;
            return;
        }
        if model.reasoning.effort.is_none() {
            model.reasoning.effort = match self.model_type {
                ModelType::OpenAi => copy_opt(&self.reasoning_effort),
                ModelType::Anthropic => copy_opt(&self.anthropic_thinking_effort),
            };
        }
        model.reasoning.enabled = model.reasoning.enabled || model.reasoning.effort.is_some();
    }

    /// The variant axes of the configured model (see [`axis_contexts`]); the effort axis is
    /// the configured effort options as they are (empty means no reasoning axis).
    pub fn variant_axis(&self) -> (r: ModelVariantAxis)
        ensures
            r@.contexts == axis_contexts(views(self.context_options@), self.context_window_tokens),
            r@.efforts == views(self.effort_options@),
    {
        let mut contexts: Vec<String> = Vec::new();
        match self.context_window_tokens {
            Some(t) => match find_with_count(&self.context_options, t) {
                Some(i) => contexts.push(crate::text::copy(self.context_options[i].as_str())),
                None => contexts.push(crate::text::decimal_string(t)),
            },
            None => {},
        }
        let ghost lead = views(contexts@);
        let options = &self.context_options;
        let mut k: usize = 0;
        while k < options.len()
            invariant
                k <= options.len(),
                options == &self.context_options,
                views(contexts@) == lead + match self.context_window_tokens {
                    None => views(options@).take(k as int),
                    Some(t) => without_count(views(options@).take(k as int), t),
                },
            decreases options.len() - k,
        {
            let ghost before = views(contexts@);
            let ghost prefix = views(options@).take(k + 1);
            assert(prefix.drop_last() == views(options@).take(k as int));
            assert(prefix.last() == options@[k as int]@);
            let keep = match self.context_window_tokens {
                Some(t) => crate::tokens::parse_token_count(options[k].as_str()) != Some(t),
                None => true,
            };
            if keep {
                contexts.push(crate::text::copy(options[k].as_str()));
                assert(views(contexts@) == before.push(options@[k as int]@));
            }
            k = k + 1;
        }
        assert(views(options@).take(options.len() as int) == views(options@));
        ModelVariantAxis {
            context_options: contexts,
            effort_options: crate::text::copy_strings(&self.effort_options),
        }
    }
}

} // verus!
