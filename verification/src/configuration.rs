//! Model and provider configuration: provider kinds and the variant axes of a model.
use vstd::prelude::*;

use crate::error::{is_protocol, Error};
use crate::text::{
    all_digits, decimal, digits_value, first_index, join, last_index, lower, split_on, trim, views,
};
use crate::tokens::token_count;

verus! {

/// The endpoint of the OpenAI Responses API.
pub const OPENAI_RESPONSES_ENDPOINT: &'static str = "/v1/responses";

/// The endpoint of the OpenAI Chat Completions API.
pub const OPENAI_CHAT_ENDPOINT: &'static str = "/v1/chat/completions";

/// The default Context tier shared by the Cursor catalog and the Task tool.
pub const DEFAULT_CONTEXT_OPTION: &'static str = "200k";

/// The wire protocol a model is called with.
#[derive(Clone, Copy, Debug, PartialEq, Eq)]
pub enum ProviderType {
    OpenAiChat,
    OpenAiResponses,
    Anthropic,
    /// A call executed by a plugin; the protocol details live inside the plugin.
    Plugin,
}

/// The stable name of a provider type.
pub open spec fn provider_name(p: ProviderType) -> Seq<char> {
    match p {
        ProviderType::OpenAiChat => "openai-chat"@,
        ProviderType::OpenAiResponses => "openai-responses"@,
        ProviderType::Anthropic => "anthropic"@,
        ProviderType::Plugin => "plugin"@,
    }
}

impl ProviderType {
    /// The stored name of the provider type.
    pub fn as_str(self) -> (r: &'static str)
        ensures
            r@ == provider_name(self),
    {
        match self {
            ProviderType::OpenAiChat => "openai-chat",
            ProviderType::OpenAiResponses => "openai-responses",
            ProviderType::Anthropic => "anthropic",
            ProviderType::Plugin => "plugin",
        }
    }

    /// Reads a provider type from its stable name.
    pub fn parse(value: &str) -> (r: Result<ProviderType, Error>)
        ensures
            match r {
                Ok(p) => provider_name(p) == value@,
                Err(e) => crate::error::is_config(e, "unsupported provider type: "@ + value@)
                    && forall|p: ProviderType| provider_name(p) != value@,
            },
    {
        if crate::text::str_eq(value, "openai-chat") {
            Ok(ProviderType::OpenAiChat)
        } else if crate::text::str_eq(value, "openai-responses") {
            Ok(ProviderType::OpenAiResponses)
        } else if crate::text::str_eq(value, "anthropic") {
            Ok(ProviderType::Anthropic)
        } else if crate::text::str_eq(value, "plugin") {
            Ok(ProviderType::Plugin)
        } else {
            proof {
                assert forall|p: ProviderType| provider_name(p) != value@ by {
                    match p {
                        ProviderType::OpenAiChat => {},
                        ProviderType::OpenAiResponses => {},
                        ProviderType::Anthropic => {},
                        ProviderType::Plugin => {},
                    }
                }
            }
            Err(crate::error::config_error("unsupported provider type: ", value))
        }
    }
}

/// The API family a configured model speaks.
#[derive(Clone, Copy, Debug, PartialEq, Eq)]
pub enum ModelType {
    OpenAi,
    Anthropic,
}

/// The stable name of a model type.
pub open spec fn model_type_name(t: ModelType) -> Seq<char> {
    match t {
        ModelType::OpenAi => "openai"@,
        ModelType::Anthropic => "anthropic"@,
    }
}

impl ModelType {
    /// The stored name of the model type.
    pub fn as_str(self) -> (r: &'static str)
        ensures
            r@ == model_type_name(self),
    {
        match self {
            ModelType::OpenAi => "openai",
            ModelType::Anthropic => "anthropic",
        }
    }

    /// Reads a model type from its stable name.
    pub fn parse(value: &str) -> (r: Result<ModelType, Error>)
        ensures
            match r {
                Ok(t) => model_type_name(t) == value@,
                Err(e) => crate::error::is_config(e, "unsupported model type: "@ + value@)
                    && forall|t: ModelType| model_type_name(t) != value@,
            },
    {
        if crate::text::str_eq(value, "openai") {
            Ok(ModelType::OpenAi)
        } else if crate::text::str_eq(value, "anthropic") {
            Ok(ModelType::Anthropic)
        } else {
            proof {
                assert forall|t: ModelType| model_type_name(t) != value@ by {
                    match t {
                        ModelType::OpenAi => {},
                        ModelType::Anthropic => {},
                    }
                }
            }
            Err(crate::error::config_error("unsupported model type: ", value))
        }
    }
}

/// The components of a variant slug: `{hash}-{context}[-{effort}][-fast]`;
/// a model without a reasoning axis has no effort segment.
#[derive(Clone, Debug, Default, PartialEq, Eq)]
pub struct ModelVariantParts {
    pub context: String,
    pub effort: Option<String>,
    pub fast: bool,
}

/// The text view of variant parts.
pub struct PartsView {
    pub context: Seq<char>,
    pub effort: Option<Seq<char>>,
    pub fast: bool,
}

/// The text of an optional text.
pub open spec fn opt_view(o: Option<String>) -> Option<Seq<char>> {
    match o {
        Some(s) => Some(s@),
        None => None,
    }
}

impl View for ModelVariantParts {
    type V = PartsView;

    open spec fn view(&self) -> PartsView {
        PartsView { context: self.context@, effort: opt_view(self.effort), fast: self.fast }
    }
}

/// One model's variant axes. Catalog publishing, slug parsing, and Task tool defaults share
/// this single definition.
#[derive(Clone, Debug, Default, PartialEq, Eq)]
pub struct ModelVariantAxis {
    pub context_options: Vec<String>,
    pub effort_options: Vec<String>,
}

/// The text view of variant axes.
pub struct AxisView {
    pub contexts: Seq<Seq<char>>,
    pub efforts: Seq<Seq<char>>,
}

impl View for ModelVariantAxis {
    type V = AxisView;

    open spec fn view(&self) -> AxisView {
        AxisView { contexts: views(self.context_options@), efforts: views(self.effort_options@) }
    }
}

/// Whether `s` starts with `p`.
pub open spec fn has_prefix(s: Seq<char>, p: Seq<char>) -> bool {
    p.len() <= s.len() && s.take(p.len() as int) == p
}

/// Whether `s` ends with `p`.
pub open spec fn has_suffix(s: Seq<char>, p: Seq<char>) -> bool {
    p.len() <= s.len() && s.skip(s.len() - p.len()) == p
}

/// Whether a context tier lands on the axis: a named option, or a positive bare token count.
pub open spec fn accepts_context(a: AxisView, c: Seq<char>) -> bool {
    a.contexts.contains(c) || (all_digits(c) && 0 < digits_value(c) <= u64::MAX)
}

/// Whether an effort lands on the axis; `none` and `off` switch reasoning off. A model
/// without a reasoning axis accepts no effort.
pub open spec fn accepts_effort(a: AxisView, e: Seq<char>) -> bool {
    a.efforts.len() > 0 && (a.efforts.contains(e) || e == "none"@ || e == "off"@)
}

/// The fields read from the bracket notation so far: context, effort, fast.
pub type Fields = (Option<Seq<char>>, Option<Seq<char>>, bool);

/// One `id=value` pair of the bracket notation; `None` when the pair has no `=`.
pub open spec fn body_step(st: Fields, pair: Seq<char>) -> Option<Fields> {
    match first_index(pair, '=') {
        None => None,
        Some(p) => {
            let id = pair.take(p);
            let value = pair.skip(p + 1);
            if id == "context"@ {
                Some((Some(value), st.1, st.2))
            } else if id == "reasoning"@ || id == "effort"@ {
                Some((st.0, Some(value), st.2))
            } else if id == "fast"@ {
                Some((st.0, st.1, value == "true"@))
            } else {
                Some(st)
            }
        },
    }
}

/// The fields of a sequence of pairs read left to right; later pairs win.
pub open spec fn body_fields(st: Fields, pairs: Seq<Seq<char>>) -> Option<Fields>
    decreases pairs.len(),
{
    if pairs.len() == 0 {
        Some(st)
    } else {
        match body_step(st, pairs[0]) {
            None => None,
            Some(next) => body_fields(next, pairs.drop_first()),
        }
    }
}

/// Variant parts that pass the axis checks.
pub open spec fn checked_parts(
    a: AxisView,
    context: Seq<char>,
    effort: Option<Seq<char>>,
    fast: bool,
) -> Option<PartsView> {
    if !accepts_context(a, context) {
        None
    } else if effort is Some && !accepts_effort(a, effort->0) {
        None
    } else {
        Some(PartsView { context, effort, fast })
    }
}

/// The parts of the bracket body `context=..,reasoning=..,fast=..`: context is required,
/// unknown ids are ignored.
pub open spec fn body_parts(a: AxisView, body: Seq<char>) -> Option<PartsView> {
    match body_fields((None, None, false), split_on(body, ',')) {
        None => None,
        Some(f) => match f.0 {
            None => None,
            Some(context) => checked_parts(a, context, f.1, f.2),
        },
    }
}

/// The parts of the hyphen suffix `{context}[-{effort}][-fast]`.
pub open spec fn hyphen_parts(a: AxisView, suffix: Seq<char>) -> Option<PartsView> {
    let fast = has_suffix(suffix, "-fast"@);
    let rest = if fast {
        suffix.take(suffix.len() - "-fast"@.len())
    } else {
        suffix
    };
    if a.efforts.len() == 0 {
        checked_parts(a, rest, None, fast)
    } else {
        match last_index(rest, '-') {
            None => None,
            Some(p) => checked_parts(a, rest.take(p), Some(rest.skip(p + 1)), fast),
        }
    }
}

/// The parts a variant reference names: the bracket form `{hash}[..]` or the hyphen slug
/// `{hash}-..`, validated against the axis alike.
pub open spec fn slug_parts(a: AxisView, hash: Seq<char>, key: Seq<char>) -> Option<PartsView> {
    let n = hash.len() as int;
    if has_prefix(key, hash) && key.len() >= n + 2 && key[n] == '[' && key.last() == ']' {
        body_parts(a, key.subrange(n + 1, key.len() - 1))
    } else if has_prefix(key, hash.push('-')) {
        hyphen_parts(a, key.skip(n + 1))
    } else {
        None
    }
}

/// A variant slug: `{hash}-{context}`, then `-{effort}` when the axis has efforts and one is
/// chosen, then `-fast`.
pub open spec fn slug(a: AxisView, hash: Seq<char>, p: PartsView) -> Seq<char> {
    let base = hash.push('-') + p.context;
    let with_effort = if a.efforts.len() > 0 && p.effort is Some {
        base.push('-') + p.effort->0
    } else {
        base
    };
    if p.fast {
        with_effort + "-fast"@
    } else {
        with_effort
    }
}

/// Whether `c` occurs nowhere in `s`.
pub open spec fn free_of(s: Seq<char>, c: char) -> bool {
    forall|i: int| 0 <= i < s.len() ==> s[i] != c
}

/// The last `c` in `x`, `c`, `e` is the one between them when `e` holds none.
proof fn lemma_last_separator(x: Seq<char>, c: char, e: Seq<char>)
    requires
        free_of(e, c),
    ensures
        last_index(x.push(c) + e, c) == Some(x.len() as int),
    decreases e.len(),
{
    let s = x.push(c) + e;
    if e.len() == 0 {
        assert(s =~= x.push(c));
    } else {
        assert(s.last() == e.last());
        assert(s.drop_last() =~= x.push(c) + e.drop_last());
        lemma_last_separator(x, c, e.drop_last());
    }
}

/// Baking a slug and parsing it back gives the same parts, for parts that a slug can carry:
/// a named context without `-`, and, exactly when the axis has efforts, one of them without
/// `-` and other than `fast`.
pub proof fn lemma_slug_round_trip(a: AxisView, hash: Seq<char>, p: PartsView)
    requires
        a.contexts.contains(p.context),
        free_of(p.context, '-'),
        if a.efforts.len() == 0 {
            p.effort is None
        } else {
            p.effort matches Some(e) && a.efforts.contains(e) && free_of(e, '-') && e != "fast"@
        },
    ensures
        slug_parts(a, hash, slug(a, hash, p)) == Some(p),
{
    reveal_strlit("-fast");
    reveal_strlit("fast");
    let key = slug(a, hash, p);
    let n = hash.len() as int;
    let base = hash.push('-') + p.context;
    let with_effort = if a.efforts.len() > 0 && p.effort is Some {
        base.push('-') + p.effort->0
    } else {
        base
    };
    assert(key.take(n + 1) =~= hash.push('-')) by {
        assert(key.take(n + 1) =~= with_effort.take(n + 1));
        assert(with_effort.take(n + 1) =~= base.take(n + 1));
    }
    assert(key.take(n) =~= hash) by {
        assert(key.take(n) =~= key.take(n + 1).take(n));
    }
    assert(key[n] == '-') by {
        assert(key.take(n + 1)[n] == key[n]);
    }
    let suffix = key.skip(n + 1);
    let rest = with_effort.skip(n + 1);
    assert(suffix =~= if p.fast { rest + "-fast"@ } else { rest });
    // Without `-fast` the suffix does not end in it.
    if !p.fast {
        if has_suffix(suffix, "-fast"@) {
            let t = suffix.skip(suffix.len() - 5);
            assert(t =~= "-fast"@);
            assert(t[0] == '-');
            if a.efforts.len() == 0 {
                assert(suffix =~= p.context);
                assert(p.context[suffix.len() - 5] == '-');
            } else {
                let e = p.effort->0;
                assert(suffix =~= p.context.push('-') + e);
                let j = suffix.len() - 5;
                if j > p.context.len() {
                    assert(e[j - p.context.len() - 1] == '-');
                } else if j < p.context.len() {
                    assert(p.context[j] == '-');
                } else {
                    assert(e =~= suffix.skip(p.context.len() as int + 1));
                    assert(e =~= t.skip(1));
                    assert(e =~= "fast"@);
                }
            }
        }
    } else {
        assert(suffix.skip(suffix.len() - 5) =~= "-fast"@);
        assert(suffix.take(suffix.len() - 5) =~= rest);
    }
    if a.efforts.len() > 0 {
        let e = p.effort->0;
        assert(rest =~= p.context.push('-') + e);
        lemma_last_separator(p.context, '-', e);
        assert(rest.take(p.context.len() as int) =~= p.context);
        assert(rest.skip(p.context.len() as int + 1) =~= e);
    } else {
        assert(rest =~= p.context);
    }
}

/// The first option that names the token count `tokens`.
pub open spec fn first_with_count(list: Seq<Seq<char>>, tokens: u64) -> Option<Seq<char>>
    decreases list.len(),
{
    if list.len() == 0 {
        None
    } else if token_count(list[0]) == Some(tokens) {
        Some(list[0])
    } else {
        first_with_count(list.drop_first(), tokens)
    }
}

/// The context option for a window: the first named option of that size, otherwise the bare
/// token count.
pub open spec fn option_for_tokens(a: AxisView, tokens: u64) -> Seq<char> {
    match first_with_count(a.contexts, tokens) {
        Some(o) => o,
        None => decimal(tokens as nat),
    }
}

/// The catalog's default variant: context prefers `200k`, otherwise the first entry; effort
/// prefers `high`, otherwise the first entry, or none without a reasoning axis; not fast.
/// Without a context axis there is none.
pub open spec fn default_parts_of(a: AxisView) -> Option<PartsView> {
    if a.contexts.len() == 0 {
        None
    } else {
        Some(
            PartsView {
                context: if a.contexts.contains("200k"@) {
                    "200k"@
                } else {
                    a.contexts[0]
                },
                effort: if a.efforts.len() == 0 {
                    None
                } else if a.efforts.contains("high"@) {
                    Some("high"@)
                } else {
                    Some(a.efforts[0])
                },
                fast: false,
            },
        )
    }
}

/// The first option with a token count is found by scanning past those without it.
pub proof fn lemma_first_with_count(list: Seq<Seq<char>>, tokens: u64, i: int)
    requires
        0 <= i <= list.len(),
        forall|k: int| 0 <= k < i ==> token_count(#[trigger] list[k]) != Some(tokens),
    ensures
        i < list.len() && token_count(list[i]) == Some(tokens) ==> first_with_count(list, tokens)
            == Some(list[i]),
        i == list.len() ==> first_with_count(list, tokens) is None,
    decreases i,
{
    if i > 0 {
        assert forall|k: int| 0 <= k < i - 1 implies token_count(
            #[trigger] list.drop_first()[k],
        ) != Some(tokens) by {
            assert(list.drop_first()[k] == list[k + 1]);
        }
        lemma_first_with_count(list.drop_first(), tokens, i - 1);
    }
}

/// The position of the first option that names `tokens`.
pub fn find_with_count(list: &Vec<String>, tokens: u64) -> (r: Option<usize>)
    ensures
        match r {
            Some(i) => i < list.len() && first_with_count(views(list@), tokens) == Some(
                list@[i as int]@,
            ),
            None => first_with_count(views(list@), tokens) is None,
        },
{
    let mut i: usize = 0;
    while i < list.len()
        invariant
            i <= list.len(),
            forall|k: int| 0 <= k < i ==> token_count(#[trigger] views(list@)[k]) != Some(tokens),
        decreases list.len() - i,
    {
        let c = crate::tokens::parse_token_count(list[i].as_str());
        if c == Some(tokens) {
            proof {
                lemma_first_with_count(views(list@), tokens, i as int);
            }
            return Some(i);
        }
        i = i + 1;
    }
    proof {
        lemma_first_with_count(views(list@), tokens, i as int);
    }
    None
}

impl ModelVariantAxis {
    /// The catalog's default variant (see [`default_parts_of`]).
    pub fn default_parts(&self) -> (r: Option<ModelVariantParts>)
        ensures
            match r {
                Some(p) => default_parts_of(self@) == Some(p@),
                None => default_parts_of(self@) is None,
            },
    {
        if self.context_options.len() == 0 {
            return None;
        }
        let context = if crate::text::contains_str(&self.context_options, DEFAULT_CONTEXT_OPTION) {
            crate::text::copy(DEFAULT_CONTEXT_OPTION)
        } else {
            self.context_options[0].clone()
        };
        let effort = if self.effort_options.len() == 0 {
            None
        } else if crate::text::contains_str(&self.effort_options, "high") {
            Some(crate::text::copy("high"))
        } else {
            Some(self.effort_options[0].clone())
        };
        let r = ModelVariantParts { context, effort, fast: false };
        assert(r@ == default_parts_of(self@)->0);
        Some(r)
    }

    fn accepts_context(&self, context: &str) -> (r: bool)
        ensures
            r == accepts_context(self@, context@),
    {
        if crate::text::contains_str(&self.context_options, context) {
            return true;
        }
        let v = crate::text::chars_of(context);
        let mut i: usize = 0;
        while i < v.len()
            invariant
                i <= v.len(),
                v@ == context@,
                !self@.contexts.contains(context@),
                forall|k: int| 0 <= k < i ==> crate::text::is_digit(#[trigger] v@[k]),
            decreases v.len() - i,
        {
            if !('0' <= v[i] && v[i] <= '9') {
                assert(!crate::text::is_digit(v@[i as int]));
                return false;
            }
            i = i + 1;
        }
        assert(v@.subrange(0, v.len() as int) == v@);
        match crate::text::parse_digits(&v, 0, v.len()) {
            Some(n) => n > 0,
            None => false,
        }
    }

    fn accepts_effort(&self, effort: &str) -> (r: bool)
        ensures
            r == accepts_effort(self@, effort@),
    {
        self.effort_options.len() > 0 && (crate::text::contains_str(&self.effort_options, effort)
            || crate::text::str_eq(effort, "none") || crate::text::str_eq(effort, "off"))
    }

    /// Checks parts against the axis.
    fn checked(&self, context: String, effort: Option<String>, fast: bool) -> (r: Option<
        ModelVariantParts,
    >)
        ensures
            match r {
                Some(p) => checked_parts(self@, context@, opt_view(effort), fast) == Some(p@),
                None => checked_parts(self@, context@, opt_view(effort), fast) is None,
            },
    {
        if !self.accepts_context(context.as_str()) {
            return None;
        }
        match &effort {
            Some(e) => {
                if !self.accepts_effort(e.as_str()) {
                    return None;
                }
            },
            None => {},
        }
        Some(ModelVariantParts { context, effort, fast })
    }

    /// The bracket body is comma-separated id=value pairs; context is required,
    /// unknown ids are ignored.
    fn parse_variant_body(&self, body: &str) -> (r: Option<ModelVariantParts>)
        ensures
            match r {
                Some(p) => body_parts(self@, body@) == Some(p@),
                None => body_parts(self@, body@) is None,
            },
    {
        let chars = crate::text::chars_of(body);
        let pairs = crate::text::split_chars(&chars, ',');
        let mut context: Option<String> = None;
        let mut effort: Option<String> = None;
        let mut fast = false;
        let mut k: usize = 0;
        let ghost all = views(pairs@);
        assert(all.skip(0) == all);
        while k < pairs.len()
            invariant
                k <= pairs.len(),
                all == views(pairs@),
                all == split_on(body@, ','),
                body_fields((None, None, false), all) == body_fields(
                    (opt_view(context), opt_view(effort), fast),
                    all.skip(k as int),
                ),
            decreases pairs.len() - k,
        {
            let pv = crate::text::chars_of(pairs[k].as_str());
            let ghost st: Fields = (opt_view(context), opt_view(effort), fast);
            assert(all.skip(k as int)[0] == pv@);
            assert(all.skip(k as int).drop_first() == all.skip(k + 1));
            match crate::text::find_char(&pv, '=') {
                None => {
                    assert(body_step(st, pv@) is None);
                    return None;
                },
                Some(p) => {
                    let id = crate::text::string_of_range(&pv, 0, p);
                    let value = crate::text::string_of_range(&pv, p + 1, pv.len());
                    assert(id@ == pv@.take(p as int));
                    assert(value@ == pv@.skip(p + 1));
                    if crate::text::str_eq(id.as_str(), "context") {
                        context = Some(value);
                    } else if crate::text::str_eq(id.as_str(), "reasoning") || crate::text::str_eq(
                        id.as_str(),
                        "effort",
                    ) {
                        effort = Some(value);
                    } else if crate::text::str_eq(id.as_str(), "fast") {
                        fast = crate::text::str_eq(value.as_str(), "true");
                    }
                    assert(body_step(st, pv@) == Some((opt_view(context), opt_view(effort), fast)));
                },
            }
            k = k + 1;
        }
        assert(all.skip(pairs.len() as int).len() == 0);
        match context {
            None => None,
            Some(c) => self.checked(c, effort, fast),
        }
    }

    /// Parses a variant reference: both the hyphen slug `{hash}-{context}[-{effort}][-fast]`
    /// and the catalog's bracket notation `{hash}[context=..,reasoning=..,fast=..]` are
    /// accepted and validated identically.
    pub fn parse_slug(&self, hash: &str, key: &str) -> (r: Option<ModelVariantParts>)
        ensures
            match r {
                Some(p) => slug_parts(self@, hash@, key@) == Some(p@),
                None => slug_parts(self@, hash@, key@) is None,
            },
    {
        let k = crate::text::chars_of(key);
        let h = crate::text::chars_of(hash);
        let n = h.len();
        let prefixed = crate::text::matches_at(&k, 0, &h);
        assert(prefixed == has_prefix(key@, hash@)) by {
            if h@.len() <= k@.len() {
                assert(k@.subrange(0, h@.len() as int) == k@.take(h@.len() as int));
            }
        }
        if prefixed && k.len() - n >= 2 && k[n] == '[' && k[k.len() - 1] == ']' {
            let body = crate::text::string_of_range(&k, n + 1, k.len() - 1);
            return self.parse_variant_body(body.as_str());
        }
        if !(prefixed && k.len() - n >= 1 && k[n] == '-') {
            assert(!has_prefix(key@, hash@.push('-'))) by {
                if has_prefix(key@, hash@.push('-')) {
                    assert(key@.take(n as int) == key@.take(n + 1).take(n as int));
                    assert(hash@.push('-').take(n as int) == hash@);
                    assert(key@.take(n + 1)[n as int] == key@[n as int]);
                }
            }
            return None;
        }
        assert(has_prefix(key@, hash@.push('-'))) by {
            assert(key@.take(n + 1) == key@.take(n as int).push(key@[n as int]));
        }
        let suffix = crate::text::string_of_range(&k, n + 1, k.len());
        assert(suffix@ == key@.skip(n + 1));
        self.parse_hyphen(suffix.as_str())
    }

    fn parse_hyphen(&self, suffix: &str) -> (r: Option<ModelVariantParts>)
        ensures
            match r {
                Some(p) => hyphen_parts(self@, suffix@) == Some(p@),
                None => hyphen_parts(self@, suffix@) is None,
            },
    {
        let fast = crate::text::ends_with(suffix, "-fast");
        let s = crate::text::chars_of(suffix);
        let end = if fast {
            s.len() - crate::text::chars_of("-fast").len()
        } else {
            s.len()
        };
        let rest = crate::text::string_of_range(&s, 0, end);
        let rv = crate::text::chars_of(rest.as_str());
        assert(rv@ == if fast {
            suffix@.take(suffix@.len() - "-fast"@.len())
        } else {
            suffix@
        });
        if self.effort_options.len() == 0 {
            return self.checked(rest, None, fast);
        }
        match crate::text::rfind_char(&rv, '-') {
            None => None,
            Some(p) => {
                let context = crate::text::string_of_range(&rv, 0, p);
                let effort = crate::text::string_of_range(&rv, p + 1, rv.len());
                assert(context@ == rv@.take(p as int));
                assert(effort@ == rv@.skip(p + 1));
                self.checked(context, Some(effort), fast)
            },
        }
    }

    /// Bakes a variant slug; without a reasoning axis it has no effort segment.
    pub fn bake_slug(&self, hash: &str, parts: &ModelVariantParts) -> (r: String)
        ensures
            r@ == slug(self@, hash@, parts@),
    {
        let mut s = crate::text::copy(hash);
        crate::text::push_str(&mut s, "-");
        crate::text::push_str(&mut s, parts.context.as_str());
        proof {
            reveal_strlit("-");
            assert(hash@ + "-"@ == hash@.push('-'));
        }
        if self.effort_options.len() > 0 {
            match &parts.effort {
                Some(e) => {
                    let ghost before = s@;
                    crate::text::push_str(&mut s, "-");
                    crate::text::push_str(&mut s, e.as_str());
                    assert(before + "-"@ == before.push('-'));
                },
                None => {},
            }
        }
        if parts.fast {
            crate::text::push_str(&mut s, "-fast");
        }
        s
    }

    /// The context option for a window token count; falls back to the bare token count when
    /// no named entry matches.
    pub fn context_option_for_tokens(&self, tokens: u64) -> (r: Option<String>)
        ensures
            r matches Some(s) && s@ == option_for_tokens(self@, tokens),
    {
        match find_with_count(&self.context_options, tokens) {
            Some(i) => Some(self.context_options[i].clone()),
            None => Some(crate::text::decimal_string(tokens)),
        }
    }

    /// Validates a Task tool context parameter: after trimming and lowercasing it must land on
    /// the axis (an equal token count is allowed).
    pub fn validate_context(&self, value: &str) -> (r: Result<String, Error>)
        ensures
            ({
                let v = lower(trim(value@));
                let a = self@;
                match r {
                    Ok(s) => a.contexts.len() > 0 && (if a.contexts.contains(v) {
                        s@ == v
                    } else {
                        token_count(v) matches Some(t) && first_with_count(a.contexts, t) == Some(
                            s@,
                        )
                    }),
                    Err(e) => if a.contexts.len() == 0 {
                        is_protocol(
                            e,
                            "Task model parameter context is not supported by this model"@,
                        )
                    } else {
                        !a.contexts.contains(v) && (token_count(v) matches Some(t) ==> first_with_count(
                            a.contexts,
                            t,
                        ) is None) && is_protocol(
                            e,
                            "Task model parameter context must be one of: "@ + join(
                                a.contexts,
                                ", "@,
                            ),
                        )
                    },
                }
            }),
    {
        let trimmed = crate::text::trim_str(value);
        let v = crate::text::to_lower(trimmed.as_str());
        if self.context_options.len() == 0 {
            return Err(
                crate::error::protocol_message(
                    "Task model parameter context is not supported by this model",
                ),
            );
        }
        if crate::text::contains_str(&self.context_options, v.as_str()) {
            return Ok(v);
        }
        match crate::tokens::parse_token_count(v.as_str()) {
            Some(t) => match find_with_count(&self.context_options, t) {
                Some(i) => {
                    return Ok(self.context_options[i].clone());
                },
                None => {},
            },
            None => {},
        }
        let listed = crate::text::join_strs(&self.context_options, ", ");
        Err(
            crate::error::protocol_error(
                "Task model parameter context must be one of: ",
                listed.as_str(),
            ),
        )
    }

    /// Validates a Task tool reasoning parameter: after trimming and lowercasing it must land
    /// on the axis.
    pub fn validate_effort(&self, value: &str) -> (r: Result<String, Error>)
        ensures
            ({
                let v = lower(trim(value@));
                let a = self@;
                match r {
                    Ok(s) => a.efforts.len() > 0 && a.efforts.contains(v) && s@ == v,
                    Err(e) => if a.efforts.len() == 0 {
                        is_protocol(
                            e,
                            "Task model parameter reasoning is not supported by this model"@,
                        )
                    } else {
                        !a.efforts.contains(v) && is_protocol(
                            e,
                            "Task model parameter reasoning must be one of: "@ + join(
                                a.efforts,
                                ", "@,
                            ),
                        )
                    },
                }
            }),
    {
        let trimmed = crate::text::trim_str(value);
        let v = crate::text::to_lower(trimmed.as_str());
        if self.effort_options.len() == 0 {
            return Err(
                crate::error::protocol_message(
                    "Task model parameter reasoning is not supported by this model",
                ),
            );
        }
        if crate::text::contains_str(&self.effort_options, v.as_str()) {
            Ok(v)
        } else {
            let listed = crate::text::join_strs(&self.effort_options, ", ");
            Err(
                crate::error::protocol_error(
                    "Task model parameter reasoning must be one of: ",
                    listed.as_str(),
                ),
            )
        }
    }
}

} // verus!
