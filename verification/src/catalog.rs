//! The model catalog published to Cursor: the option axes of each model, its parameter
//! definitions, its variant grid, and the model details the CLI uses.
use vstd::prelude::*;

use crate::configuration::{first_with_count, opt_view, find_with_count};
use crate::model_config::{without_count, ModelConfig};
use crate::plugin::PluginModelDescriptor;
use crate::error::{is_protocol, Error};
use crate::text::{decimal, join, views};
use crate::tokens::{option_label, token_count, token_label};

verus! {

/// The API key the CLI sends for local models; the local server routes with it and never
/// forwards it upstream.
pub const CLI_LOCAL_MODEL_API_KEY: &'static str = "cursor-byok-local";

/// The context tier Cursor pre-selects when it is offered.
pub const DEFAULT_CONTEXT: &'static str = "200k";

/// The views of (value, display name) pairs.
pub open spec fn pair_views(list: Seq<(String, String)>) -> Seq<(Seq<char>, Seq<char>)> {
    list.map_values(|p: (String, String)| (p.0@, p.1@))
}

/// Options labelled with their display names.
pub open spec fn labelled(list: Seq<Seq<char>>) -> Seq<(Seq<char>, Seq<char>)> {
    list.map_values(|v: Seq<char>| (v, option_label(v)))
}

/// The catalog's context options of a configured model: with a configured window, the named
/// option of that size (or the bare token count, labelled with its size) leads and the other
/// options follow in order; each option is labelled with its size when it names one.
pub open spec fn catalog_contexts(options: Seq<Seq<char>>, window: Option<u64>) -> Seq<
    (Seq<char>, Seq<char>),
> {
    match window {
        None => labelled(options),
        Some(t) => seq![
            match first_with_count(options, t) {
                Some(v) => (v, option_label(v)),
                None => (decimal(t as nat), token_label(t as nat)),
            },
        ] + labelled(without_count(options, t)),
    }
}

/// The context options of a configured model (see [`catalog_contexts`]).
pub fn context_options(model: &ModelConfig) -> (r: Vec<(String, String)>)
    ensures
        pair_views(r@) == catalog_contexts(views(model.context_options@), model.context_window_tokens),
{
    let mut contexts: Vec<(String, String)> = Vec::new();
    match model.context_window_tokens {
        Some(t) => match find_with_count(&model.context_options, t) {
            Some(i) => {
                let value = model.context_options[i].as_str();
                contexts.push(
                    (crate::text::copy(value), crate::tokens::display_token_count(value)),
                );
            },
            None => contexts.push(
                (crate::text::decimal_string(t), crate::tokens::format_token_count(t)),
            ),
        },
        None => {},
    }
    let ghost lead = pair_views(contexts@);
    let options = &model.context_options;
    let mut k: usize = 0;
    while k < options.len()
        invariant
            k <= options.len(),
            options == &model.context_options,
            pair_views(contexts@) == lead + labelled(
                match model.context_window_tokens {
                    None => views(options@).take(k as int),
                    Some(t) => without_count(views(options@).take(k as int), t),
                },
            ),
        decreases options.len() - k,
    {
        let ghost before = pair_views(contexts@);
        let ghost prefix = views(options@).take(k + 1);
        assert(prefix.drop_last() == views(options@).take(k as int));
        assert(prefix.last() == options@[k as int]@);
        let keep = match model.context_window_tokens {
            Some(t) => crate::tokens::parse_token_count(options[k].as_str()) != Some(t),
            None => true,
        };
        if keep {
            let value = options[k].as_str();
            contexts.push((crate::text::copy(value), crate::tokens::display_token_count(value)));
            assert(pair_views(contexts@) == before.push((value@, option_label(value@))));
            assert(labelled(
                match model.context_window_tokens {
                    None => prefix,
                    Some(t) => without_count(prefix, t),
                },
            ) == labelled(
                match model.context_window_tokens {
                    None => views(options@).take(k as int),
                    Some(t) => without_count(views(options@).take(k as int), t),
                },
            ).push((value@, option_label(value@))));
        }
        k = k + 1;
    }
    assert(views(options@).take(options.len() as int) == views(options@));
    contexts
}

/// The display name of a reasoning effort; unknown efforts show as they are.
pub open spec fn effort_name(value: Seq<char>) -> Seq<char> {
    if value == "low"@ {
        "Low"@
    } else if value == "medium"@ {
        "Medium"@
    } else if value == "high"@ {
        "High"@
    } else if value == "xhigh"@ {
        "Extra High"@
    } else if value == "max"@ {
        "Max"@
    } else {
        value
    }
}

/// The display name of a reasoning effort (see [`effort_name`]).
pub fn effort_display_name(value: &str) -> (r: String)
    ensures
        r@ == effort_name(value@),
{
    if crate::text::str_eq(value, "low") {
        crate::text::copy("Low")
    } else if crate::text::str_eq(value, "medium") {
        crate::text::copy("Medium")
    } else if crate::text::str_eq(value, "high") {
        crate::text::copy("High")
    } else if crate::text::str_eq(value, "xhigh") {
        crate::text::copy("Extra High")
    } else if crate::text::str_eq(value, "max") {
        crate::text::copy("Max")
    } else {
        crate::text::copy(value)
    }
}

/// Efforts labelled with their display names.
pub open spec fn named_efforts(list: Seq<Seq<char>>) -> Seq<(Seq<char>, Seq<char>)> {
    list.map_values(|v: Seq<char>| (v, effort_name(v)))
}

/// The effort options of a configured model, each with its display name.
pub fn effort_options(model: &ModelConfig) -> (r: Vec<(String, String)>)
    ensures
        pair_views(r@) == named_efforts(views(model.effort_options@)),
{
    labelled_efforts(&model.effort_options)
}

/// Each effort with its display name.
fn labelled_efforts(list: &Vec<String>) -> (r: Vec<(String, String)>)
    ensures
        pair_views(r@) == named_efforts(views(list@)),
{
    let mut r: Vec<(String, String)> = Vec::new();
    let mut k: usize = 0;
    while k < list.len()
        invariant
            k <= list.len(),
            pair_views(r@) == named_efforts(views(list@)).take(k as int),
        decreases list.len() - k,
    {
        let value = list[k].as_str();
        let ghost before = pair_views(r@);
        r.push((crate::text::copy(value), effort_display_name(value)));
        assert(pair_views(r@) == before.push((value@, effort_name(value@))));
        assert(named_efforts(views(list@)).take(k + 1) == named_efforts(views(list@)).take(
            k as int,
        ).push((value@, effort_name(value@))));
        k = k + 1;
    }
    assert(named_efforts(views(list@)).take(list.len() as int) == named_efforts(views(list@)));
    r
}

/// The fixed effort axis of plugin models.
pub open spec fn plugin_efforts() -> Seq<(Seq<char>, Seq<char>)> {
    seq![
        ("low"@, "Low"@),
        ("medium"@, "Medium"@),
        ("high"@, "High"@),
        ("xhigh"@, "Extra High"@),
        ("max"@, "Max"@),
    ]
}

/// The fixed context tiers of plugin models.
pub open spec fn plugin_tiers() -> Seq<(Seq<char>, Seq<char>)> {
    seq![
        ("200k"@, "200K"@),
        ("356k"@, "356K"@),
        ("500k"@, "500K"@),
        ("800k"@, "800K"@),
        ("1m"@, "1M"@),
    ]
}

/// The context axis of plugin models: the fixed tiers, led by a configured window (as a bare
/// token count) unless a tier already names that size.
pub open spec fn plugin_contexts(window: Option<u64>) -> Seq<(Seq<char>, Seq<char>)> {
    match window {
        Some(t) => if exists|i: int|
            0 <= i < plugin_tiers().len() && token_count(#[trigger] plugin_tiers()[i].0) == Some(
                t,
            ) {
            plugin_tiers()
        } else {
            seq![(decimal(t as nat), token_label(t as nat))] + plugin_tiers()
        },
        None => plugin_tiers(),
    }
}

/// Pairs of texts built from literals.
fn pair(a: &str, b: &str) -> (r: (String, String))
    ensures
        r.0@ == a@,
        r.1@ == b@,
{
    (crate::text::copy(a), crate::text::copy(b))
}

/// The fixed effort axis of plugin models, with display names.
pub fn plugin_effort_options() -> (r: Vec<(String, String)>)
    ensures
        pair_views(r@) == plugin_efforts(),
{
    let mut r: Vec<(String, String)> = Vec::new();
    r.push(pair("low", "Low"));
    r.push(pair("medium", "Medium"));
    r.push(pair("high", "High"));
    r.push(pair("xhigh", "Extra High"));
    r.push(pair("max", "Max"));
    assert(pair_views(r@) == plugin_efforts());
    r
}

/// The context axis of plugin models (see [`plugin_contexts`]).
pub fn plugin_context_options(context_window_tokens: Option<u64>) -> (r: Vec<(String, String)>)
    ensures
        pair_views(r@) == plugin_contexts(context_window_tokens),
{
    let mut tiers: Vec<(String, String)> = Vec::new();
    tiers.push(pair("200k", "200K"));
    tiers.push(pair("356k", "356K"));
    tiers.push(pair("500k", "500K"));
    tiers.push(pair("800k", "800K"));
    tiers.push(pair("1m", "1M"));
    assert(pair_views(tiers@) == plugin_tiers());
    match context_window_tokens {
        None => tiers,
        Some(t) => {
            let mut duplicate = false;
            let mut k: usize = 0;
            while k < tiers.len()
                invariant
                    k <= tiers.len(),
                    pair_views(tiers@) == plugin_tiers(),
                    duplicate == exists|i: int|
                        0 <= i < k && token_count(#[trigger] plugin_tiers()[i].0) == Some(t),
                decreases tiers.len() - k,
            {
                assert(pair_views(tiers@)[k as int].0 == tiers@[k as int].0@);
                if crate::tokens::parse_token_count(tiers[k].0.as_str()) == Some(t) {
                    duplicate = true;
                }
                k = k + 1;
            }
            if duplicate {
                tiers
            } else {
                let mut r: Vec<(String, String)> = Vec::new();
                r.push((crate::text::decimal_string(t), crate::tokens::format_token_count(t)));
                let mut k: usize = 0;
                while k < tiers.len()
                    invariant
                        k <= tiers.len(),
                        r@.len() == k + 1,
                        pair_views(r@) == seq![(decimal(t as nat), token_label(t as nat))]
                            + pair_views(tiers@).take(k as int),
                    decreases tiers.len() - k,
                {
                    let ghost before = pair_views(r@);
                    let entry = (
                        crate::text::copy(tiers[k].0.as_str()),
                        crate::text::copy(tiers[k].1.as_str()),
                    );
                    r.push(entry);
                    assert(pair_views(tiers@).take(k + 1) == pair_views(tiers@).take(
                        k as int,
                    ).push(pair_views(tiers@)[k as int]));
                    assert(pair_views(r@) == before.push(pair_views(tiers@)[k as int]));
                    k = k + 1;
                }
                assert(pair_views(tiers@).take(tiers.len() as int) == pair_views(tiers@));
                r
            }
        },
    }
}

/// The position of the first option whose value is `key`, otherwise of the first option.
pub open spec fn preferred_index(list: Seq<(Seq<char>, Seq<char>)>, key: Seq<char>) -> Option<int> {
    if exists|i: int| 0 <= i < list.len() && #[trigger] list[i].0 == key {
        Some(
            choose|i: int|
                0 <= i < list.len() && #[trigger] list[i].0 == key && forall|j: int|
                    0 <= j < i ==> list[j].0 != key,
        )
    } else if list.len() > 0 {
        Some(0)
    } else {
        None
    }
}

/// The position of the option Cursor pre-selects: the `200k` tier when offered, otherwise
/// the first option.
pub open spec fn default_context_index(contexts: Seq<(Seq<char>, Seq<char>)>) -> Option<int> {
    preferred_index(contexts, "200k"@)
}

/// The preferred position is a position of the list.
pub proof fn lemma_preferred_index(list: Seq<(Seq<char>, Seq<char>)>, key: Seq<char>)
    ensures
        match preferred_index(list, key) {
            Some(i) => 0 <= i < list.len(),
            None => list.len() == 0,
        },
{
    if exists|i: int| 0 <= i < list.len() && #[trigger] list[i].0 == key {
        let w = choose|i: int| 0 <= i < list.len() && #[trigger] list[i].0 == key;
        lemma_first_key(list, key, w);
    }
}

/// Below a position holding `key` there is a first one.
proof fn lemma_first_key(list: Seq<(Seq<char>, Seq<char>)>, key: Seq<char>, w: int)
    requires
        0 <= w < list.len(),
        list[w].0 == key,
    ensures
        exists|i: int|
            0 <= i < list.len() && #[trigger] list[i].0 == key && forall|j: int|
                0 <= j < i ==> list[j].0 != key,
    decreases w,
{
    if exists|j: int| 0 <= j < w && #[trigger] list[j].0 == key {
        let j = choose|j: int| 0 <= j < w && #[trigger] list[j].0 == key;
        lemma_first_key(list, key, j);
    } else {
        assert(forall|j: int| 0 <= j < w ==> list[j].0 != key);
    }
}

/// The first option whose value is `key`, otherwise the first option.
pub fn preferred_option<'a>(list: &'a [(String, String)], key: &str) -> (r: Option<
    &'a (String, String),
>)
    ensures
        match preferred_index(pair_views(list@), key@) {
            Some(i) => r == Some(&list@[i]),
            None => r is None,
        },
{
    let mut k: usize = 0;
    while k < list.len()
        invariant
            k <= list.len(),
            forall|j: int| 0 <= j < k ==> pair_views(list@)[j].0 != key@,
        decreases list.len() - k,
    {
        if crate::text::str_eq(list[k].0.as_str(), key) {
            proof {
                let cs = pair_views(list@);
                assert(cs[k as int].0 == key@);
                let c = choose|i: int|
                    0 <= i < cs.len() && #[trigger] cs[i].0 == key@ && forall|j: int|
                        0 <= j < i ==> cs[j].0 != key@;
                assert(0 <= c < cs.len() && cs[c].0 == key@ && forall|j: int|
                    0 <= j < c ==> cs[j].0 != key@);
                if c > k {
                    assert(cs[k as int].0 != key@);
                }
            }
            return Some(&list[k]);
        }
        k = k + 1;
    }
    assert(!exists|i: int| 0 <= i < list@.len() && #[trigger] pair_views(list@)[i].0 == key@);
    if list.len() > 0 {
        Some(&list[0])
    } else {
        None
    }
}

/// The option Cursor pre-selects (see [`default_context_index`]).
pub fn default_context_option(contexts: &[(String, String)]) -> (r: Option<&(String, String)>)
    ensures
        match default_context_index(pair_views(contexts@)) {
            Some(i) => r == Some(&contexts@[i]),
            None => r is None,
        },
{
    preferred_option(contexts, DEFAULT_CONTEXT)
}

/// A value of an enum parameter.
pub struct EnumParameterValue {
    pub value: String,
    pub display_name: Option<String>,
}

/// A value of a boolean parameter.
pub struct BooleanParameterValue {
    pub value: String,
    pub display_name: Option<String>,
    pub increases_model_cost: Option<bool>,
}

/// The values of an enum parameter.
pub struct EnumParameter {
    pub values: Vec<EnumParameterValue>,
}

/// The values of a boolean parameter.
pub struct BooleanParameter {
    pub values: Vec<BooleanParameterValue>,
}

/// The kind of a model parameter.
pub struct ModelParameterType {
    pub boolean_parameter: Option<BooleanParameter>,
    pub enum_parameter: Option<EnumParameter>,
}

/// A parameter of a model in Cursor's picker.
pub struct ModelParameterDefinition {
    pub id: String,
    pub name: String,
    pub markdown_tooltip: Option<String>,
    pub parameter_type: Option<ModelParameterType>,
    pub is_cycleable_by_hotkey: Option<bool>,
}

/// The (value, display name) pairs of enum values, all of which have a display name.
pub open spec fn enum_values(values: Seq<EnumParameterValue>) -> Option<Seq<(Seq<char>, Seq<char>)>> {
    if forall|i: int| 0 <= i < values.len() ==> (#[trigger] values[i]).display_name is Some {
        Some(values.map_values(|v: EnumParameterValue| (v.value@, opt_view(v.display_name)->Some_0)))
    } else {
        None
    }
}

/// `d` is the enum parameter `id` named `name` with the tooltip, the values and the hotkey
/// flag given.
pub open spec fn is_enum_definition(
    d: ModelParameterDefinition,
    id: Seq<char>,
    name: Seq<char>,
    tooltip: Seq<char>,
    values: Seq<(Seq<char>, Seq<char>)>,
    cycleable: bool,
) -> bool {
    &&& d.id@ == id
    &&& d.name@ == name
    &&& opt_view(d.markdown_tooltip) == Some(tooltip)
    &&& d.is_cycleable_by_hotkey == Some(cycleable)
    &&& match d.parameter_type {
        Some(t) => t.boolean_parameter is None && match t.enum_parameter {
            Some(e) => enum_values(e.values@) == Some(values),
            None => false,
        },
        None => false,
    }
}

/// `d` is the `fast` parameter: a boolean whose `true` value is named Fast and costs more.
pub open spec fn is_fast_definition(d: ModelParameterDefinition) -> bool {
    &&& d.id@ == "fast"@
    &&& d.name@ == "Fast"@
    &&& opt_view(d.markdown_tooltip) == Some("Significantly faster but consumes more usage"@)
    &&& d.is_cycleable_by_hotkey == Some(false)
    &&& match d.parameter_type {
        Some(t) => t.enum_parameter is None && match t.boolean_parameter {
            Some(b) => {
                &&& b.values@.len() == 2
                &&& b.values@[0].value@ == "false"@
                &&& b.values@[0].display_name is None
                &&& b.values@[0].increases_model_cost is None
                &&& b.values@[1].value@ == "true"@
                &&& opt_view(b.values@[1].display_name) == Some("Fast"@)
                &&& b.values@[1].increases_model_cost == Some(true)
            },
            None => false,
        },
        None => false,
    }
}

/// The enum values of (value, display name) pairs.
fn enum_parameter(pairs: &[(String, String)]) -> (r: EnumParameter)
    ensures
        enum_values(r.values@) == Some(pair_views(pairs@)),
{
    let mut values: Vec<EnumParameterValue> = Vec::new();
    let mut k: usize = 0;
    while k < pairs.len()
        invariant
            k <= pairs.len(),
            values@.len() == k,
            forall|i: int|
                0 <= i < k ==> (#[trigger] values@[i]).value@ == pairs@[i].0@ && opt_view(
                    values@[i].display_name,
                ) == Some(pairs@[i].1@),
        decreases pairs.len() - k,
    {
        values.push(
            EnumParameterValue {
                value: crate::text::copy(pairs[k].0.as_str()),
                display_name: Some(crate::text::copy(pairs[k].1.as_str())),
            },
        );
        k = k + 1;
    }
    assert(forall|i: int| 0 <= i < values@.len() ==> (#[trigger] values@[i]).display_name is Some);
    assert(values@.map_values(
        |v: EnumParameterValue| (v.value@, opt_view(v.display_name)->Some_0),
    ) == pair_views(pairs@));
    EnumParameter { values }
}

/// The parameters of a model: Context with its options; Effort with its options, only when
/// there are any; and Fast.
pub open spec fn parameters_for(
    defs: Seq<ModelParameterDefinition>,
    contexts: Seq<(Seq<char>, Seq<char>)>,
    efforts: Seq<(Seq<char>, Seq<char>)>,
) -> bool {
    &&& defs.len() == (if efforts.len() == 0 {
        2int
    } else {
        3int
    })
    &&& is_enum_definition(
        defs[0],
        "context"@,
        "Context"@,
        "Context size used to trigger conversation compaction."@,
        contexts,
        false,
    )
    &&& efforts.len() > 0 ==> is_enum_definition(
        defs[1],
        "reasoning"@,
        "Effort"@,
        "Effort the model uses to generate its response."@,
        efforts,
        true,
    )
    &&& is_fast_definition(defs[defs.len() - 1])
}

/// The parameter definitions of a model (see [`parameters_for`]).
pub fn model_parameters(contexts: &[(String, String)], efforts: &[(String, String)]) -> (r: Vec<
    ModelParameterDefinition,
>)
    ensures
        parameters_for(r@, pair_views(contexts@), pair_views(efforts@)),
{
    let mut parameters: Vec<ModelParameterDefinition> = Vec::new();
    parameters.push(
        ModelParameterDefinition {
            id: crate::text::copy("context"),
            name: crate::text::copy("Context"),
            markdown_tooltip: Some(
                crate::text::copy("Context size used to trigger conversation compaction."),
            ),
            parameter_type: Some(
                ModelParameterType {
                    boolean_parameter: None,
                    enum_parameter: Some(enum_parameter(contexts)),
                },
            ),
            is_cycleable_by_hotkey: Some(false),
        },
    );
    if efforts.len() > 0 {
        parameters.push(
            ModelParameterDefinition {
                id: crate::text::copy("reasoning"),
                name: crate::text::copy("Effort"),
                markdown_tooltip: Some(
                    crate::text::copy("Effort the model uses to generate its response."),
                ),
                parameter_type: Some(
                    ModelParameterType {
                        boolean_parameter: None,
                        enum_parameter: Some(enum_parameter(efforts)),
                    },
                ),
                is_cycleable_by_hotkey: Some(true),
            },
        );
    }
    let mut values: Vec<BooleanParameterValue> = Vec::new();
    values.push(
        BooleanParameterValue {
            value: crate::text::copy("false"),
            display_name: None,
            increases_model_cost: None,
        },
    );
    values.push(
        BooleanParameterValue {
            value: crate::text::copy("true"),
            display_name: Some(crate::text::copy("Fast")),
            increases_model_cost: Some(true),
        },
    );
    parameters.push(
        ModelParameterDefinition {
            id: crate::text::copy("fast"),
            name: crate::text::copy("Fast"),
            markdown_tooltip: Some(
                crate::text::copy("Significantly faster but consumes more usage"),
            ),
            parameter_type: Some(
                ModelParameterType {
                    boolean_parameter: Some(BooleanParameter { values }),
                    enum_parameter: None,
                },
            ),
            is_cycleable_by_hotkey: Some(false),
        },
    );
    parameters
}

/// The tooltip of a model or variant.
pub struct TooltipData {
    pub markdown_content: Option<String>,
}

/// One parameter setting of a variant.
pub struct ModelParameterValue {
    pub id: String,
    pub value: String,
}

/// One entry of a model's variant grid.
pub struct ModelVariant {
    pub parameter_values: Vec<ModelParameterValue>,
    pub display_name: String,
    pub is_max_mode: bool,
    pub is_default_max_config: Option<bool>,
    pub is_default_non_max_config: Option<bool>,
    pub tooltip_data: Option<TooltipData>,
    pub display_name_outside_picker: Option<String>,
    pub variant_string_representation: Option<String>,
    pub legacy_slug: Option<String>,
}

/// The text view of a variant.
pub struct VariantView {
    pub parameter_values: Seq<(Seq<char>, Seq<char>)>,
    pub display_name: Seq<char>,
    pub is_max_mode: bool,
    pub is_default_max_config: Option<bool>,
    pub is_default_non_max_config: Option<bool>,
    pub tooltip: Option<Option<Seq<char>>>,
    pub display_name_outside_picker: Option<Seq<char>>,
    pub variant_string_representation: Option<Seq<char>>,
    pub legacy_slug: Option<Seq<char>>,
}

impl View for ModelVariant {
    type V = VariantView;

    open spec fn view(&self) -> VariantView {
        VariantView {
            parameter_values: self.parameter_values@.map_values(
                |p: ModelParameterValue| (p.id@, p.value@),
            ),
            display_name: self.display_name@,
            is_max_mode: self.is_max_mode,
            is_default_max_config: self.is_default_max_config,
            is_default_non_max_config: self.is_default_non_max_config,
            tooltip: match self.tooltip_data {
                Some(t) => Some(opt_view(t.markdown_content)),
                None => None,
            },
            display_name_outside_picker: opt_view(self.display_name_outside_picker),
            variant_string_representation: opt_view(self.variant_string_representation),
            legacy_slug: opt_view(self.legacy_slug),
        }
    }
}

/// `true` or `false` as text.
pub open spec fn bool_text(b: bool) -> Seq<char> {
    if b {
        "true"@
    } else {
        "false"@
    }
}

/// The picker name of a variant: the model's name followed, in a tertiary span, by the
/// context name (unless it is the default context), the effort name and `Fast`.
pub open spec fn variant_display_name(
    display_name: Seq<char>,
    context: (Seq<char>, Seq<char>),
    effort: Option<(Seq<char>, Seq<char>)>,
    fast: bool,
    default_context: Option<Seq<char>>,
) -> Seq<char> {
    let segments = (if Some(context.0) != default_context {
        seq![context.1]
    } else {
        Seq::empty()
    }) + (match effort {
        Some(e) => seq![e.1],
        None => Seq::empty(),
    }) + (if fast {
        seq!["Fast"@]
    } else {
        Seq::empty()
    });
    let suffix = join(segments, " "@);
    if suffix.len() == 0 {
        display_name
    } else {
        display_name + " <span style=\"color: var(--cursor-text-tertiary);\">"@ + suffix
            + "</span>"@
    }
}

/// The variant of model `name` for one context, effort (or none without an effort axis) and
/// fast setting; it is the default when its context and effort are the defaults and it is
/// not fast.
pub open spec fn variant_of(
    name: Seq<char>,
    display_name: Seq<char>,
    tooltip: Option<Seq<char>>,
    context: (Seq<char>, Seq<char>),
    effort: Option<(Seq<char>, Seq<char>)>,
    fast: bool,
    default_context: Option<Seq<char>>,
    default_effort: Option<Seq<char>>,
) -> VariantView {
    let shown = variant_display_name(display_name, context, effort, fast, default_context);
    let is_default = Some(context.0) == default_context && !fast && match effort {
        Some(e) => Some(e.0) == default_effort,
        None => default_effort is None,
    };
    VariantView {
        parameter_values: seq![("context"@, context.0)] + (match effort {
            Some(e) => seq![("reasoning"@, e.0)],
            None => Seq::empty(),
        }) + seq![("fast"@, bool_text(fast))],
        display_name: shown,
        is_max_mode: false,
        is_default_max_config: if is_default {
            Some(true)
        } else {
            None
        },
        is_default_non_max_config: if is_default {
            Some(true)
        } else {
            None
        },
        tooltip: Some(tooltip),
        display_name_outside_picker: Some(shown),
        variant_string_representation: Some(
            match effort {
                Some(e) => name + "[context="@ + context.0 + ",reasoning="@ + e.0 + ",fast="@
                    + bool_text(fast) + "]"@,
                None => name + "[context="@ + context.0 + ",fast="@ + bool_text(fast) + "]"@,
            },
        ),
        legacy_slug: Some(
            name + "-"@ + context.0 + (match effort {
                Some(e) => "-"@ + e.0,
                None => Seq::empty(),
            }) + (if fast {
                "-fast"@
            } else {
                Seq::empty()
            }),
        ),
    }
}

/// The legacy slug of a fast variant is the slug of the same variant without fast followed
/// by `-fast`, so the fast and the plain variant of a context and effort never share a slug.
pub proof fn lemma_fast_variant_slug(
    name: Seq<char>,
    display_name: Seq<char>,
    tooltip: Option<Seq<char>>,
    context: (Seq<char>, Seq<char>),
    effort: Option<(Seq<char>, Seq<char>)>,
    default_context: Option<Seq<char>>,
    default_effort: Option<Seq<char>>,
)
    ensures
        ({
            let fast = variant_of(name, display_name, tooltip, context, effort, true, default_context, default_effort);
            let plain = variant_of(name, display_name, tooltip, context, effort, false, default_context, default_effort);
            &&& plain.legacy_slug is Some
            &&& fast.legacy_slug == Some(plain.legacy_slug->Some_0 + "-fast"@)
            &&& fast.legacy_slug != plain.legacy_slug
        }),
{
    reveal_strlit("-fast");
    let plain = variant_of(name, display_name, tooltip, context, effort, false, default_context, default_effort);
    let fast = variant_of(name, display_name, tooltip, context, effort, true, default_context, default_effort);
    assert(plain.legacy_slug->Some_0 + Seq::<char>::empty() =~= plain.legacy_slug->Some_0);
    assert(fast.legacy_slug->Some_0.len() == plain.legacy_slug->Some_0.len() + 5);
}

/// The view of an optional borrowed text.
pub open spec fn str_view(o: Option<&str>) -> Option<Seq<char>> {
    match o {
        Some(s) => Some(s@),
        None => None,
    }
}

/// The view of an optional borrowed pair.
pub open spec fn pair_view(o: Option<&(String, String)>) -> Option<(Seq<char>, Seq<char>)> {
    match o {
        Some(p) => Some((p.0@, p.1@)),
        None => None,
    }
}

/// Whether an optional text equals `value`.
fn is_some_text(o: Option<&str>, value: &str) -> (r: bool)
    ensures
        r == (Some(value@) == str_view(o)),
{
    match o {
        Some(s) => crate::text::str_eq(s, value),
        None => false,
    }
}

/// A copy of a tooltip.
pub fn copy_tooltip(t: &TooltipData) -> (r: TooltipData)
    ensures
        opt_view(r.markdown_content) == opt_view(t.markdown_content),
{
    TooltipData { markdown_content: crate::model_config::copy_opt(&t.markdown_content) }
}

/// Builds one variant (see [`variant_of`]).
pub fn model_variant(
    name: &str,
    display_name: &str,
    tooltip: &TooltipData,
    context: &str,
    context_name: &str,
    effort: Option<&(String, String)>,
    fast: bool,
    default_context: Option<&str>,
    default_effort: Option<&str>,
) -> (r: ModelVariant)
    ensures
        r@ == variant_of(
            name@,
            display_name@,
            opt_view(tooltip.markdown_content),
            (context@, context_name@),
            pair_view(effort),
            fast,
            str_view(default_context),
            str_view(default_effort),
        ),
{
    let is_default_context = is_some_text(default_context, context);
    let mut segments: Vec<String> = Vec::new();
    if !is_default_context {
        segments.push(crate::text::copy(context_name));
    }
    match effort {
        Some(e) => segments.push(crate::text::copy(e.1.as_str())),
        None => {},
    }
    if fast {
        segments.push(crate::text::copy("Fast"));
    }
    let ghost expected = (if Some(context@) != str_view(default_context) {
        seq![context_name@]
    } else {
        Seq::<Seq<char>>::empty()
    }) + (match pair_view(effort) {
        Some(e) => seq![e.1],
        None => Seq::<Seq<char>>::empty(),
    }) + (if fast {
        seq!["Fast"@]
    } else {
        Seq::<Seq<char>>::empty()
    });
    assert(views(segments@) == expected);
    let suffix = crate::text::join_strs(&segments, " ");
    let shown = if suffix.as_str().is_empty() {
        crate::text::copy(display_name)
    } else {
        let mut s = crate::text::copy(display_name);
        crate::text::push_str(&mut s, " <span style=\"color: var(--cursor-text-tertiary);\">");
        crate::text::push_str(&mut s, suffix.as_str());
        crate::text::push_str(&mut s, "</span>");
        s
    };
    let is_default = is_default_context && !fast && match effort {
        Some(e) => is_some_text(default_effort, e.0.as_str()),
        None => default_effort.is_none(),
    };
    let fast_text = if fast {
        "true"
    } else {
        "false"
    };
    let mut parameter_values: Vec<ModelParameterValue> = Vec::new();
    parameter_values.push(
        ModelParameterValue { id: crate::text::copy("context"), value: crate::text::copy(context) },
    );
    match effort {
        Some(e) => parameter_values.push(
            ModelParameterValue {
                id: crate::text::copy("reasoning"),
                value: crate::text::copy(e.0.as_str()),
            },
        ),
        None => {},
    }
    parameter_values.push(
        ModelParameterValue {
            id: crate::text::copy("fast"),
            value: crate::text::copy(fast_text),
        },
    );
    let mut repr = crate::text::copy(name);
    crate::text::push_str(&mut repr, "[context=");
    crate::text::push_str(&mut repr, context);
    match effort {
        Some(e) => {
            crate::text::push_str(&mut repr, ",reasoning=");
            crate::text::push_str(&mut repr, e.0.as_str());
        },
        None => {},
    }
    crate::text::push_str(&mut repr, ",fast=");
    crate::text::push_str(&mut repr, fast_text);
    crate::text::push_str(&mut repr, "]");
    let mut slug = crate::text::copy(name);
    crate::text::push_str(&mut slug, "-");
    crate::text::push_str(&mut slug, context);
    match effort {
        Some(e) => {
            crate::text::push_str(&mut slug, "-");
            crate::text::push_str(&mut slug, e.0.as_str());
        },
        None => {},
    }
    if fast {
        crate::text::push_str(&mut slug, "-fast");
    }
    let r = ModelVariant {
        parameter_values,
        display_name: crate::text::copy(shown.as_str()),
        is_max_mode: false,
        is_default_max_config: if is_default {
            Some(true)
        } else {
            None
        },
        is_default_non_max_config: if is_default {
            Some(true)
        } else {
            None
        },
        tooltip_data: Some(copy_tooltip(tooltip)),
        display_name_outside_picker: Some(shown),
        variant_string_representation: Some(repr),
        legacy_slug: Some(slug),
    };
    let ghost v = variant_of(
        name@,
        display_name@,
        opt_view(tooltip.markdown_content),
        (context@, context_name@),
        pair_view(effort),
        fast,
        str_view(default_context),
        str_view(default_effort),
    );
    assert(r@.display_name == v.display_name);
    assert(r@.is_default_max_config == v.is_default_max_config);
    assert(r@.tooltip == v.tooltip);
    assert(r@.variant_string_representation == v.variant_string_representation);
    assert(r@.legacy_slug == v.legacy_slug);
    assert(r@.parameter_values == variant_of(
        name@,
        display_name@,
        opt_view(tooltip.markdown_content),
        (context@, context_name@),
        pair_view(effort),
        fast,
        str_view(default_context),
        str_view(default_effort),
    ).parameter_values);
    r
}

/// The effort axis of the variant grid: each effort, or a single "no effort" without an
/// effort axis.
pub open spec fn effort_axis(efforts: Seq<(Seq<char>, Seq<char>)>) -> Seq<
    Option<(Seq<char>, Seq<char>)>,
> {
    if efforts.len() == 0 {
        seq![None]
    } else {
        efforts.map_values(|e: (Seq<char>, Seq<char>)| Some(e))
    }
}

/// The value of the preferred option (see [`preferred_index`]).
pub open spec fn preferred_value(list: Seq<(Seq<char>, Seq<char>)>, key: Seq<char>) -> Option<
    Seq<char>,
> {
    match preferred_index(list, key) {
        Some(i) => Some(list[i].0),
        None => None,
    }
}

/// The variant grid of a model: for each context in order, for each effort of the effort
/// axis in order, the variant without and then with Fast. The default context prefers
/// `200k` and the default effort `high`, each falling back to the first option.
pub open spec fn variant_grid(
    name: Seq<char>,
    display_name: Seq<char>,
    tooltip: Option<Seq<char>>,
    contexts: Seq<(Seq<char>, Seq<char>)>,
    efforts: Seq<(Seq<char>, Seq<char>)>,
) -> Seq<VariantView> {
    let axis = effort_axis(efforts);
    let per: int = (axis.len() * 2) as int;
    Seq::new(
        (contexts.len() * per) as nat,
        |k: int|
            variant_of(
                name,
                display_name,
                tooltip,
                contexts[k / per],
                axis[(k % per) / 2],
                k % 2 == 1,
                preferred_value(contexts, "200k"@),
                preferred_value(efforts, "high"@),
            ),
    )
}

/// Position `ci * 2a + 2ei + f` of the grid decomposes into context `ci`, effort `ei` and
/// fast `f`.
proof fn lemma_grid_index(ci: int, ei: int, f: int, a: int)
    requires
        0 <= ci,
        0 <= ei < a,
        0 <= f < 2,
    ensures
        (ci * (a * 2) + ei * 2 + f) / (a * 2) == ci,
        ((ci * (a * 2) + ei * 2 + f) % (a * 2)) / 2 == ei,
        (ci * (a * 2) + ei * 2 + f) % 2 == f,
{
    let p = a * 2;
    let k = ci * p + ei * 2 + f;
    vstd::arithmetic::div_mod::lemma_fundamental_div_mod_converse(k, p, ci, ei * 2 + f);
    vstd::arithmetic::div_mod::lemma_fundamental_div_mod_converse(ei * 2 + f, 2, ei, f);
    assert(ci * (a * 2) == (ci * a) * 2) by (nonlinear_arith);
    vstd::arithmetic::div_mod::lemma_fundamental_div_mod_converse(k, 2, ci * a + ei, f);
}

/// The views of a list of variants.
pub open spec fn variant_views(list: Seq<ModelVariant>) -> Seq<VariantView> {
    list.map_values(|v: ModelVariant| v@)
}

/// The variant grid of a model (see [`variant_grid`]).
pub fn model_variants(
    name: &str,
    display_name: &str,
    tooltip: &TooltipData,
    contexts: &[(String, String)],
    efforts: &[(String, String)],
) -> (r: Vec<ModelVariant>)
    ensures
        variant_views(r@) == variant_grid(
            name@,
            display_name@,
            opt_view(tooltip.markdown_content),
            pair_views(contexts@),
            pair_views(efforts@),
        ),
{
    let default_context = match default_context_option(contexts) {
        Some(p) => Some(p.0.as_str()),
        None => None,
    };
    let default_effort = match preferred_option(efforts, "high") {
        Some(p) => Some(p.0.as_str()),
        None => None,
    };
    let ghost cs = pair_views(contexts@);
    let ghost es = pair_views(efforts@);
    let ghost grid = variant_grid(name@, display_name@, opt_view(tooltip.markdown_content), cs, es);
    proof {
        lemma_preferred_index(cs, "200k"@);
        lemma_preferred_index(es, "high"@);
    }
    assert(str_view(default_context) == preferred_value(cs, "200k"@));
    assert(str_view(default_effort) == preferred_value(es, "high"@));
    let a: usize = if efforts.len() == 0 {
        1
    } else {
        efforts.len()
    };
    assert(effort_axis(es).len() == a);
    let mut variants: Vec<ModelVariant> = Vec::new();
    let mut ci: usize = 0;
    while ci < contexts.len()
        invariant
            ci <= contexts.len(),
            a == effort_axis(es).len(),
            cs == pair_views(contexts@),
            es == pair_views(efforts@),
            a >= 1,
            grid == variant_grid(name@, display_name@, opt_view(tooltip.markdown_content), cs, es),
            str_view(default_context) == preferred_value(cs, "200k"@),
            str_view(default_effort) == preferred_value(es, "high"@),
            variants@.len() == ci * (a * 2),
            forall|k: int| 0 <= k < variants@.len() ==> (#[trigger] variants@[k])@ == grid[k],
        decreases contexts.len() - ci,
    {
        let mut ei: usize = 0;
        while ei < a
            invariant
                ci < contexts.len(),
                ei <= a,
                a == effort_axis(es).len(),
                cs == pair_views(contexts@),
                es == pair_views(efforts@),
                a >= 1,
                grid == variant_grid(
                    name@,
                    display_name@,
                    opt_view(tooltip.markdown_content),
                    cs,
                    es,
                ),
                str_view(default_context) == preferred_value(cs, "200k"@),
                str_view(default_effort) == preferred_value(es, "high"@),
                variants@.len() == ci * (a * 2) + ei * 2,
                forall|k: int| 0 <= k < variants@.len() ==> (#[trigger] variants@[k])@ == grid[k],
            decreases a - ei,
        {
            let effort = if efforts.len() == 0 {
                None
            } else {
                Some(&efforts[ei])
            };
            assert(pair_view(effort) == effort_axis(es)[ei as int]);
            assert((ci + 1) * (a * 2) == ci * (a * 2) + a * 2) by (nonlinear_arith);
            assert(grid.len() == cs.len() * (a * 2));
            assert(ci * (a * 2) + ei * 2 + 2 <= cs.len() * (a * 2)) by (nonlinear_arith)
                requires
                    ci < cs.len(),
                    ei < a,
            ;
            let context = &contexts[ci];
            let first = model_variant(
                name,
                display_name,
                tooltip,
                context.0.as_str(),
                context.1.as_str(),
                effort,
                false,
                default_context,
                default_effort,
            );
            proof {
                lemma_grid_index(ci as int, ei as int, 0, a as int);
            }
            variants.push(first);
            let second = model_variant(
                name,
                display_name,
                tooltip,
                context.0.as_str(),
                context.1.as_str(),
                effort,
                true,
                default_context,
                default_effort,
            );
            proof {
                lemma_grid_index(ci as int, ei as int, 1, a as int);
            }
            variants.push(second);
            ei = ei + 1;
        }
        assert((ci + 1) * (a * 2) == ci * (a * 2) + a * 2) by (nonlinear_arith);
        ci = ci + 1;
    }
    assert(variant_views(variants@) == grid);
    variants
}

/// A badge in Cursor's model picker.
pub struct ModelPickerBadge {
    pub label: String,
    pub variant: i32,
    pub dismiss_on_selection: bool,
}

/// The vendor a model is listed under.
pub struct AvailableModelVendor {
    pub id: i32,
    pub display_name: String,
}

/// A model entry of the catalog published to Cursor.
pub struct AvailableModel {
    pub name: String,
    pub default_on: bool,
    pub supports_agent: Option<bool>,
    pub degradation_status: Option<i32>,
    pub tooltip_data: Option<TooltipData>,
    pub supports_thinking: Option<bool>,
    pub supports_images: Option<bool>,
    pub supports_max_mode: Option<bool>,
    pub context_token_limit: Option<i32>,
    pub context_token_limit_for_max_mode: Option<i32>,
    pub client_display_name: Option<String>,
    pub server_model_name: Option<String>,
    pub supports_non_max_mode: Option<bool>,
    pub tooltip_data_for_max_mode: Option<TooltipData>,
    pub is_recommended_for_background_composer: Option<bool>,
    pub supports_plan_mode: Option<bool>,
    pub inputbox_short_model_name: Option<String>,
    pub supports_sandboxing: Option<bool>,
    pub supports_cmd_k: Option<bool>,
    pub parameter_definitions: Vec<ModelParameterDefinition>,
    pub variants: Vec<ModelVariant>,
    pub legacy_slugs: Vec<String>,
    pub named_model_section_index: Option<i32>,
    pub vendor_name: Option<String>,
    pub vendor: Option<AvailableModelVendor>,
    pub model_picker_badges: Vec<ModelPickerBadge>,
}

/// Whether a tooltip is present with the content given.
pub open spec fn tooltip_is(t: Option<TooltipData>, content: Option<Seq<char>>) -> bool {
    match t {
        Some(t) => opt_view(t.markdown_content) == content,
        None => false,
    }
}

/// The legacy slugs of a variant grid, in order.
pub open spec fn grid_slugs(grid: Seq<VariantView>) -> Seq<Seq<char>> {
    grid.map_values(|v: VariantView| v.legacy_slug->Some_0)
}

/// The legacy slugs of variants, in order.
fn legacy_slugs(variants: &Vec<ModelVariant>) -> (r: Vec<String>)
    requires
        forall|k: int|
            0 <= k < variant_views(variants@).len() ==> (#[trigger] variant_views(
                variants@,
            )[k]).legacy_slug is Some,
    ensures
        views(r@) == grid_slugs(variant_views(variants@)),
{
    let mut r: Vec<String> = Vec::new();
    let mut k: usize = 0;
    while k < variants.len()
        invariant
            k <= variants.len(),
            forall|j: int|
                0 <= j < variant_views(variants@).len() ==> (#[trigger] variant_views(
                    variants@,
                )[j]).legacy_slug is Some,
            views(r@) == grid_slugs(variant_views(variants@)).take(k as int),
        decreases variants.len() - k,
    {
        let ghost before = views(r@);
        assert(variant_views(variants@)[k as int] == variants@[k as int]@);
        assert(variants@[k as int]@.legacy_slug is Some);
        match &variants[k].legacy_slug {
            Some(slug) => {
                r.push(crate::text::copy(slug.as_str()));
                assert(views(r@) == before.push(slug@));
            },
            None => {},
        }
        assert(grid_slugs(variant_views(variants@)).take(k + 1) == grid_slugs(
            variant_views(variants@),
        ).take(k as int).push(variants@[k as int]@.legacy_slug->Some_0));
        k = k + 1;
    }
    assert(grid_slugs(variant_views(variants@)).take(variants.len() as int) == grid_slugs(
        variant_views(variants@),
    ));
    r
}

/// Every entry of a variant grid has a legacy slug.
proof fn lemma_grid_slugs(
    name: Seq<char>,
    display_name: Seq<char>,
    tooltip: Option<Seq<char>>,
    contexts: Seq<(Seq<char>, Seq<char>)>,
    efforts: Seq<(Seq<char>, Seq<char>)>,
)
    ensures
        forall|k: int|
            0 <= k < variant_grid(name, display_name, tooltip, contexts, efforts).len() ==> (
            #[trigger] variant_grid(name, display_name, tooltip, contexts, efforts)[k]).legacy_slug
                is Some,
{
}

/// A context window as the catalog's 32-bit limit, saturating.
pub open spec fn context_limit_of(window: Option<u64>) -> Option<i32> {
    match window {
        Some(t) => Some(
            if t > 2147483647 {
                2147483647i32
            } else {
                t as i32
            },
        ),
        None => None,
    }
}

/// A context window as the catalog's 32-bit limit, saturating.
fn context_limit(window: Option<u64>) -> (r: Option<i32>)
    ensures
        r == context_limit_of(window),
{
    match window {
        Some(t) => Some(
            if t > 2147483647 {
                2147483647i32
            } else {
                t as i32
            },
        ),
        None => None,
    }
}

/// The host of a base URL, lowercased, as a badge label; the trimmed URL itself when it has
/// no host.
pub open spec fn host_label(base_url: Seq<char>) -> Seq<char> {
    let t = crate::text::trim(base_url);
    match crate::request_url::url_parse(t) {
        Ok(f) => match f.host {
            Some(h) => crate::text::unicode_lower(h),
            None => t,
        },
        Err(_) => t,
    }
}

/// The host of a base URL as a badge label (see [`host_label`]).
pub fn provider_host(base_url: &str) -> (r: String)
    ensures
        r@ == host_label(base_url@),
{
    let t = crate::text::trim_str(base_url);
    match crate::request_url::parse_url(t.as_str()) {
        Ok(url) => match &url.host {
            Some(h) => crate::text::to_lowercase(h.as_str()),
            None => t,
        },
        Err(_) => t,
    }
}

/// The tooltip of a configured model: its default context name, then its tooltip text.
pub open spec fn model_tooltip_text(model: ModelConfig) -> Seq<char> {
    let contexts = catalog_contexts(views(model.context_options@), model.context_window_tokens);
    let default_name = match default_context_index(contexts) {
        Some(i) => contexts[i].1,
        None => "200K"@,
    };
    "**Default context:** "@ + default_name + "  \n"@ + model.tooltip_data@
}

/// The badge label of a configured model: its group name, otherwise its provider's host.
pub open spec fn badge_label(model: ModelConfig) -> Seq<char> {
    match opt_view(model.group_name) {
        Some(g) => g,
        None => host_label(model.base_url@),
    }
}

/// One badge with the label given.
pub open spec fn badge_is(badges: Seq<ModelPickerBadge>, label: Seq<char>) -> bool {
    badges.len() == 1 && badges[0].label@ == label && badges[0].variant == 1
        && !badges[0].dismiss_on_selection
}

/// The fields every catalog entry shares, whatever its source.
pub open spec fn common_entry(
    r: AvailableModel,
    name: Seq<char>,
    display_name: Seq<char>,
    tooltip: Option<Seq<char>>,
    contexts: Seq<(Seq<char>, Seq<char>)>,
    efforts: Seq<(Seq<char>, Seq<char>)>,
) -> bool {
    let grid = variant_grid(name, display_name, tooltip, contexts, efforts);
    &&& r.name@ == name
    &&& r.default_on
    &&& r.supports_agent == Some(true)
    &&& r.degradation_status == Some(0i32)
    &&& tooltip_is(r.tooltip_data, tooltip)
    &&& r.supports_thinking == Some(true)
    &&& opt_view(r.client_display_name) == Some(display_name)
    &&& opt_view(r.server_model_name) == Some(name)
    &&& r.supports_non_max_mode == Some(true)
    &&& tooltip_is(r.tooltip_data_for_max_mode, tooltip)
    &&& r.is_recommended_for_background_composer == Some(false)
    &&& r.supports_plan_mode == Some(true)
    &&& opt_view(r.inputbox_short_model_name) == Some(display_name)
    &&& r.supports_sandboxing == Some(true)
    &&& r.supports_cmd_k == Some(false)
    &&& parameters_for(r.parameter_definitions@, contexts, efforts)
    &&& variant_views(r.variants@) == grid
    &&& views(r.legacy_slugs@) == grid_slugs(grid)
    &&& r.named_model_section_index == Some(1i32)
}

/// The catalog entry of a configured model: images, max mode and its context window; listed
/// under the Cursor vendor with its group (or provider host) as badge.
pub open spec fn configured_entry(r: AvailableModel, model: ModelConfig) -> bool {
    &&& common_entry(
            r,
            model.model_hash@,
            model.display_name@,
            Some(model_tooltip_text(model)),
            catalog_contexts(views(model.context_options@), model.context_window_tokens),
            named_efforts(views(model.effort_options@)),
        )
    &&& r.supports_images == Some(true)
    &&& r.supports_max_mode == Some(true)
    &&& r.context_token_limit == context_limit_of(model.context_window_tokens)
    &&& r.context_token_limit_for_max_mode == context_limit_of(model.context_window_tokens)
    &&& opt_view(r.vendor_name) == Some("cursor"@)
    &&& match r.vendor {
            Some(v) => v.id == 6 && v.display_name@ == "Cursor"@,
            None => false,
        }
    &&& badge_is(r.model_picker_badges@, badge_label(model))
}

/// The catalog entry of a plugin model: its description as tooltip and the host's tiers; listed
/// under its provider with the plugin's name as badge.
pub open spec fn plugin_entry(r: AvailableModel, model: PluginModelDescriptor) -> bool {
    &&& common_entry(
            r,
            model.id@,
            model.display_name@,
            opt_view(model.description),
            plugin_contexts(None),
            plugin_efforts(),
        )
    &&& r.supports_images == Some(model.images)
    &&& r.supports_max_mode == Some(false)
    &&& r.context_token_limit is None
    &&& r.context_token_limit_for_max_mode is None
    &&& opt_view(r.vendor_name) == Some(model.provider_type@)
    &&& match r.vendor {
            Some(v) => v.id == 6 && v.display_name@ == model.provider_type@,
            None => false,
        }
    &&& badge_is(r.model_picker_badges@, model.plugin_name@)
}

/// The catalog entry of a configured model: images, max mode and its context window; listed
/// under the Cursor vendor with its group (or provider host) as badge.
pub fn available_model(model: &ModelConfig) -> (r: AvailableModel)
    ensures
        configured_entry(r, *model),
{
    let contexts = context_options(model);
    let efforts = effort_options(model);
    let limit = context_limit(model.context_window_tokens);
    let default_name = match default_context_option(contexts.as_slice()) {
        Some(p) => crate::text::copy(p.1.as_str()),
        None => crate::text::copy("200K"),
    };
    proof {
        lemma_preferred_index(pair_views(contexts@), "200k"@);
    }
    let mut text = crate::text::copy("**Default context:** ");
    crate::text::push_str(&mut text, default_name.as_str());
    crate::text::push_str(&mut text, "  \n");
    crate::text::push_str(&mut text, model.tooltip_data.as_str());
    let tooltip = TooltipData { markdown_content: Some(text) };
    let variants = model_variants(
        model.model_hash.as_str(),
        model.display_name.as_str(),
        &tooltip,
        contexts.as_slice(),
        efforts.as_slice(),
    );
    proof {
        lemma_grid_slugs(
            model.model_hash@,
            model.display_name@,
            opt_view(tooltip.markdown_content),
            pair_views(contexts@),
            pair_views(efforts@),
        );
    }
    let slugs = legacy_slugs(&variants);
    let label = match &model.group_name {
        Some(g) => crate::text::copy(g.as_str()),
        None => provider_host(model.base_url.as_str()),
    };
    let mut badges: Vec<ModelPickerBadge> = Vec::new();
    badges.push(ModelPickerBadge { label, variant: 1, dismiss_on_selection: false });
    AvailableModel {
        name: crate::text::copy(model.model_hash.as_str()),
        default_on: true,
        supports_agent: Some(true),
        degradation_status: Some(0),
        tooltip_data: Some(copy_tooltip(&tooltip)),
        supports_thinking: Some(true),
        supports_images: Some(true),
        supports_max_mode: Some(true),
        context_token_limit: limit,
        context_token_limit_for_max_mode: limit,
        client_display_name: Some(crate::text::copy(model.display_name.as_str())),
        server_model_name: Some(crate::text::copy(model.model_hash.as_str())),
        supports_non_max_mode: Some(true),
        tooltip_data_for_max_mode: Some(tooltip),
        is_recommended_for_background_composer: Some(false),
        supports_plan_mode: Some(true),
        inputbox_short_model_name: Some(crate::text::copy(model.display_name.as_str())),
        supports_sandboxing: Some(true),
        supports_cmd_k: Some(false),
        parameter_definitions: model_parameters(contexts.as_slice(), efforts.as_slice()),
        variants,
        legacy_slugs: slugs,
        named_model_section_index: Some(1),
        vendor_name: Some(crate::text::copy("cursor")),
        vendor: Some(AvailableModelVendor { id: 6, display_name: crate::text::copy("Cursor") }),
        model_picker_badges: badges,
    }
}

/// The catalog entry of a plugin model: the fixed plugin context and effort axes, its
/// description as tooltip, no max mode and no context limit; listed under its provider type
/// with its plugin's name as badge.
pub fn available_plugin_model(model: &PluginModelDescriptor) -> (r: AvailableModel)
    ensures
        plugin_entry(r, *model),
{
    let tooltip = TooltipData {
        markdown_content: crate::model_config::copy_opt(&model.description),
    };
    let contexts = plugin_context_options(None);
    let efforts = plugin_effort_options();
    let variants = model_variants(
        model.id.as_str(),
        model.display_name.as_str(),
        &tooltip,
        contexts.as_slice(),
        efforts.as_slice(),
    );
    proof {
        lemma_grid_slugs(
            model.id@,
            model.display_name@,
            opt_view(tooltip.markdown_content),
            pair_views(contexts@),
            pair_views(efforts@),
        );
    }
    let slugs = legacy_slugs(&variants);
    let mut badges: Vec<ModelPickerBadge> = Vec::new();
    badges.push(
        ModelPickerBadge {
            label: crate::text::copy(model.plugin_name.as_str()),
            variant: 1,
            dismiss_on_selection: false,
        },
    );
    AvailableModel {
        name: crate::text::copy(model.id.as_str()),
        default_on: true,
        supports_agent: Some(true),
        degradation_status: Some(0),
        tooltip_data: Some(copy_tooltip(&tooltip)),
        supports_thinking: Some(true),
        supports_images: Some(model.images),
        supports_max_mode: Some(false),
        context_token_limit: None,
        context_token_limit_for_max_mode: None,
        client_display_name: Some(crate::text::copy(model.display_name.as_str())),
        server_model_name: Some(crate::text::copy(model.id.as_str())),
        supports_non_max_mode: Some(true),
        tooltip_data_for_max_mode: Some(copy_tooltip(&tooltip)),
        is_recommended_for_background_composer: Some(false),
        supports_plan_mode: Some(true),
        inputbox_short_model_name: Some(crate::text::copy(model.display_name.as_str())),
        supports_sandboxing: Some(true),
        supports_cmd_k: Some(false),
        parameter_definitions: model_parameters(contexts.as_slice(), efforts.as_slice()),
        variants,
        legacy_slugs: slugs,
        named_model_section_index: Some(1),
        vendor_name: Some(crate::text::copy(model.provider_type.as_str())),
        vendor: Some(
            AvailableModelVendor {
                id: 6,
                display_name: crate::text::copy(model.provider_type.as_str()),
            },
        ),
        model_picker_badges: badges,
    }
}

/// API key credentials of a model the CLI can use.
pub struct ApiKeyCredentials {
    pub api_key: String,
    pub base_url: Option<String>,
}

/// The credentials of a model the CLI can use.
pub enum Credentials {
    ApiKeyCredentials(ApiKeyCredentials),
}

/// Thinking settings of a model the CLI can use (none are set).
pub struct ThinkingDetails {}

/// A model the CLI can use.
pub struct ModelDetails {
    pub model_id: String,
    pub display_model_id: String,
    pub display_name: String,
    pub display_name_short: String,
    pub thinking_details: Option<ThinkingDetails>,
    pub credentials: Option<Credentials>,
}

/// The CLI reaches local models with the local routing key and no base URL.
pub open spec fn local_credentials(c: Option<Credentials>) -> bool {
    match c {
        Some(Credentials::ApiKeyCredentials(k)) => k.api_key@ == "cursor-byok-local"@
            && k.base_url is None,
        None => false,
    }
}

/// The credentials the CLI uses for every local model: the local routing key, never the
/// provider's key.
pub fn cli_local_model_credentials() -> (r: Credentials)
    ensures
        local_credentials(Some(r)),
{
    Credentials::ApiKeyCredentials(
        ApiKeyCredentials { api_key: crate::text::copy(CLI_LOCAL_MODEL_API_KEY), base_url: None },
    )
}

/// `d` lists the model `id` named `name`, with default thinking details and the local
/// credentials.
pub open spec fn details_are(d: ModelDetails, id: Seq<char>, name: Seq<char>) -> bool {
    &&& d.model_id@ == id
    &&& d.display_model_id@ == id
    &&& d.display_name@ == name
    &&& d.display_name_short@ == name
    &&& d.thinking_details is Some
    &&& local_credentials(d.credentials)
}

/// Model details of `id` named `name`.
fn details(id: &str, name: &str) -> (r: ModelDetails)
    ensures
        details_are(r, id@, name@),
{
    ModelDetails {
        model_id: crate::text::copy(id),
        display_model_id: crate::text::copy(id),
        display_name: crate::text::copy(name),
        display_name_short: crate::text::copy(name),
        thinking_details: Some(ThinkingDetails {  }),
        credentials: Some(cli_local_model_credentials()),
    }
}

/// The CLI's details of a plugin model.
pub fn usable_plugin_model(model: &PluginModelDescriptor) -> (r: ModelDetails)
    ensures
        details_are(r, model.id@, model.display_name@),
{
    details(model.id.as_str(), model.display_name.as_str())
}

/// The CLI's details of a configured model, listed by its hash.
pub fn usable_model(model: &ModelConfig) -> (r: ModelDetails)
    ensures
        details_are(r, model.model_hash@, model.display_name@),
{
    details(model.model_hash.as_str(), model.display_name.as_str())
}

/// What the catalog adds to Cursor's available models: the names (configured models by hash,
/// then plugin models by id) and the entries, in the same order.
pub struct AvailableModelsAddition {
    pub model_names: Vec<String>,
    pub models: Vec<AvailableModel>,
}

/// The published models and the plugin models as an addition to Cursor's available models.
pub fn available_models_addition(models: &Vec<ModelConfig>, plugin_models: &Vec<PluginModelDescriptor>) -> (r:
    AvailableModelsAddition)
    ensures
        r.model_names@.len() == models@.len() + plugin_models@.len(),
        r.models@.len() == models@.len() + plugin_models@.len(),
        forall|i: int|
            0 <= i < models@.len() ==> #[trigger] r.model_names@[i]@ == models@[i].model_hash@
                && configured_entry(r.models@[i], models@[i]),
        forall|j: int|
            0 <= j < plugin_models@.len() ==> #[trigger] r.model_names@[models@.len() + j]@
                == plugin_models@[j].id@ && plugin_entry(r.models@[models@.len() + j], plugin_models@[j]),
{
    let mut model_names: Vec<String> = Vec::new();
    let mut entries: Vec<AvailableModel> = Vec::new();
    let mut i: usize = 0;
    while i < models.len()
        invariant
            i <= models@.len(),
            model_names@.len() == i,
            entries@.len() == i,
            forall|a: int|
                0 <= a < i ==> #[trigger] model_names@[a]@ == models@[a].model_hash@ && configured_entry(
                    entries@[a],
                    models@[a],
                ),
        decreases models@.len() - i,
    {
        model_names.push(crate::text::copy(models[i].model_hash.as_str()));
        entries.push(available_model(&models[i]));
        i = i + 1;
    }
    let n = models.len();
    let mut j: usize = 0;
    while j < plugin_models.len()
        invariant
            j <= plugin_models@.len(),
            n == models@.len(),
            model_names@.len() == n + j,
            entries@.len() == n + j,
            forall|a: int|
                0 <= a < n ==> #[trigger] model_names@[a]@ == models@[a].model_hash@ && configured_entry(
                    entries@[a],
                    models@[a],
                ),
            forall|b: int|
                0 <= b < j ==> #[trigger] model_names@[n + b]@ == plugin_models@[b].id@ && plugin_entry(
                    entries@[n + b],
                    plugin_models@[b],
                ),
        decreases plugin_models@.len() - j,
    {
        model_names.push(crate::text::copy(plugin_models[j].id.as_str()));
        entries.push(available_plugin_model(&plugin_models[j]));
        j = j + 1;
    }
    AvailableModelsAddition { model_names, models: entries }
}

/// The published models and the plugin models as an addition to the CLI's usable models: the
/// details of each configured model, then of each plugin model.
pub fn usable_models_addition(models: &Vec<ModelConfig>, plugin_models: &Vec<PluginModelDescriptor>) -> (r:
    Vec<ModelDetails>)
    ensures
        r@.len() == models@.len() + plugin_models@.len(),
        forall|i: int|
            0 <= i < models@.len() ==> details_are(#[trigger] r@[i], models@[i].model_hash@, models@[i].display_name@),
        forall|j: int|
            0 <= j < plugin_models@.len() ==> details_are(
                #[trigger] r@[models@.len() + j],
                plugin_models@[j].id@,
                plugin_models@[j].display_name@,
            ),
{
    let mut out: Vec<ModelDetails> = Vec::new();
    let mut i: usize = 0;
    while i < models.len()
        invariant
            i <= models@.len(),
            out@.len() == i,
            forall|a: int| 0 <= a < i ==> details_are(#[trigger] out@[a], models@[a].model_hash@, models@[a].display_name@),
        decreases models@.len() - i,
    {
        out.push(usable_model(&models[i]));
        i = i + 1;
    }
    let n = models.len();
    let mut j: usize = 0;
    while j < plugin_models.len()
        invariant
            j <= plugin_models@.len(),
            n == models@.len(),
            out@.len() == n + j,
            forall|a: int| 0 <= a < n ==> details_are(#[trigger] out@[a], models@[a].model_hash@, models@[a].display_name@),
            forall|b: int|
                0 <= b < j ==> details_are(
                    #[trigger] out@[n + b],
                    plugin_models@[b].id@,
                    plugin_models@[b].display_name@,
                ),
        decreases plugin_models@.len() - j,
    {
        out.push(usable_plugin_model(&plugin_models[j]));
        j = j + 1;
    }
    out
}

/// The configured models whose group is enabled, in order.
pub open spec fn enabled_models(list: Seq<ModelConfig>) -> Seq<ModelConfig>
    decreases list.len(),
{
    if list.len() == 0 {
        list
    } else if list.last().enabled {
        enabled_models(list.drop_last()).push(list.last())
    } else {
        enabled_models(list.drop_last())
    }
}

/// The configured models published to Cursor: the enabled ones, in order. A disabled group
/// disappears from the picker here.
pub fn published_models(models: Vec<ModelConfig>) -> (r: Vec<ModelConfig>)
    ensures
        r@ == enabled_models(models@),
{
    let ghost given = models@;
    let mut models = models;
    assert(given.len() == models.len());
    let mut r: Vec<ModelConfig> = Vec::new();
    let mut k: usize = 0;
    while models.len() > 0
        invariant
            k + models@.len() == given.len(),
            given.len() <= usize::MAX,
            models@ == given.skip(k as int),
            r@ == enabled_models(given.take(k as int)),
        decreases models@.len(),
    {
        let model = models.remove(0);
        assert(given.take(k + 1).drop_last() == given.take(k as int));
        assert(given.take(k + 1).last() == model);
        assert(models@ == given.skip(k + 1));
        if model.enabled {
            r.push(model);
        }
        k = k + 1;
    }
    assert(given.take(k as int) == given);
    r
}

/// The CLI's default model: the first configured model, otherwise the first plugin model.
pub fn default_model_details(models: &[ModelConfig], plugin_models: &[PluginModelDescriptor]) -> (r:
    Option<ModelDetails>)
    ensures
        match r {
            Some(d) => if models@.len() > 0 {
                details_are(d, models@[0].model_hash@, models@[0].display_name@)
            } else {
                plugin_models@.len() > 0 && details_are(
                    d,
                    plugin_models@[0].id@,
                    plugin_models@[0].display_name@,
                )
            },
            None => models@.len() == 0 && plugin_models@.len() == 0,
        },
{
    if models.len() > 0 {
        Some(usable_model(&models[0]))
    } else if plugin_models.len() > 0 {
        Some(usable_plugin_model(&plugin_models[0]))
    } else {
        None
    }
}

/// The id of the default model: the first configured model's hash, otherwise the first
/// plugin model's id, otherwise empty.
pub open spec fn default_id(models: Seq<ModelConfig>, plugin_models: Seq<PluginModelDescriptor>) -> Seq<
    char,
> {
    if models.len() > 0 {
        models[0].model_hash@
    } else if plugin_models.len() > 0 {
        plugin_models[0].id@
    } else {
        Seq::empty()
    }
}

/// The id of the default model (see [`default_id`]).
pub fn default_model_id<'a>(models: &'a [ModelConfig], plugin_models: &'a [PluginModelDescriptor]) -> (r:
    &'a str)
    ensures
        r@ == default_id(models@, plugin_models@),
{
    if models.len() > 0 {
        models[0].model_hash.as_str()
    } else if plugin_models.len() > 0 {
        plugin_models[0].id.as_str()
    } else {
        proof {
            reveal_strlit("");
        }
        ""
    }
}

/// The default-model reply to the CLI.
pub struct DefaultModelResponse {
    pub model: String,
    pub thinking_model: String,
    pub max_mode: bool,
    pub next_default_set_date: String,
}

/// The default-model nudge reply to the CLI.
pub struct DefaultModelNudgeDataResponse {
    pub nudge_date: String,
    pub should_default_switch_on_new_chat: bool,
    pub models_with_no_default_switch: Vec<String>,
    pub conversion_model_override: String,
}

/// The default model is the default id for both thinking and non-thinking use, without max
/// mode and without a next default date.
pub fn default_model_response(models: &[ModelConfig], plugin_models: &[PluginModelDescriptor]) -> (r:
    DefaultModelResponse)
    ensures
        r.model@ == default_id(models@, plugin_models@),
        r.thinking_model@ == default_id(models@, plugin_models@),
        !r.max_mode,
        r.next_default_set_date@.len() == 0,
{
    let model = default_model_id(models, plugin_models);
    DefaultModelResponse {
        thinking_model: crate::text::copy(model),
        model: crate::text::copy(model),
        max_mode: false,
        next_default_set_date: String::new(),
    }
}

/// The ids of all local models: configured hashes, then plugin ids.
pub open spec fn local_model_ids(
    models: Seq<ModelConfig>,
    plugin_models: Seq<PluginModelDescriptor>,
) -> Seq<Seq<char>> {
    models.map_values(|m: ModelConfig| m.model_hash@) + plugin_models.map_values(
        |m: PluginModelDescriptor| m.id@,
    )
}

/// The nudge reply: never switch the default, and exempt every local model.
pub fn default_model_nudge_response(
    models: &[ModelConfig],
    plugin_models: &[PluginModelDescriptor],
) -> (r: DefaultModelNudgeDataResponse)
    ensures
        r.nudge_date@ == "0"@,
        !r.should_default_switch_on_new_chat,
        views(r.models_with_no_default_switch@) == local_model_ids(models@, plugin_models@),
        r.conversion_model_override@.len() == 0,
{
    let mut ids: Vec<String> = Vec::new();
    let mut k: usize = 0;
    while k < models.len()
        invariant
            k <= models.len(),
            views(ids@) == models@.take(k as int).map_values(|m: ModelConfig| m.model_hash@),
        decreases models.len() - k,
    {
        let ghost before = views(ids@);
        ids.push(crate::text::copy(models[k].model_hash.as_str()));
        assert(views(ids@) == before.push(models@[k as int].model_hash@));
        assert(models@.take(k + 1).map_values(|m: ModelConfig| m.model_hash@) == models@.take(
            k as int,
        ).map_values(|m: ModelConfig| m.model_hash@).push(models@[k as int].model_hash@));
        k = k + 1;
    }
    assert(models@.take(models.len() as int) == models@);
    let ghost first = views(ids@);
    let mut k: usize = 0;
    while k < plugin_models.len()
        invariant
            k <= plugin_models.len(),
            views(ids@) == first + plugin_models@.take(k as int).map_values(
                |m: PluginModelDescriptor| m.id@,
            ),
        decreases plugin_models.len() - k,
    {
        let ghost before = views(ids@);
        ids.push(crate::text::copy(plugin_models[k].id.as_str()));
        assert(views(ids@) == before.push(plugin_models@[k as int].id@));
        assert(plugin_models@.take(k + 1).map_values(|m: PluginModelDescriptor| m.id@)
            == plugin_models@.take(k as int).map_values(|m: PluginModelDescriptor| m.id@).push(
            plugin_models@[k as int].id@,
        ));
        k = k + 1;
    }
    assert(plugin_models@.take(plugin_models.len() as int) == plugin_models@);
    DefaultModelNudgeDataResponse {
        nudge_date: crate::text::copy("0"),
        should_default_switch_on_new_chat: false,
        models_with_no_default_switch: ids,
        conversion_model_override: String::new(),
    }
}

/// The 32-bit big-endian value of four bytes.
pub open spec fn be_value(b0: u8, b1: u8, b2: u8, b3: u8) -> u32 {
    ((b0 as u32) << 24u32) | ((b1 as u32) << 16u32) | ((b2 as u32) << 8u32) | (b3 as u32)
}

/// The four big-endian bytes of a 32-bit value.
pub open spec fn be_bytes(n: u32) -> Seq<u8> {
    seq![(n >> 24u32) as u8, ((n >> 16u32) & 0xffu32) as u8, ((n >> 8u32) & 0xffu32) as u8, (n & 0xffu32) as u8]
}

/// The big-endian bytes of a value read back give the value.
pub proof fn lemma_be_round_trip(n: u32)
    ensures
        be_value(be_bytes(n)[0], be_bytes(n)[1], be_bytes(n)[2], be_bytes(n)[3]) == n,
{
    let b = be_bytes(n);
    assert(b[0] == (n >> 24u32) as u8);
    assert(b[1] == ((n >> 16u32) & 0xffu32) as u8);
    assert(b[2] == ((n >> 8u32) & 0xffu32) as u8);
    assert(b[3] == (n & 0xffu32) as u8);
    assert(((((n >> 24u32) as u8) as u32) << 24u32) | (((((n >> 16u32) & 0xffu32) as u8) as u32)
        << 16u32) | (((((n >> 8u32) & 0xffu32) as u8) as u32) << 8u32) | (((n & 0xffu32) as u8) as u32)
        == n) by (bit_vector);
}

/// How a catalog body is framed: a Connect unary frame (flags 0, length equal to the rest)
/// yields its payload; a body that is not such a frame is the payload itself; a frame with
/// flags is refused.
pub open spec fn unary_frame(body: Seq<u8>) -> Result<(bool, Seq<u8>), Seq<char>> {
    if body.len() < 5 {
        Ok((false, body))
    } else if be_value(body[1], body[2], body[3], body[4]) != body.len() - 5 {
        Ok((false, body))
    } else if body[0] != 0 {
        Err("cannot merge compressed or terminal model catalog frame: flags="@ + decimal(
            body[0] as nat,
        ))
    } else {
        Ok((true, body.skip(5)))
    }
}

/// Splits a catalog body into whether it is framed and its payload (see [`unary_frame`]).
pub fn unary_payload(body: &[u8]) -> (r: Result<(bool, &[u8]), Error>)
    ensures
        match (r, unary_frame(body@)) {
            (Ok((framed, payload)), Ok((f, p))) => framed == f && payload@ == p,
            (Err(e), Err(m)) => is_protocol(e, m),
            _ => false,
        },
{
    if body.len() < 5 {
        return Ok((false, body));
    }
    let flags = body[0];
    let length = ((body[1] as u32) << 24u32) | ((body[2] as u32) << 16u32) | ((body[3] as u32)
        << 8u32) | (body[4] as u32);
    if (length as u64) != ((body.len() - 5) as u64) {
        return Ok((false, body));
    }
    if flags != 0 {
        let digits = crate::text::decimal_string(flags as u64);
        return Err(
            crate::error::protocol_error(
                "cannot merge compressed or terminal model catalog frame: flags=",
                digits.as_str(),
            ),
        );
    }
    Ok((true, vstd::slice::slice_subrange(body, 5, body.len())))
}

/// The catalog body sent to Cursor: when upstream refused, the local addition alone;
/// otherwise upstream's payload followed by the addition, re-framed (with the length taken
/// modulo 2^32) when upstream's body was a frame.
pub open spec fn merged_body(upstream_ok: bool, body: Seq<u8>, extra: Seq<u8>) -> Result<
    Seq<u8>,
    Seq<char>,
> {
    if !upstream_ok {
        Ok(extra)
    } else {
        match unary_frame(body) {
            Err(m) => Err(m),
            Ok((framed, payload)) => Ok(
                if framed {
                    seq![0u8] + be_bytes(((payload.len() + extra.len()) % 4294967296) as u32)
                        + payload + extra
                } else {
                    payload + extra
                },
            ),
        }
    }
}

/// Appends the local catalog addition to upstream's catalog body (see [`merged_body`]).
pub fn merge_catalog_body(upstream_ok: bool, body: &[u8], extra: &[u8]) -> (r: Result<Vec<u8>, Error>)
    requires
        body@.len() + extra@.len() <= usize::MAX,
    ensures
        match (r, merged_body(upstream_ok, body@, extra@)) {
            (Ok(v), Ok(expected)) => v@ == expected,
            (Err(e), Err(m)) => is_protocol(e, m),
            _ => false,
        },
{
    if !upstream_ok {
        return Ok(vstd::slice::slice_to_vec(extra));
    }
    let (framed, payload) = match unary_payload(body) {
        Ok(split) => split,
        Err(e) => {
            return Err(e);
        },
    };
    let mut merged: Vec<u8> = Vec::new();
    if framed {
        let total: u64 = payload.len() as u64 + extra.len() as u64;
        let n = (total % 4294967296) as u32;
        merged.push(0u8);
        merged.push((n >> 24u32) as u8);
        merged.push(((n >> 16u32) & 0xffu32) as u8);
        merged.push(((n >> 8u32) & 0xffu32) as u8);
        merged.push((n & 0xffu32) as u8);
        assert(merged@ == seq![0u8] + be_bytes(n));
    }
    let ghost head = merged@;
    let mut k: usize = 0;
    while k < payload.len()
        invariant
            k <= payload.len(),
            merged@ == head + payload@.take(k as int),
        decreases payload.len() - k,
    {
        merged.push(payload[k]);
        assert(payload@.take(k + 1) == payload@.take(k as int).push(payload@[k as int]));
        k = k + 1;
    }
    assert(payload@.take(payload.len() as int) == payload@);
    let ghost middle = merged@;
    let mut k: usize = 0;
    while k < extra.len()
        invariant
            k <= extra.len(),
            merged@ == middle + extra@.take(k as int),
        decreases extra.len() - k,
    {
        merged.push(extra[k]);
        assert(extra@.take(k + 1) == extra@.take(k as int).push(extra@[k as int]));
        k = k + 1;
    }
    assert(extra@.take(extra.len() as int) == extra@);
    Ok(merged)
}

/// Appending a local addition to a framed catalog whose merged length fits 32 bits gives
/// again a single frame, whose payload is upstream's payload followed by the addition.
pub proof fn lemma_merge_keeps_one_frame(body: Seq<u8>, extra: Seq<u8>)
    requires
        unary_frame(body) matches Ok((true, _)),
        body.len() - 5 + extra.len() < 4294967296,
    ensures
        merged_body(true, body, extra) matches Ok(m) && unary_frame(m) == Ok::<
            (bool, Seq<u8>),
            Seq<char>,
        >((true, body.skip(5) + extra)),
{
    let payload = body.skip(5);
    let n = ((payload.len() + extra.len()) % 4294967296) as u32;
    lemma_be_round_trip(n);
    let m = seq![0u8] + be_bytes(n) + payload + extra;
    assert(m[1] == be_bytes(n)[0]);
    assert(m[2] == be_bytes(n)[1]);
    assert(m[3] == be_bytes(n)[2]);
    assert(m[4] == be_bytes(n)[3]);
    assert(m.skip(5) == payload + extra);
}

} // verus!
