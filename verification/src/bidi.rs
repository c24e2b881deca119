//! Cursor's ordered Bidi append requests: checking and decoding their payload, and the model
//! selection of the run requests they carry (aliases, subagent routing, the default model).
use vstd::prelude::*;

use crate::error::{is_config, is_protocol, Error};
use crate::protocol::{
    Action, AgentRunRequest, ConversationAction, ModelDetails, RequestedModel, SubagentModelOverride,
    SubagentSelection,
};
use crate::text::{str_eq, trim, trim_str, views};

verus! {

/// The request id of an append.
pub struct RequestId {
    pub request_id: String,
}

/// A Bidi append request: a hex-encoded client message and its place in the stream.
pub struct BidiAppendRequest {
    pub request_id: Option<RequestId>,
    pub data: String,
    pub data_binary: Vec<u8>,
    pub append_seqno: i64,
}

/// What a client sends on the stream.
pub enum ClientMessage {
    RunRequest(AgentRunRequest),
    ExecClientMessage,
    ExecClientControlMessage,
    KvClientMessage,
    ConversationAction,
    InteractionResponse,
    ClientHeartbeat,
    PrewarmRequest,
}

/// A client message, which may be empty.
pub struct AgentClientMessage {
    pub message: Option<ClientMessage>,
}

/// An append whose payload was decoded.
pub struct DecodedAppend {
    pub request_id: String,
    pub seqno: i64,
    pub message: AgentClientMessage,
}

/// An append whose payload was checked and hex-decoded, before the client message is read.
pub struct EncodedAppend {
    pub request_id: String,
    pub seqno: i64,
    pub payload: Vec<u8>,
}

/// The run request of a message, if it carries one.
pub open spec fn run_request_of(m: AgentClientMessage) -> Option<AgentRunRequest> {
    match m.message {
        Some(ClientMessage::RunRequest(r)) => Some(r),
        _ => None,
    }
}

/// The text of an optional text reference.
pub open spec fn str_view(o: Option<&str>) -> Option<Seq<char>> {
    match o {
        Some(s) => Some(s@),
        None => None,
    }
}

/// The model id of the requested model, or nothing where there is none.
pub open spec fn requested_id(r: AgentRunRequest) -> Seq<char> {
    match r.requested_model {
        Some(m) => m.model_id@,
        None => Seq::empty(),
    }
}

/// The model id of the model details, or nothing where there are none.
pub open spec fn details_id(r: AgentRunRequest) -> Seq<char> {
    match r.model_details {
        Some(m) => m.model_id@,
        None => Seq::empty(),
    }
}

/// The model a run request selects: the requested model's id when it is not empty, else the
/// model details' id when it is not empty.
pub open spec fn explicit_model(r: AgentRunRequest) -> Option<Seq<char>> {
    if requested_id(r).len() > 0 {
        Some(requested_id(r))
    } else if details_id(r).len() > 0 {
        Some(details_id(r))
    } else {
        None
    }
}

/// Whether a run request completes a background task.
pub open spec fn completes_background_task(r: AgentRunRequest) -> bool {
    match r.action {
        Some(ConversationAction { action: Some(Action::BackgroundTaskCompletionAction(_)) }) => true,
        _ => false,
    }
}

impl DecodedAppend {
    /// The model that the append's run request selects.
    pub fn model_id(&self) -> (r: Option<&str>)
        ensures
            str_view(r) == (match run_request_of(self.message) {
                Some(request) => explicit_model(request),
                None => None,
            }),
    {
        match &self.message.message {
            Some(ClientMessage::RunRequest(request)) => {
                if let Some(model) = &request.requested_model {
                    if !model.model_id.as_str().is_empty() {
                        return Some(model.model_id.as_str());
                    }
                }
                match &request.model_details {
                    Some(model) => {
                        if !model.model_id.as_str().is_empty() {
                            Some(model.model_id.as_str())
                        } else {
                            None
                        }
                    },
                    None => None,
                }
            },
            _ => None,
        }
    }

    /// The conversation of the append's run request.
    pub fn conversation_id(&self) -> (r: Option<&str>)
        ensures
            str_view(r) == (match run_request_of(self.message) {
                Some(request) => match request.conversation_id {
                    Some(id) => Some(id@),
                    None => None,
                },
                None => None,
            }),
    {
        match &self.message.message {
            Some(ClientMessage::RunRequest(request)) => match &request.conversation_id {
                Some(id) => Some(id.as_str()),
                None => None,
            },
            _ => None,
        }
    }

    /// Whether the append is a run request that completes a background task.
    pub fn is_background_task_completion(&self) -> (r: bool)
        ensures
            r == (match run_request_of(self.message) {
                Some(request) => completes_background_task(request),
                None => false,
            }),
    {
        match &self.message.message {
            Some(ClientMessage::RunRequest(request)) => match &request.action {
                Some(ConversationAction { action: Some(Action::BackgroundTaskCompletionAction(_)) }) => true,
                _ => false,
            },
            _ => false,
        }
    }
}

/// The value of a hex digit, either case; -1 for any other character.
pub open spec fn hex_value(c: char) -> int {
    let v = c as int;
    if 48 <= v <= 57 {
        v - 48
    } else if 97 <= v <= 102 {
        v - 87
    } else if 65 <= v <= 70 {
        v - 55
    } else {
        -1
    }
}

/// Whether a text is hex: an even number of hex digits.
pub open spec fn is_hex_text(s: Seq<char>) -> bool {
    &&& s.len() % 2 == 0
    &&& forall|i: int| 0 <= i < s.len() ==> hex_value(#[trigger] s[i]) >= 0
}

/// The bytes of a hex text, two digits each, high digit first.
pub open spec fn hex_bytes(s: Seq<char>) -> Seq<u8> {
    Seq::new(s.len() / 2, |i: int| (16 * hex_value(s[2 * i]) + hex_value(s[2 * i + 1])) as u8)
}

/// The text that the hex crate gives for its error on `s`.
pub uninterp spec fn hex_decode_error(s: Seq<char>) -> Seq<char>;

/// `hex::decode` on the UTF-8 bytes of `data`. It succeeds exactly on an even number of hex
/// digits of either case and gives one byte per pair; a non-ASCII character is never a digit.
/// Its error, as text, is named by `hex_decode_error`.
#[verifier::external_body]
fn hex_decode(data: &str) -> (r: Result<Vec<u8>, String>)
    ensures
        r is Ok <==> is_hex_text(data@),
        match r {
            Ok(bytes) => bytes@ == hex_bytes(data@),
            Err(text) => text@ == hex_decode_error(data@),
        },
{
    match hex::decode(data) {
        Ok(bytes) => Ok(bytes),
        Err(error) => Err(format!("{error}")),
    }
}

/// The request id of an append, when it has a non-empty one.
pub open spec fn append_request_id(request: BidiAppendRequest) -> Option<Seq<char>> {
    match request.request_id {
        Some(id) => if id.request_id@.len() > 0 {
            Some(id.request_id@)
        } else {
            None
        },
        None => None,
    }
}

/// Checks an append and decodes its hex payload: it needs a request id, no binary data, and
/// non-empty hex data, in that order.
pub fn decode_payload(request: &BidiAppendRequest) -> (r: Result<EncodedAppend, Error>)
    ensures
        match append_request_id(*request) {
            None => r matches Err(e) && is_protocol(e, "BidiAppend request_id is required"@),
            Some(id) => if request.data_binary@.len() > 0 {
                r matches Err(e) && is_protocol(
                    e,
                    "BidiAppend data_binary is not part of the captured protocol"@,
                )
            } else if request.data@.len() == 0 {
                r matches Err(e) && is_protocol(e, "BidiAppend contains no AgentClientMessage"@)
            } else if !is_hex_text(request.data@) {
                r matches Err(e) && is_protocol(
                    e,
                    "invalid BidiAppend hex: "@ + hex_decode_error(request.data@),
                )
            } else {
                r matches Ok(decoded) && decoded.request_id@ == id && decoded.seqno
                    == request.append_seqno && decoded.payload@ == hex_bytes(request.data@)
            },
        },
{
    let id = match &request.request_id {
        Some(id) => {
            if id.request_id.as_str().is_empty() {
                return Err(crate::error::protocol_message("BidiAppend request_id is required"));
            }
            id.request_id.as_str()
        },
        None => {
            return Err(crate::error::protocol_message("BidiAppend request_id is required"));
        },
    };
    if request.data_binary.len() > 0 {
        return Err(
            crate::error::protocol_message(
                "BidiAppend data_binary is not part of the captured protocol",
            ),
        );
    }
    if request.data.as_str().is_empty() {
        return Err(crate::error::protocol_message("BidiAppend contains no AgentClientMessage"));
    }
    match hex_decode(request.data.as_str()) {
        Ok(payload) => Ok(
            EncodedAppend {
                request_id: crate::text::copy(id),
                seqno: request.append_seqno,
                payload,
            },
        ),
        Err(text) => Err(crate::error::protocol_error("invalid BidiAppend hex: ", text.as_str())),
    }
}

/// The target of `key` in a list of (key, target) pairs: that of the first pair with the key.
pub open spec fn lookup(pairs: Seq<(String, String)>, key: Seq<char>) -> Option<Seq<char>>
    decreases pairs.len(),
{
    if pairs.len() == 0 {
        None
    } else if pairs[0].0@ == key {
        Some(pairs[0].1@)
    } else {
        lookup(pairs.drop_first(), key)
    }
}

/// The index of the first pair with the key `key`.
pub fn find_key(pairs: &Vec<(String, String)>, key: &str) -> (r: Option<usize>)
    ensures
        match r {
            Some(i) => i < pairs@.len() && lookup(pairs@, key@) == Some(pairs@[i as int].1@),
            None => lookup(pairs@, key@) is None,
        },
{
    let mut i: usize = 0;
    assert(pairs@.skip(0) =~= pairs@);
    while i < pairs.len()
        invariant
            i <= pairs@.len(),
            lookup(pairs@, key@) == lookup(pairs@.skip(i as int), key@),
        decreases pairs@.len() - i,
    {
        assert(pairs@.skip(i as int)[0] == pairs@[i as int]);
        assert(pairs@.skip(i as int).drop_first() =~= pairs@.skip(i + 1));
        if str_eq(pairs[i].0.as_str(), key) {
            return Some(i);
        }
        i = i + 1;
    }
    None
}

/// What the model store answers about model references.
pub struct StoredModels {
    /// Each reference that resolves to a stored model, with that model's hash.
    pub hashes: Vec<(String, String)>,
    /// The references for which the store holds a model.
    pub models: Vec<String>,
    /// The hash of the store's first model, if it holds any.
    pub first_hash: Option<String>,
}

/// Whether the store holds a model for `reference`.
pub open spec fn has_model(stored: StoredModels, reference: Seq<char>) -> bool {
    views(stored.models@).contains(reference)
}

/// Whether the store holds a model for `reference`.
pub fn holds_model(stored: &StoredModels, reference: &str) -> (r: bool)
    ensures
        r == has_model(*stored, reference@),
{
    let mut i: usize = 0;
    while i < stored.models.len()
        invariant
            i <= stored.models@.len(),
            forall|j: int| 0 <= j < i ==> stored.models@[j]@ != reference@,
        decreases stored.models@.len() - i,
    {
        if str_eq(stored.models[i].as_str(), reference) {
            assert(views(stored.models@)[i as int] == reference@);
            return true;
        }
        i = i + 1;
    }
    proof {
        if views(stored.models@).contains(reference@) {
            let j = choose|j: int| 0 <= j < views(stored.models@).len() && views(stored.models@)[j] == reference@;
            assert(stored.models@[j]@ == reference@);
        }
    }
    false
}

/// Whether `id` is aliased onto a model that the store does not hold.
pub open spec fn alias_missing(aliases: Seq<(String, String)>, stored: StoredModels, id: Seq<char>) -> bool {
    match lookup(aliases, id) {
        Some(target) => !has_model(stored, target),
        None => false,
    }
}

/// The model ids that the subagent overrides select, in order.
pub open spec fn override_ids(overrides: Seq<SubagentModelOverride>) -> Seq<Seq<char>>
    decreases overrides.len(),
{
    if overrides.len() == 0 {
        Seq::empty()
    } else {
        override_ids(overrides.drop_last()) + match overrides.last().selection {
            Some(SubagentSelection::Model(m)) => seq![m.model_id@],
            _ => Seq::empty(),
        }
    }
}

/// The explicit model selections of a run request, in order: the requested model, the model
/// details, and the model of each subagent override that names one.
pub open spec fn selection_ids(r: AgentRunRequest) -> Seq<Seq<char>> {
    (match r.requested_model {
        Some(m) => seq![m.model_id@],
        None => Seq::empty(),
    }) + (match r.model_details {
        Some(m) => seq![m.model_id@],
        None => Seq::empty(),
    }) + override_ids(r.subagent_model_overrides@)
}

/// The first of `ids` that is aliased onto a model that the store does not hold.
pub open spec fn first_missing(
    ids: Seq<Seq<char>>,
    aliases: Seq<(String, String)>,
    stored: StoredModels,
) -> Option<Seq<char>>
    decreases ids.len(),
{
    if ids.len() == 0 {
        None
    } else if alias_missing(aliases, stored, ids[0]) {
        Some(ids[0])
    } else {
        first_missing(ids.drop_first(), aliases, stored)
    }
}

/// The position of the first of `ids` aliased onto a model that the store does not hold (the
/// length of `ids` when there is none).
pub open spec fn missing_at(ids: Seq<Seq<char>>, aliases: Seq<(String, String)>, stored: StoredModels) -> int
    decreases ids.len(),
{
    if ids.len() == 0 {
        0
    } else if alias_missing(aliases, stored, ids[0]) {
        0
    } else {
        1 + missing_at(ids.drop_first(), aliases, stored)
    }
}

/// The explicit model selections of a run request (see [`selection_ids`]).
fn selection_list(r: &AgentRunRequest) -> (v: Vec<String>)
    ensures
        views(v@) == selection_ids(*r),
{
    let mut v: Vec<String> = Vec::new();
    if let Some(m) = &r.requested_model {
        v.push(crate::text::copy(m.model_id.as_str()));
    }
    if let Some(m) = &r.model_details {
        v.push(crate::text::copy(m.model_id.as_str()));
    }
    let ghost front = views(v@);
    let overrides = &r.subagent_model_overrides;
    let mut i: usize = 0;
    while i < overrides.len()
        invariant
            i <= overrides@.len(),
            views(v@) == front + override_ids(overrides@.take(i as int)),
        decreases overrides@.len() - i,
    {
        assert(overrides@.take(i + 1).drop_last() =~= overrides@.take(i as int));
        let ghost before = v@;
        match &overrides[i].selection {
            Some(SubagentSelection::Model(m)) => {
                v.push(crate::text::copy(m.model_id.as_str()));
                assert(views(v@) =~= views(before).push(m.model_id@));
            },
            _ => {},
        }
        i = i + 1;
    }
    assert(overrides@.take(overrides@.len() as int) =~= overrides@);
    v
}

/// The first of `ids` aliased onto a missing model (see [`first_missing`]).
fn find_missing(ids: &Vec<String>, aliases: &Vec<(String, String)>, stored: &StoredModels) -> (r:
    Option<usize>)
    ensures
        match r {
            Some(i) => i < ids@.len() && first_missing(views(ids@), aliases@, *stored) == Some(
                ids@[i as int]@,
            ) && i == missing_at(views(ids@), aliases@, *stored),
            None => first_missing(views(ids@), aliases@, *stored) is None,
        },
{
    let mut i: usize = 0;
    assert(views(ids@).skip(0) =~= views(ids@));
    while i < ids.len()
        invariant
            i <= ids@.len(),
            first_missing(views(ids@), aliases@, *stored) == first_missing(
                views(ids@).skip(i as int),
                aliases@,
                *stored,
            ),
            missing_at(views(ids@), aliases@, *stored) == i + missing_at(
                views(ids@).skip(i as int),
                aliases@,
                *stored,
            ),
        decreases ids@.len() - i,
    {
        assert(views(ids@).skip(i as int)[0] == ids@[i as int]@);
        assert(views(ids@).skip(i as int).drop_first() =~= views(ids@).skip(i + 1));
        let missing = match find_key(aliases, ids[i].as_str()) {
            Some(k) => !holds_model(stored, aliases[k].1.as_str()),
            None => false,
        };
        if missing {
            return Some(i);
        }
        i = i + 1;
    }
    None
}

/// `new` is `old` with its model id mapped by `f` and its parameters kept.
pub open spec fn model_mapped(
    old: RequestedModel,
    new: RequestedModel,
    f: spec_fn(Seq<char>) -> Seq<char>,
) -> bool {
    new.model_id@ == f(old.model_id@) && new.parameters == old.parameters
}

/// `new` is `old` with the model it names, if any, mapped by `f`.
pub open spec fn override_mapped(
    old: SubagentModelOverride,
    new: SubagentModelOverride,
    f: spec_fn(Seq<char>) -> Seq<char>,
) -> bool {
    &&& new.subagent_type == old.subagent_type
    &&& match old.selection {
        Some(SubagentSelection::Model(m)) => match new.selection {
            Some(SubagentSelection::Model(n)) => model_mapped(m, n, f),
            _ => false,
        },
        _ => new.selection == old.selection,
    }
}

/// `new` is `old` with each named model mapped by `f`, in order.
pub open spec fn overrides_mapped(
    old: Seq<SubagentModelOverride>,
    new: Seq<SubagentModelOverride>,
    f: spec_fn(Seq<char>) -> Seq<char>,
) -> bool {
    &&& new.len() == old.len()
    &&& forall|i: int| 0 <= i < old.len() ==> override_mapped(old[i], #[trigger] new[i], f)
}

/// `new` is `old` apart from the model selections.
pub open spec fn same_besides_models(old: AgentRunRequest, new: AgentRunRequest) -> bool {
    &&& new.conversation_state == old.conversation_state
    &&& new.action == old.action
    &&& new.conversation_id == old.conversation_id
    &&& new.conversation_group_id == old.conversation_group_id
    &&& new.subagent_type_name == old.subagent_type_name
}

/// `new` is `old` with every explicit model selection mapped by `f`.
pub open spec fn selections_mapped(
    old: AgentRunRequest,
    new: AgentRunRequest,
    f: spec_fn(Seq<char>) -> Seq<char>,
) -> bool {
    &&& same_besides_models(old, new)
    &&& match old.requested_model {
        Some(m) => match new.requested_model {
            Some(n) => model_mapped(m, n, f),
            None => false,
        },
        None => new.requested_model is None,
    }
    &&& match old.model_details {
        Some(m) => match new.model_details {
            Some(n) => n.model_id@ == f(m.model_id@),
            None => false,
        },
        None => new.model_details is None,
    }
    &&& overrides_mapped(old.subagent_model_overrides@, new.subagent_model_overrides@, f)
}

/// An id under the aliases: its target where it has one, else itself.
pub open spec fn aliased(aliases: Seq<(String, String)>, id: Seq<char>) -> Seq<char> {
    match lookup(aliases, id) {
        Some(target) => target,
        None => id,
    }
}

/// The map of ids under the aliases (see [`aliased`]).
pub open spec fn alias_map(aliases: Seq<(String, String)>) -> spec_fn(Seq<char>) -> Seq<char> {
    |id: Seq<char>| aliased(aliases, id)
}

/// A model id under the aliases (see [`aliased`]).
fn alias_id(id: String, aliases: &Vec<(String, String)>) -> (r: String)
    ensures
        r@ == aliased(aliases@, id@),
{
    match find_key(aliases, id.as_str()) {
        Some(k) => crate::text::copy(aliases[k].1.as_str()),
        None => id,
    }
}

/// A requested model under the aliases.
fn alias_model(m: RequestedModel, aliases: &Vec<(String, String)>) -> (r: RequestedModel)
    ensures
        model_mapped(m, r, alias_map(aliases@)),
{
    let RequestedModel { model_id, parameters } = m;
    RequestedModel { model_id: alias_id(model_id, aliases), parameters }
}

/// Every explicit model selection of a run request under the aliases.
fn alias_selections(r: AgentRunRequest, aliases: &Vec<(String, String)>) -> (n: AgentRunRequest)
    ensures
        selections_mapped(r, n, alias_map(aliases@)),
{
    let ghost f = alias_map(aliases@);
    let AgentRunRequest {
        conversation_state,
        action,
        conversation_id,
        conversation_group_id,
        subagent_type_name,
        requested_model,
        model_details,
        subagent_model_overrides,
    } = r;
    let requested_model = match requested_model {
        Some(m) => Some(alias_model(m, aliases)),
        None => None,
    };
    let model_details = match model_details {
        Some(m) => Some(ModelDetails { model_id: alias_id(m.model_id, aliases) }),
        None => None,
    };
    let ghost old_overrides = subagent_model_overrides@;
    let mut rest = subagent_model_overrides;
    let mut done: Vec<SubagentModelOverride> = Vec::new();
    while rest.len() > 0
        invariant
            f == alias_map(aliases@),
            done@.len() + rest@.len() == old_overrides.len(),
            rest@ == old_overrides.skip(done@.len() as int),
            forall|i: int| 0 <= i < done@.len() ==> override_mapped(old_overrides[i], #[trigger] done@[i], f),
        decreases rest@.len(),
    {
        let o = rest.remove(0);
        assert(o == old_overrides[done@.len() as int]);
        assert(rest@ =~= old_overrides.skip(done@.len() as int + 1));
        let SubagentModelOverride { subagent_type, selection } = o;
        let selection = match selection {
            Some(SubagentSelection::Model(m)) => Some(SubagentSelection::Model(alias_model(m, aliases))),
            other => other,
        };
        done.push(SubagentModelOverride { subagent_type, selection });
    }
    AgentRunRequest {
        conversation_state,
        action,
        conversation_id,
        conversation_group_id,
        subagent_type_name,
        requested_model,
        model_details,
        subagent_model_overrides: done,
    }
}

/// The ids under the aliases while `left` selections remain to be moved, unchanged once none
/// remain.
pub open spec fn leading_map(aliases: Seq<(String, String)>, left: int) -> spec_fn(Seq<char>) -> Seq<char> {
    |id: Seq<char>| if left > 0 { aliased(aliases, id) } else { id }
}

/// `new` is `old` with its first `k` explicit model selections (in the order of
/// [`selection_ids`]) under the aliases and the others unchanged.
pub open spec fn leading_aliased(
    old: AgentRunRequest,
    new: AgentRunRequest,
    aliases: Seq<(String, String)>,
    k: int,
) -> bool {
    let k1 = if old.requested_model is Some { k - 1 } else { k };
    let k2 = if old.model_details is Some { k1 - 1 } else { k1 };
    let o = old.subagent_model_overrides@;
    &&& same_besides_models(old, new)
    &&& match old.requested_model {
        Some(m) => match new.requested_model {
            Some(n) => model_mapped(m, n, leading_map(aliases, k)),
            None => false,
        },
        None => new.requested_model is None,
    }
    &&& match old.model_details {
        Some(m) => match new.model_details {
            Some(n) => n.model_id@ == leading_map(aliases, k1)(m.model_id@),
            None => false,
        },
        None => new.model_details is None,
    }
    &&& new.subagent_model_overrides@.len() == o.len()
    &&& forall|i: int|
        0 <= i < o.len() ==> override_mapped(
            o[i],
            #[trigger] new.subagent_model_overrides@[i],
            leading_map(aliases, k2 - override_ids(o.take(i)).len()),
        )
}

/// Whether `m` carries a run request that is `old` with its first `k` selections under the
/// aliases.
pub open spec fn leading_aliased_request(
    m: AgentClientMessage,
    old: AgentRunRequest,
    aliases: Seq<(String, String)>,
    k: int,
) -> bool {
    match run_request_of(m) {
        Some(n) => leading_aliased(old, n, aliases, k),
        None => false,
    }
}

/// A model id under the aliases when `on`, else unchanged.
fn alias_id_if(id: String, aliases: &Vec<(String, String)>, on: bool) -> (r: String)
    ensures
        r@ == if on { aliased(aliases@, id@) } else { id@ },
{
    if on {
        alias_id(id, aliases)
    } else {
        id
    }
}

/// A requested model under the aliases when `on`, else unchanged.
fn alias_model_if(m: RequestedModel, aliases: &Vec<(String, String)>, on: bool) -> (r: RequestedModel)
    ensures
        r.model_id@ == if on { aliased(aliases@, m.model_id@) } else { m.model_id@ },
        r.parameters == m.parameters,
{
    let RequestedModel { model_id, parameters } = m;
    RequestedModel { model_id: alias_id_if(model_id, aliases, on), parameters }
}

/// The first `k` explicit model selections of a run request under the aliases (see
/// [`leading_aliased`]).
fn alias_leading(r: AgentRunRequest, aliases: &Vec<(String, String)>, k: usize) -> (n: AgentRunRequest)
    ensures
        leading_aliased(r, n, aliases@, k as int),
{
    let ghost old = r;
    let mut left: usize = k;
    let AgentRunRequest {
        conversation_state,
        action,
        conversation_id,
        conversation_group_id,
        subagent_type_name,
        requested_model,
        model_details,
        subagent_model_overrides,
    } = r;
    let requested_model = match requested_model {
        Some(m) => {
            let on = left > 0;
            if on {
                left = left - 1;
            }
            Some(alias_model_if(m, aliases, on))
        },
        None => None,
    };
    let ghost k1: int = if old.requested_model is Some { k - 1 } else { k as int };
    assert(left as int == if k1 > 0 { k1 } else { 0 });
    let model_details = match model_details {
        Some(m) => {
            let on = left > 0;
            if on {
                left = left - 1;
            }
            Some(ModelDetails { model_id: alias_id_if(m.model_id, aliases, on) })
        },
        None => None,
    };
    let ghost k2: int = if old.model_details is Some { k1 - 1 } else { k1 };
    let ghost o = subagent_model_overrides@;
    assert(o.take(0) =~= Seq::<SubagentModelOverride>::empty());
    let mut rest = subagent_model_overrides;
    let mut done: Vec<SubagentModelOverride> = Vec::new();
    while rest.len() > 0
        invariant
            done@.len() + rest@.len() == o.len(),
            rest@ == o.skip(done@.len() as int),
            left as int == if k2 - override_ids(o.take(done@.len() as int)).len() > 0 {
                k2 - override_ids(o.take(done@.len() as int)).len()
            } else {
                0
            },
            forall|i: int|
                0 <= i < done@.len() ==> override_mapped(
                    o[i],
                    #[trigger] done@[i],
                    leading_map(aliases@, k2 - override_ids(o.take(i)).len()),
                ),
        decreases rest@.len(),
    {
        let ghost j = done@.len() as int;
        let o_j = rest.remove(0);
        assert(o_j == o[j]);
        assert(rest@ =~= o.skip(j + 1));
        assert(o.take(j + 1).drop_last() =~= o.take(j));
        assert(o.take(j + 1).last() == o[j]);
        let SubagentModelOverride { subagent_type, selection } = o_j;
        let selection = match selection {
            Some(SubagentSelection::Model(m)) => {
                let on = left > 0;
                if on {
                    left = left - 1;
                }
                Some(SubagentSelection::Model(alias_model_if(m, aliases, on)))
            },
            other => other,
        };
        done.push(SubagentModelOverride { subagent_type, selection });
    }
    AgentRunRequest {
        conversation_state,
        action,
        conversation_id,
        conversation_group_id,
        subagent_type_name,
        requested_model,
        model_details,
        subagent_model_overrides: done,
    }
}

/// The error for a selection aliased onto a model that the store does not hold.
pub open spec fn missing_alias_message(selection: Seq<char>) -> Seq<char> {
    "Cursor model alias "@ + selection + " targets a missing BYOK model"@
}

/// The error for a selection aliased onto a model that the store does not hold.
fn missing_alias_error(selection: &str) -> (e: Error)
    ensures
        is_config(e, missing_alias_message(selection@)),
{
    let mut m = crate::text::copy("Cursor model alias ");
    crate::text::push_str(&mut m, selection);
    crate::text::push_str(&mut m, " targets a missing BYOK model");
    Error::Config(m)
}

/// Whether `m` carries a run request that is `old` with its selections under the aliases.
pub open spec fn aliased_request(m: AgentClientMessage, old: AgentRunRequest, aliases: Seq<(String, String)>) -> bool {
    match run_request_of(m) {
        Some(n) => selections_mapped(old, n, alias_map(aliases)),
        None => false,
    }
}

/// The settings of subagent routing: whether it is on, for which requests, the model it routes
/// onto, and hosted model ids aliased onto stored models (a blank target means the routing
/// target).
pub struct SubagentRoutingSettings {
    pub enabled: bool,
    pub apply_to_subagents: bool,
    pub apply_to_normal_chats: bool,
    pub target_model_id: String,
    pub model_aliases: Vec<(String, String)>,
}

impl Default for SubagentRoutingSettings {
    /// Routing is off; when switched on it applies to subagents only, onto the store's first
    /// model, and the fast hosted model has a blank alias.
    fn default() -> (r: Self)
        ensures
            !r.enabled,
            r.apply_to_subagents,
            !r.apply_to_normal_chats,
            r.target_model_id@ == Seq::<char>::empty(),
            r.model_aliases@.len() == 1,
            r.model_aliases@[0].0@ == "composer-2.5-fast"@,
            r.model_aliases@[0].1@ == Seq::<char>::empty(),
    {
        let mut model_aliases: Vec<(String, String)> = Vec::new();
        model_aliases.push((crate::text::copy("composer-2.5-fast"), String::new()));
        SubagentRoutingSettings {
            enabled: false,
            apply_to_subagents: true,
            apply_to_normal_chats: false,
            target_model_id: String::new(),
            model_aliases,
        }
    }
}

/// The text of an optional text.
pub open spec fn opt_text(o: Option<String>) -> Option<Seq<char>> {
    match o {
        Some(s) => Some(s@),
        None => None,
    }
}

/// The model that routing falls back on: the configured target when it is not blank, else the
/// store's first model.
pub open spec fn routing_target(settings: SubagentRoutingSettings, stored: StoredModels) -> Option<Seq<char>> {
    if trim(settings.target_model_id@).len() > 0 {
        lookup(stored.hashes@, settings.target_model_id@)
    } else {
        opt_text(stored.first_hash)
    }
}

/// Cursor's hosted models that routing takes over.
pub open spec fn hosted(id: Seq<char>) -> bool {
    id == "composer-2.5-fast"@ || id == "composer-2.5"@ || id == "default"@
}

/// The model a run request is on: the requested model's id when there is a requested model,
/// else the model details' id.
pub open spec fn current_model(r: AgentRunRequest) -> Seq<char> {
    match r.requested_model {
        Some(m) => m.model_id@,
        None => details_id(r),
    }
}

/// The stored model that a qualifying request is rewritten onto, if any: the alias target of its
/// model (resolved, or the routing target where the alias is blank); without an alias, for a
/// subagent, the configured target, else nothing when its model is stored, else the first model.
pub open spec fn rewrite_target(
    settings: SubagentRoutingSettings,
    stored: StoredModels,
    r: AgentRunRequest,
    is_subagent: bool,
) -> Option<Seq<char>> {
    let current = current_model(r);
    match lookup(settings.model_aliases@, current) {
        Some(target) => if trim(target).len() > 0 {
            lookup(stored.hashes@, target)
        } else {
            routing_target(settings, stored)
        },
        None => if !is_subagent {
            None
        } else if trim(settings.target_model_id@).len() > 0 {
            lookup(stored.hashes@, settings.target_model_id@)
        } else if has_model(stored, current) {
            None
        } else {
            opt_text(stored.first_hash)
        },
    }
}

/// How a parent request's subagent overrides are mapped onto `h`: hosted models and alias keys
/// move, others stay.
pub open spec fn parent_map(aliases: Seq<(String, String)>, h: Seq<char>) -> spec_fn(Seq<char>) -> Seq<char> {
    |id: Seq<char>| if hosted(id) || lookup(aliases, id) is Some {
        h
    } else {
        id
    }
}

/// Whether an override for the subagent type `ty` is among `overrides`.
pub open spec fn has_type(overrides: Seq<SubagentModelOverride>, ty: Seq<char>) -> bool {
    exists|i: int| 0 <= i < overrides.len() && (#[trigger] overrides[i]).subagent_type@ == ty
}

/// Whether `o` selects the model `h`, without parameters, for the subagent type `ty`.
pub open spec fn routed_entry(o: SubagentModelOverride, ty: Seq<char>, h: Seq<char>) -> bool {
    &&& o.subagent_type@ == ty
    &&& match o.selection {
        Some(SubagentSelection::Model(m)) => m.model_id@ == h && m.parameters@.len() == 0,
        _ => false,
    }
}

/// A parent request's subagent overrides routed onto `h`: each one mapped by [`parent_map`],
/// then an entry for the general-purpose and for the explore subagent where none was there.
pub open spec fn parent_overrides(
    old: Seq<SubagentModelOverride>,
    new: Seq<SubagentModelOverride>,
    aliases: Seq<(String, String)>,
    h: Seq<char>,
) -> bool {
    let k = old.len() as int;
    let general = !has_type(old, "generalPurpose"@);
    let explore = !has_type(old, "explore"@);
    let n = k + (if general { 1int } else { 0int }) + (if explore { 1int } else { 0int });
    &&& new.len() == n
    &&& overrides_mapped(old, new.take(k), parent_map(aliases, h))
    &&& general ==> routed_entry(new[k], "generalPurpose"@, h)
    &&& explore ==> routed_entry(new[n - 1], "explore"@, h)
}

/// Routing a parent request's overrides moves each that selects one of Cursor's hosted models
/// (`composer-2.5-fast`, `composer-2.5`, `default`) onto the routing target, keeping its
/// parameters; an override that selects another model without an alias keeps it.
pub proof fn lemma_parent_routing_moves_hosted_models(
    old: Seq<SubagentModelOverride>,
    new: Seq<SubagentModelOverride>,
    aliases: Seq<(String, String)>,
    h: Seq<char>,
)
    requires
        parent_overrides(old, new, aliases, h),
    ensures
        forall|i: int|
            0 <= i < old.len() ==> match (#[trigger] old[i]).selection {
                Some(SubagentSelection::Model(m)) => {
                    let id = m.model_id@;
                    new[i].selection matches Some(SubagentSelection::Model(n)) && n.parameters
                        == m.parameters && (id == "composer-2.5-fast"@ || id == "composer-2.5"@
                        || id == "default"@ ==> n.model_id@ == h) && (!(id == "composer-2.5-fast"@
                        || id == "composer-2.5"@ || id == "default"@) && lookup(aliases, id) is None
                        ==> n.model_id@ == id)
                },
                _ => new[i].selection == old[i].selection,
            },
{
    assert forall|i: int| 0 <= i < old.len() implies match (#[trigger] old[i]).selection {
        Some(SubagentSelection::Model(m)) => {
            let id = m.model_id@;
            new[i].selection matches Some(SubagentSelection::Model(n)) && n.parameters
                == m.parameters && (id == "composer-2.5-fast"@ || id == "composer-2.5"@ || id
                == "default"@ ==> n.model_id@ == h) && (!(id == "composer-2.5-fast"@ || id
                == "composer-2.5"@ || id == "default"@) && lookup(aliases, id) is None
                ==> n.model_id@ == id)
        },
        _ => new[i].selection == old[i].selection,
    } by {
        assert(new.take(old.len() as int)[i] == new[i]);
        assert(override_mapped(old[i], new.take(old.len() as int)[i], parent_map(aliases, h)));
    }
}

/// `new` is `old` moved onto the model `h`: the requested model keeps its parameters (a missing
/// one is added without any), and existing model details follow.
pub open spec fn retargeted(old: AgentRunRequest, new: AgentRunRequest, h: Seq<char>) -> bool {
    &&& match old.requested_model {
        Some(m) => match new.requested_model {
            Some(k) => k.model_id@ == h && k.parameters == m.parameters,
            None => false,
        },
        None => match new.requested_model {
            Some(k) => k.model_id@ == h && k.parameters@.len() == 0,
            None => false,
        },
    }
    &&& match old.model_details {
        Some(_) => match new.model_details {
            Some(d) => d.model_id@ == h,
            None => false,
        },
        None => new.model_details is None,
    }
}

/// Whether a run request is a subagent's: it names a subagent type or came with a parent
/// request header.
pub open spec fn is_subagent_request(r: AgentRunRequest, has_parent_header: bool) -> bool {
    r.subagent_type_name is Some || has_parent_header
}

/// A run request under enabled routing: a parent request (when routing covers subagents) has
/// its subagent overrides routed onto the routing target; a request that the scope covers
/// (subagents, or normal chats) moves onto its rewrite target, if it has one.
pub open spec fn routed_request(
    r: AgentRunRequest,
    n: AgentRunRequest,
    settings: SubagentRoutingSettings,
    stored: StoredModels,
    has_parent_header: bool,
) -> bool {
    let sub = is_subagent_request(r, has_parent_header);
    let parent_target = if !sub && settings.apply_to_subagents {
        routing_target(settings, stored)
    } else {
        None
    };
    let qualifies = if sub {
        settings.apply_to_subagents
    } else {
        settings.apply_to_normal_chats
    };
    let target = if qualifies {
        rewrite_target(settings, stored, r, sub)
    } else {
        None
    };
    &&& same_besides_models(r, n)
    &&& match parent_target {
        Some(h) => parent_overrides(
            r.subagent_model_overrides@,
            n.subagent_model_overrides@,
            settings.model_aliases@,
            h,
        ),
        None => n.subagent_model_overrides == r.subagent_model_overrides,
    }
    &&& match target {
        Some(h) => retargeted(r, n, h),
        None => n.requested_model == r.requested_model && n.model_details == r.model_details,
    }
}

/// Whether `m` carries a run request that is `old` routed (see [`routed_request`]).
pub open spec fn routed_message(
    m: AgentClientMessage,
    old: AgentRunRequest,
    settings: SubagentRoutingSettings,
    stored: StoredModels,
    has_parent_header: bool,
) -> bool {
    match run_request_of(m) {
        Some(n) => routed_request(old, n, settings, stored, has_parent_header),
        None => false,
    }
}

/// Whether `m` carries a run request that is `old` given the default model `h` (see
/// [`DecodedAppend::ensure_default_model`]).
pub open spec fn defaulted_message(m: AgentClientMessage, old: AgentRunRequest, h: Seq<char>) -> bool {
    match run_request_of(m) {
        Some(n) => {
            &&& same_besides_models(old, n)
            &&& n.subagent_model_overrides == old.subagent_model_overrides
            &&& match n.requested_model {
                Some(k) => k.model_id@ == h && k.parameters@.len() == 0,
                None => false,
            }
            &&& match old.model_details {
                Some(_) => match n.model_details {
                    Some(d) => d.model_id@ == h,
                    None => false,
                },
                None => n.model_details is None,
            }
        },
        None => false,
    }
}

/// Whether a text is not blank.
fn not_blank(s: &str) -> (r: bool)
    ensures
        r == (trim(s@).len() > 0),
{
    let t = trim_str(s);
    !t.as_str().is_empty()
}

/// The stored model that `reference` resolves to.
fn resolve_hash(stored: &StoredModels, reference: &str) -> (r: Option<String>)
    ensures
        opt_text(r) == lookup(stored.hashes@, reference@),
{
    match find_key(&stored.hashes, reference) {
        Some(k) => Some(crate::text::copy(stored.hashes[k].1.as_str())),
        None => None,
    }
}

/// The store's first model.
fn first_hash(stored: &StoredModels) -> (r: Option<String>)
    ensures
        opt_text(r) == opt_text(stored.first_hash),
{
    match &stored.first_hash {
        Some(h) => Some(crate::text::copy(h.as_str())),
        None => None,
    }
}

/// The routing target (see [`routing_target`]).
fn configured_target(settings: &SubagentRoutingSettings, stored: &StoredModels) -> (r: Option<String>)
    ensures
        opt_text(r) == routing_target(*settings, *stored),
{
    if not_blank(settings.target_model_id.as_str()) {
        resolve_hash(stored, settings.target_model_id.as_str())
    } else {
        first_hash(stored)
    }
}

/// The model a run request is on (see [`current_model`]).
fn current_model_of(r: &AgentRunRequest) -> (s: &str)
    ensures
        s@ == current_model(*r),
{
    match &r.requested_model {
        Some(m) => m.model_id.as_str(),
        None => match &r.model_details {
            Some(m) => m.model_id.as_str(),
            None => {
                proof {
                    reveal_strlit("");
                }
                ""
            },
        },
    }
}

/// The rewrite target of a qualifying request (see [`rewrite_target`]).
fn rewrite_target_of(
    settings: &SubagentRoutingSettings,
    stored: &StoredModels,
    r: &AgentRunRequest,
    is_subagent: bool,
) -> (t: Option<String>)
    ensures
        opt_text(t) == rewrite_target(*settings, *stored, *r, is_subagent),
{
    let current = current_model_of(r);
    match find_key(&settings.model_aliases, current) {
        Some(k) => {
            let target = settings.model_aliases[k].1.as_str();
            if not_blank(target) {
                resolve_hash(stored, target)
            } else {
                configured_target(settings, stored)
            }
        },
        None => {
            if !is_subagent {
                None
            } else if not_blank(settings.target_model_id.as_str()) {
                resolve_hash(stored, settings.target_model_id.as_str())
            } else if holds_model(stored, current) {
                None
            } else {
                first_hash(stored)
            }
        },
    }
}

/// Whether an override for the subagent type `ty` is among `overrides`.
fn has_subagent_type(overrides: &Vec<SubagentModelOverride>, ty: &str) -> (r: bool)
    ensures
        r == has_type(overrides@, ty@),
{
    let mut i: usize = 0;
    while i < overrides.len()
        invariant
            i <= overrides@.len(),
            forall|j: int| 0 <= j < i ==> overrides@[j].subagent_type@ != ty@,
        decreases overrides@.len() - i,
    {
        if str_eq(overrides[i].subagent_type.as_str(), ty) {
            return true;
        }
        i = i + 1;
    }
    false
}

/// An override that selects the model `h`, without parameters, for the subagent type `ty`.
fn routed_override(ty: &str, h: &str) -> (o: SubagentModelOverride)
    ensures
        routed_entry(o, ty@, h@),
{
    SubagentModelOverride {
        subagent_type: crate::text::copy(ty),
        selection: Some(
            SubagentSelection::Model(
                RequestedModel { model_id: crate::text::copy(h), parameters: Vec::new() },
            ),
        ),
    }
}

/// The model id `id` under [`parent_map`].
fn parent_id(id: String, aliases: &Vec<(String, String)>, h: &str) -> (r: String)
    ensures
        r@ == (parent_map(aliases@, h@))(id@),
{
    let s = id.as_str();
    let take = str_eq(s, "composer-2.5-fast") || str_eq(s, "composer-2.5") || str_eq(s, "default")
        || find_key(aliases, s).is_some();
    if take {
        crate::text::copy(h)
    } else {
        id
    }
}

/// A parent request's subagent overrides routed onto `h` (see [`parent_overrides`]).
fn route_overrides(old: Vec<SubagentModelOverride>, aliases: &Vec<(String, String)>, h: &str) -> (new:
    Vec<SubagentModelOverride>)
    ensures
        parent_overrides(old@, new@, aliases@, h@),
{
    let general = !has_subagent_type(&old, "generalPurpose");
    let explore = !has_subagent_type(&old, "explore");
    let ghost f = parent_map(aliases@, h@);
    let ghost orig = old@;
    let mut rest = old;
    let mut done: Vec<SubagentModelOverride> = Vec::new();
    assert(orig.skip(0) =~= orig);
    while rest.len() > 0
        invariant
            f == parent_map(aliases@, h@),
            done@.len() + rest@.len() == orig.len(),
            rest@ == orig.skip(done@.len() as int),
            forall|i: int| 0 <= i < done@.len() ==> override_mapped(orig[i], #[trigger] done@[i], f),
        decreases rest@.len(),
    {
        let o = rest.remove(0);
        assert(o == orig[done@.len() as int]);
        assert(rest@ =~= orig.skip(done@.len() as int + 1));
        let SubagentModelOverride { subagent_type, selection } = o;
        let selection = match selection {
            Some(SubagentSelection::Model(m)) => {
                let RequestedModel { model_id, parameters } = m;
                Some(
                    SubagentSelection::Model(
                        RequestedModel { model_id: parent_id(model_id, aliases, h), parameters },
                    ),
                )
            },
            other => other,
        };
        done.push(SubagentModelOverride { subagent_type, selection });
    }
    let ghost mapped = done@;
    if general {
        done.push(routed_override("generalPurpose", h));
    }
    if explore {
        done.push(routed_override("explore", h));
    }
    assert(done@.take(orig.len() as int) =~= mapped);
    done
}

/// A run request moved onto the model `h` (see [`retargeted`]).
fn retarget(r: AgentRunRequest, h: &str) -> (n: AgentRunRequest)
    ensures
        same_besides_models(r, n),
        n.subagent_model_overrides == r.subagent_model_overrides,
        retargeted(r, n, h@),
{
    let AgentRunRequest {
        conversation_state,
        action,
        conversation_id,
        conversation_group_id,
        subagent_type_name,
        requested_model,
        model_details,
        subagent_model_overrides,
    } = r;
    let requested_model = match requested_model {
        Some(m) => Some(RequestedModel { model_id: crate::text::copy(h), parameters: m.parameters }),
        None => Some(RequestedModel { model_id: crate::text::copy(h), parameters: Vec::new() }),
    };
    let model_details = match model_details {
        Some(_) => Some(ModelDetails { model_id: crate::text::copy(h) }),
        None => None,
    };
    AgentRunRequest {
        conversation_state,
        action,
        conversation_id,
        conversation_group_id,
        subagent_type_name,
        requested_model,
        model_details,
        subagent_model_overrides,
    }
}

/// A run request under enabled routing (see [`routed_request`]).
fn route_run_request(
    r: AgentRunRequest,
    settings: &SubagentRoutingSettings,
    stored: &StoredModels,
    has_parent_header: bool,
) -> (n: AgentRunRequest)
    ensures
        routed_request(r, n, *settings, *stored, has_parent_header),
{
    let sub = r.subagent_type_name.is_some() || has_parent_header;
    let parent_target = if !sub && settings.apply_to_subagents {
        configured_target(settings, stored)
    } else {
        None
    };
    let qualifies = if sub {
        settings.apply_to_subagents
    } else {
        settings.apply_to_normal_chats
    };
    let target = if qualifies {
        rewrite_target_of(settings, stored, &r, sub)
    } else {
        None
    };
    let ghost old = r;
    let AgentRunRequest {
        conversation_state,
        action,
        conversation_id,
        conversation_group_id,
        subagent_type_name,
        requested_model,
        model_details,
        subagent_model_overrides,
    } = r;
    let subagent_model_overrides = match &parent_target {
        Some(h) => route_overrides(subagent_model_overrides, &settings.model_aliases, h.as_str()),
        None => subagent_model_overrides,
    };
    let mid = AgentRunRequest {
        conversation_state,
        action,
        conversation_id,
        conversation_group_id,
        subagent_type_name,
        requested_model,
        model_details,
        subagent_model_overrides,
    };
    match &target {
        Some(h) => retarget(mid, h.as_str()),
        None => mid,
    }
}

impl DecodedAppend {
    /// Moves the explicit model selections of the append's run request (requested model, model
    /// details, subagent overrides) that an alias names onto the aliased model, keeping their
    /// parameters and any inheritance. `stored` answers which references the store holds a
    /// model for. The selections are moved in order; an alias onto a model that the store does
    /// not hold is refused, naming the first such selection, with the selections before it
    /// already moved and the others left as they were.
    pub fn resolve_model_aliases(
        &mut self,
        aliases: &Vec<(String, String)>,
        stored: &StoredModels,
    ) -> (r: Result<(), Error>)
        ensures
            final(self).request_id == old(self).request_id,
            final(self).seqno == old(self).seqno,
            match run_request_of(old(self).message) {
                Some(request) => if aliases@.len() == 0 {
                    r is Ok && *final(self) == *old(self)
                } else {
                    match first_missing(selection_ids(request), aliases@, *stored) {
                        Some(selection) => r matches Err(e) && is_config(
                            e,
                            missing_alias_message(selection),
                        ) && leading_aliased_request(
                            final(self).message,
                            request,
                            aliases@,
                            missing_at(selection_ids(request), aliases@, *stored),
                        ),
                        None => r is Ok && aliased_request(final(self).message, request, aliases@),
                    }
                },
                None => r is Ok && *final(self) == *old(self),
            },
    {
        if aliases.len() == 0 {
            return Ok(());
        }
        let mut message = AgentClientMessage { message: None };
        std::mem::swap(&mut message, &mut self.message);
        match message.message {
            Some(ClientMessage::RunRequest(request)) => {
                let ids = selection_list(&request);
                match find_missing(&ids, aliases, stored) {
                    Some(i) => {
                        let e = missing_alias_error(ids[i].as_str());
                        self.message = AgentClientMessage {
                            message: Some(ClientMessage::RunRequest(alias_leading(request, aliases, i))),
                        };
                        Err(e)
                    },
                    None => {
                        self.message = AgentClientMessage {
                            message: Some(ClientMessage::RunRequest(alias_selections(request, aliases))),
                        };
                        Ok(())
                    },
                }
            },
            other => {
                self.message = AgentClientMessage { message: other };
                Ok(())
            },
        }
    }

    /// Subagent routing: with routing on, moves hosted Cursor models (or any alias key) onto a
    /// stored model, for subagent runs, normal chats or both as the settings scope it (see
    /// [`routed_request`]). `has_parent_header` says whether the request came with a parent
    /// request header; `stored` answers the store's lookups.
    pub fn resolve_subagent_and_model_aliases(
        &mut self,
        settings: &SubagentRoutingSettings,
        stored: &StoredModels,
        has_parent_header: bool,
    )
        ensures
            final(self).request_id == old(self).request_id,
            final(self).seqno == old(self).seqno,
            match run_request_of(old(self).message) {
                Some(request) => if settings.enabled {
                    routed_message(final(self).message, request, *settings, *stored, has_parent_header)
                } else {
                    *final(self) == *old(self)
                },
                None => *final(self) == *old(self),
            },
    {
        if !settings.enabled {
            return;
        }
        let mut message = AgentClientMessage { message: None };
        std::mem::swap(&mut message, &mut self.message);
        match message.message {
            Some(ClientMessage::RunRequest(request)) => {
                self.message = AgentClientMessage {
                    message: Some(
                        ClientMessage::RunRequest(
                            route_run_request(request, settings, stored, has_parent_header),
                        ),
                    ),
                };
            },
            other => {
                self.message = AgentClientMessage { message: other };
            },
        }
    }

    /// A run request without any model selection asks for the account default: it gets the
    /// routing target (the configured target, else the store's first model), which is
    /// returned. Nothing changes where the request selects a model or no target exists.
    pub fn ensure_default_model(
        &mut self,
        settings: &SubagentRoutingSettings,
        stored: &StoredModels,
    ) -> (r: Option<String>)
        ensures
            final(self).request_id == old(self).request_id,
            final(self).seqno == old(self).seqno,
            match run_request_of(old(self).message) {
                Some(request) => if explicit_model(request) is Some {
                    r is None && *final(self) == *old(self)
                } else {
                    match routing_target(*settings, *stored) {
                        Some(h) => opt_text(r) == Some(h) && defaulted_message(
                            final(self).message,
                            request,
                            h,
                        ),
                        None => r is None && *final(self) == *old(self),
                    }
                },
                None => r is None && *final(self) == *old(self),
            },
    {
        if self.model_id().is_some() {
            return None;
        }
        let target = match configured_target(settings, stored) {
            Some(t) => t,
            None => {
                return None;
            },
        };
        let mut message = AgentClientMessage { message: None };
        std::mem::swap(&mut message, &mut self.message);
        match message.message {
            Some(ClientMessage::RunRequest(request)) => {
                let AgentRunRequest {
                    conversation_state,
                    action,
                    conversation_id,
                    conversation_group_id,
                    subagent_type_name,
                    requested_model,
                    model_details,
                    subagent_model_overrides,
                } = request;
                let model_details = match model_details {
                    Some(_) => Some(ModelDetails { model_id: crate::text::copy(target.as_str()) }),
                    None => None,
                };
                let n = AgentRunRequest {
                    conversation_state,
                    action,
                    conversation_id,
                    conversation_group_id,
                    subagent_type_name,
                    requested_model: Some(
                        RequestedModel {
                            model_id: crate::text::copy(target.as_str()),
                            parameters: Vec::new(),
                        },
                    ),
                    model_details,
                    subagent_model_overrides,
                };
                self.message = AgentClientMessage { message: Some(ClientMessage::RunRequest(n)) };
                Some(target)
            },
            other => {
                self.message = AgentClientMessage { message: other };
                None
            },
        }
    }
}

/// A default model that was given to a request is the model the request then selects, so a
/// second call leaves the request alone.
pub proof fn lemma_default_model_is_selected(m: AgentClientMessage, old: AgentRunRequest, h: Seq<char>)
    requires
        defaulted_message(m, old, h),
        h.len() > 0,
    ensures
        run_request_of(m) matches Some(n) && explicit_model(n) == Some(h),
{
}

/// A request that routing moves onto a model then selects that model.
pub proof fn lemma_routed_request_selects_its_target(
    r: AgentRunRequest,
    n: AgentRunRequest,
    settings: SubagentRoutingSettings,
    stored: StoredModels,
    has_parent_header: bool,
    h: Seq<char>,
)
    requires
        routed_request(r, n, settings, stored, has_parent_header),
        (if is_subagent_request(r, has_parent_header) {
            settings.apply_to_subagents
        } else {
            settings.apply_to_normal_chats
        }),
        rewrite_target(settings, stored, r, is_subagent_request(r, has_parent_header)) == Some(h),
        h.len() > 0,
    ensures
        explicit_model(n) == Some(h),
{
}
} // verus!
