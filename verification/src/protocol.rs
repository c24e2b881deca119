//! What the library reads of the agent protocol's messages. Enumerations the logic decodes
//! are held decoded, with the raw number kept when the protocol does not define it.
use vstd::prelude::*;

verus! {

/// A protocol enumeration value: one the protocol defines, or an undefined raw number.
#[derive(Clone, Copy, Debug, PartialEq, Eq)]
pub enum ProtoEnum<T> {
    Known(T),
    Unknown(i32),
}

/// The kind of a background task.
#[derive(Clone, Copy, Debug, PartialEq, Eq)]
pub enum BackgroundTaskKind {
    Unspecified,
    Shell,
    Subagent,
}

/// The terminal status of a background task.
#[derive(Clone, Copy, Debug, PartialEq, Eq)]
pub enum BackgroundTaskStatus {
    Unspecified,
    Success,
    Error,
    Aborted,
}

/// Why a background task notification was sent.
#[derive(Clone, Copy, Debug, PartialEq, Eq)]
pub enum BackgroundTaskCompletionReason {
    Unspecified,
    TaskFinished,
    TaskProgress,
    TaskReparented,
}

/// The status of a subagent run.
#[derive(Clone, Copy, Debug, PartialEq, Eq)]
pub enum SubagentRunStatus {
    Unspecified,
    Running,
    Success,
    Error,
    Aborted,
    Backgrounded,
}

/// The protocol name of a background task kind.
pub open spec fn kind_name(kind: BackgroundTaskKind) -> Seq<char> {
    match kind {
        BackgroundTaskKind::Unspecified => "BACKGROUND_TASK_KIND_UNSPECIFIED"@,
        BackgroundTaskKind::Shell => "BACKGROUND_TASK_KIND_SHELL"@,
        BackgroundTaskKind::Subagent => "BACKGROUND_TASK_KIND_SUBAGENT"@,
    }
}

impl BackgroundTaskKind {
    /// The protocol name of the kind.
    pub fn as_str_name(self) -> (r: &'static str)
        ensures
            r@ == kind_name(self),
    {
        match self {
            BackgroundTaskKind::Unspecified => "BACKGROUND_TASK_KIND_UNSPECIFIED",
            BackgroundTaskKind::Shell => "BACKGROUND_TASK_KIND_SHELL",
            BackgroundTaskKind::Subagent => "BACKGROUND_TASK_KIND_SUBAGENT",
        }
    }
}

/// The notification of one background task.
pub struct BackgroundTaskCompletion {
    pub task_id: String,
    pub kind: ProtoEnum<BackgroundTaskKind>,
    pub status: ProtoEnum<BackgroundTaskStatus>,
    pub title: String,
    pub reason: ProtoEnum<BackgroundTaskCompletionReason>,
    pub subagent_id: Option<String>,
    pub tool_call_id: Option<String>,
    pub detail: Option<String>,
    pub output_path: Option<String>,
    pub thread_id: Option<String>,
}

/// A batch of background task notifications.
pub struct BackgroundTaskCompletionAction {
    pub completions: Vec<BackgroundTaskCompletion>,
}

/// The client's record of a subagent run started by a tool call.
pub struct SubagentRunState {
    pub parent_tool_call_id: String,
    pub subagent_id: Option<String>,
    /// Where the subagent runs, as its protocol number.
    pub environment: i32,
    pub status: ProtoEnum<SubagentRunStatus>,
    pub title: Option<String>,
    pub detail: Option<String>,
    pub transcript_path: Option<String>,
    pub output_path: Option<String>,
    pub completed_timestamp_ms: Option<u64>,
    pub completion_reason: Option<ProtoEnum<BackgroundTaskCompletionReason>>,
}

impl SubagentRunState {
    /// A run record with only its tool call, agent and status set.
    pub fn started(
        parent_tool_call_id: String,
        subagent_id: Option<String>,
        status: ProtoEnum<SubagentRunStatus>,
    ) -> (r: SubagentRunState)
        ensures
            r.parent_tool_call_id == parent_tool_call_id,
            r.subagent_id == subagent_id,
            r.status == status,
            r.environment == 0,
            r.title is None,
            r.detail is None,
            r.transcript_path is None,
            r.output_path is None,
            r.completed_timestamp_ms is None,
            r.completion_reason is None,
    {
        SubagentRunState {
            parent_tool_call_id,
            subagent_id,
            environment: 0,
            status,
            title: None,
            detail: None,
            transcript_path: None,
            output_path: None,
            completed_timestamp_ms: None,
            completion_reason: None,
        }
    }
}

/// What the client keeps of a subagent across runs.
pub struct SubagentPersistedState {
    pub created_timestamp_ms: u64,
    pub last_used_timestamp_ms: u64,
    pub subagent_type: String,
    pub model_id: Option<String>,
    pub environment: i32,
    pub machine: Option<String>,
}

/// The token usage a checkpoint reports.
pub struct TokenDetails {
    pub used_tokens: u32,
    pub max_tokens: u32,
    /// The encoded usage tree, if one is attached.
    pub prompt_context_usage_tree: Option<Vec<u8>>,
    pub prompt_context_usage_snapshot_blob_id: Option<Vec<u8>>,
}

/// The client's state of a conversation.
pub struct ConversationStateStructure {
    /// The conversation's mode, as its protocol number.
    pub mode: Option<i32>,
    pub subagent_runs_by_parent_tool_call_id: vstd::hash_map::StringHashMap<SubagentRunState>,
    /// The keys of the runs, each once.
    pub run_keys: Vec<String>,
    pub subagent_states: vstd::hash_map::StringHashMap<SubagentPersistedState>,
    /// The keys of the persisted subagents, each once.
    pub state_keys: Vec<String>,
    pub token_details: Option<TokenDetails>,
    /// The files the conversation has read, each once.
    pub read_paths: Vec<String>,
}

/// Why a message was simulated.
#[derive(Clone, Copy, Debug, PartialEq, Eq)]
pub enum SimulatedMsgReason {
    BackgroundTaskCompletion,
}

/// What a simulated message stands for.
pub struct SimulatedMessageMetadata {
    pub title: Option<String>,
    pub task_id: Option<String>,
}

/// A user message, with its mode as its protocol number.
pub struct UserMessage {
    pub text: String,
    pub message_id: String,
    pub mode: i32,
    pub subagent_system_reminder: Option<String>,
    pub is_simulated_msg: Option<bool>,
    pub simulated_msg_reason: Option<SimulatedMsgReason>,
    pub simulated_message_metadata: Option<SimulatedMessageMetadata>,
}

impl UserMessage {
    /// A plain user message.
    pub fn new(text: &str, message_id: &str, mode: i32) -> (r: UserMessage)
        ensures
            r.text@ == text@,
            r.message_id@ == message_id@,
            r.mode == mode,
            r.subagent_system_reminder is None,
            r.is_simulated_msg is None,
            r.simulated_msg_reason is None,
            r.simulated_message_metadata is None,
    {
        UserMessage {
            text: crate::text::copy(text),
            message_id: crate::text::copy(message_id),
            mode,
            subagent_system_reminder: None,
            is_simulated_msg: None,
            simulated_msg_reason: None,
            simulated_message_metadata: None,
        }
    }
}

/// A user message action: the message and the texts of messages prepended to it.
pub struct UserMessageAction {
    pub user_message: Option<UserMessage>,
    pub prepend_user_messages: Vec<String>,
}

/// An approved plan.
pub struct Plan {
    pub plan: String,
}

/// A request to execute an approved plan.
pub struct ExecutePlanAction {
    pub plan_file_content: Option<String>,
    pub plan: Option<Plan>,
    pub plan_file_uri: Option<String>,
    pub plan_file_path: Option<String>,
    /// The mode to execute in, as its protocol number.
    pub execution_mode: i32,
    pub plan_id: Option<String>,
    pub kickoff_message_id: Option<String>,
}

/// What a run request asks for.
pub enum Action {
    UserMessageAction(UserMessageAction),
    BackgroundTaskCompletionAction(BackgroundTaskCompletionAction),
    ExecutePlanAction(ExecutePlanAction),
    SummarizeAction,
    /// An action this server does not act on.
    Other,
}

/// The action of a run request.
pub struct ConversationAction {
    pub action: Option<Action>,
}

/// A parameter of a requested model, such as its effort.
pub struct ModelParameterValue {
    pub id: String,
    pub value: String,
}

/// A model that a request selects, with its parameters.
pub struct RequestedModel {
    pub model_id: String,
    pub parameters: Vec<ModelParameterValue>,
}

/// The details of the model that a request runs on.
pub struct ModelDetails {
    pub model_id: String,
}

/// What a subagent type runs on: a model of its own, or its parent's.
pub enum SubagentSelection {
    Model(RequestedModel),
    Inherit(bool),
}

/// The model selection of one subagent type.
pub struct SubagentModelOverride {
    pub subagent_type: String,
    pub selection: Option<SubagentSelection>,
}

/// A run request: the client's conversation state, the action and the model selections.
pub struct AgentRunRequest {
    pub conversation_state: Option<ConversationStateStructure>,
    pub action: Option<ConversationAction>,
    pub conversation_id: Option<String>,
    pub conversation_group_id: Option<String>,
    pub subagent_type_name: Option<String>,
    pub requested_model: Option<RequestedModel>,
    pub model_details: Option<ModelDetails>,
    pub subagent_model_overrides: Vec<SubagentModelOverride>,
}

/// Whether `keys` lists exactly the keys of a map, each once.
pub open spec fn lists_keys<V>(keys: Seq<String>, m: Map<Seq<char>, V>) -> bool {
    &&& crate::text::views(keys).no_duplicates()
    &&& forall|k: Seq<char>| #[trigger] m.contains_key(k) <==> crate::text::views(keys).contains(k)
}

proof fn lemma_lists_keys_insert<V>(keys: Seq<String>, m: Map<Seq<char>, V>, k: String, v: V)
    requires
        lists_keys(keys, m),
    ensures
        m.contains_key(k@) ==> lists_keys(keys, m.insert(k@, v)),
        !m.contains_key(k@) ==> lists_keys(keys.push(k), m.insert(k@, v)),
{
    let ks = crate::text::views(keys);
    assert(crate::text::views(keys.push(k)) =~= ks.push(k@));
    if !m.contains_key(k@) {
        let ks2 = ks.push(k@);
        assert forall|x: Seq<char>| #[trigger] ks2.contains(x) <==> (ks.contains(x) || x == k@) by {
            if ks2.contains(x) {
                let j = choose|j: int| 0 <= j < ks2.len() && ks2[j] == x;
                if j < ks.len() {
                    assert(ks[j] == x);
                }
            }
            if ks.contains(x) {
                let j = choose|j: int| 0 <= j < ks.len() && ks[j] == x;
                assert(ks2[j] == x);
            }
            if x == k@ {
                assert(ks2[ks.len() as int] == x);
            }
        }
        assert forall|a: int, b: int| 0 <= a < ks2.len() && 0 <= b < ks2.len() && a != b implies ks2[a]
            != ks2[b] by {
            if a < ks.len() && b < ks.len() {
            } else if a == ks.len() {
                assert(ks.contains(ks2[b]));
            } else {
                assert(ks.contains(ks2[a]));
            }
        }
    }
}

fn push_key(keys: &mut Vec<String>, k: &str)
    ensures
        final(keys)@ == old(keys)@.push(final(keys)@.last()),
        final(keys)@.last()@ == k@,
{
    keys.push(crate::text::copy(k));
}

impl ConversationStateStructure {
    /// The run keys and persisted subagent keys list their maps.
    pub open spec fn keys_listed(&self) -> bool {
        &&& lists_keys(self.run_keys@, self.subagent_runs_by_parent_tool_call_id@)
        &&& lists_keys(self.state_keys@, self.subagent_states@)
    }

    /// A state with a mode, no subagent runs, no persisted subagents and no token details.
    pub fn new(mode: Option<i32>) -> (r: ConversationStateStructure)
        ensures
            r.keys_listed(),
            r.mode == mode,
            r.subagent_runs_by_parent_tool_call_id@ == Map::<Seq<char>, SubagentRunState>::empty(),
            r.subagent_states@ == Map::<Seq<char>, SubagentPersistedState>::empty(),
            r.token_details is None,
            r.read_paths@.len() == 0,
    {
        let r = ConversationStateStructure {
            mode,
            subagent_runs_by_parent_tool_call_id: vstd::hash_map::StringHashMap::new(),
            run_keys: Vec::new(),
            subagent_states: vstd::hash_map::StringHashMap::new(),
            state_keys: Vec::new(),
            token_details: None,
            read_paths: Vec::new(),
        };
        assert(crate::text::views(r.run_keys@) =~= Seq::<Seq<char>>::empty());
        assert(crate::text::views(r.state_keys@) =~= Seq::<Seq<char>>::empty());
        r
    }

    /// Records the subagent run started by a tool call.
    pub fn record_run(&mut self, tool_call_id: String, run: SubagentRunState)
        requires
            old(self).keys_listed(),
        ensures
            final(self).keys_listed(),
            final(self).mode == old(self).mode,
            final(self).subagent_runs_by_parent_tool_call_id@
                == old(self).subagent_runs_by_parent_tool_call_id@.insert(tool_call_id@, run),
            final(self).subagent_states@ == old(self).subagent_states@,
            final(self).token_details == old(self).token_details,
            final(self).state_keys == old(self).state_keys,
            old(self).subagent_runs_by_parent_tool_call_id@.contains_key(tool_call_id@)
                ==> final(self).run_keys == old(self).run_keys,
            !old(self).subagent_runs_by_parent_tool_call_id@.contains_key(tool_call_id@)
                ==> crate::text::views(final(self).run_keys@) == crate::text::views(
                old(self).run_keys@,
            ).push(tool_call_id@),
    {
        proof {
            lemma_lists_keys_insert(
                self.run_keys@,
                self.subagent_runs_by_parent_tool_call_id@,
                tool_call_id,
                run,
            );
        }
        if !self.subagent_runs_by_parent_tool_call_id.contains_key(tool_call_id.as_str()) {
            let ghost before = self.run_keys@;
            push_key(&mut self.run_keys, tool_call_id.as_str());
            proof {
                assert(crate::text::views(self.run_keys@) == crate::text::views(before.push(tool_call_id)))
                    by {
                    assert(crate::text::views(self.run_keys@) =~= crate::text::views(
                        before.push(tool_call_id),
                    ));
                }
            }
        }
        self.subagent_runs_by_parent_tool_call_id.insert(tool_call_id, run);
    }

    /// Records a persisted subagent.
    pub fn record_subagent(&mut self, agent_id: String, state: SubagentPersistedState)
        requires
            old(self).keys_listed(),
        ensures
            final(self).keys_listed(),
            final(self).mode == old(self).mode,
            final(self).subagent_states@ == old(self).subagent_states@.insert(agent_id@, state),
            final(self).subagent_runs_by_parent_tool_call_id@
                == old(self).subagent_runs_by_parent_tool_call_id@,
            final(self).token_details == old(self).token_details,
            final(self).run_keys == old(self).run_keys,
            old(self).subagent_states@.contains_key(agent_id@)
                ==> final(self).state_keys == old(self).state_keys,
    {
        proof {
            lemma_lists_keys_insert(self.state_keys@, self.subagent_states@, agent_id, state);
        }
        if !self.subagent_states.contains_key(agent_id.as_str()) {
            let ghost before = self.state_keys@;
            push_key(&mut self.state_keys, agent_id.as_str());
            proof {
                assert(crate::text::views(self.state_keys@) =~= crate::text::views(
                    before.push(agent_id),
                ));
            }
        }
        self.subagent_states.insert(agent_id, state);
    }
}

/// The text view of a user message.
pub struct UserView {
    pub text: Seq<char>,
    pub message_id: Seq<char>,
    pub mode: i32,
    pub subagent_system_reminder: Option<Seq<char>>,
    pub is_simulated_msg: Option<bool>,
    pub simulated_msg_reason: Option<SimulatedMsgReason>,
    pub simulated_message_metadata: Option<(Option<Seq<char>>, Option<Seq<char>>)>,
}

impl View for UserMessage {
    type V = UserView;

    open spec fn view(&self) -> UserView {
        UserView {
            text: self.text@,
            message_id: self.message_id@,
            mode: self.mode,
            subagent_system_reminder: crate::configuration::opt_view(self.subagent_system_reminder),
            is_simulated_msg: self.is_simulated_msg,
            simulated_msg_reason: self.simulated_msg_reason,
            simulated_message_metadata: match self.simulated_message_metadata {
                Some(m) => Some(
                    (crate::configuration::opt_view(m.title), crate::configuration::opt_view(m.task_id)),
                ),
                None => None,
            },
        }
    }
}

impl UserMessage {
    /// A copy of the message.
    pub fn copy(&self) -> (r: UserMessage)
        ensures
            r@ == self@,
    {
        UserMessage {
            text: crate::text::copy(self.text.as_str()),
            message_id: crate::text::copy(self.message_id.as_str()),
            mode: self.mode,
            subagent_system_reminder: crate::model_config::copy_opt(&self.subagent_system_reminder),
            is_simulated_msg: self.is_simulated_msg,
            simulated_msg_reason: self.simulated_msg_reason,
            simulated_message_metadata: match &self.simulated_message_metadata {
                Some(m) => Some(
                    SimulatedMessageMetadata {
                        title: crate::model_config::copy_opt(&m.title),
                        task_id: crate::model_config::copy_opt(&m.task_id),
                    },
                ),
                None => None,
            },
        }
    }
}

} // verus!
