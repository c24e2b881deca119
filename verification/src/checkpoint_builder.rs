//! What a checkpoint builder knows before it builds: the model and tools a run uses, the
//! conversation state it builds on, and the context window it reports.
use vstd::prelude::*;

use crate::checkpoint::{context_limit, context_limit_of};
use crate::protocol::{ConversationStateStructure, TokenDetails, UserMessage};
use crate::run::ToolDefinition;
use crate::subagent_runs::{
    background_fold, consumed_fold, mark_backgrounded_runs, mark_consumed_runs, ConversationStep,
};
use crate::text::views;

verus! {

/// The state a checkpoint is built from.
pub struct CheckpointBuilder {
    pub parent_tool_call_id: Option<String>,
    pub base: ConversationStateStructure,
    pub model: String,
    pub max_context_tokens: Option<u64>,
    pub instructions: String,
    pub tool_definitions: Vec<ToolDefinition>,
    pub allowed_tools: Vec<String>,
    pub dynamic_tools: Vec<String>,
    pub turn_user: Option<UserMessage>,
    pub turns_initialized: bool,
}

/// A built checkpoint and the (agent, tool call) completions that become safe to suppress
/// only once this checkpoint has been published.
pub struct BuiltCheckpoint {
    pub state: ConversationStateStructure,
    pub consumed_background_completions: Vec<(String, String)>,
}

impl BuiltCheckpoint {
    /// A checkpoint that consumes no completion.
    pub fn without_consumptions(state: ConversationStateStructure) -> (r: BuiltCheckpoint)
        ensures
            r.state == state,
            r.consumed_background_completions@.len() == 0,
    {
        BuiltCheckpoint { state, consumed_background_completions: Vec::new() }
    }
}

/// The names of a list of tools, in order.
pub open spec fn tool_names(tools: Seq<ToolDefinition>) -> Seq<Seq<char>> {
    tools.map_values(|t: ToolDefinition| t.name@)
}

/// A count capped at the largest `u32`.
pub open spec fn capped(n: u64) -> u32 {
    if n > u32::MAX as u64 {
        u32::MAX
    } else {
        n as u32
    }
}

/// The base paths followed by each new path not yet among them, in order.
pub open spec fn merged_paths(base: Seq<Seq<char>>, paths: Seq<Seq<char>>) -> Seq<Seq<char>>
    decreases paths.len(),
{
    if paths.len() == 0 {
        base
    } else {
        let m = merged_paths(base, paths.drop_last());
        if m.contains(paths.last()) {
            m
        } else {
            m.push(paths.last())
        }
    }
}

/// Merging keeps the base in front, holds every path once when the base did, and holds every
/// merged path.
pub proof fn lemma_merged_paths(base: Seq<Seq<char>>, paths: Seq<Seq<char>>)
    ensures
        merged_paths(base, paths).len() >= base.len(),
        merged_paths(base, paths).take(base.len() as int) == base,
        base.no_duplicates() ==> merged_paths(base, paths).no_duplicates(),
        forall|p: Seq<char>| paths.contains(p) || base.contains(p) ==> merged_paths(base, paths).contains(p),
        forall|p: Seq<char>|
            #[trigger] merged_paths(base, paths).contains(p) ==> paths.contains(p) || base.contains(p),
    decreases paths.len(),
{
    if paths.len() > 0 {
        let rest = paths.drop_last();
        lemma_merged_paths(base, rest);
        let m = merged_paths(base, rest);
        assert forall|p: Seq<char>| paths.contains(p) || base.contains(p) implies merged_paths(base, paths).contains(p) by {
            if paths.contains(p) && p != paths.last() {
                let i = choose|i: int| 0 <= i < paths.len() && paths[i] == p;
                assert(rest[i] == p);
                assert(rest.contains(p));
                assert(m.contains(p));
            }
            if base.contains(p) {
                assert(m.contains(p));
            }
            if !m.contains(paths.last()) {
                if m.contains(p) {
                    let i = choose|i: int| 0 <= i < m.len() && m[i] == p;
                    assert(m.push(paths.last())[i] == p);
                }
                assert(m.push(paths.last())[m.len() as int] == paths.last());
            }
        }
        assert forall|p: Seq<char>| #[trigger] merged_paths(base, paths).contains(p) implies paths.contains(p)
            || base.contains(p) by {
            if m.contains(p) {
                if rest.contains(p) {
                    let i = choose|i: int| 0 <= i < rest.len() && rest[i] == p;
                    assert(paths[i] == p);
                }
            } else {
                assert(paths[paths.len() - 1] == p);
            }
        }
        if !m.contains(paths.last()) {
            assert(m.push(paths.last()).take(base.len() as int) =~= m.take(base.len() as int));
        }
    }
}

/// Merging the same paths again changes nothing.
pub proof fn lemma_merging_twice_changes_nothing(base: Seq<Seq<char>>, paths: Seq<Seq<char>>)
    ensures
        merged_paths(merged_paths(base, paths), paths) == merged_paths(base, paths),
    decreases paths.len(),
{
    lemma_merged_paths(base, paths);
    lemma_merged_in_place(merged_paths(base, paths), paths);
}

/// Merging paths that are all present changes nothing.
proof fn lemma_merged_in_place(base: Seq<Seq<char>>, paths: Seq<Seq<char>>)
    requires
        forall|p: Seq<char>| paths.contains(p) ==> base.contains(p),
    ensures
        merged_paths(base, paths) == base,
    decreases paths.len(),
{
    if paths.len() > 0 {
        let rest = paths.drop_last();
        assert forall|p: Seq<char>| rest.contains(p) implies base.contains(p) by {
            let i = choose|i: int| 0 <= i < rest.len() && rest[i] == p;
            assert(paths[i] == p);
        }
        lemma_merged_in_place(base, rest);
        assert(paths.contains(paths[paths.len() - 1]));
    }
}

fn cap(n: u64) -> (r: u32)
    ensures
        r == capped(n),
{
    if n > u32::MAX as u64 {
        u32::MAX
    } else {
        n as u32
    }
}

impl CheckpointBuilder {
    /// A builder for a run, on the client's state (an empty one without it), not configured.
    pub fn new(parent_tool_call_id: Option<String>, base: Option<ConversationStateStructure>) -> (r:
        CheckpointBuilder)
        requires
            base matches Some(b) ==> b.keys_listed(),
        ensures
            r.base.keys_listed(),
            r.parent_tool_call_id == parent_tool_call_id,
            base matches Some(b) ==> r.base == b,
            base is None ==> r.base.mode is None && r.base.token_details is None
                && r.base.subagent_runs_by_parent_tool_call_id@.len() == 0
                && r.base.subagent_states@.len() == 0,
            r.model@.len() == 0,
            r.max_context_tokens is None,
            r.instructions@.len() == 0,
            r.tool_definitions@.len() == 0,
            r.allowed_tools@.len() == 0,
            r.dynamic_tools@.len() == 0,
            r.turn_user is None,
            !r.turns_initialized,
    {
        let base = match base {
            Some(b) => b,
            None => ConversationStateStructure::new(None),
        };
        CheckpointBuilder {
            parent_tool_call_id,
            base,
            model: String::new(),
            max_context_tokens: None,
            instructions: String::new(),
            tool_definitions: Vec::new(),
            allowed_tools: Vec::new(),
            dynamic_tools: Vec::new(),
            turn_user: None,
            turns_initialized: false,
        }
    }

    /// Sets the model, context window, instructions and tools of the run; the allowed tools
    /// are the names of its tool definitions.
    pub fn configure(
        &mut self,
        model: String,
        max_context_tokens: Option<u64>,
        instructions: String,
        tool_definitions: Vec<ToolDefinition>,
        dynamic_tools: Vec<String>,
        turn_user: Option<UserMessage>,
    )
        ensures
            final(self).model == model,
            final(self).max_context_tokens == max_context_tokens,
            final(self).instructions == instructions,
            final(self).tool_definitions@ == tool_definitions@,
            views(final(self).allowed_tools@) == tool_names(tool_definitions@),
            final(self).dynamic_tools@ == dynamic_tools@,
            final(self).turn_user == turn_user,
            final(self).base == old(self).base,
            final(self).parent_tool_call_id == old(self).parent_tool_call_id,
            final(self).turns_initialized == old(self).turns_initialized,
    {
        let mut names: Vec<String> = Vec::new();
        let mut i: usize = 0;
        while i < tool_definitions.len()
            invariant
                i <= tool_definitions.len(),
                views(names@) == tool_names(tool_definitions@.take(i as int)),
            decreases tool_definitions.len() - i,
        {
            let ghost before = names@;
            names.push(crate::text::copy(tool_definitions[i].name.as_str()));
            proof {
                assert(views(names@) =~= views(before).push(tool_definitions@[i as int].name@));
                assert(tool_definitions@.take(i as int + 1) == tool_definitions@.take(i as int).push(
                    tool_definitions@[i as int],
                ));
                assert(tool_names(tool_definitions@.take(i as int + 1)) =~= tool_names(
                    tool_definitions@.take(i as int),
                ).push(tool_definitions@[i as int].name@));
            }
            i = i + 1;
        }
        assert(tool_definitions@.take(tool_definitions.len() as int) == tool_definitions@);
        self.model = model;
        self.max_context_tokens = max_context_tokens;
        self.instructions = instructions;
        self.allowed_tools = names;
        self.tool_definitions = tool_definitions;
        self.dynamic_tools = dynamic_tools;
        self.turn_user = turn_user;
    }

    /// Records the context window (and the tokens used, where known) in the state's token
    /// details: the configured window, else the window the state reported (unless 0), else
    /// the default; both capped at the largest `u32`. The usage breakdown is dropped.
    pub fn record_context_tokens(&mut self, used_tokens: Option<u64>)
        ensures
            final(self).base.mode == old(self).base.mode,
            final(self).base.subagent_runs_by_parent_tool_call_id@
                == old(self).base.subagent_runs_by_parent_tool_call_id@,
            final(self).base.subagent_states@ == old(self).base.subagent_states@,
            final(self).base.run_keys == old(self).base.run_keys,
            final(self).base.state_keys == old(self).base.state_keys,
            final(self).max_context_tokens == old(self).max_context_tokens,
            final(self).base.token_details matches Some(d) && {
                let previous = match old(self).base.token_details {
                    Some(p) => Some(p.max_tokens as u64),
                    None => None,
                };
                &&& d.max_tokens == capped(context_limit_of(old(self).max_context_tokens, previous)->Some_0)
                &&& d.used_tokens == match used_tokens {
                    Some(u) => capped(u),
                    None => match old(self).base.token_details {
                        Some(p) => p.used_tokens,
                        None => 0,
                    },
                }
                &&& d.prompt_context_usage_tree is None
                &&& d.prompt_context_usage_snapshot_blob_id is None
            },
    {
        let previous = match &self.base.token_details {
            Some(details) => Some(details.max_tokens as u64),
            None => None,
        };
        let max_tokens = match context_limit(self.max_context_tokens, previous) {
            Some(m) => m,
            None => {
                return;
            },
        };
        let used_before = match &self.base.token_details {
            Some(details) => details.used_tokens,
            None => 0,
        };
        let used = match used_tokens {
            Some(u) => cap(u),
            None => used_before,
        };
        self.base.token_details = Some(
            TokenDetails {
                used_tokens: used,
                max_tokens: cap(max_tokens),
                prompt_context_usage_tree: None,
                prompt_context_usage_snapshot_blob_id: None,
            },
        );
    }

    /// Records the agents the presented steps sent to the background (see [`background_fold`]).
    pub fn record_background_subagents(&mut self, steps: &[ConversationStep], now_ms: u64)
        requires
            old(self).base.keys_listed(),
        ensures
            final(self).base.keys_listed(),
            (final(self).base.subagent_runs_by_parent_tool_call_id@, final(self).base.subagent_states@)
                == background_fold(
                old(self).base.subagent_runs_by_parent_tool_call_id@,
                old(self).base.subagent_states@,
                steps@,
                now_ms,
            ),
    {
        mark_backgrounded_runs(&mut self.base, steps, now_ms);
    }

    /// Ends the runs whose terminal result a presented step consumed (see [`consumed_fold`]);
    /// returns the consumed (agent, tool call) pairs, which become safe to suppress once this
    /// checkpoint is published.
    pub fn record_consumed_subagent_completions(&mut self, steps: &[ConversationStep], now_ms: u64) -> (r:
        Vec<(String, String)>)
        requires
            old(self).base.keys_listed(),
        ensures
            final(self).base.keys_listed(),
            (final(self).base.subagent_runs_by_parent_tool_call_id@, r@.map_values(
                |p: (String, String)| (p.0@, p.1@),
            )) == consumed_fold(
                old(self).base.subagent_runs_by_parent_tool_call_id@,
                views(old(self).base.run_keys@),
                steps@,
                now_ms,
            ),
    {
        mark_consumed_runs(&mut self.base, steps, now_ms)
    }

    /// Adds the files a presentation read to the base, in order, each file once.
    pub fn record_read_paths(&mut self, paths: &Vec<String>)
        ensures
            views(final(self).base.read_paths@) == merged_paths(views(old(self).base.read_paths@), views(paths@)),
            final(self).base.mode == old(self).base.mode,
            final(self).base.subagent_runs_by_parent_tool_call_id@ == old(self).base.subagent_runs_by_parent_tool_call_id@,
            final(self).base.subagent_states@ == old(self).base.subagent_states@,
            final(self).base.run_keys == old(self).base.run_keys,
            final(self).base.state_keys == old(self).base.state_keys,
            final(self).base.token_details == old(self).base.token_details,
    {
        let mut i: usize = 0;
        while i < paths.len()
            invariant
                i <= paths@.len(),
                views(self.base.read_paths@) == merged_paths(views(old(self).base.read_paths@), views(paths@).take(i as int)),
                self.base.mode == old(self).base.mode,
                self.base.subagent_runs_by_parent_tool_call_id@ == old(self).base.subagent_runs_by_parent_tool_call_id@,
                self.base.subagent_states@ == old(self).base.subagent_states@,
                self.base.run_keys == old(self).base.run_keys,
                self.base.state_keys == old(self).base.state_keys,
                self.base.token_details == old(self).base.token_details,
            decreases paths@.len() - i,
        {
            assert(views(paths@).take(i + 1).drop_last() =~= views(paths@).take(i as int));
            let ghost before = self.base.read_paths@;
            if !crate::text::contains_str(&self.base.read_paths, paths[i].as_str()) {
                self.base.read_paths.push(paths[i].clone());
                assert(views(self.base.read_paths@) =~= views(before).push(paths@[i as int]@));
            }
            i = i + 1;
        }
        assert(views(paths@).take(paths@.len() as int) =~= views(paths@));
    }
}

} // verus!
