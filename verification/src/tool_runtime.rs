//! The tool calls a run has handed to the client: each gets a fresh message id; output is
//! collected per call until its result comes back; taken calls are remembered as completed;
//! and an interrupt aborts the running calls and mutes their late events.
use vstd::prelude::*;

use crate::error::{is_protocol, Error};
use crate::run::ToolDefinition;
use crate::runtime::{ExecContext, ToolCall};
use crate::text::lower;

verus! {

/// Whether an id has an entry.
pub open spec fn has_id<T>(entries: Seq<(u32, T)>, id: u32) -> bool {
    exists|i: int| 0 <= i < entries.len() && (#[trigger] entries[i]).0 == id
}

/// The value of an id that has an entry.
pub open spec fn at_id<T>(entries: Seq<(u32, T)>, id: u32) -> T {
    entries[choose|i: int| 0 <= i < entries.len() && (#[trigger] entries[i]).0 == id].1
}

/// The entries as a map from id to value.
pub open spec fn id_map<T>(entries: Seq<(u32, T)>) -> Map<u32, T> {
    Map::new(|id: u32| has_id(entries, id), |id: u32| at_id(entries, id))
}

/// Each id has at most one entry.
pub open spec fn distinct_ids<T>(entries: Seq<(u32, T)>) -> bool {
    forall|i: int, j: int| 0 <= i < j < entries.len() ==> (#[trigger] entries[i]).0 != (#[trigger] entries[j]).0
}

/// The entry at an index is the entry of its id.
proof fn lemma_id_at<T>(entries: Seq<(u32, T)>, i: int)
    requires
        distinct_ids(entries),
        0 <= i < entries.len(),
    ensures
        has_id(entries, entries[i].0),
        at_id(entries, entries[i].0) == entries[i].1,
{
    let id = entries[i].0;
    assert(entries[i].0 == id);
    let j = choose|j: int| 0 <= j < entries.len() && (#[trigger] entries[j]).0 == id;
    if j < i {
        assert(entries[j].0 != entries[i].0);
    } else if i < j {
        assert(entries[i].0 != entries[j].0);
    }
}

/// The index of an id's entry.
fn find_id<T>(entries: &Vec<(u32, T)>, id: u32) -> (r: Option<usize>)
    ensures
        match r {
            Some(i) => i < entries@.len() && entries@[i as int].0 == id,
            None => !has_id(entries@, id),
        },
{
    let mut i: usize = 0;
    while i < entries.len()
        invariant
            i <= entries@.len(),
            forall|j: int| 0 <= j < i ==> (#[trigger] entries@[j]).0 != id,
        decreases entries@.len() - i,
    {
        if entries[i].0 == id {
            return Some(i);
        }
        i = i + 1;
    }
    None
}

/// Sets the value of an id, adding an entry where it has none.
fn put_id<T>(entries: &mut Vec<(u32, T)>, id: u32, value: T)
    requires
        distinct_ids(old(entries)@),
    ensures
        distinct_ids(final(entries)@),
        id_map(final(entries)@) == id_map(old(entries)@).insert(id, value),
{
    let ghost before = entries@;
    match find_id(entries, id) {
        Some(i) => {
            entries.set(i, (id, value));
            let ghost after = entries@;
            assert(after == before.update(i as int, (id, value)));
            assert forall|a: int, b: int| 0 <= a < b < after.len() implies (#[trigger] after[a]).0 != (
            #[trigger] after[b]).0 by {
                assert(before[a].0 != before[b].0);
            }
            assert forall|k: u32| #[trigger] id_map(after).contains_key(k) == id_map(before).insert(id, value).contains_key(k)
                && (id_map(after).contains_key(k) ==> id_map(after)[k] == id_map(before).insert(id, value)[k]) by {
                if k == id {
                    lemma_id_at(after, i as int);
                    lemma_id_at(before, i as int);
                } else {
                    if has_id(before, k) {
                        let j = choose|j: int| 0 <= j < before.len() && (#[trigger] before[j]).0 == k;
                        lemma_id_at(before, j);
                        lemma_id_at(after, j);
                    }
                    if has_id(after, k) {
                        let j = choose|j: int| 0 <= j < after.len() && (#[trigger] after[j]).0 == k;
                        assert(after[j] == before[j]);
                    }
                }
            }
            assert(id_map(after) =~= id_map(before).insert(id, value));
        },
        None => {
            entries.push((id, value));
            let ghost after = entries@;
            assert forall|a: int, b: int| 0 <= a < b < after.len() implies (#[trigger] after[a]).0 != (
            #[trigger] after[b]).0 by {
                if b == after.len() - 1 {
                    assert(after[a] == before[a]);
                } else {
                    assert(after[a] == before[a] && after[b] == before[b]);
                }
            }
            assert forall|k: u32| #[trigger] id_map(after).contains_key(k) == id_map(before).insert(id, value).contains_key(k)
                && (id_map(after).contains_key(k) ==> id_map(after)[k] == id_map(before).insert(id, value)[k]) by {
                if k == id {
                    lemma_id_at(after, after.len() - 1);
                } else {
                    if has_id(before, k) {
                        let j = choose|j: int| 0 <= j < before.len() && (#[trigger] before[j]).0 == k;
                        assert(after[j] == before[j]);
                        lemma_id_at(before, j);
                        lemma_id_at(after, j);
                    }
                    if has_id(after, k) {
                        let j = choose|j: int| 0 <= j < after.len() && (#[trigger] after[j]).0 == k;
                        assert(after[j] == before[j]);
                    }
                }
            }
            assert(id_map(after) =~= id_map(before).insert(id, value));
        },
    }
}

/// Takes out the value of an id, if it has one.
fn take_id<T>(entries: &mut Vec<(u32, T)>, id: u32) -> (r: Option<T>)
    requires
        distinct_ids(old(entries)@),
    ensures
        distinct_ids(final(entries)@),
        id_map(final(entries)@) == id_map(old(entries)@).remove(id),
        match r {
            Some(v) => id_map(old(entries)@).contains_key(id) && v == id_map(old(entries)@)[id],
            None => !id_map(old(entries)@).contains_key(id),
        },
{
    let ghost before = entries@;
    match find_id(entries, id) {
        Some(i) => {
            proof {
                lemma_id_at(before, i as int);
            }
            let (_, value) = entries.remove(i);
            let ghost after = entries@;
            assert forall|a: int| 0 <= a < after.len() implies #[trigger] after[a] == before[
                if a < i {
                    a
                } else {
                    a + 1
                }
            ] by {}
            assert forall|a: int, b: int| 0 <= a < b < after.len() implies (#[trigger] after[a]).0 != (
            #[trigger] after[b]).0 by {
                let ia = if a < i {
                    a
                } else {
                    a + 1
                };
                let ib = if b < i {
                    b
                } else {
                    b + 1
                };
                assert(after[a] == before[ia] && after[b] == before[ib]);
            }
            assert forall|k: u32| #[trigger] id_map(after).contains_key(k) == id_map(before).remove(id).contains_key(k)
                && (id_map(after).contains_key(k) ==> id_map(after)[k] == id_map(before).remove(id)[k]) by {
                if has_id(after, k) {
                    let j = choose|j: int| 0 <= j < after.len() && (#[trigger] after[j]).0 == k;
                    let jb = if j < i {
                        j
                    } else {
                        j + 1
                    };
                    assert(after[j] == before[jb]);
                    assert(jb != i);
                    if jb < i {
                        assert(before[jb].0 != before[i as int].0);
                    } else {
                        assert(before[i as int].0 != before[jb].0);
                    }
                    lemma_id_at(before, jb);
                    lemma_id_at(after, j);
                }
                if has_id(before, k) && k != id {
                    let j = choose|j: int| 0 <= j < before.len() && (#[trigger] before[j]).0 == k;
                    assert(j != i);
                    let ja = if j < i {
                        j
                    } else {
                        j - 1
                    };
                    assert(after[ja] == before[j]);
                }
            }
            assert(id_map(after) =~= id_map(before).remove(id));
            Some(value)
        },
        None => {
            assert(id_map(before) =~= id_map(before).remove(id));
            None
        },
    }
}

/// Whether ids are in strictly increasing order.
pub open spec fn ascending(ids: Seq<u32>) -> bool {
    forall|i: int, j: int| 0 <= i < j < ids.len() ==> ids[i] < ids[j]
}

/// The ids of some entries, in increasing order.
fn sorted_ids<T>(entries: &Vec<(u32, T)>) -> (r: Vec<u32>)
    requires
        distinct_ids(entries@),
    ensures
        ascending(r@),
        r@.to_set() == id_map(entries@).dom(),
{
    let mut out: Vec<u32> = Vec::new();
    let mut i: usize = 0;
    while i < entries.len()
        invariant
            i <= entries@.len(),
            distinct_ids(entries@),
            ascending(out@),
            forall|x: u32| out@.contains(x) <==> has_id(entries@.take(i as int), x),
        decreases entries@.len() - i,
    {
        let id = entries[i].0;
        let mut p: usize = 0;
        while p < out.len() && out[p] < id
            invariant
                p <= out@.len(),
                forall|a: int| 0 <= a < p ==> out@[a] < id,
            decreases out@.len() - p,
        {
            p = p + 1;
        }
        proof {
            if out@.contains(id) {
                let j = choose|j: int| 0 <= j < i && (#[trigger] entries@.take(i as int)[j]).0 == id;
                assert(entries@[j].0 == id);
                assert(entries@[j].0 != entries@[i as int].0);
            }
            if p < out@.len() {
                assert(out@[p as int] != id);
            }
        }
        let ghost before = out@;
        out.insert(p, id);
        proof {
            let after = out@;
            assert(after == before.insert(p as int, id));
            assert forall|a: int, b: int| 0 <= a < b < after.len() implies after[a] < after[b] by {
                if a < p && b < p {
                    assert(after[a] == before[a] && after[b] == before[b]);
                } else if a < p && b == p {
                    assert(after[a] == before[a]);
                } else if a < p {
                    assert(after[a] == before[a] && after[b] == before[b - 1]);
                    assert(before[a] < id);
                    assert(before[p as int] > id || before[p as int] == before[b - 1] || before[p as int] < before[b - 1]);
                    if b - 1 > p {
                        assert(before[p as int] < before[b - 1]);
                    }
                } else if a == p {
                    assert(after[b] == before[b - 1]);
                    if b - 1 > p {
                        assert(before[p as int] < before[b - 1]);
                    }
                } else {
                    assert(after[a] == before[a - 1] && after[b] == before[b - 1]);
                }
            }
            let prefix = entries@.take(i + 1);
            assert forall|x: u32| after.contains(x) <==> has_id(prefix, x) by {
                if after.contains(x) {
                    let k = choose|k: int| 0 <= k < after.len() && after[k] == x;
                    if k == p {
                        assert(prefix[i as int].0 == x);
                    } else {
                        let kb = if k < p {
                            k
                        } else {
                            k - 1
                        };
                        assert(before[kb] == x);
                        assert(before.contains(x));
                        let j = choose|j: int| 0 <= j < i && (#[trigger] entries@.take(i as int)[j]).0 == x;
                        assert(prefix[j].0 == x);
                    }
                }
                if has_id(prefix, x) {
                    let j = choose|j: int| 0 <= j < prefix.len() && (#[trigger] prefix[j]).0 == x;
                    if j == i {
                        assert(after[p as int] == x);
                    } else {
                        assert(entries@.take(i as int)[j].0 == x);
                        assert(has_id(entries@.take(i as int), x));
                        assert(before.contains(x));
                        let k = choose|k: int| 0 <= k < before.len() && before[k] == x;
                        if k < p {
                            assert(after[k] == x);
                        } else {
                            assert(after[k + 1] == x);
                        }
                    }
                }
            }
        }
        i = i + 1;
    }
    assert(entries@.take(entries@.len() as int) =~= entries@);
    assert(out@.to_set() =~= id_map(entries@).dom());
    out
}

/// A file write that an edit stages before the client performs it.
pub struct EditWrite {
    pub path: String,
    pub contents: String,
}

/// What stage of its work a pending call is at.
pub enum ExecStage {
    Direct,
    DynamicMcp(ToolDefinition),
    EditRead,
    EditWrite(EditWrite),
}

/// A call the client executes: the call, the run's tool context, when it started, the output
/// so far and its stage.
pub struct PendingExec {
    pub call: ToolCall,
    pub context: ExecContext,
    pub started_at_ms: u64,
    pub stdout: String,
    pub stderr: String,
    pub stage: ExecStage,
}

/// A call the user answers.
pub struct PendingInteraction {
    pub call: ToolCall,
    pub started_at_ms: u64,
}

/// The calls of a run handed to the client, by message id.
pub struct CursorToolRuntime {
    /// The last message id handed out; ids are shared by the runs of a conversation.
    pub last_id: u32,
    pub execs: Vec<(u32, PendingExec)>,
    pub interactions: Vec<(u32, PendingInteraction)>,
    /// The calls already taken, by id, with their call ids.
    pub completed: Vec<(u32, String)>,
    /// The calls whose late events are muted.
    pub interrupted: Vec<(u32, ())>,
}

/// Whether a tool call is a Task (any ASCII case).
pub open spec fn is_task(call: ToolCall) -> bool {
    lower(call.name@) == "task"@
}

/// The message id after `last`: one more, or an exhausted id space at the largest id.
pub open spec fn next_id_after(last: u32) -> Option<u32> {
    if last < u32::MAX {
        Some((last + 1) as u32)
    } else {
        None
    }
}

/// The counter after an id was asked for: one more, wrapping at the largest id.
pub open spec fn counter_after(last: u32) -> u32 {
    if last < u32::MAX {
        (last + 1) as u32
    } else {
        0
    }
}

/// Whether `p` is the pending exec of a reservation.
pub open spec fn reserved_exec(p: PendingExec, call: ToolCall, started_at_ms: u64) -> bool {
    &&& p.call == call
    &&& p.started_at_ms == started_at_ms
    &&& p.stdout@ == Seq::<char>::empty()
    &&& p.stderr@ == Seq::<char>::empty()
}

/// Whether `new` is `old` with `data` added to the standard (or error) output of the exec `id`.
pub open spec fn appended(
    old: Map<u32, PendingExec>,
    new: Map<u32, PendingExec>,
    id: u32,
    data: Seq<char>,
    to_stdout: bool,
) -> bool {
    &&& new.remove(id) == old.remove(id)
    &&& new.contains_key(id)
    &&& new[id].call == old[id].call
    &&& new[id].context == old[id].context
    &&& new[id].started_at_ms == old[id].started_at_ms
    &&& new[id].stage == old[id].stage
    &&& if to_stdout {
        new[id].stdout@ == old[id].stdout@ + data && new[id].stderr == old[id].stderr
    } else {
        new[id].stderr@ == old[id].stderr@ + data && new[id].stdout == old[id].stdout
    }
}

/// The ids of a map of execs whose call is a Task.
pub open spec fn task_in(execs: Map<u32, PendingExec>) -> spec_fn(u32) -> bool {
    |id: u32| is_task(execs[id].call)
}

/// The ids of a map of execs whose call is not a Task.
pub open spec fn not_task_in(execs: Map<u32, PendingExec>) -> spec_fn(u32) -> bool {
    |id: u32| !is_task(execs[id].call)
}

/// Whether `id` is a pending Task with the call id `call_id`.
pub open spec fn running_task(execs: Map<u32, PendingExec>, id: u32, call_id: Seq<char>) -> bool {
    &&& execs.contains_key(id)
    &&& execs[id].call.call_id@ == call_id
    &&& is_task(execs[id].call)
}

impl CursorToolRuntime {
    /// The pending execs by id.
    pub open spec fn exec_map(&self) -> Map<u32, PendingExec> {
        id_map(self.execs@)
    }

    /// The pending interactions by id.
    pub open spec fn interaction_map(&self) -> Map<u32, PendingInteraction> {
        id_map(self.interactions@)
    }

    /// The taken calls by id.
    pub open spec fn completed_map(&self) -> Map<u32, String> {
        id_map(self.completed@)
    }

    /// The muted ids.
    pub open spec fn muted(&self) -> Set<u32> {
        id_map(self.interrupted@).dom()
    }

    /// Every list has at most one entry per id.
    pub open spec fn well_formed(&self) -> bool {
        &&& distinct_ids(self.execs@)
        &&& distinct_ids(self.interactions@)
        &&& distinct_ids(self.completed@)
        &&& distinct_ids(self.interrupted@)
    }

    /// A runtime with no calls, before the first id.
    pub fn new() -> (r: CursorToolRuntime)
        ensures
            r.well_formed(),
            r.last_id == 0,
            r.exec_map() == Map::<u32, PendingExec>::empty(),
            r.interaction_map() == Map::<u32, PendingInteraction>::empty(),
            r.completed_map() == Map::<u32, String>::empty(),
            r.muted() == Set::<u32>::empty(),
    {
        let r = CursorToolRuntime {
            last_id: 0,
            execs: Vec::new(),
            interactions: Vec::new(),
            completed: Vec::new(),
            interrupted: Vec::new(),
        };
        assert(r.exec_map() =~= Map::<u32, PendingExec>::empty());
        assert(r.interaction_map() =~= Map::<u32, PendingInteraction>::empty());
        assert(r.completed_map() =~= Map::<u32, String>::empty());
        assert(r.muted() =~= Set::<u32>::empty());
        r
    }

    /// The runtime of the conversation's next run: no calls, the same id counter and muted ids.
    pub fn next_run(&mut self)
        requires
            old(self).well_formed(),
        ensures
            final(self).well_formed(),
            final(self).last_id == old(self).last_id,
            final(self).exec_map() == Map::<u32, PendingExec>::empty(),
            final(self).interaction_map() == Map::<u32, PendingInteraction>::empty(),
            final(self).completed_map() == Map::<u32, String>::empty(),
            final(self).muted() == old(self).muted(),
    {
        self.execs = Vec::new();
        self.interactions = Vec::new();
        self.completed = Vec::new();
        assert(self.exec_map() =~= Map::<u32, PendingExec>::empty());
        assert(self.interaction_map() =~= Map::<u32, PendingInteraction>::empty());
        assert(self.completed_map() =~= Map::<u32, String>::empty());
    }

    /// A fresh message id: one more than the last, unless the id space is exhausted.
    pub fn next_id(&mut self) -> (r: Result<u32, Error>)
        ensures
            final(self).last_id == counter_after(old(self).last_id),
            final(self).execs == old(self).execs,
            final(self).interactions == old(self).interactions,
            final(self).completed == old(self).completed,
            final(self).interrupted == old(self).interrupted,
            match next_id_after(old(self).last_id) {
                Some(id) => r == Ok::<u32, Error>(id),
                None => r matches Err(e) && is_protocol(e, "Cursor message id space exhausted"@),
            },
    {
        if self.last_id < u32::MAX {
            self.last_id = self.last_id + 1;
            Ok(self.last_id)
        } else {
            self.last_id = 0;
            Err(crate::error::protocol_message("Cursor message id space exhausted"))
        }
    }

    /// Reserves a message id for a call the client executes at the given stage.
    pub fn reserve_exec_stage(
        &mut self,
        call: ToolCall,
        context: ExecContext,
        stage: ExecStage,
        started_at_ms: u64,
    ) -> (r: Result<u32, Error>)
        requires
            old(self).well_formed(),
        ensures
            final(self).well_formed(),
            final(self).last_id == counter_after(old(self).last_id),
            final(self).interaction_map() == old(self).interaction_map(),
            final(self).completed_map() == old(self).completed_map(),
            final(self).muted() == old(self).muted(),
            match next_id_after(old(self).last_id) {
                Some(id) => r == Ok::<u32, Error>(id) && final(self).exec_map().remove(id) == old(
                    self,
                ).exec_map().remove(id) && final(self).exec_map().contains_key(id) && reserved_exec(
                    final(self).exec_map()[id],
                    call,
                    started_at_ms,
                ) && final(self).exec_map()[id].stage == stage,
                None => r matches Err(e) && is_protocol(e, "Cursor message id space exhausted"@)
                    && final(self).exec_map() == old(self).exec_map(),
            },
    {
        let id = match self.next_id() {
            Ok(id) => id,
            Err(e) => {
                return Err(e);
            },
        };
        let ghost before = self.exec_map();
        put_id(
            &mut self.execs,
            id,
            PendingExec { call, context, started_at_ms, stdout: String::new(), stderr: String::new(), stage },
        );
        assert(self.exec_map().remove(id) =~= before.remove(id));
        Ok(id)
    }

    /// Reserves a message id for a call the client executes directly.
    pub fn reserve_exec(&mut self, call: ToolCall, context: ExecContext, started_at_ms: u64) -> (r: Result<
        u32,
        Error,
    >)
        requires
            old(self).well_formed(),
        ensures
            final(self).well_formed(),
            final(self).last_id == counter_after(old(self).last_id),
            final(self).interaction_map() == old(self).interaction_map(),
            final(self).completed_map() == old(self).completed_map(),
            final(self).muted() == old(self).muted(),
            match next_id_after(old(self).last_id) {
                Some(id) => r == Ok::<u32, Error>(id) && final(self).exec_map().remove(id) == old(
                    self,
                ).exec_map().remove(id) && final(self).exec_map().contains_key(id) && reserved_exec(
                    final(self).exec_map()[id],
                    call,
                    started_at_ms,
                ) && final(self).exec_map()[id].stage is Direct,
                None => r matches Err(e) && is_protocol(e, "Cursor message id space exhausted"@)
                    && final(self).exec_map() == old(self).exec_map(),
            },
    {
        self.reserve_exec_stage(call, context, ExecStage::Direct, started_at_ms)
    }

    /// Reserves a message id for a call the user answers.
    pub fn reserve_interaction(&mut self, call: ToolCall, started_at_ms: u64) -> (r: Result<u32, Error>)
        requires
            old(self).well_formed(),
        ensures
            final(self).well_formed(),
            final(self).last_id == counter_after(old(self).last_id),
            final(self).exec_map() == old(self).exec_map(),
            final(self).completed_map() == old(self).completed_map(),
            final(self).muted() == old(self).muted(),
            match next_id_after(old(self).last_id) {
                Some(id) => r == Ok::<u32, Error>(id) && final(self).interaction_map() == old(
                    self,
                ).interaction_map().insert(id, PendingInteraction { call, started_at_ms }),
                None => r matches Err(e) && is_protocol(e, "Cursor message id space exhausted"@)
                    && final(self).interaction_map() == old(self).interaction_map(),
            },
    {
        let id = match self.next_id() {
            Ok(id) => id,
            Err(e) => {
                return Err(e);
            },
        };
        put_id(&mut self.interactions, id, PendingInteraction { call, started_at_ms });
        Ok(id)
    }

    /// Reserves a message id for a dynamic MCP tool call.
    pub fn reserve_dynamic_mcp(
        &mut self,
        call: ToolCall,
        context: ExecContext,
        definition: ToolDefinition,
        started_at_ms: u64,
    ) -> (r: Result<u32, Error>)
        requires
            old(self).well_formed(),
        ensures
            final(self).well_formed(),
            final(self).last_id == counter_after(old(self).last_id),
            final(self).interaction_map() == old(self).interaction_map(),
            final(self).completed_map() == old(self).completed_map(),
            final(self).muted() == old(self).muted(),
            match next_id_after(old(self).last_id) {
                Some(id) => r == Ok::<u32, Error>(id) && final(self).exec_map().remove(id) == old(
                    self,
                ).exec_map().remove(id) && final(self).exec_map().contains_key(id) && reserved_exec(
                    final(self).exec_map()[id],
                    call,
                    started_at_ms,
                ) && final(self).exec_map()[id].stage == ExecStage::DynamicMcp(definition),
                None => r matches Err(e) && is_protocol(e, "Cursor message id space exhausted"@)
                    && final(self).exec_map() == old(self).exec_map(),
            },
    {
        self.reserve_exec_stage(call, context, ExecStage::DynamicMcp(definition), started_at_ms)
    }

    /// Reserves a message id for the read that starts an edit.
    pub fn reserve_edit_read(&mut self, call: ToolCall, context: ExecContext, started_at_ms: u64) -> (r:
        Result<u32, Error>)
        requires
            old(self).well_formed(),
        ensures
            final(self).well_formed(),
            final(self).last_id == counter_after(old(self).last_id),
            final(self).interaction_map() == old(self).interaction_map(),
            final(self).completed_map() == old(self).completed_map(),
            final(self).muted() == old(self).muted(),
            match next_id_after(old(self).last_id) {
                Some(id) => r == Ok::<u32, Error>(id) && final(self).exec_map().remove(id) == old(
                    self,
                ).exec_map().remove(id) && final(self).exec_map().contains_key(id) && reserved_exec(
                    final(self).exec_map()[id],
                    call,
                    started_at_ms,
                ) && final(self).exec_map()[id].stage is EditRead,
                None => r matches Err(e) && is_protocol(e, "Cursor message id space exhausted"@)
                    && final(self).exec_map() == old(self).exec_map(),
            },
    {
        self.reserve_exec_stage(call, context, ExecStage::EditRead, started_at_ms)
    }

    /// Reserves a message id for the write that ends an edit; it keeps the edit's start time.
    pub fn reserve_edit_write(
        &mut self,
        call: ToolCall,
        context: ExecContext,
        write: EditWrite,
        started_at_ms: u64,
    ) -> (r: Result<u32, Error>)
        requires
            old(self).well_formed(),
        ensures
            final(self).well_formed(),
            final(self).last_id == counter_after(old(self).last_id),
            final(self).interaction_map() == old(self).interaction_map(),
            final(self).completed_map() == old(self).completed_map(),
            final(self).muted() == old(self).muted(),
            match next_id_after(old(self).last_id) {
                Some(id) => r == Ok::<u32, Error>(id) && final(self).exec_map().remove(id) == old(
                    self,
                ).exec_map().remove(id) && final(self).exec_map().contains_key(id) && reserved_exec(
                    final(self).exec_map()[id],
                    call,
                    started_at_ms,
                ) && final(self).exec_map()[id].stage == ExecStage::EditWrite(write),
                None => r matches Err(e) && is_protocol(e, "Cursor message id space exhausted"@)
                    && final(self).exec_map() == old(self).exec_map(),
            },
    {
        self.reserve_exec_stage(call, context, ExecStage::EditWrite(write), started_at_ms)
    }

    /// The call of a pending exec.
    pub fn exec_call(&self, id: u32) -> (r: Option<&ToolCall>)
        requires
            self.well_formed(),
        ensures
            match r {
                Some(call) => self.exec_map().contains_key(id) && *call == self.exec_map()[id].call,
                None => !self.exec_map().contains_key(id),
            },
    {
        match find_id(&self.execs, id) {
            Some(i) => {
                proof {
                    lemma_id_at(self.execs@, i as int);
                }
                Some(&self.execs[i].1.call)
            },
            None => None,
        }
    }

    /// Adds output to a pending exec; whether it is pending.
    fn append_output(&mut self, id: u32, data: &str, to_stdout: bool) -> (r: bool)
        requires
            old(self).well_formed(),
        ensures
            final(self).well_formed(),
            r == old(self).exec_map().contains_key(id),
            !r ==> *final(self) == *old(self),
            r ==> appended(old(self).exec_map(), final(self).exec_map(), id, data@, to_stdout),
            final(self).last_id == old(self).last_id,
            final(self).interactions == old(self).interactions,
            final(self).completed == old(self).completed,
            final(self).interrupted == old(self).interrupted,
    {
        let ghost before = self.exec_map();
        if find_id(&self.execs, id).is_none() {
            return false;
        }
        match take_id(&mut self.execs, id) {
            Some(mut pending) => {
                if to_stdout {
                    crate::text::push_str(&mut pending.stdout, data);
                } else {
                    crate::text::push_str(&mut pending.stderr, data);
                }
                put_id(&mut self.execs, id, pending);
                assert(self.exec_map().remove(id) =~= before.remove(id));
                true
            },
            None => false,
        }
    }

    /// Adds standard output to a pending exec; whether it is pending.
    pub fn append_stdout(&mut self, id: u32, data: &str) -> (r: bool)
        requires
            old(self).well_formed(),
        ensures
            final(self).well_formed(),
            r == old(self).exec_map().contains_key(id),
            !r ==> *final(self) == *old(self),
            r ==> appended(old(self).exec_map(), final(self).exec_map(), id, data@, true),
            final(self).last_id == old(self).last_id,
            final(self).interactions == old(self).interactions,
            final(self).completed == old(self).completed,
            final(self).interrupted == old(self).interrupted,
    {
        self.append_output(id, data, true)
    }

    /// Adds error output to a pending exec; whether it is pending.
    pub fn append_stderr(&mut self, id: u32, data: &str) -> (r: bool)
        requires
            old(self).well_formed(),
        ensures
            final(self).well_formed(),
            r == old(self).exec_map().contains_key(id),
            !r ==> *final(self) == *old(self),
            r ==> appended(old(self).exec_map(), final(self).exec_map(), id, data@, false),
            final(self).last_id == old(self).last_id,
            final(self).interactions == old(self).interactions,
            final(self).completed == old(self).completed,
            final(self).interrupted == old(self).interrupted,
    {
        self.append_output(id, data, false)
    }

    /// Takes a pending exec, remembering its call as completed.
    pub fn take_exec(&mut self, id: u32) -> (r: Option<PendingExec>)
        requires
            old(self).well_formed(),
        ensures
            final(self).well_formed(),
            final(self).last_id == old(self).last_id,
            final(self).exec_map() == old(self).exec_map().remove(id),
            final(self).interaction_map() == old(self).interaction_map(),
            final(self).muted() == old(self).muted(),
            match r {
                Some(p) => old(self).exec_map().contains_key(id) && p == old(self).exec_map()[id]
                    && final(self).completed_map().remove(id) == old(self).completed_map().remove(id)
                    && final(self).completed_map().contains_key(id)
                    && final(self).completed_map()[id]@ == p.call.call_id@,
                None => !old(self).exec_map().contains_key(id) && final(self).completed_map() == old(
                    self,
                ).completed_map(),
            },
    {
        let taken = take_id(&mut self.execs, id);
        if let Some(p) = &taken {
            let ghost before = self.completed_map();
            put_id(&mut self.completed, id, p.call.call_id.clone());
            assert(self.completed_map().remove(id) =~= before.remove(id));
        }
        taken
    }

    /// Takes a pending interaction, remembering its call as completed.
    pub fn take_interaction(&mut self, id: u32) -> (r: Option<PendingInteraction>)
        requires
            old(self).well_formed(),
        ensures
            final(self).well_formed(),
            final(self).last_id == old(self).last_id,
            final(self).exec_map() == old(self).exec_map(),
            final(self).interaction_map() == old(self).interaction_map().remove(id),
            final(self).muted() == old(self).muted(),
            match r {
                Some(p) => old(self).interaction_map().contains_key(id) && p == old(
                    self,
                ).interaction_map()[id] && final(self).completed_map().remove(id) == old(
                    self,
                ).completed_map().remove(id) && final(self).completed_map().contains_key(id)
                    && final(self).completed_map()[id]@ == p.call.call_id@,
                None => !old(self).interaction_map().contains_key(id) && final(self).completed_map()
                    == old(self).completed_map(),
            },
    {
        let taken = take_id(&mut self.interactions, id);
        if let Some(p) = &taken {
            let ghost before = self.completed_map();
            put_id(&mut self.completed, id, p.call.call_id.clone());
            assert(self.completed_map().remove(id) =~= before.remove(id));
        }
        taken
    }

    /// The call id of a taken call.
    pub fn completed_call(&self, id: u32) -> (r: Option<String>)
        requires
            self.well_formed(),
        ensures
            match r {
                Some(call_id) => self.completed_map().contains_key(id) && call_id@ == self.completed_map()[id]@,
                None => !self.completed_map().contains_key(id),
            },
    {
        match find_id(&self.completed, id) {
            Some(i) => {
                proof {
                    lemma_id_at(self.completed@, i as int);
                }
                Some(self.completed[i].1.clone())
            },
            None => None,
        }
    }

    /// Whether a call's late events are muted.
    pub fn is_interrupted(&self, id: u32) -> (r: bool)
        requires
            self.well_formed(),
        ensures
            r == self.muted().contains(id),
    {
        find_id(&self.interrupted, id).is_some()
    }

    /// Forgets the taken calls.
    pub fn clear_completed(&mut self)
        ensures
            final(self).completed_map() == Map::<u32, String>::empty(),
            final(self).completed@.len() == 0,
            final(self).last_id == old(self).last_id,
            final(self).execs == old(self).execs,
            final(self).interactions == old(self).interactions,
            final(self).interrupted == old(self).interrupted,
    {
        self.completed = Vec::new();
        assert(self.completed_map() =~= Map::<u32, String>::empty());
    }

    /// Drops a pending exec without completing it.
    pub fn discard_exec(&mut self, id: u32)
        requires
            old(self).well_formed(),
        ensures
            final(self).well_formed(),
            final(self).exec_map() == old(self).exec_map().remove(id),
            final(self).last_id == old(self).last_id,
            final(self).interactions == old(self).interactions,
            final(self).completed == old(self).completed,
            final(self).interrupted == old(self).interrupted,
    {
        take_id(&mut self.execs, id);
    }

    /// Drops a pending interaction without completing it.
    pub fn discard_interaction(&mut self, id: u32)
        requires
            old(self).well_formed(),
        ensures
            final(self).well_formed(),
            final(self).interaction_map() == old(self).interaction_map().remove(id),
            final(self).last_id == old(self).last_id,
            final(self).execs == old(self).execs,
            final(self).completed == old(self).completed,
            final(self).interrupted == old(self).interrupted,
    {
        take_id(&mut self.interactions, id);
    }

    /// The ids of the pending execs, in increasing order.
    pub fn running_exec_ids(&self) -> (r: Vec<u32>)
        requires
            self.well_formed(),
        ensures
            ascending(r@),
            r@.to_set() == self.exec_map().dom(),
    {
        sorted_ids(&self.execs)
    }

    /// Mutes the given ids.
    fn mute(&mut self, ids: &Vec<u32>)
        requires
            old(self).well_formed(),
        ensures
            final(self).well_formed(),
            final(self).muted() == old(self).muted().union(ids@.to_set()),
            final(self).last_id == old(self).last_id,
            final(self).execs == old(self).execs,
            final(self).interactions == old(self).interactions,
            final(self).completed == old(self).completed,
    {
        let mut i: usize = 0;
        while i < ids.len()
            invariant
                i <= ids@.len(),
                distinct_ids(self.interrupted@),
                distinct_ids(self.execs@),
                distinct_ids(self.interactions@),
                distinct_ids(self.completed@),
                self.muted() == old(self).muted().union(ids@.take(i as int).to_set()),
                self.last_id == old(self).last_id,
                self.execs == old(self).execs,
                self.interactions == old(self).interactions,
                self.completed == old(self).completed,
            decreases ids@.len() - i,
        {
            let ghost before = self.muted();
            put_id(&mut self.interrupted, ids[i], ());
            assert(ids@.take(i + 1) =~= ids@.take(i as int).push(ids@[i as int]));
            proof {
                ids@.take(i as int).lemma_push_to_set_commute(ids@[i as int]);
            }
            assert(self.muted() =~= before.insert(ids@[i as int]));
            assert(ids@.take(i + 1).to_set() =~= ids@.take(i as int).to_set().insert(ids@[i as int]));
            i = i + 1;
        }
        assert(ids@.take(ids@.len() as int) =~= ids@);
    }

    /// Ends every call of the run, forgetting the muted ids too; returns the ids of the pending
    /// execs, in increasing order, which must be aborted.
    pub fn drain_running(&mut self) -> (r: Vec<u32>)
        requires
            old(self).well_formed(),
        ensures
            final(self).well_formed(),
            ascending(r@),
            r@.to_set() == old(self).exec_map().dom(),
            final(self).last_id == old(self).last_id,
            final(self).exec_map() == Map::<u32, PendingExec>::empty(),
            final(self).interaction_map() == Map::<u32, PendingInteraction>::empty(),
            final(self).completed_map() == Map::<u32, String>::empty(),
            final(self).muted() == Set::<u32>::empty(),
    {
        let ids = sorted_ids(&self.execs);
        self.execs = Vec::new();
        self.interactions = Vec::new();
        self.completed = Vec::new();
        self.interrupted = Vec::new();
        assert(self.exec_map() =~= Map::<u32, PendingExec>::empty());
        assert(self.interaction_map() =~= Map::<u32, PendingInteraction>::empty());
        assert(self.completed_map() =~= Map::<u32, String>::empty());
        assert(self.muted() =~= Set::<u32>::empty());
        ids
    }

    /// A replacement run takes over: every pending call ends and is muted, the taken calls are
    /// forgotten; returns the ids of the pending execs, in increasing order, to abort.
    pub fn interrupt_for_run_replacement(&mut self) -> (r: Vec<u32>)
        requires
            old(self).well_formed(),
        ensures
            final(self).well_formed(),
            ascending(r@),
            r@.to_set() == old(self).exec_map().dom(),
            final(self).last_id == old(self).last_id,
            final(self).exec_map() == Map::<u32, PendingExec>::empty(),
            final(self).interaction_map() == Map::<u32, PendingInteraction>::empty(),
            final(self).completed_map() == Map::<u32, String>::empty(),
            final(self).muted() == old(self).muted().union(old(self).exec_map().dom()).union(
                old(self).interaction_map().dom(),
            ),
    {
        let aborted = sorted_ids(&self.execs);
        let interactions = sorted_ids(&self.interactions);
        self.execs = Vec::new();
        self.interactions = Vec::new();
        self.completed = Vec::new();
        assert(self.exec_map() =~= Map::<u32, PendingExec>::empty());
        assert(self.interaction_map() =~= Map::<u32, PendingInteraction>::empty());
        assert(self.completed_map() =~= Map::<u32, String>::empty());
        self.mute(&aborted);
        self.mute(&interactions);
        aborted
    }

    /// A new user message interrupts the run: every pending exec but the Tasks (which keep
    /// running, and whose events still land) is aborted and muted, and every pending
    /// interaction ends and is muted; returns the aborted ids in increasing order.
    pub fn interrupt_for_message(&mut self) -> (r: Vec<u32>)
        requires
            old(self).well_formed(),
        ensures
            final(self).well_formed(),
            ascending(r@),
            r@.to_set() == old(self).exec_map().dom().filter(not_task_in(old(self).exec_map())),
            final(self).exec_map() == old(self).exec_map().restrict(
                old(self).exec_map().dom().filter(task_in(old(self).exec_map())),
            ),
            final(self).interaction_map() == Map::<u32, PendingInteraction>::empty(),
            final(self).completed_map() == old(self).completed_map(),
            final(self).last_id == old(self).last_id,
            final(self).muted() == old(self).muted().union(r@.to_set()).union(old(self).interaction_map().dom()),
    {
        let ghost start = self.exec_map();
        let ids = sorted_ids(&self.execs);
        let mut aborted: Vec<u32> = Vec::new();
        let mut k: usize = 0;
        while k < ids.len()
            invariant
                k <= ids@.len(),
                ascending(ids@),
                ids@.to_set() == start.dom(),
                distinct_ids(self.execs@),
                distinct_ids(self.interactions@),
                distinct_ids(self.completed@),
                distinct_ids(self.interrupted@),
                self.interactions == old(self).interactions,
                self.completed == old(self).completed,
                self.interrupted == old(self).interrupted,
                self.last_id == old(self).last_id,
                ascending(aborted@),
                forall|j: int| #![trigger aborted@[j]] 0 <= j < aborted@.len() ==> exists|a: int| 0 <= a < k && aborted@[j] == #[trigger] ids@[a],
                aborted@.to_set() == ids@.take(k as int).to_set().filter(not_task_in(start)),
                self.exec_map() == start.remove_keys(aborted@.to_set()),
            decreases ids@.len() - k,
        {
            let id = ids[k];
            assert(ids@.to_set().contains(id));
            assert(self.exec_map().contains_key(id)) by {
                if aborted@.to_set().contains(id) {
                    let j = choose|j: int| 0 <= j < aborted@.len() && aborted@[j] == id;
                    let a = choose|a: int| 0 <= a < k && aborted@[j] == #[trigger] ids@[a];
                    assert(ids@[a] < ids@[k as int]);
                }
            }
            let task = match find_id(&self.execs, id) {
                Some(i) => {
                    proof {
                        lemma_id_at(self.execs@, i as int);
                        assert(self.exec_map()[id] == self.execs@[i as int].1);
                        assert(!aborted@.to_set().contains(id));
                        assert(start.remove_keys(aborted@.to_set())[id] == start[id]);
                    }
                    let lowered = crate::text::to_lower(self.execs[i].1.call.name.as_str());
                    crate::text::str_eq(lowered.as_str(), "task")
                },
                None => false,
            };
            assert(task == is_task(start[id].call));
            let ghost before = aborted@;
            if !task {
                take_id(&mut self.execs, id);
                aborted.push(id);
                proof {
                    before.lemma_push_to_set_commute(id);
                }
                assert(aborted@.to_set() =~= before.to_set().insert(id));
                assert(self.exec_map() =~= start.remove_keys(aborted@.to_set()));
                assert forall|a: int, b: int| 0 <= a < b < aborted@.len() implies aborted@[a] < aborted@[b] by {
                    if b == aborted@.len() - 1 {
                        let x = choose|x: int| 0 <= x < k && aborted@[a] == #[trigger] ids@[x];
                        assert(ids@[x] < ids@[k as int]);
                    }
                }
            }
            assert(ids@.take(k + 1) =~= ids@.take(k as int).push(id));
            proof {
                ids@.take(k as int).lemma_push_to_set_commute(id);
            }
            assert(ids@.take(k + 1).to_set().filter(not_task_in(start)) =~= aborted@.to_set());
            assert forall|j: int| #![trigger aborted@[j]] 0 <= j < aborted@.len() implies exists|a: int| 0 <= a < k + 1 && aborted@[j] == #[trigger] ids@[a] by {
                if j < before.len() {
                    let a = choose|a: int| 0 <= a < k && before[j] == #[trigger] ids@[a];
                    assert(aborted@[j] == ids@[a]);
                } else {
                    assert(aborted@[j] == ids@[k as int]);
                }
            }
            k = k + 1;
        }
        assert(ids@.take(ids@.len() as int) =~= ids@);
        assert(self.exec_map() =~= start.restrict(start.dom().filter(task_in(start))));
        let interactions = sorted_ids(&self.interactions);
        self.interactions = Vec::new();
        assert(self.interaction_map() =~= Map::<u32, PendingInteraction>::empty());
        self.mute(&aborted);
        self.mute(&interactions);
        aborted
    }

    /// The smallest id of a pending Task with the call id `call_id`.
    pub fn running_task_exec_id(&self, call_id: &str) -> (r: Option<u32>)
        requires
            self.well_formed(),
        ensures
            match r {
                Some(id) => running_task(self.exec_map(), id, call_id@) && forall|other: u32|
                    running_task(self.exec_map(), other, call_id@) ==> id <= other,
                None => forall|other: u32| !running_task(self.exec_map(), other, call_id@),
            },
    {
        let mut best: Option<u32> = None;
        let mut i: usize = 0;
        while i < self.execs.len()
            invariant
                i <= self.execs@.len(),
                distinct_ids(self.execs@),
                match best {
                    Some(id) => running_task(self.exec_map(), id, call_id@) && forall|j: int|
                        0 <= j < i && (#[trigger] self.execs@[j]).1.call.call_id@ == call_id@ && is_task(
                            self.execs@[j].1.call,
                        ) ==> id <= self.execs@[j].0,
                    None => forall|j: int|
                        0 <= j < i ==> !((#[trigger] self.execs@[j]).1.call.call_id@ == call_id@ && is_task(
                            self.execs@[j].1.call,
                        )),
                },
            decreases self.execs@.len() - i,
        {
            proof {
                lemma_id_at(self.execs@, i as int);
            }
            let entry = &self.execs[i];
            let lowered = crate::text::to_lower(entry.1.call.name.as_str());
            if crate::text::str_eq(entry.1.call.call_id.as_str(), call_id) && crate::text::str_eq(
                lowered.as_str(),
                "task",
            ) {
                best = match best {
                    Some(b) => if entry.0 < b {
                        Some(entry.0)
                    } else {
                        Some(b)
                    },
                    None => Some(entry.0),
                };
            }
            i = i + 1;
        }
        proof {
            assert forall|other: u32| running_task(self.exec_map(), other, call_id@) implies match best {
                Some(id) => id <= other,
                None => false,
            } by {
                let j = choose|j: int| 0 <= j < self.execs@.len() && (#[trigger] self.execs@[j]).0 == other;
                lemma_id_at(self.execs@, j);
            }
        }
        best
    }
}

/// A message interrupt does not mute the Tasks it keeps running: a pending Task whose id was
/// neither muted nor an interaction's stays pending and unmuted, so its events still land.
pub proof fn lemma_message_interrupt_spares_tasks(
    old_execs: Map<u32, PendingExec>,
    old_interactions: Map<u32, PendingInteraction>,
    old_muted: Set<u32>,
    aborted: Seq<u32>,
    new_execs: Map<u32, PendingExec>,
    new_muted: Set<u32>,
    id: u32,
)
    requires
        aborted.to_set() == old_execs.dom().filter(not_task_in(old_execs)),
        new_execs == old_execs.restrict(old_execs.dom().filter(task_in(old_execs))),
        new_muted == old_muted.union(aborted.to_set()).union(old_interactions.dom()),
        old_execs.contains_key(id),
        is_task(old_execs[id].call),
        !old_muted.contains(id),
        !old_interactions.contains_key(id),
    ensures
        new_execs.contains_key(id),
        new_execs[id] == old_execs[id],
        !new_muted.contains(id),
{
    assert(old_execs.dom().filter(task_in(old_execs)).contains(id));
    assert(!old_execs.dom().filter(not_task_in(old_execs)).contains(id));
}

/// While every pending or taken id is one already handed out, the next id is fresh: no pending
/// call has it.
pub proof fn lemma_next_id_is_fresh(rt: CursorToolRuntime)
    requires
        forall|id: u32| #[trigger] rt.exec_map().contains_key(id) ==> id <= rt.last_id,
        forall|id: u32| #[trigger] rt.interaction_map().contains_key(id) ==> id <= rt.last_id,
    ensures
        next_id_after(rt.last_id) matches Some(next) ==> !rt.exec_map().contains_key(next)
            && !rt.interaction_map().contains_key(next),
{
}

} // verus!
