//! Messages waiting across run lifecycle boundaries.
use vstd::prelude::*;

use crate::messages::{CanonicalMessage, TerminalCompletion};

verus! {

/// How compiled messages are delivered to a conversation.
#[derive(Clone, Copy, Debug, PartialEq, Eq, Structural)]
pub enum MessageDelivery {
    Ignore,
    InsertMessages,
    BreakMessages,
}

/// A batch of messages compiled from one event.
pub struct CompiledMessages {
    pub event_id: String,
    pub target_run_id: Option<String>,
    pub messages: Vec<CanonicalMessage>,
    pub delivery: MessageDelivery,
}

/// The view of a batch.
pub struct BatchView {
    pub event_id: Seq<char>,
    pub target_run_id: Option<Seq<char>>,
    pub messages: Seq<CanonicalMessage>,
    pub delivery: MessageDelivery,
}

impl View for CompiledMessages {
    type V = BatchView;

    open spec fn view(&self) -> BatchView {
        BatchView {
            event_id: self.event_id@,
            target_run_id: crate::configuration::opt_view(self.target_run_id),
            messages: self.messages@,
            delivery: self.delivery,
        }
    }
}

/// The views of batches.
pub open spec fn batch_views(list: Seq<CompiledMessages>) -> Seq<BatchView> {
    list.map_values(|b: CompiledMessages| b@)
}

/// The event ids of batches.
pub open spec fn event_ids_of(list: Seq<BatchView>) -> Set<Seq<char>> {
    Set::new(|e: Seq<char>| exists|i: int| 0 <= i < list.len() && (#[trigger] list[i]).event_id == e)
}

/// Batches waiting in order, at most one per event.
pub struct PendingMessages {
    queued: Vec<CompiledMessages>,
    event_ids: vstd::hash_set::StringHashSet,
}

impl View for PendingMessages {
    type V = Seq<BatchView>;

    closed spec fn view(&self) -> Seq<BatchView> {
        batch_views(self.queued@)
    }
}

/// A message delivering a completion that was processed.
pub open spec fn stale(m: CanonicalMessage, processed: Set<Seq<char>>) -> bool {
    match m.terminal_completion {
        Some(c) => processed.contains(c.event_id@),
        None => false,
    }
}

/// The messages that do not deliver a processed completion, in order.
pub open spec fn fresh_messages(ms: Seq<CanonicalMessage>, processed: Set<Seq<char>>) -> Seq<
    CanonicalMessage,
>
    decreases ms.len(),
{
    if ms.len() == 0 {
        ms
    } else if stale(ms.last(), processed) {
        fresh_messages(ms.drop_last(), processed)
    } else {
        fresh_messages(ms.drop_last(), processed).push(ms.last())
    }
}

/// The batches with processed completions removed from each; batches left empty are dropped.
pub open spec fn pruned(batches: Seq<BatchView>, processed: Set<Seq<char>>) -> Seq<BatchView>
    decreases batches.len(),
{
    if batches.len() == 0 {
        batches
    } else {
        let rest = pruned(batches.drop_last(), processed);
        let kept = fresh_messages(batches.last().messages, processed);
        if kept.len() == 0 {
            rest
        } else {
            rest.push(BatchView { messages: kept, ..batches.last() })
        }
    }
}

/// The event ids of completions.
pub open spec fn completion_ids(cs: Seq<TerminalCompletion>) -> Set<Seq<char>> {
    Set::new(|e: Seq<char>| exists|i: int| 0 <= i < cs.len() && (#[trigger] cs[i]).event_id@ == e)
}

/// Each event has at most one batch.
pub open spec fn distinct_events(list: Seq<BatchView>) -> bool {
    forall|i: int, j: int|
        0 <= i < j < list.len() ==> (#[trigger] list[i]).event_id != (#[trigger] list[j]).event_id
}

impl PendingMessages {
    /// The queue's invariant: the event id index is exactly the queued batches' events, each
    /// queued once.
    pub closed spec fn well_formed(&self) -> bool {
        &&& self.event_ids@ == event_ids_of(batch_views(self.queued@))
        &&& distinct_events(batch_views(self.queued@))
    }

    /// An empty queue.
    pub fn new() -> (r: PendingMessages)
        ensures
            r.well_formed(),
            r@ == Seq::<BatchView>::empty(),
    {
        let r = PendingMessages { queued: Vec::new(), event_ids: vstd::hash_set::StringHashSet::new() };
        assert(event_ids_of(batch_views(r.queued@)) =~= Set::<Seq<char>>::empty());
        r
    }

    /// Queues a batch unless a batch of its event is already queued; says whether it did.
    pub fn push(&mut self, messages: CompiledMessages) -> (r: bool)
        requires
            old(self).well_formed(),
        ensures
            final(self).well_formed(),
            r == !event_ids_of(old(self)@).contains(messages@.event_id),
            r ==> final(self)@ == old(self)@.push(messages@),
            !r ==> final(self)@ == old(self)@,
    {
        if self.event_ids.contains(messages.event_id.as_str()) {
            return false;
        }
        let ghost before = batch_views(self.queued@);
        self.event_ids.insert(messages.event_id.clone());
        let ghost v = messages@;
        self.queued.push(messages);
        proof {
            assert(batch_views(self.queued@) == before.push(v));
            assert(event_ids_of(before.push(v)) =~= event_ids_of(before).insert(v.event_id)) by {
                assert forall|e: Seq<char>| event_ids_of(before.push(v)).contains(e) implies
                    event_ids_of(before).insert(v.event_id).contains(e) by {
                    let i = choose|i: int|
                        0 <= i < before.push(v).len() && (#[trigger] before.push(v)[i]).event_id == e;
                    if i < before.len() {
                        assert(before.push(v)[i] == before[i]);
                    }
                }
                assert forall|e: Seq<char>| event_ids_of(before).insert(v.event_id).contains(e) implies
                    event_ids_of(before.push(v)).contains(e) by {
                    if e == v.event_id {
                        assert(before.push(v)[before.len() as int] == v);
                    } else {
                        let i = choose|i: int| 0 <= i < before.len() && (#[trigger] before[i]).event_id == e;
                        assert(before.push(v)[i] == before[i]);
                    }
                }
            }
            assert forall|i: int, j: int| 0 <= i < j < before.push(v).len() implies (
            #[trigger] before.push(v)[i]).event_id != (#[trigger] before.push(v)[j]).event_id by {
                if j == before.len() {
                    assert(before.push(v)[i] == before[i]);
                    assert(event_ids_of(before).contains(before[i].event_id));
                } else {
                    assert(before.push(v)[i] == before[i] && before.push(v)[j] == before[j]);
                }
            }
        }
        true
    }

    /// Whether nothing is queued.
    pub fn is_empty(&self) -> (r: bool)
        ensures
            r == (self@.len() == 0),
    {
        self.queued.len() == 0
    }

    /// The queued batches, in order.
    pub fn queued(&self) -> (r: &Vec<CompiledMessages>)
        ensures
            batch_views(r@) == self@,
    {
        &self.queued
    }

    /// Takes every queued batch, in order, leaving the queue empty.
    pub fn drain(&mut self) -> (r: Vec<CompiledMessages>)
        requires
            old(self).well_formed(),
        ensures
            final(self).well_formed(),
            final(self)@.len() == 0,
            batch_views(r@) == old(self)@,
    {
        let mut taken: Vec<CompiledMessages> = Vec::new();
        std::mem::swap(&mut taken, &mut self.queued);
        self.event_ids.clear();
        assert(event_ids_of(batch_views(self.queued@)) =~= Set::<Seq<char>>::empty());
        taken
    }
}

/// The event ids of completions, as a set.
fn processed_ids(completions: &[TerminalCompletion]) -> (r: vstd::hash_set::StringHashSet)
    ensures
        r@ == completion_ids(completions@),
{
    let mut set = vstd::hash_set::StringHashSet::new();
    let mut i: usize = 0;
    while i < completions.len()
        invariant
            i <= completions.len(),
            set@ == completion_ids(completions@.take(i as int)),
        decreases completions.len() - i,
    {
        let ghost before = set@;
        set.insert(completions[i].event_id.clone());
        proof {
            let next = completions@.take(i + 1);
            let prev = completions@.take(i as int);
            assert forall|e: Seq<char>| set@.contains(e) == completion_ids(next).contains(e) by {
                if completion_ids(next).contains(e) {
                    let j = choose|j: int| 0 <= j < next.len() && (#[trigger] next[j]).event_id@ == e;
                    if j < i {
                        assert(prev[j] == next[j]);
                        assert(completion_ids(prev).contains(e));
                    }
                }
                if before.contains(e) {
                    let j = choose|j: int| 0 <= j < prev.len() && (#[trigger] prev[j]).event_id@ == e;
                    assert(next[j] == prev[j]);
                }
                if e == completions@[i as int].event_id@ {
                    assert(next[i as int] == completions@[i as int]);
                }
            }
            assert(set@ == completion_ids(next));
        }
        i = i + 1;
    }
    assert(completions@.take(completions.len() as int) == completions@);
    set
}

/// The messages of a batch that do not deliver a processed completion, in order.
fn fresh(messages: Vec<CanonicalMessage>, processed: &vstd::hash_set::StringHashSet) -> (r: Vec<
    CanonicalMessage,
>)
    ensures
        r@ == fresh_messages(messages@, processed@),
{
    let ghost given = messages@;
    let mut messages = messages;
    assert(given.len() == messages.len());
    let mut kept: Vec<CanonicalMessage> = Vec::new();
    let mut k: usize = 0;
    while messages.len() > 0
        invariant
            k + messages@.len() == given.len(),
            given.len() <= usize::MAX,
            messages@ == given.skip(k as int),
            kept@ == fresh_messages(given.take(k as int), processed@),
        decreases messages@.len(),
    {
        let message = messages.remove(0);
        assert(given.take(k + 1).drop_last() == given.take(k as int));
        assert(given.take(k + 1).last() == message);
        assert(messages@ == given.skip(k + 1));
        let is_stale = match &message.terminal_completion {
            Some(c) => processed.contains(c.event_id.as_str()),
            None => false,
        };
        if !is_stale {
            kept.push(message);
        }
        k = k + 1;
    }
    assert(given.take(k as int) == given);
    kept
}

/// Pruning keeps only events of the batches it started from.
proof fn lemma_pruned_events(batches: Seq<BatchView>, processed: Set<Seq<char>>)
    ensures
        forall|i: int|
            0 <= i < pruned(batches, processed).len() ==> event_ids_of(batches).contains(
                #[trigger] pruned(batches, processed)[i].event_id,
            ),
    decreases batches.len(),
{
    if batches.len() > 0 {
        let rest = batches.drop_last();
        lemma_pruned_events(rest, processed);
        let p = pruned(batches, processed);
        assert forall|i: int| 0 <= i < p.len() implies event_ids_of(batches).contains(
            #[trigger] p[i].event_id,
        ) by {
            let pr = pruned(rest, processed);
            if i < pr.len() {
                assert(p[i] == pr[i]);
                let j = choose|j: int| 0 <= j < rest.len() && (#[trigger] rest[j]).event_id == pr[i].event_id;
                assert(batches[j] == rest[j]);
            } else {
                assert(p[i].event_id == batches.last().event_id);
                assert(batches[batches.len() - 1] == batches.last());
            }
        }
    }
}

impl PendingMessages {
    /// Removes every queued message that delivers one of the processed completions; batches
    /// left empty are dropped. A batch may also hold a new execution of the same child, so
    /// its event id alone never removes it.
    pub fn remove_completions(&mut self, completions: &[TerminalCompletion])
        requires
            old(self).well_formed(),
        ensures
            final(self).well_formed(),
            final(self)@ == pruned(old(self)@, completion_ids(completions@)),
    {
        let processed = processed_ids(completions);
        let mut old_queue: Vec<CompiledMessages> = Vec::new();
        std::mem::swap(&mut old_queue, &mut self.queued);
        let ghost given = batch_views(old_queue@);
        let ghost procs = processed@;
        assert(given.len() == old_queue.len());
        let mut queue: Vec<CompiledMessages> = Vec::new();
        let mut k: usize = 0;
        while old_queue.len() > 0
            invariant
                k + old_queue@.len() == given.len(),
                given.len() <= usize::MAX,
                batch_views(old_queue@) == given.skip(k as int),
                batch_views(queue@) == pruned(given.take(k as int), procs),
                procs == processed@,
                procs == completion_ids(completions@),
            decreases old_queue@.len(),
        {
            let ghost before_q = old_queue@;
            let batch = old_queue.remove(0);
            let ghost v = batch@;
            assert(given.take(k + 1).drop_last() == given.take(k as int));
            assert(batch_views(before_q)[0] == v);
            assert(given.skip(k as int)[0] == given[k as int]);
            assert(given.take(k + 1).last() == v);
            assert(batch_views(old_queue@) =~= batch_views(before_q).skip(1));
            assert(given.skip(k as int).skip(1) =~= given.skip(k + 1));
            assert(batch_views(old_queue@) == given.skip(k + 1));
            let CompiledMessages { event_id, target_run_id, messages, delivery } = batch;
            let kept = fresh(messages, &processed);
            if kept.len() > 0 {
                let ghost before = batch_views(queue@);
                queue.push(CompiledMessages { event_id, target_run_id, messages: kept, delivery });
                assert(batch_views(queue@) == before.push(
                    BatchView { messages: fresh_messages(v.messages, procs), ..v },
                ));
            }
            k = k + 1;
        }
        assert(given.take(k as int) == given);
        let mut ids = vstd::hash_set::StringHashSet::new();
        let mut i: usize = 0;
        while i < queue.len()
            invariant
                i <= queue.len(),
                ids@ == event_ids_of(batch_views(queue@).take(i as int)),
            decreases queue.len() - i,
        {
            let ghost before = ids@;
            ids.insert(queue[i].event_id.clone());
            proof {
                let next = batch_views(queue@).take(i + 1);
                let prev = batch_views(queue@).take(i as int);
                assert forall|e: Seq<char>| ids@.contains(e) == event_ids_of(next).contains(e) by {
                    if event_ids_of(next).contains(e) {
                        let j = choose|j: int| 0 <= j < next.len() && (#[trigger] next[j]).event_id == e;
                        if j < i {
                            assert(prev[j] == next[j]);
                            assert(event_ids_of(prev).contains(e));
                        }
                    }
                    if before.contains(e) {
                        let j = choose|j: int| 0 <= j < prev.len() && (#[trigger] prev[j]).event_id == e;
                        assert(next[j] == prev[j]);
                    }
                    if e == queue@[i as int].event_id@ {
                        assert(next[i as int] == batch_views(queue@)[i as int]);
                    }
                }
                assert(ids@ == event_ids_of(next));
            }
            i = i + 1;
        }
        assert(batch_views(queue@).take(queue.len() as int) == batch_views(queue@));
        proof {
            lemma_pruned_distinct(given, procs);
        }
        self.queued = queue;
        self.event_ids = ids;
    }
}

/// Pruning batches of distinct events leaves batches of distinct events.
proof fn lemma_pruned_distinct(batches: Seq<BatchView>, processed: Set<Seq<char>>)
    requires
        distinct_events(batches),
    ensures
        distinct_events(pruned(batches, processed)),
    decreases batches.len(),
{
    if batches.len() > 0 {
        let rest = batches.drop_last();
        assert(distinct_events(rest)) by {
            assert forall|i: int, j: int| 0 <= i < j < rest.len() implies (#[trigger] rest[i]).event_id
                != (#[trigger] rest[j]).event_id by {
                assert(rest[i] == batches[i] && rest[j] == batches[j]);
            }
        }
        lemma_pruned_distinct(rest, processed);
        lemma_pruned_events(rest, processed);
        let pr = pruned(rest, processed);
        let p = pruned(batches, processed);
        assert forall|i: int, j: int| 0 <= i < j < p.len() implies (#[trigger] p[i]).event_id != (
        #[trigger] p[j]).event_id by {
            if j < pr.len() {
                assert(p[i] == pr[i] && p[j] == pr[j]);
            } else {
                assert(p[i] == pr[i]);
                assert(p[j].event_id == batches.last().event_id);
                assert(event_ids_of(rest).contains(pr[i].event_id));
                let m = choose|m: int| 0 <= m < rest.len() && (#[trigger] rest[m]).event_id == pr[i].event_id;
                assert(rest[m] == batches[m]);
                assert(batches[batches.len() - 1] == batches.last());
            }
        }
    }
}

} // verus!
