//! Which run is active in each conversation, and the message batches that wait for the next
//! run. A delivery reaches the active run or waits in the conversation's queue, and the next
//! activation claims every queued batch, so no delivery is stranded between two runs.
use vstd::prelude::*;

use crate::pending::{batch_views, event_ids_of, BatchView, CompiledMessages, MessageDelivery, PendingMessages};

verus! {

/// What a run answers to a command.
#[derive(Clone, Copy, Debug, PartialEq, Eq, Structural)]
pub enum CommandResult {
    Applied,
    StaleTarget,
    RunClosing,
    RunEnded,
}

/// A conversation: its active run, if any, and the batches waiting for the next run.
pub struct ConversationSlot {
    pub conversation_id: String,
    pub active: Option<String>,
    pub pending: PendingMessages,
}

/// The registry's state: one slot per conversation.
pub struct RegistryState {
    pub slots: Vec<ConversationSlot>,
}

/// What a delivery does next: it is finished with a result, or its batch goes to the active
/// run `run_id`.
pub enum Delivery {
    Finished(CommandResult),
    ToRun { run_id: String, batch: CompiledMessages },
}

/// How a delivery ends after the run answered: with that answer, or by trying again (another
/// run took the conversation over meanwhile).
pub enum DeliveryEnd {
    Done(CommandResult),
    Retry(CompiledMessages),
}

/// Whether a conversation has a slot.
pub open spec fn has_slot(slots: Seq<ConversationSlot>, k: Seq<char>) -> bool {
    exists|i: int| 0 <= i < slots.len() && (#[trigger] slots[i]).conversation_id@ == k
}

/// The slot of a conversation that has one.
pub open spec fn slot_of(slots: Seq<ConversationSlot>, k: Seq<char>) -> ConversationSlot {
    slots[choose|i: int| 0 <= i < slots.len() && (#[trigger] slots[i]).conversation_id@ == k]
}

/// The text of an optional text.
pub open spec fn opt_text(o: Option<String>) -> Option<Seq<char>> {
    match o {
        Some(s) => Some(s@),
        None => None,
    }
}

/// The active run of a conversation.
pub open spec fn active_run(slots: Seq<ConversationSlot>, k: Seq<char>) -> Option<Seq<char>> {
    if has_slot(slots, k) {
        opt_text(slot_of(slots, k).active)
    } else {
        None
    }
}

/// The batches waiting in a conversation, in order.
pub open spec fn queued(slots: Seq<ConversationSlot>, k: Seq<char>) -> Seq<BatchView> {
    if has_slot(slots, k) {
        slot_of(slots, k).pending@
    } else {
        Seq::empty()
    }
}

/// Each conversation has at most one slot, and every queue is well formed.
pub open spec fn slots_well_formed(slots: Seq<ConversationSlot>) -> bool {
    &&& forall|i: int, j: int|
        0 <= i < j < slots.len() ==> (#[trigger] slots[i]).conversation_id@ != (#[trigger] slots[j]).conversation_id@
    &&& forall|i: int| 0 <= i < slots.len() ==> (#[trigger] slots[i]).pending.well_formed()
}

/// A queue with a batch added unless its event already waits.
pub open spec fn enqueued(q: Seq<BatchView>, b: BatchView) -> Seq<BatchView> {
    if event_ids_of(q).contains(b.event_id) {
        q
    } else {
        q.push(b)
    }
}

/// Whether an active run, if any, is among `runs`.
pub open spec fn run_listed(active: Option<Seq<char>>, runs: Seq<Seq<char>>) -> bool {
    match active {
        Some(run) => runs.contains(run),
        None => true,
    }
}

/// Whether some conversation's active run is `run`.
pub open spec fn runs_somewhere(slots: Seq<ConversationSlot>, run: Seq<char>) -> bool {
    exists|k: Seq<char>| #[trigger] active_run(slots, k) == Some(run)
}

/// `new` is `old` with `b` queued in the conversation `k`: every active run stays, and only
/// that conversation's queue changes.
pub open spec fn queued_into(old: RegistryState, new: RegistryState, k: Seq<char>, b: BatchView) -> bool {
    &&& forall|c: Seq<char>| #[trigger] new.active(c) == old.active(c)
    &&& new.waiting(k) == enqueued(old.waiting(k), b)
    &&& forall|c: Seq<char>| c != k ==> #[trigger] new.waiting(c) == old.waiting(c)
}

/// A delivery that waits in a conversation is among the batches that the conversation's next
/// activation claims.
pub proof fn lemma_waiting_delivery_is_claimed(q: Seq<BatchView>, b: BatchView)
    ensures
        event_ids_of(enqueued(q, b)).contains(b.event_id),
{
    if !event_ids_of(q).contains(b.event_id) {
        assert(q.push(b)[q.len() as int] == b);
    }
}

/// The slot at an index is the conversation's slot.
proof fn lemma_slot_at(slots: Seq<ConversationSlot>, i: int)
    requires
        slots_well_formed(slots),
        0 <= i < slots.len(),
    ensures
        has_slot(slots, slots[i].conversation_id@),
        slot_of(slots, slots[i].conversation_id@) == slots[i],
{
    let k = slots[i].conversation_id@;
    assert(slots[i].conversation_id@ == k);
    let j = choose|j: int| 0 <= j < slots.len() && (#[trigger] slots[j]).conversation_id@ == k;
    if j != i {
        if j < i {
            assert(slots[j].conversation_id@ != slots[i].conversation_id@);
        } else {
            assert(slots[i].conversation_id@ != slots[j].conversation_id@);
        }
    }
}

impl RegistryState {
    /// The active run of a conversation.
    pub open spec fn active(&self, k: Seq<char>) -> Option<Seq<char>> {
        active_run(self.slots@, k)
    }

    /// The batches waiting in a conversation.
    pub open spec fn waiting(&self, k: Seq<char>) -> Seq<BatchView> {
        queued(self.slots@, k)
    }

    /// The state's invariant (see [`slots_well_formed`]).
    pub open spec fn well_formed(&self) -> bool {
        slots_well_formed(self.slots@)
    }

    /// No conversation, no run, nothing waiting.
    pub fn new() -> (r: RegistryState)
        ensures
            r.well_formed(),
            forall|k: Seq<char>| r.active(k) is None && r.waiting(k).len() == 0,
    {
        RegistryState { slots: Vec::new() }
    }

    /// The index of a conversation's slot.
    fn find(&self, k: &str) -> (r: Option<usize>)
        requires
            self.well_formed(),
        ensures
            match r {
                Some(i) => i < self.slots@.len() && self.slots@[i as int].conversation_id@ == k@,
                None => !has_slot(self.slots@, k@),
            },
    {
        let mut i: usize = 0;
        while i < self.slots.len()
            invariant
                i <= self.slots@.len(),
                forall|j: int| 0 <= j < i ==> (#[trigger] self.slots@[j]).conversation_id@ != k@,
            decreases self.slots@.len() - i,
        {
            if crate::text::str_eq(self.slots[i].conversation_id.as_str(), k) {
                return Some(i);
            }
            i = i + 1;
        }
        None
    }

    /// Takes out the slot at `i`; the other conversations keep theirs.
    fn take(&mut self, i: usize) -> (s: ConversationSlot)
        requires
            old(self).well_formed(),
            i < old(self).slots@.len(),
        ensures
            final(self).well_formed(),
            s == old(self).slots@[i as int],
            s.pending.well_formed(),
            !has_slot(final(self).slots@, s.conversation_id@),
            forall|k: Seq<char>|
                k != s.conversation_id@ ==> (#[trigger] has_slot(final(self).slots@, k) == has_slot(
                    old(self).slots@,
                    k,
                ) && (has_slot(old(self).slots@, k) ==> slot_of(final(self).slots@, k) == slot_of(
                    old(self).slots@,
                    k,
                ))),
    {
        let ghost before = self.slots@;
        let s = self.slots.remove(i);
        let ghost after = self.slots@;
        let ghost key = s.conversation_id@;
        assert forall|a: int| 0 <= a < after.len() implies #[trigger] after[a] == before[
            if a < i {
                a
            } else {
                a + 1
            }
        ] by {}
        assert forall|a: int, b: int|
            0 <= a < b < after.len() implies (#[trigger] after[a]).conversation_id@ != (
            #[trigger] after[b]).conversation_id@ by {
            let ia = if a < i {
                a
            } else {
                a + 1
            };
            let ib = if b < i {
                b
            } else {
                b + 1
            };
            assert(after[a] == before[ia] && after[b] == before[ib]);
            assert(ia < ib);
        }
        assert forall|a: int| 0 <= a < after.len() implies (#[trigger] after[a]).pending.well_formed() by {
            let ia = if a < i {
                a
            } else {
                a + 1
            };
            assert(after[a] == before[ia]);
        }
        assert(before[i as int].pending.well_formed());
        proof {
            if has_slot(after, key) {
                let j = choose|j: int| 0 <= j < after.len() && (#[trigger] after[j]).conversation_id@ == key;
                let jb = if j < i {
                    j
                } else {
                    j + 1
                };
                assert(after[j] == before[jb]);
                if jb < i {
                    assert(before[jb].conversation_id@ != before[i as int].conversation_id@);
                } else {
                    assert(before[i as int].conversation_id@ != before[jb].conversation_id@);
                }
            }
            assert forall|k: Seq<char>| k != key implies #[trigger] has_slot(after, k) == has_slot(before, k)
                && (has_slot(before, k) ==> slot_of(after, k) == slot_of(before, k)) by {
                if has_slot(before, k) {
                    let j = choose|j: int| 0 <= j < before.len() && (#[trigger] before[j]).conversation_id@ == k;
                    assert(j != i);
                    let ja = if j < i {
                        j
                    } else {
                        j - 1
                    };
                    assert(after[ja] == before[j]);
                    lemma_slot_at(before, j);
                    lemma_slot_at(after, ja);
                }
                if has_slot(after, k) {
                    let j = choose|j: int| 0 <= j < after.len() && (#[trigger] after[j]).conversation_id@ == k;
                    let jb = if j < i {
                        j
                    } else {
                        j + 1
                    };
                    assert(after[j] == before[jb]);
                }
            }
        }
        s
    }

    /// Adds a slot for a conversation that has none.
    fn add(&mut self, slot: ConversationSlot)
        requires
            old(self).well_formed(),
            !has_slot(old(self).slots@, slot.conversation_id@),
            slot.pending.well_formed(),
        ensures
            final(self).well_formed(),
            has_slot(final(self).slots@, slot.conversation_id@),
            slot_of(final(self).slots@, slot.conversation_id@) == slot,
            forall|k: Seq<char>|
                k != slot.conversation_id@ ==> (#[trigger] has_slot(final(self).slots@, k) == has_slot(
                    old(self).slots@,
                    k,
                ) && (has_slot(old(self).slots@, k) ==> slot_of(final(self).slots@, k) == slot_of(
                    old(self).slots@,
                    k,
                ))),
    {
        let ghost before = self.slots@;
        let ghost key = slot.conversation_id@;
        self.slots.push(slot);
        let ghost after = self.slots@;
        assert forall|a: int, b: int|
            0 <= a < b < after.len() implies (#[trigger] after[a]).conversation_id@ != (
            #[trigger] after[b]).conversation_id@ by {
            if b == after.len() - 1 {
                assert(after[a] == before[a]);
                assert(before[a].conversation_id@ != key);
            } else {
                assert(after[a] == before[a] && after[b] == before[b]);
            }
        }
        assert forall|a: int| 0 <= a < after.len() implies (#[trigger] after[a]).pending.well_formed() by {
            if a < after.len() - 1 {
                assert(after[a] == before[a]);
            }
        }
        proof {
            lemma_slot_at(after, after.len() - 1);
            assert forall|k: Seq<char>| k != key implies #[trigger] has_slot(after, k) == has_slot(before, k)
                && (has_slot(before, k) ==> slot_of(after, k) == slot_of(before, k)) by {
                if has_slot(before, k) {
                    let j = choose|j: int| 0 <= j < before.len() && (#[trigger] before[j]).conversation_id@ == k;
                    assert(after[j] == before[j]);
                    lemma_slot_at(before, j);
                    lemma_slot_at(after, j);
                }
                if has_slot(after, k) {
                    let j = choose|j: int| 0 <= j < after.len() && (#[trigger] after[j]).conversation_id@ == k;
                    assert(after[j] == before[j]);
                }
            }
        }
    }

    /// Publishes `run_id` as the conversation's active run and claims every batch waiting in
    /// it, in order, in one step: a delivery sees either the queue or the new run. Returns the
    /// replaced run when it was another one (which must be cancelled) and the claimed batches.
    pub fn activate(&mut self, conversation_id: &str, run_id: &str) -> (r: (Option<String>, Vec<CompiledMessages>))
        requires
            old(self).well_formed(),
        ensures
            final(self).well_formed(),
            final(self).active(conversation_id@) == Some(run_id@),
            final(self).waiting(conversation_id@).len() == 0,
            forall|k: Seq<char>|
                k != conversation_id@ ==> #[trigger] final(self).active(k) == old(self).active(k)
                    && final(self).waiting(k) == old(self).waiting(k),
            opt_text(r.0) == (match old(self).active(conversation_id@) {
                Some(previous) => if previous != run_id@ {
                    Some(previous)
                } else {
                    None
                },
                None => None,
            }),
            batch_views(r.1@) == old(self).waiting(conversation_id@),
    {
        match self.find(conversation_id) {
            Some(i) => {
                let ConversationSlot { conversation_id: id, active, mut pending } = self.take(i);
                let previous = match active {
                    Some(p) => {
                        if crate::text::str_eq(p.as_str(), run_id) {
                            None
                        } else {
                            Some(p)
                        }
                    },
                    None => None,
                };
                let claimed = pending.drain();
                self.add(
                    ConversationSlot { conversation_id: id, active: Some(crate::text::copy(run_id)), pending },
                );
                (previous, claimed)
            },
            None => {
                let slot = ConversationSlot {
                    conversation_id: crate::text::copy(conversation_id),
                    active: Some(crate::text::copy(run_id)),
                    pending: PendingMessages::new(),
                };
                self.add(slot);
                (None, Vec::new())
            },
        }
    }

    /// Queues a batch in a conversation (unless its event already waits there).
    fn enqueue(&mut self, conversation_id: &str, batch: CompiledMessages)
        requires
            old(self).well_formed(),
        ensures
            final(self).well_formed(),
            queued_into(*old(self), *final(self), conversation_id@, batch@),
    {
        let ghost b = batch@;
        match self.find(conversation_id) {
            Some(i) => {
                proof {
                    lemma_slot_at(self.slots@, i as int);
                }
                let ConversationSlot { conversation_id: id, active, mut pending } = self.take(i);
                pending.push(batch);
                self.add(ConversationSlot { conversation_id: id, active, pending });
            },
            None => {
                let mut pending = PendingMessages::new();
                assert(event_ids_of(Seq::<BatchView>::empty()) =~= Set::<Seq<char>>::empty());
                pending.push(batch);
                self.add(
                    ConversationSlot { conversation_id: crate::text::copy(conversation_id), active: None, pending },
                );
            },
        }
    }

    /// Starts delivering a batch to a conversation. A batch to ignore is applied at once. With
    /// no active run the batch waits for the next one and the run counts as ended; a batch for
    /// another run than the active one is stale; otherwise it goes to the active run.
    pub fn begin_delivery(&mut self, conversation_id: &str, batch: CompiledMessages) -> (d: Delivery)
        requires
            old(self).well_formed(),
        ensures
            final(self).well_formed(),
            batch.delivery == MessageDelivery::Ignore ==> d == Delivery::Finished(CommandResult::Applied)
                && *final(self) == *old(self),
            batch.delivery != MessageDelivery::Ignore ==> match old(self).active(conversation_id@) {
                None => d == Delivery::Finished(CommandResult::RunEnded) && queued_into(
                    *old(self),
                    *final(self),
                    conversation_id@,
                    batch@,
                ),
                Some(run) => if batch@.target_run_id matches Some(target) && target != run {
                    d == Delivery::Finished(CommandResult::StaleTarget) && *final(self) == *old(self)
                } else {
                    d matches Delivery::ToRun { run_id, batch: b } && run_id@ == run && b == batch
                        && *final(self) == *old(self)
                },
            },
    {
        if batch.delivery == MessageDelivery::Ignore {
            return Delivery::Finished(CommandResult::Applied);
        }
        match self.find(conversation_id) {
            Some(i) => {
                proof {
                    lemma_slot_at(self.slots@, i as int);
                }
                match &self.slots[i].active {
                    Some(run) => {
                        let stale = match &batch.target_run_id {
                            Some(target) => !crate::text::str_eq(target.as_str(), run.as_str()),
                            None => false,
                        };
                        if stale {
                            Delivery::Finished(CommandResult::StaleTarget)
                        } else {
                            Delivery::ToRun { run_id: crate::text::copy(run.as_str()), batch }
                        }
                    },
                    None => {
                        self.enqueue(conversation_id, batch);
                        Delivery::Finished(CommandResult::RunEnded)
                    },
                }
            },
            None => {
                self.enqueue(conversation_id, batch);
                Delivery::Finished(CommandResult::RunEnded)
            },
        }
    }

    /// Ends a delivery to the run `run_id` after it answered `result`. An answer other than a
    /// closing or ended run is the delivery's result. Otherwise the batch waits for the next run
    /// when the run still owns the conversation or none does; when another run took over, the
    /// delivery is tried again.
    pub fn finish_delivery(
        &mut self,
        conversation_id: &str,
        run_id: &str,
        batch: CompiledMessages,
        result: CommandResult,
    ) -> (e: DeliveryEnd)
        requires
            old(self).well_formed(),
        ensures
            final(self).well_formed(),
            result != CommandResult::RunClosing && result != CommandResult::RunEnded ==> e
                == DeliveryEnd::Done(result) && *final(self) == *old(self),
            result == CommandResult::RunClosing || result == CommandResult::RunEnded ==> if old(
                self,
            ).active(conversation_id@) == Some(run_id@) || old(self).active(conversation_id@) is None {
                e == DeliveryEnd::Done(result) && queued_into(*old(self), *final(self), conversation_id@, batch@)
            } else {
                e == DeliveryEnd::Retry(batch) && *final(self) == *old(self)
            },
    {
        if result != CommandResult::RunClosing && result != CommandResult::RunEnded {
            return DeliveryEnd::Done(result);
        }
        let owner = match self.find(conversation_id) {
            Some(i) => {
                proof {
                    lemma_slot_at(self.slots@, i as int);
                }
                match &self.slots[i].active {
                    Some(current) => {
                        if crate::text::str_eq(current.as_str(), run_id) {
                            0u8
                        } else {
                            2u8
                        }
                    },
                    None => 1u8,
                }
            },
            None => 1u8,
        };
        if owner == 2 {
            DeliveryEnd::Retry(batch)
        } else {
            self.enqueue(conversation_id, batch);
            DeliveryEnd::Done(result)
        }
    }

    /// Releases the conversation from the run `run_id`, if that run is the active one; whether
    /// it was (and waiters must be woken).
    pub fn release(&mut self, conversation_id: &str, run_id: &str) -> (released: bool)
        requires
            old(self).well_formed(),
        ensures
            final(self).well_formed(),
            released == (old(self).active(conversation_id@) == Some(run_id@)),
            released ==> final(self).active(conversation_id@) is None,
            !released ==> *final(self) == *old(self),
            forall|k: Seq<char>|
                #[trigger] final(self).waiting(k) == old(self).waiting(k) && (k != conversation_id@
                    ==> final(self).active(k) == old(self).active(k)),
    {
        match self.find(conversation_id) {
            Some(i) => {
                proof {
                    lemma_slot_at(self.slots@, i as int);
                }
                let owned = match &self.slots[i].active {
                    Some(current) => crate::text::str_eq(current.as_str(), run_id),
                    None => false,
                };
                if !owned {
                    return false;
                }
                let ConversationSlot { conversation_id: id, active: _, pending } = self.take(i);
                if pending.is_empty() {
                    assert(pending@ =~= Seq::<BatchView>::empty());
                } else {
                    self.add(ConversationSlot { conversation_id: id, active: None, pending });
                }
                true
            },
            None => false,
        }
    }

    /// Whether the conversation has an active run.
    pub fn is_active(&self, conversation_id: &str) -> (r: bool)
        requires
            self.well_formed(),
        ensures
            r == (self.active(conversation_id@) is Some),
    {
        match self.find(conversation_id) {
            Some(i) => {
                proof {
                    lemma_slot_at(self.slots@, i as int);
                }
                self.slots[i].active.is_some()
            },
            None => false,
        }
    }

    /// Ends every conversation's run: returns the active runs, in slot order, to be cancelled;
    /// the batches that wait stay.
    pub fn shutdown(&mut self) -> (runs: Vec<String>)
        requires
            old(self).well_formed(),
        ensures
            final(self).well_formed(),
            forall|k: Seq<char>|
                #[trigger] final(self).active(k) is None && final(self).waiting(k) == old(self).waiting(k),
            forall|k: Seq<char>| run_listed(#[trigger] old(self).active(k), crate::text::views(runs@)),
            forall|j: int| 0 <= j < runs@.len() ==> runs_somewhere(old(self).slots@, #[trigger] runs@[j]@),
    {
        let ghost before = self.slots@;
        let mut rest: Vec<ConversationSlot> = Vec::new();
        std::mem::swap(&mut rest, &mut self.slots);
        let mut done: Vec<ConversationSlot> = Vec::new();
        let mut runs: Vec<String> = Vec::new();
        assert(before.skip(0) =~= before);
        while rest.len() > 0
            invariant
                done@.len() + rest@.len() == before.len(),
                rest@ == before.skip(done@.len() as int),
                slots_well_formed(before),
                forall|a: int|
                    0 <= a < done@.len() ==> (#[trigger] done@[a]).conversation_id == before[a].conversation_id
                        && done@[a].pending == before[a].pending && done@[a].active is None,
                forall|a: int|
                    0 <= a < done@.len() ==> run_listed(opt_text(#[trigger] before[a].active), crate::text::views(runs@)),
                forall|j: int|
                    0 <= j < runs@.len() ==> exists|a: int|
                        0 <= a < done@.len() && (#[trigger] before[a].active) == Some(#[trigger] runs@[j]),
            decreases rest@.len(),
        {
            let k = done.len();
            let slot = rest.remove(0);
            assert(slot == before[k as int]);
            assert(rest@ =~= before.skip(k as int + 1));
            let ConversationSlot { conversation_id, active, pending } = slot;
            let ghost runs_before = runs@;
            match active {
                Some(run) => {
                    runs.push(run);
                    assert(crate::text::views(runs@)[runs_before.len() as int] == before[k as int].active->0@);
                    assert forall|a: int| 0 <= a < k implies run_listed(
                        opt_text(#[trigger] before[a].active),
                        crate::text::views(runs@),
                    ) by {
                        if before[a].active is Some {
                            let r = before[a].active->0;
                            assert(run_listed(opt_text(before[a].active), crate::text::views(runs_before)));
                            let j = choose|j: int|
                                0 <= j < runs_before.len() && crate::text::views(runs_before)[j] == r@;
                            assert(crate::text::views(runs@)[j] == r@);
                        }
                    }
                },
                None => {},
            }
            done.push(ConversationSlot { conversation_id, active: None, pending });
        }
        self.slots = done;
        let ghost after = self.slots@;
        assert forall|a: int, b: int|
            0 <= a < b < after.len() implies (#[trigger] after[a]).conversation_id@ != (
            #[trigger] after[b]).conversation_id@ by {
            assert(before[a].conversation_id@ != before[b].conversation_id@);
        }
        assert forall|a: int| 0 <= a < after.len() implies (#[trigger] after[a]).pending.well_formed() by {
            assert(before[a].pending.well_formed());
        }
        assert forall|k: Seq<char>|
            #[trigger] active_run(after, k) is None && queued(after, k) == queued(before, k) by {
            if has_slot(before, k) {
                let j = choose|j: int| 0 <= j < before.len() && (#[trigger] before[j]).conversation_id@ == k;
                lemma_slot_at(before, j);
                assert(after[j].conversation_id@ == k);
                lemma_slot_at(after, j);
            }
            if has_slot(after, k) {
                let j = choose|j: int| 0 <= j < after.len() && (#[trigger] after[j]).conversation_id@ == k;
                assert(before[j].conversation_id@ == k);
                lemma_slot_at(after, j);
            }
        }
        assert forall|k: Seq<char>| run_listed(#[trigger] active_run(before, k), crate::text::views(runs@)) by {
            if has_slot(before, k) {
                let j = choose|j: int| 0 <= j < before.len() && (#[trigger] before[j]).conversation_id@ == k;
                lemma_slot_at(before, j);
            }
        }
        assert forall|j: int| 0 <= j < runs@.len() implies runs_somewhere(before, #[trigger] runs@[j]@) by {
            let a = choose|a: int| 0 <= a < before.len() && (#[trigger] before[a].active) == Some(runs@[j]);
            lemma_slot_at(before, a);
            assert(active_run(before, before[a].conversation_id@) == Some(runs@[j]@));
        }
        runs
    }
}

} // verus!
