//! What a replicated write amounts to, once replicas have answered.
//!
//! A write goes to every replica of a multiplexed store. It has succeeded as
//! soon as enough normal replicas have taken it, and it has failed as soon as
//! too many of them have refused it for that to happen. Whatever a replica
//! answers, and whenever, the answer is put down once for the sync queue.

use vstd::prelude::*;
use crate::config::BlobstoreId;
use crate::config::MultiplexId;
use crate::config::MultiplexedStoreType;

verus! {

/// How a write to one replica ended.
#[derive(Clone, Copy, Debug, PartialEq, Eq, Structural, Hash)]
pub enum WriteOutcome {
    Success,
    Failure,
}

/// One line of the sync queue: how one write to one replica ended. Lines are
/// added and never changed.
#[derive(Clone, Debug, PartialEq, Eq)]
pub struct SyncQueueEntry {
    pub multiplex_id: MultiplexId,
    pub blobstore_id: BlobstoreId,
    pub key: String,
    pub timestamp: u64,
    pub outcome: WriteOutcome,
}

pub ghost struct SyncQueueEntryView {
    pub multiplex_id: MultiplexId,
    pub blobstore_id: BlobstoreId,
    pub key: Seq<char>,
    pub timestamp: u64,
    pub outcome: WriteOutcome,
}

impl View for SyncQueueEntry {
    type V = SyncQueueEntryView;

    open spec fn view(&self) -> SyncQueueEntryView {
        SyncQueueEntryView {
            multiplex_id: self.multiplex_id,
            blobstore_id: self.blobstore_id,
            key: self.key@,
            timestamp: self.timestamp,
            outcome: self.outcome,
        }
    }
}

/// What the writer is told.
#[derive(Clone, Debug, PartialEq, Eq)]
pub enum PutAnswer {
    /// Enough normal replicas took the write.
    Success,
    /// Too few normal replicas can still take the write; these refused it.
    ReplicationFailure(Vec<BlobstoreId>),
}

pub ghost enum PutAnswerView {
    Success,
    ReplicationFailure(Seq<BlobstoreId>),
}

impl View for PutAnswer {
    type V = PutAnswerView;

    open spec fn view(&self) -> PutAnswerView {
        match self {
            PutAnswer::Success => PutAnswerView::Success,
            PutAnswer::ReplicationFailure(ids) => PutAnswerView::ReplicationFailure(ids@),
        }
    }
}

/// How many replicas have answered `what`.
pub open spec fn count_of(outcomes: Seq<Option<WriteOutcome>>, what: WriteOutcome) -> nat
    decreases outcomes.len(),
{
    if outcomes.len() == 0 {
        0
    } else {
        count_of(outcomes.drop_last(), what) + if outcomes.last() == Some(what) {
            1nat
        } else {
            0nat
        }
    }
}

/// The replicas that have refused the write, in their configured order.
pub open spec fn failed_ids(ids: Seq<BlobstoreId>, outcomes: Seq<Option<WriteOutcome>>) -> Seq<
    BlobstoreId,
>
    decreases outcomes.len(),
{
    if outcomes.len() == 0 {
        Seq::empty()
    } else {
        let before = failed_ids(ids, outcomes.drop_last());
        if outcomes.last() == Some(WriteOutcome::Failure) {
            before.push(ids[outcomes.len() - 1])
        } else {
            before
        }
    }
}

/// Every replica has answered.
pub open spec fn all_answered(outcomes: Seq<Option<WriteOutcome>>) -> bool {
    forall|i: int| 0 <= i < outcomes.len() ==> (#[trigger] outcomes[i]) is Some
}

/// One write in flight, as a mathematical value: for every replica its name
/// and its answer, if it has given one.
pub ghost struct PutStateView {
    pub multiplex_id: MultiplexId,
    pub key: Seq<char>,
    pub normal_ids: Seq<BlobstoreId>,
    pub write_mostly_ids: Seq<BlobstoreId>,
    pub normal: Seq<Option<WriteOutcome>>,
    pub write_mostly: Seq<Option<WriteOutcome>>,
    pub minimum_successful_writes: usize,
}

impl PutStateView {
    /// Every replica has a place for its answer, and at least one successful
    /// write is asked for.
    pub open spec fn wf(self) -> bool {
        &&& self.normal.len() == self.normal_ids.len()
        &&& self.write_mostly.len() == self.write_mostly_ids.len()
        &&& self.minimum_successful_writes >= 1
    }

    /// The answers of the replicas of one use.
    pub open spec fn outcomes(self, store_type: MultiplexedStoreType) -> Seq<Option<WriteOutcome>> {
        match store_type {
            MultiplexedStoreType::Normal => self.normal,
            MultiplexedStoreType::WriteMostly => self.write_mostly,
        }
    }

    /// The names of the replicas of one use.
    pub open spec fn ids(self, store_type: MultiplexedStoreType) -> Seq<BlobstoreId> {
        match store_type {
            MultiplexedStoreType::Normal => self.normal_ids,
            MultiplexedStoreType::WriteMostly => self.write_mostly_ids,
        }
    }

    /// The replica exists and has not answered yet.
    pub open spec fn awaits(self, store_type: MultiplexedStoreType, index: int) -> bool {
        0 <= index < self.outcomes(store_type).len() && self.outcomes(store_type)[index] is None
    }

    /// The write after the replica's answer has come in. The answer of a
    /// replica that is unknown or has answered before changes nothing.
    pub open spec fn recorded(
        self,
        store_type: MultiplexedStoreType,
        index: int,
        outcome: WriteOutcome,
    ) -> PutStateView {
        if self.awaits(store_type, index) {
            match store_type {
                MultiplexedStoreType::Normal => PutStateView {
                    normal: self.normal.update(index, Some(outcome)),
                    ..self
                },
                MultiplexedStoreType::WriteMostly => PutStateView {
                    write_mostly: self.write_mostly.update(index, Some(outcome)),
                    ..self
                },
            }
        } else {
            self
        }
    }

    /// The line for the sync queue that the replica's answer gives rise to:
    /// one for an answer that is awaited, none otherwise.
    pub open spec fn entry(
        self,
        store_type: MultiplexedStoreType,
        index: int,
        outcome: WriteOutcome,
        timestamp: u64,
    ) -> Option<SyncQueueEntryView> {
        if self.awaits(store_type, index) {
            Some(
                SyncQueueEntryView {
                    multiplex_id: self.multiplex_id,
                    blobstore_id: self.ids(store_type)[index],
                    key: self.key,
                    timestamp,
                    outcome,
                },
            )
        } else {
            None
        }
    }

    /// What the writer can be told by now. Only the normal replicas count.
    pub open spec fn answer(self) -> Option<PutAnswerView> {
        if count_of(self.normal, WriteOutcome::Success) >= self.minimum_successful_writes {
            Some(PutAnswerView::Success)
        } else if self.normal.len() - count_of(self.normal, WriteOutcome::Failure)
            < self.minimum_successful_writes {
            Some(PutAnswerView::ReplicationFailure(failed_ids(self.normal_ids, self.normal)))
        } else {
            None
        }
    }

    /// Every replica of either use has answered.
    pub open spec fn complete(self) -> bool {
        all_answered(self.normal) && all_answered(self.write_mostly)
    }
}

/// The line of a sync queue as a mathematical value, if there is one.
pub open spec fn entry_view(entry: Option<SyncQueueEntry>) -> Option<SyncQueueEntryView> {
    match entry {
        Some(e) => Some(e@),
        None => None,
    }
}

/// The answer to a writer as a mathematical value, if there is one.
pub open spec fn answer_view(answer: Option<PutAnswer>) -> Option<PutAnswerView> {
    match answer {
        Some(a) => Some(a@),
        None => None,
    }
}

/// One write in flight.
pub struct PutState {
    multiplex_id: MultiplexId,
    key: String,
    normal_ids: Vec<BlobstoreId>,
    write_mostly_ids: Vec<BlobstoreId>,
    normal: Vec<Option<WriteOutcome>>,
    write_mostly: Vec<Option<WriteOutcome>>,
    minimum_successful_writes: usize,
}

impl View for PutState {
    type V = PutStateView;

    closed spec fn view(&self) -> PutStateView {
        PutStateView {
            multiplex_id: self.multiplex_id,
            key: self.key@,
            normal_ids: self.normal_ids@,
            write_mostly_ids: self.write_mostly_ids@,
            normal: self.normal@,
            write_mostly: self.write_mostly@,
            minimum_successful_writes: self.minimum_successful_writes,
        }
    }
}

/// As many places for answers as there are replicas, all empty.
fn no_answers(count: usize) -> (outcomes: Vec<Option<WriteOutcome>>)
    ensures
        outcomes@ == Seq::new(count as nat, |i: int| None::<WriteOutcome>),
{
    let mut outcomes: Vec<Option<WriteOutcome>> = Vec::new();
    let mut i: usize = 0;
    while i < count
        invariant
            i <= count,
            outcomes@ == Seq::new(i as nat, |i: int| None::<WriteOutcome>),
        decreases count - i,
    {
        outcomes.push(None);
        assert(outcomes@ =~= Seq::new((i + 1) as nat, |i: int| None::<WriteOutcome>));
        i += 1;
    }
    outcomes
}

impl PutState {
    /// A write of `key` to the given replicas, none of which has answered.
    pub fn new(
        multiplex_id: MultiplexId,
        key: String,
        normal_ids: Vec<BlobstoreId>,
        write_mostly_ids: Vec<BlobstoreId>,
        minimum_successful_writes: usize,
    ) -> (state: PutState)
        requires
            minimum_successful_writes >= 1,
        ensures
            state@ == (PutStateView {
                multiplex_id,
                key: key@,
                normal_ids: normal_ids@,
                write_mostly_ids: write_mostly_ids@,
                normal: Seq::new(normal_ids@.len(), |i: int| None::<WriteOutcome>),
                write_mostly: Seq::new(write_mostly_ids@.len(), |i: int| None::<WriteOutcome>),
                minimum_successful_writes,
            }),
            state@.wf(),
    {
        let normal = no_answers(normal_ids.len());
        let write_mostly = no_answers(write_mostly_ids.len());
        PutState {
            multiplex_id,
            key,
            normal_ids,
            write_mostly_ids,
            normal,
            write_mostly,
            minimum_successful_writes,
        }
    }

    /// Takes the answer of the replica at `index` among those of the given
    /// use. Returns the line to add to the sync queue: one for every replica
    /// that answers, the first time it answers.
    pub fn record(
        &mut self,
        store_type: MultiplexedStoreType,
        index: usize,
        outcome: WriteOutcome,
        timestamp: u64,
    ) -> (entry: Option<SyncQueueEntry>)
        requires
            old(self)@.wf(),
        ensures
            final(self)@.wf(),
            final(self)@ == old(self)@.recorded(store_type, index as int, outcome),
            entry_view(entry) == old(self)@.entry(store_type, index as int, outcome, timestamp),
    {
        match store_type {
            MultiplexedStoreType::Normal => {
                if index < self.normal.len() && self.normal[index].is_none() {
                    self.normal.set(index, Some(outcome));
                    Some(
                        SyncQueueEntry {
                            multiplex_id: self.multiplex_id,
                            blobstore_id: self.normal_ids[index],
                            key: self.key.clone(),
                            timestamp,
                            outcome,
                        },
                    )
                } else {
                    None
                }
            },
            MultiplexedStoreType::WriteMostly => {
                if index < self.write_mostly.len() && self.write_mostly[index].is_none() {
                    self.write_mostly.set(index, Some(outcome));
                    Some(
                        SyncQueueEntry {
                            multiplex_id: self.multiplex_id,
                            blobstore_id: self.write_mostly_ids[index],
                            key: self.key.clone(),
                            timestamp,
                            outcome,
                        },
                    )
                } else {
                    None
                }
            },
        }
    }

    /// What the writer can be told by now: success once enough normal
    /// replicas have taken the write, failure once too many have refused it,
    /// nothing while either can still happen.
    pub fn answer(&self) -> (answer: Option<PutAnswer>)
        requires
            self@.wf(),
        ensures
            answer_view(answer) == self@.answer(),
    {
        let mut successes: usize = 0;
        let mut failures: usize = 0;
        let mut failed: Vec<BlobstoreId> = Vec::new();
        let mut i: usize = 0;
        assert(self.normal@.take(0) =~= Seq::empty());
        while i < self.normal.len()
            invariant
                i <= self.normal@.len(),
                self.normal@.len() == self.normal_ids@.len(),
                successes + failures <= i,
                successes == count_of(self.normal@.take(i as int), WriteOutcome::Success),
                failures == count_of(self.normal@.take(i as int), WriteOutcome::Failure),
                failed@ == failed_ids(self.normal_ids@, self.normal@.take(i as int)),
            decreases self.normal@.len() - i,
        {
            proof {
                let next = self.normal@.take(i + 1);
                assert(next.drop_last() =~= self.normal@.take(i as int));
                assert(next.last() == self.normal@[i as int]);
            }
            match self.normal[i] {
                Some(WriteOutcome::Success) => {
                    successes += 1;
                },
                Some(WriteOutcome::Failure) => {
                    failures += 1;
                    failed.push(self.normal_ids[i]);
                },
                None => {},
            }
            i += 1;
        }
        assert(self.normal@.take(i as int) =~= self.normal@);
        if successes >= self.minimum_successful_writes {
            Some(PutAnswer::Success)
        } else if self.normal.len() - failures < self.minimum_successful_writes {
            Some(PutAnswer::ReplicationFailure(failed))
        } else {
            None
        }
    }

    /// Every replica has answered: nothing is left to record.
    pub fn is_complete(&self) -> (done: bool)
        ensures
            done == self@.complete(),
    {
        all_some(&self.normal) && all_some(&self.write_mostly)
    }
}

fn all_some(outcomes: &Vec<Option<WriteOutcome>>) -> (all: bool)
    ensures
        all == all_answered(outcomes@),
{
    let mut i: usize = 0;
    while i < outcomes.len()
        invariant
            i <= outcomes@.len(),
            forall|j: int| 0 <= j < i ==> (#[trigger] outcomes@[j]) is Some,
        decreases outcomes@.len() - i,
    {
        if outcomes[i].is_none() {
            return false;
        }
        i += 1;
    }
    true
}

/// One answer more counts once, under what it says.
pub proof fn lemma_count_of_update(
    outcomes: Seq<Option<WriteOutcome>>,
    index: int,
    outcome: WriteOutcome,
    what: WriteOutcome,
)
    requires
        0 <= index < outcomes.len(),
        outcomes[index] is None,
    ensures
        count_of(outcomes.update(index, Some(outcome)), what) == count_of(outcomes, what) + if outcome
            == what {
            1nat
        } else {
            0nat
        },
    decreases outcomes.len(),
{
    let updated = outcomes.update(index, Some(outcome));
    if index == outcomes.len() - 1 {
        assert(updated.drop_last() =~= outcomes.drop_last());
    } else {
        assert(updated.drop_last() =~= outcomes.drop_last().update(index, Some(outcome)));
        lemma_count_of_update(outcomes.drop_last(), index, outcome, what);
    }
}

/// No replica answers twice: takers and refusers together are no more than
/// the replicas, and as many once all have answered.
pub proof fn lemma_count_of_bound(outcomes: Seq<Option<WriteOutcome>>)
    ensures
        count_of(outcomes, WriteOutcome::Success) + count_of(outcomes, WriteOutcome::Failure)
            <= outcomes.len(),
        all_answered(outcomes) ==> count_of(outcomes, WriteOutcome::Success) + count_of(
            outcomes,
            WriteOutcome::Failure,
        ) == outcomes.len(),
    decreases outcomes.len(),
{
    if outcomes.len() > 0 {
        let shorter = outcomes.drop_last();
        if all_answered(outcomes) {
            assert forall|i: int| 0 <= i < shorter.len() implies (#[trigger] shorter[i]) is Some by {
                assert(shorter[i] == outcomes[i]);
            }
            assert(all_answered(shorter));
            let last = outcomes[outcomes.len() - 1];
            assert(last is Some);
            assert(last == Some(WriteOutcome::Success) || last == Some(WriteOutcome::Failure)) by {
                match last->Some_0 {
                    WriteOutcome::Success => {},
                    WriteOutcome::Failure => {},
                }
            }
        }
        lemma_count_of_bound(shorter);
    }
}

/// Once every normal replica has answered the writer has an answer, and it is
/// success exactly if at least as many took the write as were asked for.
pub proof fn lemma_put_succeeds_iff_enough(state: PutStateView)
    requires
        state.wf(),
        all_answered(state.normal),
    ensures
        state.answer() is Some,
        state.answer() == Some(PutAnswerView::Success) <==> count_of(
            state.normal,
            WriteOutcome::Success,
        ) >= state.minimum_successful_writes,
{
    lemma_count_of_bound(state.normal);
}

/// What a write-mostly replica answers never changes what the writer is told.
pub proof fn lemma_write_mostly_never_decides(
    state: PutStateView,
    index: int,
    outcome: WriteOutcome,
)
    ensures
        state.recorded(MultiplexedStoreType::WriteMostly, index, outcome).answer()
            == state.answer(),
{
}

/// What the writer has been told stays true: later answers turn neither a
/// success into a failure nor a failure into a success.
pub proof fn lemma_answer_stays(
    state: PutStateView,
    store_type: MultiplexedStoreType,
    index: int,
    outcome: WriteOutcome,
)
    requires
        state.wf(),
        state.answer() is Some,
    ensures
        state.recorded(store_type, index, outcome).answer() is Some,
        state.answer() == Some(PutAnswerView::Success) <==> state.recorded(
            store_type,
            index,
            outcome,
        ).answer() == Some(PutAnswerView::Success),
{
    if store_type == MultiplexedStoreType::Normal && state.awaits(store_type, index) {
        lemma_count_of_update(state.normal, index, outcome, WriteOutcome::Success);
        lemma_count_of_update(state.normal, index, outcome, WriteOutcome::Failure);
        lemma_count_of_bound(state.normal);
        lemma_count_of_bound(state.normal.update(index, Some(outcome)));
    }
}

/// An answer that comes in: which replica, what it says, and when.
pub ghost struct PutEvent {
    pub store_type: MultiplexedStoreType,
    pub index: int,
    pub outcome: WriteOutcome,
    pub timestamp: u64,
}

/// The write after the answers `events` have come in, in this order.
pub open spec fn after(state: PutStateView, events: Seq<PutEvent>) -> PutStateView
    decreases events.len(),
{
    if events.len() == 0 {
        state
    } else {
        let e = events.last();
        after(state, events.drop_last()).recorded(e.store_type, e.index, e.outcome)
    }
}

/// How many lines for the sync queue the answers `events` give rise to for
/// one replica.
pub open spec fn lines_for(
    state: PutStateView,
    events: Seq<PutEvent>,
    store_type: MultiplexedStoreType,
    index: int,
) -> nat
    decreases events.len(),
{
    if events.len() == 0 {
        0
    } else {
        let e = events.last();
        let before = after(state, events.drop_last());
        lines_for(state, events.drop_last(), store_type, index) + if e.store_type == store_type
            && e.index == index && before.entry(store_type, index, e.outcome, e.timestamp) is Some {
            1nat
        } else {
            0nat
        }
    }
}

/// Whatever answers come in, in whatever order and however often, a replica
/// that was awaited gets one line in the sync queue once it has answered, and
/// none before.
pub proof fn lemma_one_line_per_answer(
    state: PutStateView,
    events: Seq<PutEvent>,
    store_type: MultiplexedStoreType,
    index: int,
)
    requires
        state.awaits(store_type, index),
    ensures
        0 <= index < after(state, events).outcomes(store_type).len(),
        lines_for(state, events, store_type, index) == if after(state, events).awaits(
            store_type,
            index,
        ) {
            0nat
        } else {
            1nat
        },
    decreases events.len(),
{
    if events.len() > 0 {
        lemma_one_line_per_answer(state, events.drop_last(), store_type, index);
    }
}

/// How many replicas have answered.
pub open spec fn answered(outcomes: Seq<Option<WriteOutcome>>) -> nat
    decreases outcomes.len(),
{
    if outcomes.len() == 0 {
        0
    } else {
        answered(outcomes.drop_last()) + if outcomes.last() is Some {
            1nat
        } else {
            0nat
        }
    }
}

impl PutStateView {
    /// The write is well formed and no replica has answered yet.
    pub open spec fn fresh(self) -> bool {
        &&& self.wf()
        &&& forall|i: int| 0 <= i < self.normal.len() ==> (#[trigger] self.normal[i]) is None
        &&& forall|i: int|
            0 <= i < self.write_mostly.len() ==> (#[trigger] self.write_mostly[i]) is None
    }
}

/// The lines for the sync queue that the answers `events` give rise to, in
/// the order of the answers.
pub open spec fn lines(state: PutStateView, events: Seq<PutEvent>) -> Seq<SyncQueueEntryView>
    decreases events.len(),
{
    if events.len() == 0 {
        Seq::empty()
    } else {
        let e = events.last();
        let earlier = lines(state, events.drop_last());
        match after(state, events.drop_last()).entry(e.store_type, e.index, e.outcome, e.timestamp) {
            Some(line) => earlier.push(line),
            None => earlier,
        }
    }
}

/// One answer more is one replica more that has answered.
pub proof fn lemma_answered_update(
    outcomes: Seq<Option<WriteOutcome>>,
    index: int,
    outcome: WriteOutcome,
)
    requires
        0 <= index < outcomes.len(),
        outcomes[index] is None,
    ensures
        answered(outcomes.update(index, Some(outcome))) == answered(outcomes) + 1,
    decreases outcomes.len(),
{
    let updated = outcomes.update(index, Some(outcome));
    if index == outcomes.len() - 1 {
        assert(updated.drop_last() =~= outcomes.drop_last());
    } else {
        assert(updated.drop_last() =~= outcomes.drop_last().update(index, Some(outcome)));
        lemma_answered_update(outcomes.drop_last(), index, outcome);
    }
}

/// Where all replicas have answered they are as many as have answered, and
/// where none has, none is counted.
pub proof fn lemma_answered_bounds(outcomes: Seq<Option<WriteOutcome>>)
    ensures
        all_answered(outcomes) ==> answered(outcomes) == outcomes.len(),
        (forall|i: int| 0 <= i < outcomes.len() ==> (#[trigger] outcomes[i]) is None) ==> answered(
            outcomes,
        ) == 0,
    decreases outcomes.len(),
{
    if outcomes.len() > 0 {
        let shorter = outcomes.drop_last();
        let last = outcomes[outcomes.len() - 1];
        assert forall|i: int| 0 <= i < shorter.len() implies #[trigger] shorter[i] == outcomes[i] by {}
        if all_answered(outcomes) {
            assert forall|i: int| 0 <= i < shorter.len() implies (#[trigger] shorter[i]) is Some by {
                assert(shorter[i] == outcomes[i]);
            }
            assert(last is Some);
        }
        if forall|i: int| 0 <= i < outcomes.len() ==> (#[trigger] outcomes[i]) is None {
            assert forall|i: int| 0 <= i < shorter.len() implies (#[trigger] shorter[i]) is None by {
                assert(shorter[i] == outcomes[i]);
            }
            assert(last is None);
        }
        lemma_answered_bounds(shorter);
    }
}

/// Every answer that is taken gives one line, and every line carries the key
/// and the group of the write.
pub proof fn lemma_lines(state: PutStateView, events: Seq<PutEvent>)
    ensures
        after(state, events).key == state.key,
        after(state, events).multiplex_id == state.multiplex_id,
        after(state, events).normal.len() == state.normal.len(),
        after(state, events).write_mostly.len() == state.write_mostly.len(),
        lines(state, events).len() + answered(state.normal) + answered(state.write_mostly)
            == answered(after(state, events).normal) + answered(after(state, events).write_mostly),
        forall|i: int|
            0 <= i < lines(state, events).len() ==> (#[trigger] lines(state, events)[i]).key
                == state.key && lines(state, events)[i].multiplex_id == state.multiplex_id,
    decreases events.len(),
{
    if events.len() > 0 {
        let e = events.last();
        let before = after(state, events.drop_last());
        lemma_lines(state, events.drop_last());
        if before.awaits(e.store_type, e.index) {
            lemma_answered_update(before.outcomes(e.store_type), e.index, e.outcome);
        }
        let earlier = lines(state, events.drop_last());
        let all = lines(state, events);
        assert forall|i: int| 0 <= i < all.len() implies (#[trigger] all[i]).key == state.key
            && all[i].multiplex_id == state.multiplex_id by {
            if i < earlier.len() {
                assert(all[i] == earlier[i]);
            }
        }
    }
}

/// A write to which every replica has answered has given as many lines as it
/// has replicas, however the answers came in.
pub proof fn lemma_one_line_per_replica(state: PutStateView, events: Seq<PutEvent>)
    requires
        state.fresh(),
        after(state, events).complete(),
    ensures
        lines(state, events).len() == state.normal_ids.len() + state.write_mostly_ids.len(),
{
    lemma_lines(state, events);
    lemma_answered_bounds(state.normal);
    lemma_answered_bounds(state.write_mostly);
    lemma_answered_bounds(after(state, events).normal);
    lemma_answered_bounds(after(state, events).write_mostly);
}

} // verus!
