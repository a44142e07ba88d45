//! The sync queue as the replication sees it: a log to which lines are added
//! and in which none is ever changed.
//!
//! Every answer of a replica to a write becomes a line of its own, so writes
//! of one key by several callers never meet in a shared record.

use vstd::prelude::*;
use crate::config::MultiplexId;
use crate::multiplex::after;
use crate::multiplex::lemma_one_line_per_replica;
use crate::multiplex::lines;
use crate::multiplex::PutEvent;
use crate::multiplex::PutStateView;
use crate::multiplex::SyncQueueEntry;
use crate::multiplex::SyncQueueEntryView;

verus! {

/// The lines of `log` that belong to a replication group and are not older
/// than `since`, in the order in which they were added.
pub open spec fn pending(log: Seq<SyncQueueEntryView>, multiplex_id: MultiplexId, since: u64) -> Seq<
    SyncQueueEntryView,
>
    decreases log.len(),
{
    if log.len() == 0 {
        Seq::empty()
    } else {
        let before = pending(log.drop_last(), multiplex_id, since);
        let last = log.last();
        if last.multiplex_id == multiplex_id && last.timestamp >= since {
            before.push(last)
        } else {
            before
        }
    }
}

/// How often a line stands in a log.
pub open spec fn occurrences(log: Seq<SyncQueueEntryView>, line: SyncQueueEntryView) -> nat
    decreases log.len(),
{
    if log.len() == 0 {
        0
    } else {
        occurrences(log.drop_last(), line) + if log.last() == line {
            1nat
        } else {
            0nat
        }
    }
}

/// `merged` holds the lines of every part, those of one part in their own
/// order, mixed in any way.
pub open spec fn is_merge(merged: Seq<SyncQueueEntryView>, parts: Seq<Seq<SyncQueueEntryView>>) -> bool
    decreases merged.len(),
{
    if merged.len() == 0 {
        forall|j: int| 0 <= j < parts.len() ==> (#[trigger] parts[j]).len() == 0
    } else {
        exists|j: int|
            0 <= j < parts.len() && (#[trigger] parts[j]).len() > 0 && parts[j].last()
                == merged.last() && is_merge(
                merged.drop_last(),
                parts.update(j, parts[j].drop_last()),
            )
    }
}

/// How often a line stands in all parts together.
pub open spec fn total_occurrences(parts: Seq<Seq<SyncQueueEntryView>>, line: SyncQueueEntryView) -> nat
    decreases parts.len(),
{
    if parts.len() == 0 {
        0
    } else {
        total_occurrences(parts.drop_last(), line) + occurrences(parts.last(), line)
    }
}

/// How many lines all parts hold together.
pub open spec fn total_len(parts: Seq<Seq<SyncQueueEntryView>>) -> nat
    decreases parts.len(),
{
    if parts.len() == 0 {
        0
    } else {
        total_len(parts.drop_last()) + parts.last().len()
    }
}

/// The lines of a list of entries.
pub open spec fn lines_of(entries: Seq<SyncQueueEntry>) -> Seq<SyncQueueEntryView> {
    Seq::new(entries.len(), |i: int| entries[i]@)
}

/// A sync queue held in memory.
pub struct SyncQueue {
    entries: Vec<SyncQueueEntry>,
}

impl View for SyncQueue {
    type V = Seq<SyncQueueEntryView>;

    closed spec fn view(&self) -> Seq<SyncQueueEntryView> {
        lines_of(self.entries@)
    }
}

impl SyncQueue {
    /// A queue without lines.
    pub fn new() -> (queue: SyncQueue)
        ensures
            queue@ == Seq::<SyncQueueEntryView>::empty(),
    {
        let queue = SyncQueue { entries: Vec::new() };
        assert(queue@ =~= Seq::<SyncQueueEntryView>::empty());
        queue
    }

    /// Adds a line at the end. The lines before it stay as they are.
    pub fn record(&mut self, entry: SyncQueueEntry)
        ensures
            final(self)@ == old(self)@.push(entry@),
    {
        self.entries.push(entry);
        assert(self@ =~= old(self)@.push(entry@));
    }

    /// The number of lines.
    pub fn len(&self) -> (n: usize)
        ensures
            n == self@.len(),
    {
        self.entries.len()
    }

    /// The lines of a replication group that are not older than `since`, in
    /// the order in which they were added.
    pub fn list_pending(&self, multiplex_id: MultiplexId, since: u64) -> (found: Vec<SyncQueueEntry>)
        ensures
            lines_of(found@) == pending(self@, multiplex_id, since),
    {
        let mut found: Vec<SyncQueueEntry> = Vec::new();
        let mut i: usize = 0;
        assert(self@.take(0) =~= Seq::empty());
        assert(lines_of(found@) =~= Seq::empty());
        while i < self.entries.len()
            invariant
                i <= self.entries@.len(),
                self@ == lines_of(self.entries@),
                lines_of(found@) == pending(self@.take(i as int), multiplex_id, since),
            decreases self.entries@.len() - i,
        {
            let entry = &self.entries[i];
            proof {
                let next = self@.take(i + 1);
                assert(next.drop_last() =~= self@.take(i as int));
                assert(next.last() == entry@);
            }
            if entry.multiplex_id.0 == multiplex_id.0 && entry.timestamp >= since {
                let ghost before = found@;
                let copy = SyncQueueEntry {
                    multiplex_id: entry.multiplex_id,
                    blobstore_id: entry.blobstore_id,
                    key: entry.key.clone(),
                    timestamp: entry.timestamp,
                    outcome: entry.outcome,
                };
                found.push(copy);
                assert(lines_of(found@) =~= lines_of(before).push(entry@));
            }
            i += 1;
        }
        assert(self@.take(i as int) =~= self@);
        found
    }
}

/// Adding lines one after another leaves every earlier line where it was.
pub proof fn lemma_added_lines_keep_the_log(
    log: Seq<SyncQueueEntryView>,
    added: Seq<SyncQueueEntryView>,
    i: int,
)
    requires
        0 <= i < log.len(),
    ensures
        (log + added)[i] == log[i],
        (log + added).len() == log.len() + added.len(),
{
}

/// The lines of a longer log are counted part by part.
pub proof fn lemma_occurrences_add(
    log: Seq<SyncQueueEntryView>,
    added: Seq<SyncQueueEntryView>,
    line: SyncQueueEntryView,
)
    ensures
        occurrences(log + added, line) == occurrences(log, line) + occurrences(added, line),
    decreases added.len(),
{
    if added.len() == 0 {
        assert(log + added =~= log);
    } else {
        assert((log + added).drop_last() =~= log + added.drop_last());
        lemma_occurrences_add(log, added.drop_last(), line);
    }
}

/// A part that loses its last line takes that line from the whole.
proof fn lemma_total_without_last(
    parts: Seq<Seq<SyncQueueEntryView>>,
    j: int,
    line: SyncQueueEntryView,
)
    requires
        0 <= j < parts.len(),
        parts[j].len() > 0,
    ensures
        total_len(parts) == total_len(parts.update(j, parts[j].drop_last())) + 1,
        total_occurrences(parts, line) == total_occurrences(
            parts.update(j, parts[j].drop_last()),
            line,
        ) + if parts[j].last() == line {
            1nat
        } else {
            0nat
        },
    decreases parts.len(),
{
    let shorter = parts.update(j, parts[j].drop_last());
    if j == parts.len() - 1 {
        assert(shorter.drop_last() =~= parts.drop_last());
    } else {
        assert(shorter.drop_last() =~= parts.drop_last().update(j, parts[j].drop_last()));
        assert(parts.drop_last()[j] == parts[j]);
        lemma_total_without_last(parts.drop_last(), j, line);
    }
}

/// Parts without lines hold none together.
proof fn lemma_total_of_empty_parts(parts: Seq<Seq<SyncQueueEntryView>>, line: SyncQueueEntryView)
    requires
        forall|j: int| 0 <= j < parts.len() ==> (#[trigger] parts[j]).len() == 0,
    ensures
        total_len(parts) == 0,
        total_occurrences(parts, line) == 0,
    decreases parts.len(),
{
    if parts.len() > 0 {
        let shorter = parts.drop_last();
        assert forall|j: int| 0 <= j < shorter.len() implies (#[trigger] shorter[j]).len() == 0 by {
            assert(shorter[j] == parts[j]);
        }
        lemma_total_of_empty_parts(shorter, line);
        assert(parts[parts.len() - 1].len() == 0);
    }
}

/// Parts of one length hold that length as often as they are.
proof fn lemma_total_of_equal_parts(parts: Seq<Seq<SyncQueueEntryView>>, n: nat)
    requires
        forall|j: int| 0 <= j < parts.len() ==> (#[trigger] parts[j]).len() == n,
    ensures
        total_len(parts) == parts.len() * n,
    decreases parts.len(),
{
    if parts.len() > 0 {
        let shorter = parts.drop_last();
        assert forall|j: int| 0 <= j < shorter.len() implies (#[trigger] shorter[j]).len() == n by {
            assert(shorter[j] == parts[j]);
        }
        lemma_total_of_equal_parts(shorter, n);
        assert(parts[parts.len() - 1].len() == n);
        assert(shorter.len() * n + n == parts.len() * n) by (nonlinear_arith)
            requires
                shorter.len() + 1 == parts.len(),
        ;
    } else {
        assert(parts.len() * n == 0) by (nonlinear_arith)
            requires
                parts.len() == 0,
        ;
    }
}

/// However the lines of any number of writes are mixed when they are added
/// to the queue, none is lost and none stands for two: the queue grows by as
/// many lines as the writes hold together, and every line is in it as often as
/// the log before and the writes together hold it.
pub proof fn lemma_no_line_is_lost(
    log: Seq<SyncQueueEntryView>,
    parts: Seq<Seq<SyncQueueEntryView>>,
    merged: Seq<SyncQueueEntryView>,
    line: SyncQueueEntryView,
)
    requires
        is_merge(merged, parts),
    ensures
        merged.len() == total_len(parts),
        occurrences(log + merged, line) == occurrences(log, line) + total_occurrences(parts, line),
    decreases merged.len(),
{
    lemma_occurrences_add(log, merged, line);
    if merged.len() == 0 {
        lemma_total_of_empty_parts(parts, line);
    } else {
        let j = choose|j: int|
            0 <= j < parts.len() && (#[trigger] parts[j]).len() > 0 && parts[j].last()
                == merged.last() && is_merge(
                merged.drop_last(),
                parts.update(j, parts[j].drop_last()),
            );
        let rest = parts.update(j, parts[j].drop_last());
        lemma_no_line_is_lost(log, rest, merged.drop_last(), line);
        lemma_occurrences_add(log, merged.drop_last(), line);
        lemma_total_without_last(parts, j, line);
    }
}

/// Any number of callers write the same key to the same replicas, each with
/// a write of its own, and every replica answers every one of them. However
/// their lines are mixed when they are added, the queue keeps every line that
/// it held, grows by one line for each replica and caller, and holds every
/// line as often as the log before and the writes together hold it.
pub proof fn lemma_writes_of_many_callers(
    log: Seq<SyncQueueEntryView>,
    state: PutStateView,
    runs: Seq<Seq<PutEvent>>,
    merged: Seq<SyncQueueEntryView>,
    line: SyncQueueEntryView,
)
    requires
        state.fresh(),
        forall|j: int| 0 <= j < runs.len() ==> after(state, #[trigger] runs[j]).complete(),
        is_merge(merged, Seq::new(runs.len(), |j: int| lines(state, runs[j]))),
    ensures
        (log + merged).len() == log.len() + runs.len() * (state.normal_ids.len()
            + state.write_mostly_ids.len()),
        forall|i: int| 0 <= i < log.len() ==> (log + merged)[i] == log[i],
        occurrences(log + merged, line) == occurrences(log, line) + total_occurrences(
            Seq::new(runs.len(), |j: int| lines(state, runs[j])),
            line,
        ),
{
    let parts = Seq::new(runs.len(), |j: int| lines(state, runs[j]));
    let n = state.normal_ids.len() + state.write_mostly_ids.len();
    assert forall|j: int| 0 <= j < parts.len() implies (#[trigger] parts[j]).len() == n by {
        lemma_one_line_per_replica(state, runs[j]);
    }
    lemma_total_of_equal_parts(parts, n);
    lemma_no_line_is_lost(log, parts, merged, line);
}

} // verus!
