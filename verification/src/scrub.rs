//! The check of the replicas against each other that follows a read of a
//! scrubbing store.
//!
//! After a key has been read, every replica, whatever it is used for, is held
//! against the value that was read. A replica that lacks the key, or holds
//! other bytes under it, is a discrepancy once it has lagged for longer than
//! the grace period. A discrepancy is reported; a missing key is written back
//! where the scrub repairs. None of this changes the answer of the read.

use vstd::prelude::*;
use crate::config::BlobstoreId;
use crate::options::ScrubAction;
use crate::options::ScrubOptions;

verus! {

/// What is wrong with a replica.
#[derive(Clone, Copy, Debug, PartialEq, Eq, Structural, Hash)]
pub enum Discrepancy {
    /// It lacks the key.
    Missing,
    /// It holds other bytes under the key.
    Differs,
}

/// What the scrub does about one replica.
#[derive(Clone, Copy, Debug, PartialEq, Eq, Structural, Hash)]
pub enum ScrubStep {
    /// Nothing: the replica agrees, is within its grace period, or could not
    /// say what it holds.
    Nothing,
    /// Report the discrepancy and leave the replica as it is.
    Report(Discrepancy),
    /// Report that the key is missing and write the value to the replica.
    Repair,
}

/// What one replica said when it was asked for the key, and for how many
/// seconds it has lagged behind.
#[derive(Debug, PartialEq, Eq)]
pub struct ReplicaReport<E> {
    pub blobstore_id: BlobstoreId,
    pub answer: Result<Option<Vec<u8>>, E>,
    pub lag: u64,
}

/// The lag is beyond the grace period. Without a grace period every lag is.
pub open spec fn exceeds_grace(lag: u64, grace: Option<u64>) -> bool {
    match grace {
        Some(grace) => lag > grace,
        None => true,
    }
}

/// What is wrong with a replica that gave `answer`, if anything.
pub open spec fn discrepancy_of<E>(
    value: Seq<u8>,
    answer: Result<Option<Vec<u8>>, E>,
    lag: u64,
    grace: Option<u64>,
) -> Option<Discrepancy> {
    match answer {
        Ok(None) => if exceeds_grace(lag, grace) {
            Some(Discrepancy::Missing)
        } else {
            None
        },
        Ok(Some(held)) => if held@ != value && exceeds_grace(lag, grace) {
            Some(Discrepancy::Differs)
        } else {
            None
        },
        Err(_) => None,
    }
}

/// What the scrub does about a replica that gave `answer`.
pub open spec fn scrub_step<E>(
    options: ScrubOptions,
    value: Seq<u8>,
    answer: Result<Option<Vec<u8>>, E>,
    lag: u64,
) -> ScrubStep {
    match discrepancy_of(value, answer, lag, options.scrub_grace) {
        None => ScrubStep::Nothing,
        Some(Discrepancy::Differs) => ScrubStep::Report(Discrepancy::Differs),
        Some(Discrepancy::Missing) => match options.scrub_action {
            ScrubAction::ReportOnly => ScrubStep::Report(Discrepancy::Missing),
            ScrubAction::Repair => ScrubStep::Repair,
        },
    }
}

/// What a replica holds under the key after a step that went through.
pub open spec fn held_after(held: Option<Seq<u8>>, step: ScrubStep, value: Seq<u8>) -> Option<
    Seq<u8>,
> {
    match step {
        ScrubStep::Repair => Some(value),
        _ => held,
    }
}

fn same_bytes(a: &Vec<u8>, b: &Vec<u8>) -> (same: bool)
    ensures
        same == (a@ == b@),
{
    if a.len() != b.len() {
        return false;
    }
    let mut i: usize = 0;
    while i < a.len()
        invariant
            i <= a@.len(),
            a@.len() == b@.len(),
            forall|j: int| 0 <= j < i ==> a@[j] == b@[j],
        decreases a@.len() - i,
    {
        if a[i] != b[i] {
            return false;
        }
        i += 1;
    }
    assert(a@ =~= b@);
    true
}

fn lag_exceeds(lag: u64, grace: Option<u64>) -> (exceeds: bool)
    ensures
        exceeds == exceeds_grace(lag, grace),
{
    match grace {
        Some(grace) => lag > grace,
        None => true,
    }
}

/// Decides what to do about one replica.
pub fn scrub_replica<E>(options: &ScrubOptions, value: &Vec<u8>, report: &ReplicaReport<E>) -> (step:
    ScrubStep)
    ensures
        step == scrub_step(*options, value@, report.answer, report.lag),
{
    let found = match &report.answer {
        Ok(None) => {
            if lag_exceeds(report.lag, options.scrub_grace) {
                Some(Discrepancy::Missing)
            } else {
                None
            }
        },
        Ok(Some(held)) => {
            if !same_bytes(held, value) && lag_exceeds(report.lag, options.scrub_grace) {
                Some(Discrepancy::Differs)
            } else {
                None
            }
        },
        Err(_) => None,
    };
    match found {
        None => ScrubStep::Nothing,
        Some(Discrepancy::Differs) => ScrubStep::Report(Discrepancy::Differs),
        Some(Discrepancy::Missing) => match options.scrub_action {
            ScrubAction::ReportOnly => ScrubStep::Report(Discrepancy::Missing),
            ScrubAction::Repair => ScrubStep::Repair,
        },
    }
}

/// One pass of the scrub over all replicas of a store, normal or not: for
/// each, in the order of `reports`, its name and what to do about it.
pub fn scrub<E>(options: &ScrubOptions, value: &Vec<u8>, reports: &Vec<ReplicaReport<E>>) -> (steps:
    Vec<(BlobstoreId, ScrubStep)>)
    ensures
        steps@.len() == reports@.len(),
        forall|i: int|
            0 <= i < reports@.len() ==> #[trigger] steps@[i] == (
                reports@[i].blobstore_id,
                scrub_step(*options, value@, reports@[i].answer, reports@[i].lag),
            ),
{
    let mut steps: Vec<(BlobstoreId, ScrubStep)> = Vec::new();
    let mut i: usize = 0;
    while i < reports.len()
        invariant
            i <= reports@.len(),
            steps@.len() == i,
            forall|j: int|
                0 <= j < i ==> #[trigger] steps@[j] == (
                    reports@[j].blobstore_id,
                    scrub_step(*options, value@, reports@[j].answer, reports@[j].lag),
                ),
        decreases reports@.len() - i,
    {
        let step = scrub_replica(options, value, &reports[i]);
        steps.push((reports[i].blobstore_id, step));
        i += 1;
    }
    steps
}

/// A replica that lacks the key beyond its grace period holds the value that
/// was read after one pass of a scrub that repairs. A scrub that only reports
/// leaves it without the key, and reports it once.
pub proof fn lemma_scrub_of_missing_key<E>(
    options: ScrubOptions,
    value: Seq<u8>,
    answer: Result<Option<Vec<u8>>, E>,
    lag: u64,
)
    requires
        answer == Ok::<Option<Vec<u8>>, E>(None),
        exceeds_grace(lag, options.scrub_grace),
    ensures
        options.scrub_action == ScrubAction::Repair ==> held_after(
            None,
            scrub_step(options, value, answer, lag),
            value,
        ) == Some(value),
        options.scrub_action == ScrubAction::ReportOnly ==> scrub_step(options, value, answer, lag)
            == ScrubStep::Report(Discrepancy::Missing) && held_after(
            None,
            scrub_step(options, value, answer, lag),
            value,
        ) == None::<Seq<u8>>,
{
}

/// A replica within its grace period is left alone, whatever it holds.
pub proof fn lemma_grace_is_honoured<E>(
    options: ScrubOptions,
    value: Seq<u8>,
    answer: Result<Option<Vec<u8>>, E>,
    lag: u64,
)
    requires
        !exceeds_grace(lag, options.scrub_grace),
    ensures
        scrub_step(options, value, answer, lag) == ScrubStep::Nothing,
{
}

/// The replica holds the key.
pub open spec fn holds<E>(report: ReplicaReport<E>) -> bool {
    report.answer matches Ok(Some(_))
}

/// The bytes that a replica holds under the key.
pub open spec fn held_by<E>(report: ReplicaReport<E>) -> Seq<u8>
    recommends
        holds(report),
{
    report.answer->Ok_0->Some_0@
}

/// The replica at `i` is the first that holds the key: the others are held
/// against what it holds.
pub open spec fn is_reference<E>(reports: Seq<ReplicaReport<E>>, i: int) -> bool {
    &&& 0 <= i < reports.len()
    &&& holds(reports[i])
    &&& forall|j: int| 0 <= j < i ==> !holds(#[trigger] reports[j])
}

/// One pass of the scrub, from what every replica of the store said when it
/// was asked for the key: the normal replicas in their order, then the others
/// in theirs.
///
/// Returns the place of the replica whose bytes the others are held against,
/// which is the first that holds the key, and for every replica its name and
/// what to do about it. Where no replica holds the key there is nothing to
/// hold the others against, and nothing is done.
pub fn scrub_pass<E>(options: &ScrubOptions, reports: &Vec<ReplicaReport<E>>) -> (pass: (
    Option<usize>,
    Vec<(BlobstoreId, ScrubStep)>,
))
    ensures
        match pass.0 {
            Some(reference) => {
                &&& is_reference(reports@, reference as int)
                &&& pass.1@.len() == reports@.len()
                &&& forall|i: int|
                    0 <= i < reports@.len() ==> #[trigger] pass.1@[i] == (
                        reports@[i].blobstore_id,
                        scrub_step(
                            *options,
                            held_by(reports@[reference as int]),
                            reports@[i].answer,
                            reports@[i].lag,
                        ),
                    )
            },
            None => {
                &&& forall|i: int| 0 <= i < reports@.len() ==> !holds(#[trigger] reports@[i])
                &&& pass.1@.len() == 0
            },
        },
{
    let mut i: usize = 0;
    while i < reports.len()
        invariant
            i <= reports@.len(),
            forall|j: int| 0 <= j < i ==> !holds(#[trigger] reports@[j]),
        decreases reports@.len() - i,
    {
        match &reports[i].answer {
            Ok(Some(value)) => {
                let steps = scrub(options, value, reports);
                return (Some(i), steps);
            },
            _ => {},
        }
        i += 1;
    }
    (None, Vec::new())
}

/// Where some replica holds the key, one is the first to hold it.
pub proof fn lemma_some_reference<E>(reports: Seq<ReplicaReport<E>>, a: int)
    requires
        0 <= a < reports.len(),
        holds(reports[a]),
    ensures
        exists|r: int| 0 <= r <= a && is_reference(reports, r),
    decreases a,
{
    if exists|j: int| 0 <= j < a && holds(#[trigger] reports[j]) {
        let j = choose|j: int| 0 <= j < a && holds(#[trigger] reports[j]);
        lemma_some_reference(reports, j);
    } else {
        assert(is_reference(reports, a));
    }
}

/// Replica `a` holds the key and replica `b`, whatever it is used for, lacks
/// it beyond its grace period. Then one pass of a scrub that repairs leaves
/// `b` with the bytes of the first holder, which are those of `a` wherever the
/// holders agree. A scrub that only reports leaves `b` without the key and
/// reports it.
pub proof fn lemma_scrub_pass_of_missing_key<E>(
    options: ScrubOptions,
    reports: Seq<ReplicaReport<E>>,
    reference: int,
    a: int,
    b: int,
)
    requires
        is_reference(reports, reference),
        0 <= a < reports.len(),
        holds(reports[a]),
        0 <= b < reports.len(),
        reports[b].answer == Ok::<Option<Vec<u8>>, E>(None),
        exceeds_grace(reports[b].lag, options.scrub_grace),
    ensures
        reference <= a,
        (forall|j: int|
            0 <= j < reports.len() && holds(#[trigger] reports[j]) ==> held_by(reports[j])
                == held_by(reports[a])) ==> held_by(reports[reference]) == held_by(reports[a]),
        options.scrub_action == ScrubAction::Repair ==> held_after(
            None,
            scrub_step(options, held_by(reports[reference]), reports[b].answer, reports[b].lag),
            held_by(reports[reference]),
        ) == Some(held_by(reports[reference])),
        options.scrub_action == ScrubAction::ReportOnly ==> scrub_step(
            options,
            held_by(reports[reference]),
            reports[b].answer,
            reports[b].lag,
        ) == ScrubStep::Report(Discrepancy::Missing),
{
    if a < reference {
        assert(!holds(reports[a]));
    }
}

} // verus!
