use blobstore_factory::config::BlobstoreId;
use blobstore_factory::config::MultiplexId;
use blobstore_factory::config::MultiplexedStoreType;
use blobstore_factory::multiplex::PutAnswer;
use blobstore_factory::multiplex::PutState;
use blobstore_factory::multiplex::SyncQueueEntry;
use blobstore_factory::multiplex::WriteOutcome;

const NORMAL: MultiplexedStoreType = MultiplexedStoreType::Normal;
const WRITE_MOSTLY: MultiplexedStoreType = MultiplexedStoreType::WriteMostly;

fn ids(ids: &[u64]) -> Vec<BlobstoreId> {
    ids.iter().map(|id| BlobstoreId(*id)).collect()
}

fn put(normal: &[u64], write_mostly: &[u64], threshold: usize) -> PutState {
    PutState::new(MultiplexId(4), "key".to_string(), ids(normal), ids(write_mostly), threshold)
}

fn entry(id: u64, timestamp: u64, outcome: WriteOutcome) -> SyncQueueEntry {
    SyncQueueEntry {
        multiplex_id: MultiplexId(4),
        blobstore_id: BlobstoreId(id),
        key: "key".to_string(),
        timestamp,
        outcome,
    }
}

#[test]
fn put_succeeds_at_the_threshold() {
    let mut state = put(&[1, 2, 3], &[], 2);
    assert_eq!(state.answer(), None);
    state.record(NORMAL, 2, WriteOutcome::Success, 10);
    assert_eq!(state.answer(), None);
    state.record(NORMAL, 0, WriteOutcome::Success, 11);
    assert_eq!(state.answer(), Some(PutAnswer::Success));
    assert!(!state.is_complete());
    state.record(NORMAL, 1, WriteOutcome::Failure, 12);
    assert_eq!(state.answer(), Some(PutAnswer::Success));
    assert!(state.is_complete());
}

#[test]
fn put_fails_once_the_threshold_is_out_of_reach() {
    let mut state = put(&[1, 2, 3], &[], 2);
    state.record(NORMAL, 1, WriteOutcome::Failure, 10);
    assert_eq!(state.answer(), None);
    state.record(NORMAL, 2, WriteOutcome::Failure, 11);
    assert_eq!(
        state.answer(),
        Some(PutAnswer::ReplicationFailure(vec![BlobstoreId(2), BlobstoreId(3)]))
    );
    state.record(NORMAL, 0, WriteOutcome::Success, 12);
    assert_eq!(
        state.answer(),
        Some(PutAnswer::ReplicationFailure(vec![BlobstoreId(2), BlobstoreId(3)]))
    );
}

#[test]
fn put_with_all_replicas_needed() {
    let mut state = put(&[1, 2], &[], 2);
    state.record(NORMAL, 0, WriteOutcome::Success, 10);
    assert_eq!(state.answer(), None);
    state.record(NORMAL, 1, WriteOutcome::Success, 10);
    assert_eq!(state.answer(), Some(PutAnswer::Success));
    let mut failing = put(&[1, 2], &[], 2);
    failing.record(NORMAL, 0, WriteOutcome::Failure, 10);
    assert_eq!(failing.answer(), Some(PutAnswer::ReplicationFailure(vec![BlobstoreId(1)])));
}

#[test]
fn write_mostly_replicas_do_not_count() {
    let mut state = put(&[1], &[2, 3], 1);
    state.record(WRITE_MOSTLY, 0, WriteOutcome::Success, 10);
    state.record(WRITE_MOSTLY, 1, WriteOutcome::Success, 10);
    assert_eq!(state.answer(), None);
    state.record(NORMAL, 0, WriteOutcome::Failure, 10);
    assert_eq!(state.answer(), Some(PutAnswer::ReplicationFailure(vec![BlobstoreId(1)])));

    let mut other = put(&[1], &[2], 1);
    other.record(WRITE_MOSTLY, 0, WriteOutcome::Failure, 10);
    assert_eq!(other.answer(), None);
    other.record(NORMAL, 0, WriteOutcome::Success, 10);
    assert_eq!(other.answer(), Some(PutAnswer::Success));
}

#[test]
fn put_without_enough_normal_replicas_fails_at_once() {
    assert_eq!(put(&[], &[7], 1).answer(), Some(PutAnswer::ReplicationFailure(vec![])));
    assert_eq!(put(&[1], &[], 2).answer(), Some(PutAnswer::ReplicationFailure(vec![])));
}

#[test]
fn every_answer_gives_one_line() {
    let mut state = put(&[1, 2], &[3], 1);
    assert_eq!(
        state.record(NORMAL, 1, WriteOutcome::Success, 100),
        Some(entry(2, 100, WriteOutcome::Success))
    );
    assert_eq!(
        state.record(WRITE_MOSTLY, 0, WriteOutcome::Failure, 101),
        Some(entry(3, 101, WriteOutcome::Failure))
    );
    assert_eq!(
        state.record(NORMAL, 0, WriteOutcome::Failure, 102),
        Some(entry(1, 102, WriteOutcome::Failure))
    );
    assert!(state.is_complete());
}

#[test]
fn a_second_answer_of_a_replica_is_dropped() {
    let mut state = put(&[1, 2], &[3], 2);
    assert!(state.record(NORMAL, 0, WriteOutcome::Failure, 100).is_some());
    assert_eq!(state.record(NORMAL, 0, WriteOutcome::Success, 101), None);
    assert_eq!(state.answer(), Some(PutAnswer::ReplicationFailure(vec![BlobstoreId(1)])));
    assert!(state.record(WRITE_MOSTLY, 0, WriteOutcome::Success, 100).is_some());
    assert_eq!(state.record(WRITE_MOSTLY, 0, WriteOutcome::Success, 100), None);
}

#[test]
fn an_unknown_replica_is_dropped() {
    let mut state = put(&[1, 2], &[3], 2);
    assert_eq!(state.record(NORMAL, 2, WriteOutcome::Success, 100), None);
    assert_eq!(state.record(WRITE_MOSTLY, 1, WriteOutcome::Success, 100), None);
    assert_eq!(state.record(NORMAL, usize::MAX, WriteOutcome::Success, 100), None);
    assert_eq!(state.answer(), None);
    assert!(!state.is_complete());
}

#[test]
fn two_writes_of_one_key_have_lines_of_their_own() {
    let mut first = put(&[1], &[], 1);
    let mut second = put(&[1], &[], 1);
    let a = first.record(NORMAL, 0, WriteOutcome::Success, 100);
    let b = second.record(NORMAL, 0, WriteOutcome::Failure, 100);
    assert_eq!(a, Some(entry(1, 100, WriteOutcome::Success)));
    assert_eq!(b, Some(entry(1, 100, WriteOutcome::Failure)));
    assert_eq!(first.answer(), Some(PutAnswer::Success));
    assert_eq!(second.answer(), Some(PutAnswer::ReplicationFailure(vec![BlobstoreId(1)])));
}
