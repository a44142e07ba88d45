use blobstore_factory::config::BlobstoreId;
use blobstore_factory::config::MultiplexId;
use blobstore_factory::config::MultiplexedStoreType;
use blobstore_factory::multiplex::PutState;
use blobstore_factory::multiplex::SyncQueueEntry;
use blobstore_factory::multiplex::WriteOutcome;
use blobstore_factory::sync_queue::SyncQueue;

fn entry(multiplex: i32, id: u64, key: &str, timestamp: u64, outcome: WriteOutcome) -> SyncQueueEntry {
    SyncQueueEntry {
        multiplex_id: MultiplexId(multiplex),
        blobstore_id: BlobstoreId(id),
        key: key.to_string(),
        timestamp,
        outcome,
    }
}

#[test]
fn a_new_queue_is_empty() {
    let queue = SyncQueue::new();
    assert_eq!(queue.len(), 0);
    assert_eq!(queue.list_pending(MultiplexId(1), 0), vec![]);
}

#[test]
fn record_appends() {
    let mut queue = SyncQueue::new();
    queue.record(entry(1, 1, "k", 10, WriteOutcome::Success));
    queue.record(entry(1, 2, "k", 11, WriteOutcome::Failure));
    assert_eq!(queue.len(), 2);
    assert_eq!(
        queue.list_pending(MultiplexId(1), 0),
        vec![entry(1, 1, "k", 10, WriteOutcome::Success), entry(1, 2, "k", 11, WriteOutcome::Failure)]
    );
}

#[test]
fn list_pending_filters_by_group_and_time() {
    let mut queue = SyncQueue::new();
    queue.record(entry(1, 1, "a", 10, WriteOutcome::Success));
    queue.record(entry(2, 1, "a", 20, WriteOutcome::Success));
    queue.record(entry(1, 2, "b", 30, WriteOutcome::Failure));
    queue.record(entry(1, 3, "c", 5, WriteOutcome::Failure));
    assert_eq!(
        queue.list_pending(MultiplexId(1), 10),
        vec![entry(1, 1, "a", 10, WriteOutcome::Success), entry(1, 2, "b", 30, WriteOutcome::Failure)]
    );
    assert_eq!(
        queue.list_pending(MultiplexId(1), 11),
        vec![entry(1, 2, "b", 30, WriteOutcome::Failure)]
    );
    assert_eq!(queue.list_pending(MultiplexId(2), 0), vec![entry(2, 1, "a", 20, WriteOutcome::Success)]);
    assert_eq!(queue.list_pending(MultiplexId(3), 0), vec![]);
    assert_eq!(queue.len(), 4);
}

#[test]
fn equal_lines_are_kept_apart() {
    let mut queue = SyncQueue::new();
    queue.record(entry(1, 1, "k", 10, WriteOutcome::Success));
    queue.record(entry(1, 1, "k", 10, WriteOutcome::Success));
    assert_eq!(queue.len(), 2);
    assert_eq!(queue.list_pending(MultiplexId(1), 10).len(), 2);
}

#[test]
fn mixed_writes_of_one_key_lose_no_line() {
    let new_put = || {
        PutState::new(
            MultiplexId(1),
            "key".to_string(),
            vec![BlobstoreId(1), BlobstoreId(2)],
            vec![BlobstoreId(3)],
            1,
        )
    };
    let mut first = new_put();
    let mut second = new_put();
    let mut queue = SyncQueue::new();
    let normal = MultiplexedStoreType::Normal;
    let write_mostly = MultiplexedStoreType::WriteMostly;
    let steps: Vec<(bool, MultiplexedStoreType, usize, WriteOutcome, u64)> = vec![
        (true, normal, 0, WriteOutcome::Success, 1),
        (false, normal, 0, WriteOutcome::Failure, 2),
        (false, write_mostly, 0, WriteOutcome::Success, 3),
        (true, normal, 1, WriteOutcome::Failure, 4),
        (true, write_mostly, 0, WriteOutcome::Success, 5),
        (false, normal, 1, WriteOutcome::Success, 6),
        (true, normal, 1, WriteOutcome::Success, 7),
    ];
    for (is_first, store_type, index, outcome, timestamp) in steps {
        let state = if is_first { &mut first } else { &mut second };
        if let Some(line) = state.record(store_type, index, outcome, timestamp) {
            queue.record(line);
        }
    }
    assert!(first.is_complete());
    assert!(second.is_complete());
    assert_eq!(queue.len(), 6);
    let lines = queue.list_pending(MultiplexId(1), 0);
    let timestamps: Vec<u64> = lines.iter().map(|line| line.timestamp).collect();
    assert_eq!(timestamps, vec![1, 2, 3, 4, 5, 6]);
    for id in [1u64, 2, 3] {
        assert_eq!(lines.iter().filter(|line| line.blobstore_id == BlobstoreId(id)).count(), 2);
    }
}

#[test]
fn many_writers_of_one_key_get_a_line_for_each_replica() {
    let callers: usize = 5;
    let replicas: usize = 3;
    let mut queue = SyncQueue::new();
    queue.record(entry(9, 9, "older", 0, WriteOutcome::Success));
    let mut puts: Vec<PutState> = (0..callers)
        .map(|_| {
            PutState::new(
                MultiplexId(1),
                "key".to_string(),
                vec![BlobstoreId(1), BlobstoreId(2)],
                vec![BlobstoreId(3)],
                2,
            )
        })
        .collect();
    // The answers come in replica by replica, the callers in turn, the last
    // caller first for the second replica.
    let slots = [
        (MultiplexedStoreType::Normal, 0usize),
        (MultiplexedStoreType::WriteMostly, 0),
        (MultiplexedStoreType::Normal, 1),
    ];
    let mut timestamp: u64 = 0;
    for (round, (store_type, index)) in slots.iter().enumerate() {
        for step in 0..callers {
            let caller = if round == 1 { callers - 1 - step } else { step };
            timestamp += 1;
            let outcome =
                if caller % 2 == 0 { WriteOutcome::Success } else { WriteOutcome::Failure };
            if let Some(line) = puts[caller].record(*store_type, *index, outcome, timestamp) {
                queue.record(line);
            }
        }
    }
    assert!(puts.iter().all(|put| put.is_complete()));
    assert_eq!(queue.len(), 1 + callers * replicas);
    assert_eq!(
        queue.list_pending(MultiplexId(9), 0),
        vec![entry(9, 9, "older", 0, WriteOutcome::Success)]
    );
    let lines = queue.list_pending(MultiplexId(1), 0);
    assert_eq!(lines.len(), callers * replicas);
    let timestamps: Vec<u64> = lines.iter().map(|line| line.timestamp).collect();
    assert_eq!(timestamps, (1..=15).collect::<Vec<u64>>());
    for id in [1u64, 2, 3] {
        assert_eq!(lines.iter().filter(|line| line.blobstore_id == BlobstoreId(id)).count(), callers);
    }
    assert!(lines.iter().all(|line| line.key == "key"));
}
