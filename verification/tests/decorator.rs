use blobstore_factory::decorator::chaos_gate;
use blobstore_factory::decorator::disabled_gate;
use blobstore_factory::decorator::read_only_gate;
use blobstore_factory::decorator::Operation;
use blobstore_factory::decorator::Refusal;
use blobstore_factory::options::ChaosOptions;
use blobstore_factory::options::ThrottleOptions;

const ALL: [Operation; 4] = [Operation::Get, Operation::IsPresent, Operation::Put, Operation::Link];

#[test]
fn put_and_link_write() {
    assert!(Operation::Put.is_write());
    assert!(Operation::Link.is_write());
    assert!(!Operation::Get.is_write());
    assert!(!Operation::IsPresent.is_write());
}

#[test]
fn read_only_refuses_writes_only() {
    assert_eq!(read_only_gate(Operation::Put), Err(Refusal::ReadOnlyViolation));
    assert_eq!(read_only_gate(Operation::Link), Err(Refusal::ReadOnlyViolation));
    assert_eq!(read_only_gate(Operation::Get), Ok(()));
    assert_eq!(read_only_gate(Operation::IsPresent), Ok(()));
}

#[test]
fn chaos_with_ratio_one_fails_everything() {
    let chaos = ChaosOptions::new(Some(1), Some(1));
    for operation in ALL {
        for draw in [0u32, 1, 2, 77, u32::MAX] {
            assert!(chaos.injects_failure(operation, draw));
            assert_eq!(chaos_gate(&chaos, operation, draw), Err(Refusal::ChaosInjected));
        }
    }
}

#[test]
fn chaos_without_ratio_fails_nothing() {
    for chaos in [ChaosOptions::new(None, None), ChaosOptions::new(Some(0), Some(0))] {
        for operation in ALL {
            for draw in [0u32, 1, 2, 77, u32::MAX] {
                assert!(!chaos.injects_failure(operation, draw));
                assert_eq!(chaos_gate(&chaos, operation, draw), Ok(()));
            }
        }
    }
}

#[test]
fn chaos_fails_one_draw_in_n() {
    let chaos = ChaosOptions::new(Some(4), None);
    let failures = (0u32..100).filter(|draw| chaos.injects_failure(Operation::Get, *draw)).count();
    assert_eq!(failures, 25);
    assert!(chaos.injects_failure(Operation::Get, 8));
    assert!(!chaos.injects_failure(Operation::Get, 9));
}

#[test]
fn chaos_for_reads_and_writes_apart() {
    let chaos = ChaosOptions::new(Some(1), None);
    assert!(chaos.injects_failure(Operation::Get, 5));
    assert!(chaos.injects_failure(Operation::IsPresent, 5));
    assert!(!chaos.injects_failure(Operation::Put, 5));
    assert!(!chaos.injects_failure(Operation::Link, 5));
    let chaos = ChaosOptions::new(None, Some(1));
    assert!(!chaos.injects_failure(Operation::Get, 5));
    assert!(chaos.injects_failure(Operation::Put, 5));
}

#[test]
fn chaos_repeats_itself_on_the_same_draws() {
    let chaos = ChaosOptions::new(Some(3), Some(5));
    let draws: Vec<u32> = (0..50).map(|i: u32| i.wrapping_mul(2654435761)).collect();
    let run = |operation: Operation| -> Vec<bool> {
        draws.iter().map(|draw| chaos.injects_failure(operation, *draw)).collect()
    };
    assert_eq!(run(Operation::Get), run(Operation::Get));
    assert_eq!(run(Operation::Put), run(Operation::Put));
}

#[test]
fn throttle_limits_reads_and_writes_apart() {
    let throttle = ThrottleOptions::new(Some(100), Some(7));
    assert_eq!(throttle.limit(Operation::Get), Some(100));
    assert_eq!(throttle.limit(Operation::IsPresent), Some(100));
    assert_eq!(throttle.limit(Operation::Put), Some(7));
    assert_eq!(throttle.limit(Operation::Link), Some(7));
    let reads_only = ThrottleOptions::new(Some(100), None);
    assert_eq!(reads_only.limit(Operation::Put), None);
    let zero = ThrottleOptions::new(Some(0), Some(0));
    assert_eq!(zero.limit(Operation::Get), None);
    assert_eq!(zero.limit(Operation::Put), None);
}

#[test]
fn disabled_refuses_everything() {
    for operation in ALL {
        assert_eq!(disabled_gate(operation), Err(Refusal::Disabled));
    }
    assert_eq!(Refusal::Disabled.message(), "Disabled by configuration");
    assert_eq!(Refusal::ReadOnlyViolation.message(), "The store is read-only");
    assert_eq!(Refusal::ChaosInjected.message(), "A fault was injected");
}
