use blobstore_factory::config::BlobstoreId;
use blobstore_factory::options::ScrubAction;
use blobstore_factory::options::ScrubOptions;
use blobstore_factory::scrub::scrub;
use blobstore_factory::scrub::scrub_pass;
use blobstore_factory::scrub::scrub_replica;
use blobstore_factory::scrub::Discrepancy;
use blobstore_factory::scrub::ReplicaReport;
use blobstore_factory::scrub::ScrubStep;

fn report(id: u64, answer: Result<Option<Vec<u8>>, String>, lag: u64) -> ReplicaReport<String> {
    ReplicaReport { blobstore_id: BlobstoreId(id), answer, lag }
}

fn options(scrub_action: ScrubAction, scrub_grace: Option<u64>) -> ScrubOptions {
    ScrubOptions { scrub_action, scrub_grace }
}

#[test]
fn repair_writes_the_missing_key_back() {
    let value = b"bytes".to_vec();
    let steps = scrub(
        &options(ScrubAction::Repair, Some(60)),
        &value,
        &vec![report(1, Ok(Some(value.clone())), 0), report(2, Ok(None), 61)],
    );
    assert_eq!(
        steps,
        vec![(BlobstoreId(1), ScrubStep::Nothing), (BlobstoreId(2), ScrubStep::Repair)]
    );
}

#[test]
fn report_only_reports_once() {
    let value = b"bytes".to_vec();
    let steps = scrub(
        &options(ScrubAction::ReportOnly, Some(60)),
        &value,
        &vec![report(1, Ok(Some(value.clone())), 0), report(2, Ok(None), 61)],
    );
    assert_eq!(
        steps,
        vec![
            (BlobstoreId(1), ScrubStep::Nothing),
            (BlobstoreId(2), ScrubStep::Report(Discrepancy::Missing)),
        ]
    );
}

#[test]
fn grace_is_honoured() {
    let value = b"bytes".to_vec();
    let repair = options(ScrubAction::Repair, Some(60));
    assert_eq!(scrub_replica(&repair, &value, &report(2, Ok(None), 60)), ScrubStep::Nothing);
    assert_eq!(scrub_replica(&repair, &value, &report(2, Ok(None), 0)), ScrubStep::Nothing);
    assert_eq!(scrub_replica(&repair, &value, &report(2, Ok(None), 61)), ScrubStep::Repair);
    assert_eq!(
        scrub_replica(&repair, &value, &report(2, Ok(Some(b"other".to_vec())), 60)),
        ScrubStep::Nothing
    );
}

#[test]
fn without_grace_every_lag_counts() {
    let value = b"bytes".to_vec();
    let repair = options(ScrubAction::Repair, None);
    assert_eq!(scrub_replica(&repair, &value, &report(2, Ok(None), 0)), ScrubStep::Repair);
    let zero = options(ScrubAction::Repair, Some(0));
    assert_eq!(scrub_replica(&zero, &value, &report(2, Ok(None), 0)), ScrubStep::Nothing);
    assert_eq!(scrub_replica(&zero, &value, &report(2, Ok(None), 1)), ScrubStep::Repair);
}

#[test]
fn other_bytes_are_reported_and_not_repaired() {
    let value = b"bytes".to_vec();
    for action in [ScrubAction::Repair, ScrubAction::ReportOnly] {
        assert_eq!(
            scrub_replica(
                &options(action, None),
                &value,
                &report(3, Ok(Some(b"bytez".to_vec())), 5)
            ),
            ScrubStep::Report(Discrepancy::Differs)
        );
        assert_eq!(
            scrub_replica(&options(action, None), &value, &report(3, Ok(Some(b"byte".to_vec())), 5)),
            ScrubStep::Report(Discrepancy::Differs)
        );
        assert_eq!(
            scrub_replica(&options(action, None), &value, &report(3, Ok(Some(value.clone())), 5)),
            ScrubStep::Nothing
        );
    }
}

#[test]
fn a_replica_that_could_not_say_is_left_alone() {
    let value = b"bytes".to_vec();
    assert_eq!(
        scrub_replica(
            &options(ScrubAction::Repair, None),
            &value,
            &report(3, Err("down".to_string()), 500)
        ),
        ScrubStep::Nothing
    );
}

#[test]
fn scrub_of_no_replicas() {
    let steps = scrub::<String>(&options(ScrubAction::Repair, None), &b"v".to_vec(), &vec![]);
    assert_eq!(steps, vec![]);
}

#[test]
fn pass_holds_the_replicas_against_the_first_holder() {
    let reports = vec![
        report(1, Ok(None), 100),
        report(2, Ok(Some(b"v".to_vec())), 0),
        report(3, Ok(Some(b"w".to_vec())), 100),
        report(4, Err("down".to_string()), 100),
    ];
    let (reference, steps) = scrub_pass(&options(ScrubAction::Repair, Some(60)), &reports);
    assert_eq!(reference, Some(1));
    assert_eq!(
        steps,
        vec![
            (BlobstoreId(1), ScrubStep::Repair),
            (BlobstoreId(2), ScrubStep::Nothing),
            (BlobstoreId(3), ScrubStep::Report(Discrepancy::Differs)),
            (BlobstoreId(4), ScrubStep::Nothing),
        ]
    );
}

#[test]
fn pass_repairs_from_a_replica_that_is_not_read() {
    // The normal replica lacks the key; only the write-mostly one, which
    // comes after it, holds it.
    let reports = vec![report(1, Ok(None), 61), report(2, Ok(Some(b"v".to_vec())), 0)];
    let (reference, steps) = scrub_pass(&options(ScrubAction::Repair, Some(60)), &reports);
    assert_eq!(reference, Some(1));
    assert_eq!(steps, vec![(BlobstoreId(1), ScrubStep::Repair), (BlobstoreId(2), ScrubStep::Nothing)]);
    let (reference, steps) = scrub_pass(&options(ScrubAction::ReportOnly, Some(60)), &reports);
    assert_eq!(reference, Some(1));
    assert_eq!(
        steps,
        vec![
            (BlobstoreId(1), ScrubStep::Report(Discrepancy::Missing)),
            (BlobstoreId(2), ScrubStep::Nothing),
        ]
    );
}

#[test]
fn pass_without_a_holder_does_nothing() {
    let reports = vec![report(1, Ok(None), 100), report(2, Err("down".to_string()), 100)];
    assert_eq!(scrub_pass(&options(ScrubAction::Repair, None), &reports), (None, vec![]));
    assert_eq!(scrub_pass::<String>(&options(ScrubAction::Repair, None), &vec![]), (None, vec![]));
}
