use blobstore_factory::config::BlobConfig;
use blobstore_factory::config::BlobstoreId;
use blobstore_factory::config::DatabaseConfig;
use blobstore_factory::config::MultiplexId;
use blobstore_factory::config::MultiplexedStoreType;
use blobstore_factory::config::ShardableRemoteDatabaseConfig;

fn multiplexed(
    minimum_successful_writes: usize,
    scuba_sample_rate: u64,
    blobstores: Vec<(BlobstoreId, MultiplexedStoreType, BlobConfig)>,
) -> BlobConfig {
    BlobConfig::Multiplexed {
        multiplex_id: MultiplexId(1),
        scuba_table: None,
        scuba_sample_rate,
        blobstores,
        minimum_successful_writes,
        queue_db: DatabaseConfig::Local { path: "/q".to_string() },
    }
}

fn leaf() -> BlobConfig {
    BlobConfig::Files { path: "/x".to_string() }
}

#[test]
fn leaves_are_well_formed() {
    assert!(BlobConfig::Disabled.is_well_formed());
    assert!(leaf().is_well_formed());
    assert!(BlobConfig::Sqlite { path: "/x".to_string() }.is_well_formed());
}

#[test]
fn shard_count_must_not_be_zero() {
    let sharded = |shard_num: usize| BlobConfig::Mysql {
        remote: ShardableRemoteDatabaseConfig::Sharded { shard_map: "m".to_string(), shard_num },
    };
    assert!(sharded(1).is_well_formed());
    assert!(!sharded(0).is_well_formed());
}

#[test]
fn threshold_and_sample_rate_must_not_be_zero() {
    assert!(multiplexed(1, 1, vec![]).is_well_formed());
    assert!(!multiplexed(0, 1, vec![]).is_well_formed());
    assert!(!multiplexed(1, 0, vec![]).is_well_formed());
    let logging = |rate: u64| BlobConfig::Logging {
        blobconfig: Box::new(leaf()),
        scuba_table: None,
        scuba_sample_rate: rate,
    };
    assert!(logging(1).is_well_formed());
    assert!(!logging(0).is_well_formed());
}

#[test]
fn nested_store_must_be_able_to_meet_its_threshold() {
    let inner_ok = multiplexed(1, 1, vec![(BlobstoreId(1), MultiplexedStoreType::Normal, leaf())]);
    let inner_bad = multiplexed(2, 1, vec![(BlobstoreId(1), MultiplexedStoreType::Normal, leaf())]);
    assert!(inner_bad.is_well_formed());
    assert!(!inner_bad.is_well_formed_at(true));
    let outer_ok = multiplexed(3, 1, vec![(BlobstoreId(9), MultiplexedStoreType::Normal, inner_ok)]);
    assert!(outer_ok.is_well_formed());
    let outer_bad = multiplexed(
        1,
        1,
        vec![
            (BlobstoreId(8), MultiplexedStoreType::Normal, leaf()),
            (BlobstoreId(9), MultiplexedStoreType::WriteMostly, inner_bad),
        ],
    );
    assert!(!outer_bad.is_well_formed());
}

#[test]
fn wrappers_pass_the_nesting_on() {
    let inner_bad = multiplexed(2, 1, vec![(BlobstoreId(1), MultiplexedStoreType::Normal, leaf())]);
    let wrapped = BlobConfig::Logging {
        blobconfig: Box::new(inner_bad),
        scuba_table: None,
        scuba_sample_rate: 1,
    };
    assert!(wrapped.is_well_formed());
    let outer = multiplexed(1, 1, vec![(BlobstoreId(9), MultiplexedStoreType::Normal, wrapped)]);
    assert!(!outer.is_well_formed());
}
