//! From a configuration tree to the plan of the store that it describes.
//!
//! A leaf of the tree becomes the backend that it names. A multiplexed node
//! becomes its replicas, split by what they are used for, and a sync queue.
//! A logging or packing node becomes the store of the node inside it,
//! whatever that node is, with the logging or packing around it.
//! Around every node built here go, from the inside out: the refusal of
//! writes where the storage is read-only, the rate limits where any is set,
//! and the injection of faults where any is set and the node has no
//! components of its own to carry it.

use vstd::prelude::*;
use crate::config::BlobConfig;
use crate::config::BlobConfigView;
use crate::config::BlobstoreId;
use crate::config::DatabaseConfig;
use crate::config::DatabaseConfigView;
use crate::config::MultiplexId;
use crate::config::MultiplexedStoreType;
use crate::config::PackConfig;
use crate::config::PackFormat;
use crate::config::ShardableRemoteDatabaseConfig;
use crate::config::ShardableRemoteDatabaseConfigView;
use crate::config::component_configs;
use crate::config::text_of;
use crate::options::copy_text;
use crate::options::BlobstoreOptions;
use crate::options::BlobstoreOptionsView;
use crate::options::ChaosOptions;
use crate::options::MysqlConnectionType;
use crate::options::MysqlOptions;
use crate::options::Platform;
use crate::options::PutBehaviour;
use crate::options::ReadOnlyStorage;
use crate::options::ScrubAction;
use crate::plan::BuildError;
use crate::plan::QueuePlan;
use crate::plan::QueuePlanView;
use crate::plan::StoreKind;
use crate::plan::StorePlan;
use crate::plan::StorePlanView;
use crate::plan::component_plans;
use crate::plan::outcome_of;
use crate::plan::replica_plans;

verus! {

/// The remote database to open for a tier: which constructor, by how the
/// database is reached and whether it is sharded.
pub open spec fn xdb_plan(
    tier_name: Seq<char>,
    shard_count: Option<usize>,
    options: BlobstoreOptionsView,
    readonly_storage: ReadOnlyStorage,
    put_behaviour: PutBehaviour,
) -> StorePlanView {
    let read_conn_type = options.sqlblob_mysql_options.spec_read_connection_type();
    let readonly = readonly_storage.0;
    match (options.sqlblob_mysql_options.connection_type, shard_count) {
        (MysqlConnectionType::Myrouter(port), None) => StorePlanView::MyrouterUnsharded {
            tier_name,
            port,
            read_conn_type,
            readonly,
            put_behaviour,
        },
        (MysqlConnectionType::Myrouter(port), Some(shard_num)) => StorePlanView::Myrouter {
            tier_name,
            port,
            read_conn_type,
            shard_num,
            readonly,
            put_behaviour,
        },
        (MysqlConnectionType::Mysql, None) => StorePlanView::MysqlUnsharded {
            tier_name,
            read_conn_type,
            readonly,
            put_behaviour,
        },
        (MysqlConnectionType::Mysql, Some(shard_num)) => StorePlanView::Mysql {
            tier_name,
            shard_num,
            read_conn_type,
            readonly,
            put_behaviour,
        },
    }
}

/// The relational store that a node describes.
pub open spec fn sql_plan(
    config: BlobConfigView,
    readonly_storage: ReadOnlyStorage,
    options: BlobstoreOptionsView,
) -> Result<StorePlanView, BuildError> {
    match config {
        BlobConfigView::Sqlite { path } => Ok(
            StorePlanView::Sqlite {
                path,
                readonly: readonly_storage.0,
                put_behaviour: options.put_behaviour,
            },
        ),
        BlobConfigView::Mysql { remote } => match remote {
            ShardableRemoteDatabaseConfigView::Unsharded { db_address } => Ok(
                xdb_plan(db_address, None, options, readonly_storage, options.put_behaviour),
            ),
            ShardableRemoteDatabaseConfigView::Sharded { shard_map, shard_num } => Ok(
                xdb_plan(
                    shard_map,
                    Some(shard_num),
                    options,
                    readonly_storage,
                    options.put_behaviour,
                ),
            ),
        },
        _ => Err(BuildError::ConfigMismatch(StoreKind::Sql)),
    }
}

/// The cloud object store that a node describes, where the deployment has
/// one.
pub open spec fn manifold_plan(
    platform: Platform,
    config: BlobConfigView,
    options: BlobstoreOptionsView,
) -> Result<StorePlanView, BuildError> {
    if !platform.manifold {
        Err(BuildError::Unimplemented)
    } else {
        match config {
            BlobConfigView::Manifold { bucket, prefix } => Ok(
                StorePlanView::Manifold {
                    prefix,
                    bucket,
                    ttl: None,
                    api_key: options.manifold_api_key,
                    put_behaviour: options.put_behaviour,
                },
            ),
            BlobConfigView::ManifoldWithTtl { bucket, prefix, ttl } => Ok(
                StorePlanView::Manifold {
                    prefix,
                    bucket,
                    ttl: Some(ttl),
                    api_key: options.manifold_api_key,
                    put_behaviour: options.put_behaviour,
                },
            ),
            _ => Err(BuildError::ConfigMismatch(StoreKind::Manifold)),
        }
    }
}

/// The file store that a node describes.
pub open spec fn files_plan(config: BlobConfigView, options: BlobstoreOptionsView) -> Result<
    StorePlanView,
    BuildError,
> {
    match config {
        BlobConfigView::Files { path } => Ok(
            StorePlanView::Files { path, put_behaviour: options.put_behaviour },
        ),
        _ => Err(BuildError::ConfigMismatch(StoreKind::Files)),
    }
}

/// The physical store that a node describes: one that can alias keys.
pub open spec fn physical_plan(
    platform: Platform,
    config: BlobConfigView,
    readonly_storage: ReadOnlyStorage,
    options: BlobstoreOptionsView,
) -> Result<StorePlanView, BuildError> {
    match config {
        BlobConfigView::Sqlite { .. } | BlobConfigView::Mysql { .. } => sql_plan(
            config,
            readonly_storage,
            options,
        ),
        BlobConfigView::Manifold { .. } | BlobConfigView::ManifoldWithTtl { .. } => manifold_plan(
            platform,
            config,
            options,
        ),
        BlobConfigView::Files { .. } => files_plan(config, options),
        _ => Err(BuildError::ConfigMismatch(StoreKind::Physical)),
    }
}

/// The format that a packing store writes: what the caller asks for, else
/// what the configuration says, else the default.
pub open spec fn chosen_put_format(
    options: BlobstoreOptionsView,
    pack_config: Option<PackConfig>,
) -> PackFormat {
    match options.pack_options.override_put_format {
        Some(format) => format,
        None => match pack_config {
            Some(c) => c.put_format,
            None => PackFormat::Raw,
        },
    }
}

/// The wrappers that go around every node, from the inside out.
pub open spec fn decorated(
    store: StorePlanView,
    readonly_storage: ReadOnlyStorage,
    options: BlobstoreOptionsView,
    has_components: bool,
) -> StorePlanView {
    let store = if readonly_storage.0 {
        StorePlanView::ReadOnly { inner: Box::new(store) }
    } else {
        store
    };
    let store = if options.throttle_options.spec_has_throttle() {
        StorePlanView::Throttled { inner: Box::new(store), options: options.throttle_options }
    } else {
        store
    };
    if !has_components && options.chaos_options.spec_has_chaos() {
        StorePlanView::Chaos { inner: Box::new(store), options: options.chaos_options }
    } else {
        store
    }
}

/// The replicas of a store that is scrubbed are read-only unless the scrub
/// repairs; without a scrub they are written to.
pub open spec fn component_readonly(options: BlobstoreOptionsView) -> ReadOnlyStorage {
    match options.scrub_options {
        Some(scrub) => ReadOnlyStorage(scrub.scrub_action != ScrubAction::Repair),
        None => ReadOnlyStorage(false),
    }
}

/// The options under which the component at `index` is built: faults are
/// injected into the first component only.
pub open spec fn options_of_component(options: BlobstoreOptionsView, index: int) -> BlobstoreOptionsView {
    if options.chaos_options.spec_has_chaos() && index > 0 {
        options.with_chaos(
            ChaosOptions { error_sample_ratio_read: None, error_sample_ratio_write: None },
        )
    } else {
        options
    }
}

/// The replicas of the given use, in the order of the list.
pub open spec fn components_of_type(
    components: Seq<(BlobstoreId, MultiplexedStoreType, StorePlanView)>,
    store_type: MultiplexedStoreType,
) -> Seq<(BlobstoreId, StorePlanView)>
    decreases components.len(),
{
    if components.len() == 0 {
        Seq::empty()
    } else {
        let before = components_of_type(components.drop_last(), store_type);
        let last = components.last();
        if last.1 == store_type {
            before.push((last.0, last.2))
        } else {
            before
        }
    }
}

/// The store that a node describes, wrappers included.
pub open spec fn planned(
    platform: Platform,
    config: BlobConfigView,
    mysql_options: MysqlOptions,
    readonly_storage: ReadOnlyStorage,
    options: BlobstoreOptionsView,
) -> Result<StorePlanView, BuildError>
    decreases config, 2nat,
{
    match bare_plan(platform, config, mysql_options, readonly_storage, options) {
        Ok(store) => Ok(decorated(store, readonly_storage, options, config is Multiplexed)),
        Err(e) => Err(e),
    }
}

/// The packing store that a node describes: the store that the node inside
/// it describes, wrappers included, with the packing around it.
pub open spec fn pack_plan(
    platform: Platform,
    config: BlobConfigView,
    mysql_options: MysqlOptions,
    readonly_storage: ReadOnlyStorage,
    options: BlobstoreOptionsView,
) -> Result<StorePlanView, BuildError>
    decreases config, 0nat,
{
    match config {
        BlobConfigView::Pack { blobconfig, pack_config } => match planned(
            platform,
            *blobconfig,
            mysql_options,
            readonly_storage,
            options,
        ) {
            Ok(inner) => Ok(
                StorePlanView::Pack {
                    inner: Box::new(inner),
                    put_format: chosen_put_format(options, pack_config),
                },
            ),
            Err(e) => Err(e),
        },
        _ => Err(BuildError::ConfigMismatch(StoreKind::Pack)),
    }
}

/// The store that a node describes, before the wrappers go around it.
pub open spec fn bare_plan(
    platform: Platform,
    config: BlobConfigView,
    mysql_options: MysqlOptions,
    readonly_storage: ReadOnlyStorage,
    options: BlobstoreOptionsView,
) -> Result<StorePlanView, BuildError>
    decreases config, 1nat,
{
    match config {
        BlobConfigView::Sqlite { .. } | BlobConfigView::Mysql { .. } => sql_plan(
            config,
            readonly_storage,
            options,
        ),
        BlobConfigView::Manifold { .. } | BlobConfigView::ManifoldWithTtl { .. } => manifold_plan(
            platform,
            config,
            options,
        ),
        BlobConfigView::Files { .. } => files_plan(config, options),
        BlobConfigView::S3 {
            bucket,
            keychain_group,
            region_name,
            endpoint,
            num_concurrent_operations,
        } => if platform.s3 {
            Ok(
                StorePlanView::S3 {
                    bucket,
                    keychain_group,
                    region_name,
                    endpoint,
                    put_behaviour: options.put_behaviour,
                    num_concurrent_operations,
                },
            )
        } else {
            Err(BuildError::Unimplemented)
        },
        BlobConfigView::Disabled => Ok(StorePlanView::Disabled),
        BlobConfigView::Multiplexed {
            multiplex_id,
            scuba_table,
            scuba_sample_rate,
            blobstores,
            minimum_successful_writes,
            queue_db,
        } => multiplexed_plan(
            platform,
            multiplex_id,
            queue_db,
            scuba_table,
            scuba_sample_rate,
            blobstores,
            minimum_successful_writes,
            mysql_options,
            readonly_storage,
            options,
        ),
        BlobConfigView::Logging { blobconfig, scuba_table, scuba_sample_rate } => match planned(
            platform,
            *blobconfig,
            mysql_options,
            readonly_storage,
            options,
        ) {
            Ok(inner) => Ok(
                StorePlanView::Log { inner: Box::new(inner), scuba_table, scuba_sample_rate },
            ),
            Err(e) => Err(e),
        },
        BlobConfigView::Pack { .. } => pack_plan(
            platform,
            config,
            mysql_options,
            readonly_storage,
            options,
        ),
    }
}

/// The multiplexed store that a list of components describes. Its sync queue
/// is read-only where the storage is; its replicas go by `component_readonly`.
pub open spec fn multiplexed_plan(
    platform: Platform,
    multiplex_id: MultiplexId,
    queue_db: DatabaseConfigView,
    scuba_table: Option<Seq<char>>,
    scuba_sample_rate: u64,
    inner_config: Seq<(BlobstoreId, MultiplexedStoreType, BlobConfigView)>,
    minimum_successful_writes: usize,
    mysql_options: MysqlOptions,
    readonly_storage: ReadOnlyStorage,
    options: BlobstoreOptionsView,
) -> Result<StorePlanView, BuildError>
    decreases inner_config, 1nat,
{
    match planned_components(platform, inner_config, mysql_options, options) {
        Ok(components) => Ok(
            StorePlanView::Multiplexed {
                multiplex_id,
                normal_components: components_of_type(components, MultiplexedStoreType::Normal),
                write_mostly_components: components_of_type(
                    components,
                    MultiplexedStoreType::WriteMostly,
                ),
                minimum_successful_writes,
                queue: QueuePlanView {
                    db: queue_db,
                    mysql_options,
                    readonly: readonly_storage.0,
                },
                scuba_table,
                scuba_sample_rate,
                scrub_options: options.scrub_options,
            },
        ),
        Err(e) => Err(e),
    }
}

/// The stores that a list of components describes, in the order of the list;
/// if some cannot be built, the error of the first of them.
pub open spec fn planned_components(
    platform: Platform,
    inner_config: Seq<(BlobstoreId, MultiplexedStoreType, BlobConfigView)>,
    mysql_options: MysqlOptions,
    options: BlobstoreOptionsView,
) -> Result<Seq<(BlobstoreId, MultiplexedStoreType, StorePlanView)>, BuildError>
    decreases inner_config, 0nat,
{
    if inner_config.len() == 0 {
        Ok(Seq::empty())
    } else {
        let last = inner_config.last();
        match planned_components(platform, inner_config.drop_last(), mysql_options, options) {
            Err(e) => Err(e),
            Ok(before) => match planned(
                platform,
                last.2,
                mysql_options,
                component_readonly(options),
                options_of_component(options, inner_config.len() - 1),
            ) {
                Err(e) => Err(e),
                Ok(store) => Ok(before.push((last.0, last.1, store))),
            },
        }
    }
}

/// An error among the first components is the error of the whole list.
pub proof fn lemma_component_error_stays(
    platform: Platform,
    inner_config: Seq<(BlobstoreId, MultiplexedStoreType, BlobConfigView)>,
    mysql_options: MysqlOptions,
    options: BlobstoreOptionsView,
    k: int,
)
    requires
        0 <= k <= inner_config.len(),
        planned_components(platform, inner_config.take(k), mysql_options, options) is Err,
    ensures
        planned_components(platform, inner_config, mysql_options, options)
            == planned_components(platform, inner_config.take(k), mysql_options, options),
    decreases inner_config.len(),
{
    if k == inner_config.len() {
        assert(inner_config.take(k) =~= inner_config);
    } else {
        let shorter = inner_config.drop_last();
        assert(shorter.take(k) =~= inner_config.take(k));
        lemma_component_error_stays(platform, shorter, mysql_options, options, k);
    }
}

/// Most callers want `make_sql_blobstore`; this one serves those that hold a
/// tier name and a shard count already.
pub fn make_sql_blobstore_xdb(
    tier_name: String,
    shard_count: Option<usize>,
    blobstore_options: &BlobstoreOptions,
    readonly_storage: ReadOnlyStorage,
    put_behaviour: PutBehaviour,
) -> (store: StorePlan)
    ensures
        store@ == xdb_plan(
            tier_name@,
            shard_count,
            blobstore_options@,
            readonly_storage,
            put_behaviour,
        ),
{
    let read_conn_type = blobstore_options.sqlblob_mysql_options.read_connection_type();
    let readonly = readonly_storage.0;
    match (blobstore_options.sqlblob_mysql_options.connection_type, shard_count) {
        (MysqlConnectionType::Myrouter(port), None) => StorePlan::MyrouterUnsharded {
            tier_name,
            port,
            read_conn_type,
            readonly,
            put_behaviour,
        },
        (MysqlConnectionType::Myrouter(port), Some(shard_num)) => StorePlan::Myrouter {
            tier_name,
            port,
            read_conn_type,
            shard_num,
            readonly,
            put_behaviour,
        },
        (MysqlConnectionType::Mysql, None) => StorePlan::MysqlUnsharded {
            tier_name,
            read_conn_type,
            readonly,
            put_behaviour,
        },
        (MysqlConnectionType::Mysql, Some(shard_num)) => StorePlan::Mysql {
            tier_name,
            shard_num,
            read_conn_type,
            readonly,
            put_behaviour,
        },
    }
}

/// Plans the relational store that `blobconfig` describes. Any other node is
/// a mismatch.
pub fn make_sql_blobstore(
    blobconfig: BlobConfig,
    readonly_storage: ReadOnlyStorage,
    blobstore_options: &BlobstoreOptions,
) -> (store: Result<StorePlan, BuildError>)
    ensures
        outcome_of(store) == sql_plan(blobconfig@, readonly_storage, blobstore_options@),
{
    match blobconfig {
        BlobConfig::Sqlite { path } => Ok(
            StorePlan::Sqlite {
                path,
                readonly: readonly_storage.0,
                put_behaviour: blobstore_options.put_behaviour,
            },
        ),
        BlobConfig::Mysql { remote } => {
            let (tier_name, shard_count) = match remote {
                ShardableRemoteDatabaseConfig::Unsharded { db_address } => (db_address, None),
                ShardableRemoteDatabaseConfig::Sharded { shard_map, shard_num } => (
                    shard_map,
                    Some(shard_num),
                ),
            };
            Ok(
                make_sql_blobstore_xdb(
                    tier_name,
                    shard_count,
                    blobstore_options,
                    readonly_storage,
                    blobstore_options.put_behaviour,
                ),
            )
        },
        _ => Err(BuildError::ConfigMismatch(StoreKind::Sql)),
    }
}

/// Plans the cloud object store that `blobconfig` describes. A deployment
/// without that backend cannot build it, whatever the node is.
pub fn make_manifold_blobstore(
    platform: Platform,
    blobconfig: BlobConfig,
    blobstore_options: &BlobstoreOptions,
) -> (store: Result<StorePlan, BuildError>)
    ensures
        outcome_of(store) == manifold_plan(platform, blobconfig@, blobstore_options@),
{
    if !platform.manifold {
        return Err(BuildError::Unimplemented);
    }
    match blobconfig {
        BlobConfig::Manifold { bucket, prefix } => Ok(
            StorePlan::Manifold {
                prefix,
                bucket,
                ttl: None,
                api_key: copy_text(&blobstore_options.manifold_api_key),
                put_behaviour: blobstore_options.put_behaviour,
            },
        ),
        BlobConfig::ManifoldWithTtl { bucket, prefix, ttl } => Ok(
            StorePlan::Manifold {
                prefix,
                bucket,
                ttl: Some(ttl),
                api_key: copy_text(&blobstore_options.manifold_api_key),
                put_behaviour: blobstore_options.put_behaviour,
            },
        ),
        _ => Err(BuildError::ConfigMismatch(StoreKind::Manifold)),
    }
}

/// Plans the file store that `blobconfig` describes.
pub fn make_files_blobstore(blobconfig: BlobConfig, blobstore_options: &BlobstoreOptions) -> (store:
    Result<StorePlan, BuildError>)
    ensures
        outcome_of(store) == files_plan(blobconfig@, blobstore_options@),
{
    match blobconfig {
        BlobConfig::Files { path } => Ok(
            StorePlan::Files { path, put_behaviour: blobstore_options.put_behaviour },
        ),
        _ => Err(BuildError::ConfigMismatch(StoreKind::Files)),
    }
}

/// Plans the physical store that `blobconfig` describes, without wrappers.
pub fn make_blobstore_with_link(
    platform: Platform,
    blobconfig: BlobConfig,
    readonly_storage: ReadOnlyStorage,
    blobstore_options: &BlobstoreOptions,
) -> (store: Result<StorePlan, BuildError>)
    ensures
        outcome_of(store) == physical_plan(
            platform,
            blobconfig@,
            readonly_storage,
            blobstore_options@,
        ),
{
    match blobconfig {
        BlobConfig::Sqlite { .. } | BlobConfig::Mysql { .. } => make_sql_blobstore(
            blobconfig,
            readonly_storage,
            blobstore_options,
        ),
        BlobConfig::Manifold { .. } | BlobConfig::ManifoldWithTtl { .. } => make_manifold_blobstore(
            platform,
            blobconfig,
            blobstore_options,
        ),
        BlobConfig::Files { .. } => make_files_blobstore(blobconfig, blobstore_options),
        _ => Err(BuildError::ConfigMismatch(StoreKind::Physical)),
    }
}

/// Plans the packing store that `blobconfig` describes: the store of the node
/// inside it, whatever that node is, and the format to write. Any node but a
/// packing one is a mismatch.
pub fn make_packblob(
    platform: Platform,
    blobconfig: BlobConfig,
    mysql_options: &MysqlOptions,
    readonly_storage: ReadOnlyStorage,
    blobstore_options: &BlobstoreOptions,
) -> (store: Result<StorePlan, BuildError>)
    ensures
        outcome_of(store) == pack_plan(
            platform,
            blobconfig@,
            *mysql_options,
            readonly_storage,
            blobstore_options@,
        ),
    decreases blobconfig, 0nat,
{
    match blobconfig {
        BlobConfig::Pack { blobconfig: inner_config, pack_config } => {
            let store = match make_blobstore_put_ops(
                platform,
                *inner_config,
                mysql_options,
                readonly_storage,
                blobstore_options,
            ) {
                Ok(store) => store,
                Err(e) => {
                    return Err(e);
                },
            };
            // What the caller asks for goes over what the configuration says.
            let put_format = match blobstore_options.pack_options.override_put_format {
                Some(put_format) => put_format,
                None => match pack_config {
                    Some(c) => c.put_format,
                    None => PackFormat::default(),
                },
            };
            Ok(StorePlan::Pack { inner: Box::new(store), put_format })
        },
        _ => Err(BuildError::ConfigMismatch(StoreKind::Pack)),
    }
}

/// Plans the store that a configuration describes.
///
/// A multiplexed store needs a database for its sync queue, reached with
/// `mysql_options`. Where a rate limit is set the store is throttled.
pub fn make_blobstore(
    platform: Platform,
    blobconfig: BlobConfig,
    mysql_options: &MysqlOptions,
    readonly_storage: ReadOnlyStorage,
    blobstore_options: &BlobstoreOptions,
) -> (store: Result<StorePlan, BuildError>)
    ensures
        outcome_of(store) == planned(
            platform,
            blobconfig@,
            *mysql_options,
            readonly_storage,
            blobstore_options@,
        ),
{
    make_blobstore_put_ops(platform, blobconfig, mysql_options, readonly_storage, blobstore_options)
}

/// Plans the node `blobconfig` and all below it, then puts the wrappers around
/// it. The function calls itself for every member of a multiplexed store, so
/// whatever belongs around a whole repository only once has no place in it.
pub fn make_blobstore_put_ops(
    platform: Platform,
    blobconfig: BlobConfig,
    mysql_options: &MysqlOptions,
    readonly_storage: ReadOnlyStorage,
    blobstore_options: &BlobstoreOptions,
) -> (store: Result<StorePlan, BuildError>)
    ensures
        outcome_of(store) == planned(
            platform,
            blobconfig@,
            *mysql_options,
            readonly_storage,
            blobstore_options@,
        ),
    decreases blobconfig, 2nat,
{
    let mut has_components = false;
    let built = match blobconfig {
        BlobConfig::Sqlite { .. } | BlobConfig::Mysql { .. } => make_sql_blobstore(
            blobconfig,
            readonly_storage,
            blobstore_options,
        ),
        BlobConfig::Manifold { .. } | BlobConfig::ManifoldWithTtl { .. } => make_manifold_blobstore(
            platform,
            blobconfig,
            blobstore_options,
        ),
        BlobConfig::Files { .. } => make_files_blobstore(blobconfig, blobstore_options),
        BlobConfig::S3 {
            bucket,
            keychain_group,
            region_name,
            endpoint,
            num_concurrent_operations,
        } => {
            if platform.s3 {
                Ok(
                    StorePlan::S3 {
                        bucket,
                        keychain_group,
                        region_name,
                        endpoint,
                        put_behaviour: blobstore_options.put_behaviour,
                        num_concurrent_operations,
                    },
                )
            } else {
                Err(BuildError::Unimplemented)
            }
        },
        BlobConfig::Disabled => Ok(StorePlan::Disabled),
        BlobConfig::Multiplexed {
            multiplex_id,
            scuba_table,
            scuba_sample_rate,
            blobstores,
            minimum_successful_writes,
            queue_db,
        } => {
            has_components = true;
            assert(blobconfig@->Multiplexed_blobstores =~= component_configs(blobstores@));
            make_blobstore_multiplexed(
                platform,
                multiplex_id,
                queue_db,
                scuba_table,
                scuba_sample_rate,
                blobstores,
                minimum_successful_writes,
                mysql_options,
                readonly_storage,
                blobstore_options,
            )
        },
        BlobConfig::Logging { blobconfig: inner_config, scuba_table, scuba_sample_rate } => {
            match make_blobstore_put_ops(
                platform,
                *inner_config,
                mysql_options,
                readonly_storage,
                blobstore_options,
            ) {
                Ok(inner) => Ok(
                    StorePlan::Log { inner: Box::new(inner), scuba_table, scuba_sample_rate },
                ),
                Err(e) => Err(e),
            }
        },
        BlobConfig::Pack { .. } => make_packblob(
            platform,
            blobconfig,
            mysql_options,
            readonly_storage,
            blobstore_options,
        ),
    };
    assert(outcome_of(built) == bare_plan(
        platform,
        blobconfig@,
        *mysql_options,
        readonly_storage,
        blobstore_options@,
    ));
    let store = match built {
        Ok(store) => store,
        Err(e) => {
            return Err(e);
        },
    };
    let ghost bare = store@;
    let store = if readonly_storage.0 {
        StorePlan::ReadOnly { inner: Box::new(store) }
    } else {
        store
    };
    let ghost closed = store@;
    assert(closed == if readonly_storage.0 {
        StorePlanView::ReadOnly { inner: Box::new(bare) }
    } else {
        bare
    });
    let store = if blobstore_options.throttle_options.has_throttle() {
        StorePlan::Throttled { inner: Box::new(store), options: blobstore_options.throttle_options }
    } else {
        store
    };
    assert(store@ == if blobstore_options@.throttle_options.spec_has_throttle() {
        StorePlanView::Throttled {
            inner: Box::new(closed),
            options: blobstore_options@.throttle_options,
        }
    } else {
        closed
    });
    // A store with components carries its chaos in the first of them.
    let store = if !has_components && blobstore_options.chaos_options.has_chaos() {
        StorePlan::Chaos { inner: Box::new(store), options: blobstore_options.chaos_options }
    } else {
        store
    };
    assert(store@ == decorated(bare, readonly_storage, blobstore_options@, has_components));
    Ok(store)
}

/// Plans a multiplexed store: every component in the order of the list, the
/// replicas split by what they are used for, and the sync queue.
///
/// With a scrub in the options the store is a scrubbing one, and its replicas
/// are read-only unless the scrub repairs.
pub fn make_blobstore_multiplexed(
    platform: Platform,
    multiplex_id: MultiplexId,
    queue_db: DatabaseConfig,
    scuba_table: Option<String>,
    scuba_sample_rate: u64,
    inner_config: Vec<(BlobstoreId, MultiplexedStoreType, BlobConfig)>,
    minimum_successful_writes: usize,
    mysql_options: &MysqlOptions,
    readonly_storage: ReadOnlyStorage,
    blobstore_options: &BlobstoreOptions,
) -> (store: Result<StorePlan, BuildError>)
    ensures
        outcome_of(store) == multiplexed_plan(
            platform,
            multiplex_id,
            queue_db@,
            text_of(scuba_table),
            scuba_sample_rate,
            component_configs(inner_config@),
            minimum_successful_writes,
            *mysql_options,
            readonly_storage,
            blobstore_options@,
        ),
    decreases inner_config, 1nat,
{
    let replicas_readonly = match blobstore_options.scrub_options {
        Some(scrub) => match scrub.scrub_action {
            ScrubAction::Repair => ReadOnlyStorage(false),
            ScrubAction::ReportOnly => ReadOnlyStorage(true),
        },
        None => ReadOnlyStorage(false),
    };
    let has_chaos = blobstore_options.chaos_options.has_chaos();
    let mut applied_chaos = false;

    let ghost all = inner_config@;
    let ghost configs = component_configs(all);
    let ghost options = blobstore_options@;
    assert forall|i: int| 0 <= i < all.len() implies decreases_to!(inner_config => (#[trigger] all[i]).2) by {
        assert(decreases_to!(inner_config => inner_config[i]));
        assert(decreases_to!(inner_config[i] => inner_config[i].2));
    }
    let mut components: Vec<(BlobstoreId, MultiplexedStoreType, StorePlan)> = Vec::new();
    assert(configs.take(0) =~= Seq::empty());
    assert(component_plans(components@) =~= Seq::empty());
    for item in it: inner_config
        invariant
            it.seq() == all,
            configs == component_configs(all),
            options == blobstore_options@,
            has_chaos == options.chaos_options.spec_has_chaos(),
            replicas_readonly == component_readonly(options),
            applied_chaos == (has_chaos && it.index() > 0),
            forall|i: int|
                0 <= i < all.len() ==> decreases_to!(inner_config => (#[trigger] all[i]).2),
            planned_components(platform, configs.take(it.index() as int), *mysql_options, options)
                == Ok::<Seq<(BlobstoreId, MultiplexedStoreType, StorePlanView)>, BuildError>(
                component_plans(components@),
            ),
    {
        let ghost index = it.index() as int;
        let (blobstoreid, store_type, config) = item;
        let component_options = if has_chaos && applied_chaos {
            blobstore_options.with_chaos_options(ChaosOptions::new(None, None))
        } else {
            applied_chaos = has_chaos;
            blobstore_options.with_chaos_options(blobstore_options.chaos_options)
        };
        assert(component_options@ == options_of_component(options, index));
        proof {
            let next = configs.take(index + 1);
            assert(next.drop_last() =~= configs.take(index));
            assert(next.last() == (blobstoreid, store_type, config@));
        }
        match make_blobstore_put_ops(
            platform,
            config,
            mysql_options,
            replicas_readonly,
            &component_options,
        ) {
            Ok(store) => {
                let ghost before = components@;
                components.push((blobstoreid, store_type, store));
                assert(component_plans(components@) =~= component_plans(before).push(
                    (blobstoreid, store_type, store@),
                ));
            },
            Err(e) => {
                proof {
                    lemma_component_error_stays(
                        platform,
                        configs,
                        *mysql_options,
                        options,
                        index + 1,
                    );
                }
                return Err(e);
            },
        }
    }
    assert(configs.take(all.len() as int) =~= configs);

    let queue = QueuePlan {
        db: queue_db,
        mysql_options: *mysql_options,
        readonly: readonly_storage.0,
    };

    let ghost built = components@;
    let ghost plans = component_plans(built);
    let mut normal_components: Vec<(BlobstoreId, StorePlan)> = Vec::new();
    let mut write_mostly_components: Vec<(BlobstoreId, StorePlan)> = Vec::new();
    assert(plans.take(0) =~= Seq::empty());
    for item in it: components
        invariant
            it.seq() == built,
            plans == component_plans(built),
            replica_plans(normal_components@) == components_of_type(
                plans.take(it.index() as int),
                MultiplexedStoreType::Normal,
            ),
            replica_plans(write_mostly_components@) == components_of_type(
                plans.take(it.index() as int),
                MultiplexedStoreType::WriteMostly,
            ),
    {
        let ghost index = it.index() as int;
        let (blobstore_id, store_type, store) = item;
        proof {
            let next = plans.take(index + 1);
            assert(next.drop_last() =~= plans.take(index));
            assert(next.last() == (blobstore_id, store_type, store@));
        }
        let ghost normal_before = normal_components@;
        let ghost write_mostly_before = write_mostly_components@;
        match store_type {
            MultiplexedStoreType::Normal => {
                normal_components.push((blobstore_id, store));
                assert(replica_plans(normal_components@) =~= replica_plans(normal_before).push(
                    (blobstore_id, store@),
                ));
            },
            MultiplexedStoreType::WriteMostly => {
                write_mostly_components.push((blobstore_id, store));
                assert(replica_plans(write_mostly_components@) =~= replica_plans(
                    write_mostly_before,
                ).push((blobstore_id, store@)));
            },
        }
    }
    assert(plans.take(built.len() as int) =~= plans);

    let store = StorePlan::Multiplexed {
        multiplex_id,
        normal_components,
        write_mostly_components,
        minimum_successful_writes,
        queue,
        scuba_table,
        scuba_sample_rate,
        scrub_options: blobstore_options.scrub_options,
    };
    assert(store@->Multiplexed_normal_components =~= replica_plans(normal_components@));
    assert(store@->Multiplexed_write_mostly_components =~= replica_plans(
        write_mostly_components@,
    ));
    Ok(store)
}

/// Every component is built from its own node, under its own options, and
/// keeps its place, its name and its use.
pub proof fn lemma_component_at(
    platform: Platform,
    inner_config: Seq<(BlobstoreId, MultiplexedStoreType, BlobConfigView)>,
    mysql_options: MysqlOptions,
    options: BlobstoreOptionsView,
    i: int,
)
    requires
        planned_components(platform, inner_config, mysql_options, options) is Ok,
        0 <= i < inner_config.len(),
    ensures
        ({
            let components = planned_components(
                platform,
                inner_config,
                mysql_options,
                options,
            )->Ok_0;
            &&& components.len() == inner_config.len()
            &&& components[i].0 == inner_config[i].0
            &&& components[i].1 == inner_config[i].1
            &&& planned(
                platform,
                inner_config[i].2,
                mysql_options,
                component_readonly(options),
                options_of_component(options, i),
            ) == Ok::<StorePlanView, BuildError>(components[i].2)
        }),
    decreases inner_config.len(),
{
    let shorter = inner_config.drop_last();
    let last = inner_config.last();
    let before = planned_components(platform, shorter, mysql_options, options);
    assert(before is Ok);
    if shorter.len() > 0 {
        lemma_component_at(platform, shorter, mysql_options, options, 0);
    }
    let components = planned_components(platform, inner_config, mysql_options, options)->Ok_0;
    assert(components.len() == before->Ok_0.len() + 1);
    if i < shorter.len() {
        lemma_component_at(platform, shorter, mysql_options, options, i);
        assert(components[i] == before->Ok_0[i]);
        assert(inner_config[i] == shorter[i]);
    } else {
        assert(inner_config[i] == last);
    }
}

/// Every component is a replica of exactly one use.
pub proof fn lemma_components_of_type(
    components: Seq<(BlobstoreId, MultiplexedStoreType, StorePlanView)>,
)
    ensures
        components_of_type(components, MultiplexedStoreType::Normal).len() + components_of_type(
            components,
            MultiplexedStoreType::WriteMostly,
        ).len() == components.len(),
    decreases components.len(),
{
    if components.len() > 0 {
        lemma_components_of_type(components.drop_last());
    }
}

/// Replicas chosen among components that inject no faults inject none.
proof fn lemma_plain_replicas(
    components: Seq<(BlobstoreId, MultiplexedStoreType, StorePlanView)>,
    store_type: MultiplexedStoreType,
)
    requires
        forall|i: int| 0 <= i < components.len() ==> !(#[trigger] components[i]).2.injects_faults(),
    ensures
        forall|j: int|
            0 <= j < components_of_type(components, store_type).len() ==> !(
            #[trigger] components_of_type(components, store_type)[j]).1.injects_faults(),
    decreases components.len(),
{
    if components.len() > 0 {
        let shorter = components.drop_last();
        assert forall|i: int| 0 <= i < shorter.len() implies !(
        #[trigger] shorter[i]).2.injects_faults() by {
            assert(shorter[i] == components[i]);
        }
        lemma_plain_replicas(shorter, store_type);
        let last = components[components.len() - 1];
        assert(!last.2.injects_faults());
        let before = components_of_type(shorter, store_type);
        let chosen = components_of_type(components, store_type);
        assert forall|j: int| 0 <= j < chosen.len() implies !(#[trigger] chosen[j]).1.injects_faults() by {
            if j < before.len() {
                assert(chosen[j] == before[j]);
            } else {
                assert(chosen[j] == (last.0, last.2));
            }
        }
    }
}

/// Without chaos in the options no plan injects faults, at any depth.
pub proof fn lemma_plan_without_chaos(
    platform: Platform,
    config: BlobConfigView,
    mysql_options: MysqlOptions,
    readonly_storage: ReadOnlyStorage,
    options: BlobstoreOptionsView,
)
    requires
        !options.chaos_options.spec_has_chaos(),
    ensures
        planned(platform, config, mysql_options, readonly_storage, options) matches Ok(store)
            ==> !store.injects_faults(),
    decreases config,
{
    let bare = bare_plan(platform, config, mysql_options, readonly_storage, options);
    if bare is Ok {
        let store = bare->Ok_0;
        assert(!store.injects_faults()) by {
            match config {
                BlobConfigView::Multiplexed { blobstores, .. } => {
                    let components = planned_components(
                        platform,
                        blobstores,
                        mysql_options,
                        options,
                    )->Ok_0;
                    if blobstores.len() > 0 {
                        lemma_component_at(platform, blobstores, mysql_options, options, 0);
                    }
                    assert forall|i: int| 0 <= i < components.len() implies !(
                    #[trigger] components[i]).2.injects_faults() by {
                        lemma_component_at(platform, blobstores, mysql_options, options, i);
                        lemma_plan_without_chaos(
                            platform,
                            blobstores[i].2,
                            mysql_options,
                            component_readonly(options),
                            options_of_component(options, i),
                        );
                    }
                    lemma_plain_replicas(components, MultiplexedStoreType::Normal);
                    lemma_plain_replicas(components, MultiplexedStoreType::WriteMostly);
                },
                BlobConfigView::Logging { blobconfig, .. } => {
                    lemma_plan_without_chaos(
                        platform,
                        *blobconfig,
                        mysql_options,
                        readonly_storage,
                        options,
                    );
                },
                BlobConfigView::Pack { blobconfig, .. } => {
                    lemma_plan_without_chaos(
                        platform,
                        *blobconfig,
                        mysql_options,
                        readonly_storage,
                        options,
                    );
                },
                _ => {},
            }
        }
        let closed = if readonly_storage.0 {
            StorePlanView::ReadOnly { inner: Box::new(store) }
        } else {
            store
        };
        assert(!closed.injects_faults());
    }
}

/// Of the replicas of a multiplexed store only the first component can
/// inject faults: the others are built without chaos.
pub proof fn lemma_chaos_in_first_component_only(
    platform: Platform,
    inner_config: Seq<(BlobstoreId, MultiplexedStoreType, BlobConfigView)>,
    mysql_options: MysqlOptions,
    options: BlobstoreOptionsView,
    i: int,
)
    requires
        planned_components(platform, inner_config, mysql_options, options) is Ok,
        0 < i < inner_config.len(),
    ensures
        !planned_components(platform, inner_config, mysql_options, options)->Ok_0[i].2.injects_faults(),
{
    lemma_component_at(platform, inner_config, mysql_options, options, i);
    lemma_plan_without_chaos(
        platform,
        inner_config[i].2,
        mysql_options,
        component_readonly(options),
        options_of_component(options, i),
    );
}

/// A multiplexed store is never wrapped in chaos itself, and every other
/// store is wherever the options hold chaos.
pub proof fn lemma_chaos_at_the_top(
    platform: Platform,
    config: BlobConfigView,
    mysql_options: MysqlOptions,
    readonly_storage: ReadOnlyStorage,
    options: BlobstoreOptionsView,
)
    requires
        planned(platform, config, mysql_options, readonly_storage, options) is Ok,
    ensures
        planned(platform, config, mysql_options, readonly_storage, options)->Ok_0 is Chaos <==> !(config
            is Multiplexed) && options.chaos_options.spec_has_chaos(),
{
    let bare = bare_plan(platform, config, mysql_options, readonly_storage, options)->Ok_0;
    assert(!(bare is Chaos)) by {
        match config {
            BlobConfigView::Pack { blobconfig, .. } => {
                assert(planned(platform, *blobconfig, mysql_options, readonly_storage, options) is Ok);
            },
            _ => {},
        }
    }
}

/// Where the components cannot all be built, the error is that of one of
/// them.
pub proof fn lemma_component_error_origin(
    platform: Platform,
    inner_config: Seq<(BlobstoreId, MultiplexedStoreType, BlobConfigView)>,
    mysql_options: MysqlOptions,
    options: BlobstoreOptionsView,
)
    requires
        planned_components(platform, inner_config, mysql_options, options) is Err,
    ensures
        exists|i: int|
            0 <= i < inner_config.len() && planned(
                platform,
                (#[trigger] inner_config[i]).2,
                mysql_options,
                component_readonly(options),
                options_of_component(options, i),
            ) == Err::<StorePlanView, BuildError>(
                planned_components(platform, inner_config, mysql_options, options)->Err_0,
            ),
    decreases inner_config.len(),
{
    let shorter = inner_config.drop_last();
    let e = planned_components(platform, inner_config, mysql_options, options)->Err_0;
    if planned_components(platform, shorter, mysql_options, options) is Err {
        lemma_component_error_origin(platform, shorter, mysql_options, options);
        let i = choose|i: int|
            0 <= i < shorter.len() && planned(
                platform,
                (#[trigger] shorter[i]).2,
                mysql_options,
                component_readonly(options),
                options_of_component(options, i),
            ) == Err::<StorePlanView, BuildError>(e);
        assert(inner_config[i] == shorter[i]);
    } else {
        let i = inner_config.len() - 1;
        assert(inner_config[i] == inner_config.last());
    }
}

/// The builder of whole trees hands every node to the builder that knows it:
/// it fails only where a backend is not to be had, never on a mismatch.
pub proof fn lemma_only_missing_backends_fail(
    platform: Platform,
    config: BlobConfigView,
    mysql_options: MysqlOptions,
    readonly_storage: ReadOnlyStorage,
    options: BlobstoreOptionsView,
)
    ensures
        planned(platform, config, mysql_options, readonly_storage, options) matches Err(e) ==> e
            == BuildError::Unimplemented,
    decreases config,
{
    match config {
        BlobConfigView::Multiplexed {
            multiplex_id,
            scuba_table,
            scuba_sample_rate,
            blobstores,
            minimum_successful_writes,
            queue_db,
        } => {
            let components = planned_components(platform, blobstores, mysql_options, options);
            assert(bare_plan(platform, config, mysql_options, readonly_storage, options)
                == multiplexed_plan(
                platform,
                multiplex_id,
                queue_db,
                scuba_table,
                scuba_sample_rate,
                blobstores,
                minimum_successful_writes,
                mysql_options,
                readonly_storage,
                options,
            ));
            if components is Err {
                lemma_component_error_origin(platform, blobstores, mysql_options, options);
                let e = components->Err_0;
                let i = choose|i: int|
                    0 <= i < blobstores.len() && planned(
                        platform,
                        (#[trigger] blobstores[i]).2,
                        mysql_options,
                        component_readonly(options),
                        options_of_component(options, i),
                    ) == Err::<StorePlanView, BuildError>(e);
                lemma_only_missing_backends_fail(
                    platform,
                    blobstores[i].2,
                    mysql_options,
                    component_readonly(options),
                    options_of_component(options, i),
                );
            }
        },
        BlobConfigView::Logging { blobconfig, .. } => {
            lemma_only_missing_backends_fail(
                platform,
                *blobconfig,
                mysql_options,
                readonly_storage,
                options,
            );
        },
        BlobConfigView::Pack { blobconfig, .. } => {
            lemma_only_missing_backends_fail(
                platform,
                *blobconfig,
                mysql_options,
                readonly_storage,
                options,
            );
        },
        _ => {},
    }
}

} // verus!
