//! What a build comes to: the stack of stores to open, outermost first.

use vstd::prelude::*;
use crate::config::text_of;
use crate::config::BlobstoreId;
use crate::config::DatabaseConfig;
use crate::config::DatabaseConfigView;
use crate::config::MultiplexId;
use crate::config::MultiplexedStoreType;
use crate::config::PackFormat;
use crate::options::ChaosOptions;
use crate::options::MysqlOptions;
use crate::options::PutBehaviour;
use crate::options::ReadConnectionType;
use crate::options::ScrubOptions;
use crate::options::ThrottleOptions;

verus! {

/// The kind of store that a builder stands for.
#[derive(Clone, Copy, Debug, PartialEq, Eq, Structural, Hash)]
pub enum StoreKind {
    Sql,
    Pack,
    Manifold,
    Files,
    Physical,
}

/// Why no plan came of a configuration.
#[derive(Clone, Copy, Debug, PartialEq, Eq, Structural, Hash)]
pub enum BuildError {
    /// A builder was handed a node of a kind that it does not build.
    ConfigMismatch(StoreKind),
    /// The node asks for a backend that this deployment cannot open.
    Unimplemented,
}

impl BuildError {
    /// The message that belongs to the error.
    pub fn message(&self) -> (text: &'static str)
        ensures
            text@ == match *self {
                BuildError::ConfigMismatch(StoreKind::Sql) => "Not an SQL blobstore"@,
                BuildError::ConfigMismatch(StoreKind::Pack) => "Not a PackBlob"@,
                BuildError::ConfigMismatch(StoreKind::Manifold) => "Not a Manifold blobstore"@,
                BuildError::ConfigMismatch(StoreKind::Files) => "Not a file blobstore"@,
                BuildError::ConfigMismatch(StoreKind::Physical) => "Not a physical blobstore"@,
                BuildError::Unimplemented => "This backend is not available on this deployment"@,
            },
    {
        match self {
            BuildError::ConfigMismatch(StoreKind::Sql) => "Not an SQL blobstore",
            BuildError::ConfigMismatch(StoreKind::Pack) => "Not a PackBlob",
            BuildError::ConfigMismatch(StoreKind::Manifold) => "Not a Manifold blobstore",
            BuildError::ConfigMismatch(StoreKind::Files) => "Not a file blobstore",
            BuildError::ConfigMismatch(StoreKind::Physical) => "Not a physical blobstore",
            BuildError::Unimplemented => "This backend is not available on this deployment",
        }
    }
}

/// The directory, below the configured path, in which a file store or an
/// embedded database keeps its blobs.
pub fn blobs_directory() -> (name: &'static str)
    ensures
        name@ == "blobs"@,
{
    "blobs"
}

/// The sync queue to open for a multiplexed store.
#[derive(Clone, Debug, PartialEq, Eq)]
pub struct QueuePlan {
    pub db: DatabaseConfig,
    pub mysql_options: MysqlOptions,
    pub readonly: bool,
}

pub ghost struct QueuePlanView {
    pub db: DatabaseConfigView,
    pub mysql_options: MysqlOptions,
    pub readonly: bool,
}

impl View for QueuePlan {
    type V = QueuePlanView;

    open spec fn view(&self) -> QueuePlanView {
        QueuePlanView { db: self.db@, mysql_options: self.mysql_options, readonly: self.readonly }
    }
}

/// A store to open. A wrapper names the store that it wraps; a multiplexed
/// store names its replicas, each group in the order of the configuration.
#[derive(Debug, PartialEq, Eq)]
#[allow(inconsistent_fields)]
pub enum StorePlan {
    /// An embedded database in the blobs directory below `path`.
    Sqlite { path: String, readonly: bool, put_behaviour: PutBehaviour },
    /// One remote database behind a local proxy.
    MyrouterUnsharded {
        tier_name: String,
        port: u16,
        read_conn_type: ReadConnectionType,
        readonly: bool,
        put_behaviour: PutBehaviour,
    },
    /// A sharded remote database behind a local proxy.
    Myrouter {
        tier_name: String,
        port: u16,
        read_conn_type: ReadConnectionType,
        shard_num: usize,
        readonly: bool,
        put_behaviour: PutBehaviour,
    },
    /// One remote database, reached through the client's own pool.
    MysqlUnsharded {
        tier_name: String,
        read_conn_type: ReadConnectionType,
        readonly: bool,
        put_behaviour: PutBehaviour,
    },
    /// A sharded remote database, reached through the client's own pool.
    Mysql {
        tier_name: String,
        shard_num: usize,
        read_conn_type: ReadConnectionType,
        readonly: bool,
        put_behaviour: PutBehaviour,
    },
    /// A bucket of a cloud object store.
    Manifold {
        prefix: String,
        bucket: String,
        ttl: Option<u64>,
        api_key: Option<String>,
        put_behaviour: PutBehaviour,
    },
    /// Files in the blobs directory below `path`.
    Files { path: String, put_behaviour: PutBehaviour },
    /// An S3 bucket.
    S3 {
        bucket: String,
        keychain_group: String,
        region_name: String,
        endpoint: Option<String>,
        put_behaviour: PutBehaviour,
        num_concurrent_operations: Option<usize>,
    },
    /// A store whose every operation fails.
    Disabled,
    /// Replicas behind one store, with or without a scrub.
    Multiplexed {
        multiplex_id: MultiplexId,
        normal_components: Vec<(BlobstoreId, StorePlan)>,
        write_mostly_components: Vec<(BlobstoreId, StorePlan)>,
        minimum_successful_writes: usize,
        queue: QueuePlan,
        scuba_table: Option<String>,
        scuba_sample_rate: u64,
        scrub_options: Option<ScrubOptions>,
    },
    /// Telemetry around `inner`.
    Log { inner: Box<StorePlan>, scuba_table: Option<String>, scuba_sample_rate: u64 },
    /// Packing around `inner`.
    Pack { inner: Box<StorePlan>, put_format: PackFormat },
    /// `inner`, with writes refused.
    ReadOnly { inner: Box<StorePlan> },
    /// `inner`, with bounded rates.
    Throttled { inner: Box<StorePlan>, options: ThrottleOptions },
    /// `inner`, with injected faults.
    Chaos { inner: Box<StorePlan>, options: ChaosOptions },
}

/// A plan as a mathematical value.
#[allow(inconsistent_fields)]
pub ghost enum StorePlanView {
    Sqlite { path: Seq<char>, readonly: bool, put_behaviour: PutBehaviour },
    MyrouterUnsharded {
        tier_name: Seq<char>,
        port: u16,
        read_conn_type: ReadConnectionType,
        readonly: bool,
        put_behaviour: PutBehaviour,
    },
    Myrouter {
        tier_name: Seq<char>,
        port: u16,
        read_conn_type: ReadConnectionType,
        shard_num: usize,
        readonly: bool,
        put_behaviour: PutBehaviour,
    },
    MysqlUnsharded {
        tier_name: Seq<char>,
        read_conn_type: ReadConnectionType,
        readonly: bool,
        put_behaviour: PutBehaviour,
    },
    Mysql {
        tier_name: Seq<char>,
        shard_num: usize,
        read_conn_type: ReadConnectionType,
        readonly: bool,
        put_behaviour: PutBehaviour,
    },
    Manifold {
        prefix: Seq<char>,
        bucket: Seq<char>,
        ttl: Option<u64>,
        api_key: Option<Seq<char>>,
        put_behaviour: PutBehaviour,
    },
    Files { path: Seq<char>, put_behaviour: PutBehaviour },
    S3 {
        bucket: Seq<char>,
        keychain_group: Seq<char>,
        region_name: Seq<char>,
        endpoint: Option<Seq<char>>,
        put_behaviour: PutBehaviour,
        num_concurrent_operations: Option<usize>,
    },
    Disabled,
    Multiplexed {
        multiplex_id: MultiplexId,
        normal_components: Seq<(BlobstoreId, StorePlanView)>,
        write_mostly_components: Seq<(BlobstoreId, StorePlanView)>,
        minimum_successful_writes: usize,
        queue: QueuePlanView,
        scuba_table: Option<Seq<char>>,
        scuba_sample_rate: u64,
        scrub_options: Option<ScrubOptions>,
    },
    Log { inner: Box<StorePlanView>, scuba_table: Option<Seq<char>>, scuba_sample_rate: u64 },
    Pack { inner: Box<StorePlanView>, put_format: PackFormat },
    ReadOnly { inner: Box<StorePlanView> },
    Throttled { inner: Box<StorePlanView>, options: ThrottleOptions },
    Chaos { inner: Box<StorePlanView>, options: ChaosOptions },
}

impl StorePlan {
    /// The plan as a mathematical value.
    pub open spec fn model(&self) -> StorePlanView
        decreases self,
    {
        match self {
            StorePlan::Sqlite { path, readonly, put_behaviour } => StorePlanView::Sqlite {
                path: path@,
                readonly: *readonly,
                put_behaviour: *put_behaviour,
            },
            StorePlan::MyrouterUnsharded {
                tier_name,
                port,
                read_conn_type,
                readonly,
                put_behaviour,
            } => StorePlanView::MyrouterUnsharded {
                tier_name: tier_name@,
                port: *port,
                read_conn_type: *read_conn_type,
                readonly: *readonly,
                put_behaviour: *put_behaviour,
            },
            StorePlan::Myrouter {
                tier_name,
                port,
                read_conn_type,
                shard_num,
                readonly,
                put_behaviour,
            } => StorePlanView::Myrouter {
                tier_name: tier_name@,
                port: *port,
                read_conn_type: *read_conn_type,
                shard_num: *shard_num,
                readonly: *readonly,
                put_behaviour: *put_behaviour,
            },
            StorePlan::MysqlUnsharded { tier_name, read_conn_type, readonly, put_behaviour } => {
                StorePlanView::MysqlUnsharded {
                    tier_name: tier_name@,
                    read_conn_type: *read_conn_type,
                    readonly: *readonly,
                    put_behaviour: *put_behaviour,
                }
            },
            StorePlan::Mysql { tier_name, shard_num, read_conn_type, readonly, put_behaviour } => {
                StorePlanView::Mysql {
                    tier_name: tier_name@,
                    shard_num: *shard_num,
                    read_conn_type: *read_conn_type,
                    readonly: *readonly,
                    put_behaviour: *put_behaviour,
                }
            },
            StorePlan::Manifold { prefix, bucket, ttl, api_key, put_behaviour } => {
                StorePlanView::Manifold {
                    prefix: prefix@,
                    bucket: bucket@,
                    ttl: *ttl,
                    api_key: text_of(*api_key),
                    put_behaviour: *put_behaviour,
                }
            },
            StorePlan::Files { path, put_behaviour } => StorePlanView::Files {
                path: path@,
                put_behaviour: *put_behaviour,
            },
            StorePlan::S3 {
                bucket,
                keychain_group,
                region_name,
                endpoint,
                put_behaviour,
                num_concurrent_operations,
            } => StorePlanView::S3 {
                bucket: bucket@,
                keychain_group: keychain_group@,
                region_name: region_name@,
                endpoint: text_of(*endpoint),
                put_behaviour: *put_behaviour,
                num_concurrent_operations: *num_concurrent_operations,
            },
            StorePlan::Disabled => StorePlanView::Disabled,
            StorePlan::Multiplexed {
                multiplex_id,
                normal_components,
                write_mostly_components,
                minimum_successful_writes,
                queue,
                scuba_table,
                scuba_sample_rate,
                scrub_options,
            } => StorePlanView::Multiplexed {
                multiplex_id: *multiplex_id,
                normal_components: Seq::new(
                    normal_components@.len(),
                    |i: int|
                        if 0 <= i < normal_components@.len() {
                            (normal_components@[i].0, normal_components@[i].1.model())
                        } else {
                            arbitrary()
                        },
                ),
                write_mostly_components: Seq::new(
                    write_mostly_components@.len(),
                    |i: int|
                        if 0 <= i < write_mostly_components@.len() {
                            (write_mostly_components@[i].0, write_mostly_components@[i].1.model())
                        } else {
                            arbitrary()
                        },
                ),
                minimum_successful_writes: *minimum_successful_writes,
                queue: queue@,
                scuba_table: text_of(*scuba_table),
                scuba_sample_rate: *scuba_sample_rate,
                scrub_options: *scrub_options,
            },
            StorePlan::Log { inner, scuba_table, scuba_sample_rate } => StorePlanView::Log {
                inner: Box::new((**inner).model()),
                scuba_table: text_of(*scuba_table),
                scuba_sample_rate: *scuba_sample_rate,
            },
            StorePlan::Pack { inner, put_format } => StorePlanView::Pack {
                inner: Box::new((**inner).model()),
                put_format: *put_format,
            },
            StorePlan::ReadOnly { inner } => StorePlanView::ReadOnly {
                inner: Box::new((**inner).model()),
            },
            StorePlan::Throttled { inner, options } => StorePlanView::Throttled {
                inner: Box::new((**inner).model()),
                options: *options,
            },
            StorePlan::Chaos { inner, options } => StorePlanView::Chaos {
                inner: Box::new((**inner).model()),
                options: *options,
            },
        }
    }
}

impl View for StorePlan {
    type V = StorePlanView;

    open spec fn view(&self) -> StorePlanView {
        self.model()
    }
}

/// The plans that a group of replicas stands for, in the same order.
pub open spec fn replica_plans(items: Seq<(BlobstoreId, StorePlan)>) -> Seq<
    (BlobstoreId, StorePlanView),
> {
    Seq::new(items.len(), |i: int| (items[i].0, items[i].1@))
}

/// The plans that a list of components stands for, in the same order.
pub open spec fn component_plans(
    items: Seq<(BlobstoreId, MultiplexedStoreType, StorePlan)>,
) -> Seq<(BlobstoreId, MultiplexedStoreType, StorePlanView)> {
    Seq::new(items.len(), |i: int| (items[i].0, items[i].1, items[i].2@))
}

/// What came of a build, as a mathematical value.
pub open spec fn outcome_of(r: Result<StorePlan, BuildError>) -> Result<StorePlanView, BuildError> {
    match r {
        Ok(plan) => Ok(plan@),
        Err(e) => Err(e),
    }
}

impl StorePlanView {
    /// Somewhere in the plan faults are injected.
    pub open spec fn injects_faults(self) -> bool
        decreases self,
    {
        match self {
            StorePlanView::Chaos { .. } => true,
            StorePlanView::Multiplexed { normal_components, write_mostly_components, .. } => {
                ||| exists|i: int|
                    0 <= i < normal_components.len() && (
                    #[trigger] normal_components[i]).1.injects_faults()
                ||| exists|i: int|
                    0 <= i < write_mostly_components.len() && (
                    #[trigger] write_mostly_components[i]).1.injects_faults()
            },
            StorePlanView::Log { inner, .. } => inner.injects_faults(),
            StorePlanView::Pack { inner, .. } => inner.injects_faults(),
            StorePlanView::ReadOnly { inner } => inner.injects_faults(),
            StorePlanView::Throttled { inner, .. } => inner.injects_faults(),
            _ => false,
        }
    }
}

impl StorePlanView {
    /// The configured path of a store that keeps its blobs in a directory of
    /// the file system: a file store or an embedded database.
    pub open spec fn blobs_base(self) -> Option<Seq<char>> {
        match self {
            StorePlanView::Sqlite { path, .. } => Some(path),
            StorePlanView::Files { path, .. } => Some(path),
            _ => None,
        }
    }
}

impl StorePlan {
    /// Where a store keeps its blobs, if it keeps them in a directory of the
    /// file system: the configured path, and the name of the directory below
    /// it.
    pub fn blobs_location(&self) -> (location: Option<(&str, &'static str)>)
        ensures
            match self@.blobs_base() {
                Some(path) => location matches Some((base, name)) && base@ == path && name@
                    == "blobs"@,
                None => location is None,
            },
    {
        match self {
            StorePlan::Sqlite { path, .. } => Some((path.as_str(), blobs_directory())),
            StorePlan::Files { path, .. } => Some((path.as_str(), blobs_directory())),
            _ => None,
        }
    }
}

} // verus!
