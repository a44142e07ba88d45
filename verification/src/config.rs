//! The configuration tree that describes a stack of stores.

use vstd::prelude::*;

verus! {

/// Names one replica inside a multiplexed store.
#[derive(Clone, Copy, Debug, PartialEq, Eq, Structural, Hash)]
pub struct BlobstoreId(pub u64);

/// Names a whole replication group; the sync queue is partitioned by it.
#[derive(Clone, Copy, Debug, PartialEq, Eq, Structural, Hash)]
pub struct MultiplexId(pub i32);

/// What a replica of a multiplexed store is used for.
#[derive(Clone, Copy, Debug, PartialEq, Eq, Structural, Hash)]
pub enum MultiplexedStoreType {
    /// Written to and read from.
    Normal,
    /// Written to, and left out of ordinary reads.
    WriteMostly,
}

/// How a packing store lays a payload down.
#[derive(Clone, Copy, Debug, PartialEq, Eq, Structural, Hash)]
pub enum PackFormat {
    /// The payload as it is.
    Raw,
    /// Each payload compressed by itself, at the given level.
    ZstdIndividual(i32),
}

impl Default for PackFormat {
    fn default() -> (format: PackFormat)
        ensures
            format == PackFormat::Raw,
    {
        PackFormat::Raw
    }
}

/// What the configuration says about packing.
#[derive(Clone, Copy, Debug, PartialEq, Eq, Structural, Hash)]
pub struct PackConfig {
    pub put_format: PackFormat,
}

/// Where a relational store lives that may be spread over shards.
#[derive(Clone, Debug, PartialEq, Eq)]
pub enum ShardableRemoteDatabaseConfig {
    Unsharded { db_address: String },
    Sharded { shard_map: String, shard_num: usize },
}

/// Where the sync queue lives.
#[derive(Clone, Debug, PartialEq, Eq)]
pub enum DatabaseConfig {
    Local { path: String },
    Remote { db_address: String },
}

/// One node of the configuration tree.
#[derive(Debug, PartialEq, Eq)]
pub enum BlobConfig {
    /// Every operation fails.
    Disabled,
    /// Blobs as files below `path`.
    Files { path: String },
    /// Blobs in an embedded database below `path`.
    Sqlite { path: String },
    /// Blobs in a cloud object store.
    Manifold { bucket: String, prefix: String },
    /// Blobs in a cloud object store, kept for `ttl` seconds.
    ManifoldWithTtl { bucket: String, prefix: String, ttl: u64 },
    /// Blobs in a remote relational database.
    Mysql { remote: ShardableRemoteDatabaseConfig },
    /// Several stores that replicate each other.
    Multiplexed {
        multiplex_id: MultiplexId,
        scuba_table: Option<String>,
        scuba_sample_rate: u64,
        blobstores: Vec<(BlobstoreId, MultiplexedStoreType, BlobConfig)>,
        minimum_successful_writes: usize,
        queue_db: DatabaseConfig,
    },
    /// A store whose operations are reported to a telemetry table.
    Logging { blobconfig: Box<BlobConfig>, scuba_table: Option<String>, scuba_sample_rate: u64 },
    /// A store whose payloads are packed.
    Pack { blobconfig: Box<BlobConfig>, pack_config: Option<PackConfig> },
    /// Blobs in an S3 bucket.
    S3 {
        bucket: String,
        keychain_group: String,
        region_name: String,
        endpoint: Option<String>,
        num_concurrent_operations: Option<usize>,
    },
}

/// The text of an optional string.
pub open spec fn text_of(s: Option<String>) -> Option<Seq<char>> {
    match s {
        Some(s) => Some(s@),
        None => None,
    }
}

pub ghost enum ShardableRemoteDatabaseConfigView {
    Unsharded { db_address: Seq<char> },
    Sharded { shard_map: Seq<char>, shard_num: usize },
}

impl View for ShardableRemoteDatabaseConfig {
    type V = ShardableRemoteDatabaseConfigView;

    open spec fn view(&self) -> ShardableRemoteDatabaseConfigView {
        match self {
            ShardableRemoteDatabaseConfig::Unsharded { db_address } => {
                ShardableRemoteDatabaseConfigView::Unsharded { db_address: db_address@ }
            },
            ShardableRemoteDatabaseConfig::Sharded { shard_map, shard_num } => {
                ShardableRemoteDatabaseConfigView::Sharded {
                    shard_map: shard_map@,
                    shard_num: *shard_num,
                }
            },
        }
    }
}

pub ghost enum DatabaseConfigView {
    Local { path: Seq<char> },
    Remote { db_address: Seq<char> },
}

impl View for DatabaseConfig {
    type V = DatabaseConfigView;

    open spec fn view(&self) -> DatabaseConfigView {
        match self {
            DatabaseConfig::Local { path } => DatabaseConfigView::Local { path: path@ },
            DatabaseConfig::Remote { db_address } => DatabaseConfigView::Remote {
                db_address: db_address@,
            },
        }
    }
}

/// A configuration tree as a mathematical value.
pub ghost enum BlobConfigView {
    Disabled,
    Files { path: Seq<char> },
    Sqlite { path: Seq<char> },
    Manifold { bucket: Seq<char>, prefix: Seq<char> },
    ManifoldWithTtl { bucket: Seq<char>, prefix: Seq<char>, ttl: u64 },
    Mysql { remote: ShardableRemoteDatabaseConfigView },
    Multiplexed {
        multiplex_id: MultiplexId,
        scuba_table: Option<Seq<char>>,
        scuba_sample_rate: u64,
        blobstores: Seq<(BlobstoreId, MultiplexedStoreType, BlobConfigView)>,
        minimum_successful_writes: usize,
        queue_db: DatabaseConfigView,
    },
    Logging {
        blobconfig: Box<BlobConfigView>,
        scuba_table: Option<Seq<char>>,
        scuba_sample_rate: u64,
    },
    Pack { blobconfig: Box<BlobConfigView>, pack_config: Option<PackConfig> },
    S3 {
        bucket: Seq<char>,
        keychain_group: Seq<char>,
        region_name: Seq<char>,
        endpoint: Option<Seq<char>>,
        num_concurrent_operations: Option<usize>,
    },
}

impl BlobConfig {
    /// The tree this configuration stands for.
    pub open spec fn model(&self) -> BlobConfigView
        decreases self,
    {
        match self {
            BlobConfig::Disabled => BlobConfigView::Disabled,
            BlobConfig::Files { path } => BlobConfigView::Files { path: path@ },
            BlobConfig::Sqlite { path } => BlobConfigView::Sqlite { path: path@ },
            BlobConfig::Manifold { bucket, prefix } => BlobConfigView::Manifold {
                bucket: bucket@,
                prefix: prefix@,
            },
            BlobConfig::ManifoldWithTtl { bucket, prefix, ttl } => BlobConfigView::ManifoldWithTtl {
                bucket: bucket@,
                prefix: prefix@,
                ttl: *ttl,
            },
            BlobConfig::Mysql { remote } => BlobConfigView::Mysql { remote: remote@ },
            BlobConfig::Multiplexed {
                multiplex_id,
                scuba_table,
                scuba_sample_rate,
                blobstores,
                minimum_successful_writes,
                queue_db,
            } => BlobConfigView::Multiplexed {
                multiplex_id: *multiplex_id,
                scuba_table: text_of(*scuba_table),
                scuba_sample_rate: *scuba_sample_rate,
                blobstores: Seq::new(
                    blobstores@.len(),
                    |i: int|
                        if 0 <= i < blobstores@.len() {
                            (blobstores@[i].0, blobstores@[i].1, blobstores@[i].2.model())
                        } else {
                            arbitrary()
                        },
                ),
                minimum_successful_writes: *minimum_successful_writes,
                queue_db: queue_db@,
            },
            BlobConfig::Logging { blobconfig, scuba_table, scuba_sample_rate } => {
                BlobConfigView::Logging {
                    blobconfig: Box::new((**blobconfig).model()),
                    scuba_table: text_of(*scuba_table),
                    scuba_sample_rate: *scuba_sample_rate,
                }
            },
            BlobConfig::Pack { blobconfig, pack_config } => BlobConfigView::Pack {
                blobconfig: Box::new((**blobconfig).model()),
                pack_config: *pack_config,
            },
            BlobConfig::S3 {
                bucket,
                keychain_group,
                region_name,
                endpoint,
                num_concurrent_operations,
            } => BlobConfigView::S3 {
                bucket: bucket@,
                keychain_group: keychain_group@,
                region_name: region_name@,
                endpoint: text_of(*endpoint),
                num_concurrent_operations: *num_concurrent_operations,
            },
        }
    }
}

impl View for BlobConfig {
    type V = BlobConfigView;

    open spec fn view(&self) -> BlobConfigView {
        self.model()
    }
}

/// The trees that a list of components stands for, in the same order.
pub open spec fn component_configs(
    items: Seq<(BlobstoreId, MultiplexedStoreType, BlobConfig)>,
) -> Seq<(BlobstoreId, MultiplexedStoreType, BlobConfigView)> {
    Seq::new(items.len(), |i: int| (items[i].0, items[i].1, items[i].2@))
}

impl BlobConfigView {
    /// The numbers of the tree are in range: sample rates, write thresholds and
    /// shard counts are at least one, and a multiplexed store that lies inside
    /// another asks for no more successful writes than it has components.
    pub open spec fn well_formed(self) -> bool {
        self.well_formed_at(false)
    }

    /// `well_formed`, for a node that lies inside a multiplexed store if
    /// `nested` says so.
    pub open spec fn well_formed_at(self, nested: bool) -> bool
        decreases self,
    {
        match self {
            BlobConfigView::Mysql { remote } => match remote {
                ShardableRemoteDatabaseConfigView::Sharded { shard_num, .. } => shard_num >= 1,
                ShardableRemoteDatabaseConfigView::Unsharded { .. } => true,
            },
            BlobConfigView::Multiplexed {
                scuba_sample_rate,
                blobstores,
                minimum_successful_writes,
                ..
            } => {
                &&& scuba_sample_rate >= 1
                &&& minimum_successful_writes >= 1
                &&& nested ==> minimum_successful_writes <= blobstores.len()
                &&& forall|i: int|
                    0 <= i < blobstores.len() ==> (#[trigger] blobstores[i]).2.well_formed_at(true)
            },
            BlobConfigView::Logging { blobconfig, scuba_sample_rate, .. } => {
                &&& scuba_sample_rate >= 1
                &&& blobconfig.well_formed_at(nested)
            },
            BlobConfigView::Pack { blobconfig, .. } => blobconfig.well_formed_at(nested),
            _ => true,
        }
    }
}

impl BlobConfig {
    /// Checks the numbers of the tree.
    pub fn is_well_formed(&self) -> (ok: bool)
        ensures
            ok == self@.well_formed(),
    {
        self.is_well_formed_at(false)
    }

    /// Checks the numbers of a node that lies inside a multiplexed store if
    /// `nested` says so.
    pub fn is_well_formed_at(&self, nested: bool) -> (ok: bool)
        ensures
            ok == self@.well_formed_at(nested),
        decreases self,
    {
        match self {
            BlobConfig::Mysql { remote } => match remote {
                ShardableRemoteDatabaseConfig::Sharded { shard_num, .. } => *shard_num >= 1,
                ShardableRemoteDatabaseConfig::Unsharded { .. } => true,
            },
            BlobConfig::Multiplexed {
                scuba_sample_rate,
                blobstores,
                minimum_successful_writes,
                ..
            } => {
                if *scuba_sample_rate < 1 || *minimum_successful_writes < 1 {
                    return false;
                }
                if nested && *minimum_successful_writes > blobstores.len() {
                    return false;
                }
                let ghost components = self@->Multiplexed_blobstores;
                let mut i: usize = 0;
                while i < blobstores.len()
                    invariant
                        i <= blobstores@.len(),
                        self@ is Multiplexed,
                        self@->Multiplexed_blobstores == components,
                        components.len() == blobstores@.len(),
                        forall|j: int|
                            0 <= j < blobstores@.len() ==> (#[trigger] components[j]).2
                                == blobstores@[j].2@,
                        forall|j: int|
                            0 <= j < blobstores@.len() ==> decreases_to!(self => (
                            #[trigger] blobstores@[j]).2),
                        forall|j: int| 0 <= j < i ==> (#[trigger] components[j]).2.well_formed_at(true),
                    decreases blobstores@.len() - i,
                {
                    if !blobstores[i].2.is_well_formed_at(true) {
                        assert(!components[i as int].2.well_formed_at(true));
                        return false;
                    }
                    i += 1;
                }
                true
            },
            BlobConfig::Logging { blobconfig, scuba_sample_rate, .. } => {
                *scuba_sample_rate >= 1 && blobconfig.is_well_formed_at(nested)
            },
            BlobConfig::Pack { blobconfig, .. } => blobconfig.is_well_formed_at(nested),
            _ => true,
        }
    }
}

} // verus!
