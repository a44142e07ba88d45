//! The options that hold for a whole build, whatever the configuration says.

use vstd::prelude::*;
use crate::config::PackFormat;
use crate::config::text_of;

verus! {

/// What a store does with a key that it already holds.
#[derive(Clone, Copy, Debug, PartialEq, Eq, Structural, Hash)]
pub enum PutBehaviour {
    /// Write over it.
    Overwrite,
    /// Write over it, and report that it was there.
    OverwriteAndLog,
    /// Leave it as it is.
    IfAbsent,
}

/// The behaviour of a store that was given none.
pub const DEFAULT_PUT_BEHAVIOUR: PutBehaviour = PutBehaviour::Overwrite;

/// A rate is set and at least one.
pub open spec fn rate_is_set(rate: Option<u32>) -> bool {
    rate matches Some(n) && n >= 1
}

fn rate_set(rate: Option<u32>) -> (set: bool)
    ensures
        set == rate_is_set(rate),
{
    match rate {
        Some(n) => n >= 1,
        None => false,
    }
}

/// Fault injection: one operation in `n` fails, for reads and for writes
/// apart. No ratio, or the ratio zero, injects nothing.
#[derive(Clone, Copy, Debug, PartialEq, Eq, Structural, Hash)]
pub struct ChaosOptions {
    pub error_sample_ratio_read: Option<u32>,
    pub error_sample_ratio_write: Option<u32>,
}

impl ChaosOptions {
    /// Pass `None` twice for a store without chaos.
    pub fn new(error_sample_ratio_read: Option<u32>, error_sample_ratio_write: Option<u32>) -> (o:
        ChaosOptions)
        ensures
            o == (ChaosOptions { error_sample_ratio_read, error_sample_ratio_write }),
    {
        ChaosOptions { error_sample_ratio_read, error_sample_ratio_write }
    }

    /// Reads or writes may be made to fail.
    pub open spec fn spec_has_chaos(&self) -> bool {
        rate_is_set(self.error_sample_ratio_read) || rate_is_set(self.error_sample_ratio_write)
    }

    /// Reads or writes may be made to fail.
    #[verifier::when_used_as_spec(spec_has_chaos)]
    pub fn has_chaos(&self) -> (b: bool)
        ensures
            b == self.spec_has_chaos(),
    {
        rate_set(self.error_sample_ratio_read) || rate_set(self.error_sample_ratio_write)
    }
}

/// Rate limits, in operations per second, for reads and for writes apart. No
/// limit, or the limit zero, bounds nothing.
#[derive(Clone, Copy, Debug, PartialEq, Eq, Structural, Hash)]
pub struct ThrottleOptions {
    pub read_qps: Option<u32>,
    pub write_qps: Option<u32>,
}

impl ThrottleOptions {
    pub fn new(read_qps: Option<u32>, write_qps: Option<u32>) -> (o: ThrottleOptions)
        ensures
            o == (ThrottleOptions { read_qps, write_qps }),
    {
        ThrottleOptions { read_qps, write_qps }
    }

    /// Reads or writes are bounded.
    pub open spec fn spec_has_throttle(&self) -> bool {
        rate_is_set(self.read_qps) || rate_is_set(self.write_qps)
    }

    /// Reads or writes are bounded.
    #[verifier::when_used_as_spec(spec_has_throttle)]
    pub fn has_throttle(&self) -> (b: bool)
        ensures
            b == self.spec_has_throttle(),
    {
        rate_set(self.read_qps) || rate_set(self.write_qps)
    }
}

/// The pack format that the caller asks for, over what the configuration says.
#[derive(Clone, Copy, Debug, PartialEq, Eq, Structural, Hash)]
pub struct PackOptions {
    pub override_put_format: Option<PackFormat>,
}

impl PackOptions {
    pub fn new(override_put_format: Option<PackFormat>) -> (o: PackOptions)
        ensures
            o == (PackOptions { override_put_format }),
    {
        PackOptions { override_put_format }
    }
}

/// How a cache in front of the store is filled.
#[derive(Clone, Copy, Debug, PartialEq, Eq, Structural, Hash)]
pub struct CachelibBlobstoreOptions {
    pub attempt_zstd: bool,
    pub lazy_cache_put: bool,
}

/// What a scrub does about a replica that lacks a key.
#[derive(Clone, Copy, Debug, PartialEq, Eq, Structural, Hash)]
pub enum ScrubAction {
    /// Report it.
    ReportOnly,
    /// Report it and write the blob to the replica.
    Repair,
}

/// How replicas are checked against each other on a read.
#[derive(Clone, Copy, Debug, PartialEq, Eq, Structural, Hash)]
pub struct ScrubOptions {
    pub scrub_action: ScrubAction,
    /// For how many seconds a replica may lag before a key that it lacks
    /// counts as lost.
    pub scrub_grace: Option<u64>,
}

impl Default for ScrubOptions {
    fn default() -> (o: ScrubOptions)
        ensures
            o == (ScrubOptions { scrub_action: ScrubAction::ReportOnly, scrub_grace: None }),
    {
        ScrubOptions { scrub_action: ScrubAction::ReportOnly, scrub_grace: None }
    }
}

/// How a remote relational database is reached.
#[derive(Clone, Copy, Debug, PartialEq, Eq, Structural, Hash)]
pub enum MysqlConnectionType {
    /// Through a local proxy that listens on the given port.
    Myrouter(u16),
    /// Through a connection pool of the client itself.
    Mysql,
}

/// Which servers of a replicated database answer reads.
#[derive(Clone, Copy, Debug, PartialEq, Eq, Structural, Hash)]
pub enum ReadConnectionType {
    ReplicaOnly,
    Master,
}

#[derive(Clone, Copy, Debug, PartialEq, Eq, Structural, Hash)]
pub struct MysqlOptions {
    pub connection_type: MysqlConnectionType,
    pub master_only: bool,
}

impl MysqlOptions {
    /// Reads go to the master only where the options insist on it.
    pub open spec fn spec_read_connection_type(&self) -> ReadConnectionType {
        if self.master_only {
            ReadConnectionType::Master
        } else {
            ReadConnectionType::ReplicaOnly
        }
    }

    /// Reads go to the master only where the options insist on it.
    #[verifier::when_used_as_spec(spec_read_connection_type)]
    pub fn read_connection_type(&self) -> (t: ReadConnectionType)
        ensures
            t == self.spec_read_connection_type(),
    {
        if self.master_only {
            ReadConnectionType::Master
        } else {
            ReadConnectionType::ReplicaOnly
        }
    }
}

/// Whether the storage may be written to.
#[derive(Clone, Copy, Debug, PartialEq, Eq, Structural, Hash)]
pub struct ReadOnlyStorage(pub bool);

/// The backends that this deployment can open.
#[derive(Clone, Copy, Debug, PartialEq, Eq, Structural, Hash)]
pub struct Platform {
    pub manifold: bool,
    pub s3: bool,
}

#[derive(Clone, Debug, PartialEq, Eq)]
pub struct BlobstoreOptions {
    pub chaos_options: ChaosOptions,
    pub throttle_options: ThrottleOptions,
    pub manifold_api_key: Option<String>,
    pub pack_options: PackOptions,
    pub cachelib_options: CachelibBlobstoreOptions,
    pub put_behaviour: PutBehaviour,
    pub scrub_options: Option<ScrubOptions>,
    pub sqlblob_mysql_options: MysqlOptions,
}

/// The options of a build as a mathematical value.
pub ghost struct BlobstoreOptionsView {
    pub chaos_options: ChaosOptions,
    pub throttle_options: ThrottleOptions,
    pub manifold_api_key: Option<Seq<char>>,
    pub pack_options: PackOptions,
    pub cachelib_options: CachelibBlobstoreOptions,
    pub put_behaviour: PutBehaviour,
    pub scrub_options: Option<ScrubOptions>,
    pub sqlblob_mysql_options: MysqlOptions,
}

impl View for BlobstoreOptions {
    type V = BlobstoreOptionsView;

    open spec fn view(&self) -> BlobstoreOptionsView {
        BlobstoreOptionsView {
            chaos_options: self.chaos_options,
            throttle_options: self.throttle_options,
            manifold_api_key: text_of(self.manifold_api_key),
            pack_options: self.pack_options,
            cachelib_options: self.cachelib_options,
            put_behaviour: self.put_behaviour,
            scrub_options: self.scrub_options,
            sqlblob_mysql_options: self.sqlblob_mysql_options,
        }
    }
}

impl BlobstoreOptionsView {
    /// The same options with another scrub setting.
    pub open spec fn with_scrub(self, scrub_options: Option<ScrubOptions>) -> BlobstoreOptionsView {
        BlobstoreOptionsView { scrub_options, ..self }
    }

    /// The same options with other chaos.
    pub open spec fn with_chaos(self, chaos_options: ChaosOptions) -> BlobstoreOptionsView {
        BlobstoreOptionsView { chaos_options, ..self }
    }
}

impl BlobstoreOptions {
    /// Options without a scrub: `with_scrub_action` adds one. A store that is
    /// given no put behaviour writes over what it holds.
    pub fn new(
        chaos_options: ChaosOptions,
        throttle_options: ThrottleOptions,
        manifold_api_key: Option<String>,
        pack_options: PackOptions,
        cachelib_options: CachelibBlobstoreOptions,
        put_behaviour: Option<PutBehaviour>,
        sqlblob_mysql_options: MysqlOptions,
    ) -> (o: BlobstoreOptions)
        ensures
            o@ == (BlobstoreOptionsView {
                chaos_options,
                throttle_options,
                manifold_api_key: text_of(manifold_api_key),
                pack_options,
                cachelib_options,
                put_behaviour: match put_behaviour {
                    Some(b) => b,
                    None => PutBehaviour::Overwrite,
                },
                scrub_options: None,
                sqlblob_mysql_options,
            }),
    {
        BlobstoreOptions {
            chaos_options,
            throttle_options,
            manifold_api_key,
            pack_options,
            cachelib_options,
            put_behaviour: match put_behaviour {
                Some(b) => b,
                None => DEFAULT_PUT_BEHAVIOUR,
            },
            scrub_options: None,
            sqlblob_mysql_options,
        }
    }

    /// Turns the scrub on with the given action, or sets the action of the
    /// scrub that is on; its grace period stays. `None` changes nothing.
    pub fn with_scrub_action(self, scrub_action: Option<ScrubAction>) -> (o: BlobstoreOptions)
        ensures
            o@ == match scrub_action {
                Some(action) => self@.with_scrub(
                    Some(
                        ScrubOptions {
                            scrub_action: action,
                            scrub_grace: match self.scrub_options {
                                Some(s) => s.scrub_grace,
                                None => None,
                            },
                        },
                    ),
                ),
                None => self@,
            },
    {
        match scrub_action {
            Some(scrub_action) => {
                let mut scrub_options = match self.scrub_options {
                    Some(s) => s,
                    None => ScrubOptions::default(),
                };
                scrub_options.scrub_action = scrub_action;
                BlobstoreOptions {
                    chaos_options: self.chaos_options,
                    throttle_options: self.throttle_options,
                    manifold_api_key: self.manifold_api_key,
                    pack_options: self.pack_options,
                    cachelib_options: self.cachelib_options,
                    put_behaviour: self.put_behaviour,
                    scrub_options: Some(scrub_options),
                    sqlblob_mysql_options: self.sqlblob_mysql_options,
                }
            },
            None => self,
        }
    }

    /// Sets the grace period, in seconds, of the scrub that is on: `None`
    /// takes it away. Without a scrub nothing changes.
    pub fn with_scrub_grace(self, scrub_grace: Option<u64>) -> (o: BlobstoreOptions)
        ensures
            o@ == match self.scrub_options {
                Some(s) => self@.with_scrub(
                    Some(ScrubOptions { scrub_action: s.scrub_action, scrub_grace }),
                ),
                None => self@,
            },
    {
        match self.scrub_options {
            Some(s) => BlobstoreOptions {
                chaos_options: self.chaos_options,
                throttle_options: self.throttle_options,
                manifold_api_key: self.manifold_api_key,
                pack_options: self.pack_options,
                cachelib_options: self.cachelib_options,
                put_behaviour: self.put_behaviour,
                scrub_options: Some(ScrubOptions { scrub_action: s.scrub_action, scrub_grace }),
                sqlblob_mysql_options: self.sqlblob_mysql_options,
            },
            None => self,
        }
    }
}

/// A second copy of an optional string.
pub fn copy_text(s: &Option<String>) -> (copy: Option<String>)
    ensures
        text_of(copy) == text_of(*s),
{
    match s {
        Some(s) => Some(s.clone()),
        None => None,
    }
}

impl BlobstoreOptions {
    /// A copy of the options with other chaos.
    pub fn with_chaos_options(&self, chaos_options: ChaosOptions) -> (o: BlobstoreOptions)
        ensures
            o@ == self@.with_chaos(chaos_options),
    {
        BlobstoreOptions {
            chaos_options,
            throttle_options: self.throttle_options,
            manifold_api_key: copy_text(&self.manifold_api_key),
            pack_options: self.pack_options,
            cachelib_options: self.cachelib_options,
            put_behaviour: self.put_behaviour,
            scrub_options: self.scrub_options,
            sqlblob_mysql_options: self.sqlblob_mysql_options,
        }
    }
}

} // verus!
