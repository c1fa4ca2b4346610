//! Configuration of the exchange engine.

use std::time::Duration;
use vstd::prelude::*;
use vstd::string::*;

use crate::exchange::duration::{duration_nanos, seconds};
use crate::identifier::{is_uuid_v4, new_uuid};
use crate::table::Table;
use crate::text::{list_clone, string_views};

verus! {

broadcast use vstd::string::group_string_axioms;

/// Volume profile for different workload types.
#[derive(Debug)]
pub struct VolumeProfile {
    pub name: String,
    /// Whether copy-on-write is switched off.
    pub nocow: bool,
    /// Compression algorithm: none, zstd, lzo or zlib.
    pub compression: String,
    /// Compression level, from 1 to 15 for zstd.
    pub compression_level: u8,
    /// Whether writes are synchronous.
    pub sync_writes: bool,
    /// Whether the quota is enforced.
    pub quota_enforced: bool,
    /// Flags for the creation of the subvolume.
    pub create_flags: Vec<String>,
    /// Mount options.
    pub mount_options: Vec<String>,
}

/// What a volume profile says.
#[verifier::ext_equal]
pub struct VolumeProfileView {
    pub name: Seq<char>,
    pub nocow: bool,
    pub compression: Seq<char>,
    pub compression_level: u8,
    pub sync_writes: bool,
    pub quota_enforced: bool,
    pub create_flags: Seq<Seq<char>>,
    pub mount_options: Seq<Seq<char>>,
}

impl View for VolumeProfile {
    type V = VolumeProfileView;

    open spec fn view(&self) -> VolumeProfileView {
        VolumeProfileView {
            name: self.name@,
            nocow: self.nocow,
            compression: self.compression@,
            compression_level: self.compression_level,
            sync_writes: self.sync_writes,
            quota_enforced: self.quota_enforced,
            create_flags: string_views(self.create_flags@),
            mount_options: string_views(self.mount_options@),
        }
    }
}

impl Clone for VolumeProfile {
    fn clone(&self) -> (r: VolumeProfile)
        ensures
            r@ == self@,
    {
        VolumeProfile {
            name: self.name.clone(),
            nocow: self.nocow,
            compression: self.compression.clone(),
            compression_level: self.compression_level,
            sync_writes: self.sync_writes,
            quota_enforced: self.quota_enforced,
            create_flags: list_clone(&self.create_flags),
            mount_options: list_clone(&self.mount_options),
        }
    }
}

/// The profile for general use.
pub open spec fn default_profile() -> VolumeProfileView {
    VolumeProfileView {
        name: "default"@,
        nocow: false,
        compression: "zstd"@,
        compression_level: 3,
        sync_writes: false,
        quota_enforced: true,
        create_flags: Seq::empty(),
        mount_options: seq!["noatime"@],
    }
}

/// The profile for databases: copy-on-write for consistent snapshots, and synchronous writes.
pub open spec fn database_profile() -> VolumeProfileView {
    VolumeProfileView {
        name: "database"@,
        nocow: false,
        compression: "zstd"@,
        compression_level: 3,
        sync_writes: true,
        quota_enforced: true,
        create_flags: Seq::empty(),
        mount_options: seq!["noatime,sync"@],
    }
}

/// The profile for logs: no copy-on-write, and no compression.
pub open spec fn log_profile() -> VolumeProfileView {
    VolumeProfileView {
        name: "log"@,
        nocow: true,
        compression: "none"@,
        compression_level: 1,
        sync_writes: false,
        quota_enforced: true,
        create_flags: Seq::empty(),
        mount_options: seq!["noatime"@],
    }
}

fn one_option(option: &str) -> (r: Vec<String>)
    ensures
        string_views(r@) == seq![option@],
{
    let mut r: Vec<String> = Vec::new();
    r.push(option.to_owned());
    assert(string_views(r@) =~= seq![option@]);
    r
}

fn no_flags() -> (r: Vec<String>)
    ensures
        string_views(r@) == Seq::<Seq<char>>::empty(),
{
    let r: Vec<String> = Vec::new();
    assert(string_views(r@) =~= Seq::<Seq<char>>::empty());
    r
}

impl Default for VolumeProfile {
    fn default() -> (r: VolumeProfile)
        ensures
            r@ == default_profile(),
    {
        VolumeProfile {
            name: "default".to_owned(),
            nocow: false,
            compression: "zstd".to_owned(),
            compression_level: 3,
            sync_writes: false,
            quota_enforced: true,
            create_flags: no_flags(),
            mount_options: one_option("noatime"),
        }
    }
}

impl VolumeProfile {
    /// The profile for databases.
    pub fn database() -> (r: VolumeProfile)
        ensures
            r@ == database_profile(),
    {
        VolumeProfile {
            name: "database".to_owned(),
            nocow: false,
            compression: "zstd".to_owned(),
            compression_level: 3,
            sync_writes: true,
            quota_enforced: true,
            create_flags: no_flags(),
            mount_options: one_option("noatime,sync"),
        }
    }

    /// The profile for logs.
    pub fn log() -> (r: VolumeProfile)
        ensures
            r@ == log_profile(),
    {
        VolumeProfile {
            name: "log".to_owned(),
            nocow: true,
            compression: "none".to_owned(),
            compression_level: 1,
            sync_writes: false,
            quota_enforced: true,
            create_flags: no_flags(),
            mount_options: one_option("noatime"),
        }
    }
}

/// The built-in profiles by name.
pub open spec fn builtin_profiles() -> Map<Seq<char>, VolumeProfileView> {
    Map::empty().insert("default"@, default_profile()).insert(
        "database"@,
        database_profile(),
    ).insert("log"@, log_profile())
}

/// The built-in profiles by name.
pub fn builtin_profile_table() -> (r: Table<VolumeProfile>)
    ensures
        r.wf(),
        r@ == builtin_profiles(),
{
    let mut r: Table<VolumeProfile> = Table::new();
    r.insert("default".to_owned(), VolumeProfile::default());
    r.insert("database".to_owned(), VolumeProfile::database());
    r.insert("log".to_owned(), VolumeProfile::log());
    r
}

/// Database-specific configuration.
#[derive(Debug, Clone, Copy, PartialEq, Eq, Structural)]
pub struct DatabaseConfig {
    /// Whether replication is aware of databases.
    pub enabled: bool,
    /// Whether SQLite uses a write-ahead log.
    pub sqlite_wal_mode: bool,
    /// Interval of checkpoints in seconds.
    pub checkpoint_interval: u64,
    /// Whether copy-on-write is switched off for database volumes.
    pub enable_nocow: bool,
}

/// The interval of checkpoints where none is configured, in seconds.
pub fn default_checkpoint_interval() -> (r: u64)
    ensures
        r == 30,
{
    30
}

impl DatabaseConfig {
    /// The interval of checkpoints.
    pub fn checkpoint_interval_duration(&self) -> (r: Duration)
        ensures
            duration_nanos(r) == self.checkpoint_interval * 1_000_000_000,
    {
        seconds(self.checkpoint_interval)
    }
}

impl Default for DatabaseConfig {
    fn default() -> (r: DatabaseConfig)
        ensures
            r == (DatabaseConfig {
                enabled: true,
                sqlite_wal_mode: true,
                checkpoint_interval: 30,
                enable_nocow: false,
            }),
    {
        DatabaseConfig {
            enabled: true,
            sqlite_wal_mode: true,
            checkpoint_interval: 30,
            enable_nocow: false,
        }
    }
}

/// Snapshot retention policy.
#[derive(Debug, Clone, Copy, PartialEq, Eq, Structural)]
pub struct SnapshotRetention {
    /// Daily snapshots to keep.
    pub daily: u32,
    /// Weekly snapshots to keep.
    pub weekly: u32,
    /// Monthly snapshots to keep.
    pub monthly: u32,
}

/// Maintenance configuration, apart from the balance threshold.
#[derive(Debug)]
pub struct MaintenanceConfig {
    /// Whether maintenance is automatic.
    pub enabled: bool,
    /// Balance schedule, a cron expression.
    pub balance_schedule: String,
    /// Scrub schedule, a cron expression.
    pub scrub_schedule: String,
    /// Snapshot cleanup schedule, a cron expression.
    pub snapshot_cleanup_schedule: String,
    /// Snapshot retention.
    pub snapshot_retention: SnapshotRetention,
}

/// Whether `m` is the configuration where none is given: balance and cleanup at night, a scrub
/// on Sundays.
pub open spec fn is_default_maintenance(m: MaintenanceConfig) -> bool {
    &&& m.enabled
    &&& m.balance_schedule@ == "0 2 * * *"@
    &&& m.scrub_schedule@ == "0 3 * * 0"@
    &&& m.snapshot_cleanup_schedule@ == "0 4 * * *"@
    &&& m.snapshot_retention == (SnapshotRetention { daily: 7, weekly: 4, monthly: 3 })
}

impl Default for MaintenanceConfig {
    fn default() -> (r: MaintenanceConfig)
        ensures
            is_default_maintenance(r),
    {
        MaintenanceConfig {
            enabled: true,
            balance_schedule: "0 2 * * *".to_owned(),
            scrub_schedule: "0 3 * * 0".to_owned(),
            snapshot_cleanup_schedule: "0 4 * * *".to_owned(),
            snapshot_retention: SnapshotRetention { daily: 7, weekly: 4, monthly: 3 },
        }
    }
}

/// Replication configuration.
pub struct ReplicationConfig {
    /// Replica count where a volume asks for none.
    pub default_replica_count: u32,
    /// Replication interval in seconds where a volume asks for none.
    pub default_interval: u64,
    /// How many volumes are replicated at a time.
    pub max_concurrent: u32,
    /// Directory of the volumes.
    pub data_dir: String,
    /// Directory of the snapshots.
    pub snapshot_dir: String,
    /// Whether replication is incremental.
    pub enable_incremental: bool,
    /// Database settings.
    pub database: DatabaseConfig,
    /// Volume profiles by name.
    pub volume_profiles: Table<VolumeProfile>,
}

/// The replication interval where none is configured, in seconds.
pub fn default_replication_interval() -> (r: u64)
    ensures
        r == 30,
{
    30
}

impl ReplicationConfig {
    /// The replication interval.
    pub fn default_interval_duration(&self) -> (r: Duration)
        ensures
            duration_nanos(r) == self.default_interval * 1_000_000_000,
    {
        seconds(self.default_interval)
    }
}

/// Whether `c` is the configuration where none is given.
pub open spec fn is_default_replication(c: ReplicationConfig) -> bool {
    &&& c.default_replica_count == 2
    &&& c.default_interval == 30
    &&& c.max_concurrent == 4
    &&& c.data_dir@ == "/mnt/data"@
    &&& c.snapshot_dir@ == "/mnt/snapshots"@
    &&& c.enable_incremental
    &&& c.database == (DatabaseConfig {
        enabled: true,
        sqlite_wal_mode: true,
        checkpoint_interval: 30,
        enable_nocow: false,
    })
    &&& c.volume_profiles.wf()
    &&& c.volume_profiles@ == builtin_profiles()
}

impl Default for ReplicationConfig {
    fn default() -> (r: ReplicationConfig)
        ensures
            is_default_replication(r),
    {
        ReplicationConfig {
            default_replica_count: 2,
            default_interval: 30,
            max_concurrent: 4,
            data_dir: "/mnt/data".to_owned(),
            snapshot_dir: "/mnt/snapshots".to_owned(),
            enable_incremental: true,
            database: DatabaseConfig::default(),
            volume_profiles: builtin_profile_table(),
        }
    }
}

/// Exchange engine configuration.
pub struct ExchangeConfig {
    /// Node identifier; a fresh one is made where it is empty.
    pub node_id: String,
    /// Address for incoming connections.
    pub listen_addr: String,
    /// Port for membership and state.
    pub listen_port: u16,
    /// Port for replication streams.
    pub replication_port: u16,
    /// Zone of the topology.
    pub zone: String,
    /// Secret that the nodes of the cluster share.
    pub auth_key: String,
    /// Nodes through which the cluster is joined.
    pub seed_nodes: Vec<String>,
    /// Gossip interval in seconds.
    pub gossip_interval: u64,
    /// Heartbeat interval in seconds.
    pub heartbeat_interval: u64,
    /// Seconds of silence after which a node has failed.
    pub node_timeout: u64,
    /// Replication settings.
    pub replication: ReplicationConfig,
    /// Maintenance settings.
    pub maintenance: MaintenanceConfig,
}

/// The gossip interval where none is configured, in seconds.
pub fn default_gossip_interval() -> (r: u64)
    ensures
        r == 10,
{
    10
}

/// The heartbeat interval where none is configured, in seconds.
pub fn default_heartbeat_interval() -> (r: u64)
    ensures
        r == 30,
{
    30
}

/// The node timeout where none is configured, in seconds.
pub fn default_node_timeout() -> (r: u64)
    ensures
        r == 90,
{
    90
}

/// The replication port where none is configured.
pub const DEFAULT_REPLICATION_PORT: u16 = 9300;

impl ExchangeConfig {
    /// The gossip interval.
    pub fn gossip_interval_duration(&self) -> (r: Duration)
        ensures
            duration_nanos(r) == self.gossip_interval * 1_000_000_000,
    {
        seconds(self.gossip_interval)
    }

    /// The heartbeat interval.
    pub fn heartbeat_interval_duration(&self) -> (r: Duration)
        ensures
            duration_nanos(r) == self.heartbeat_interval * 1_000_000_000,
    {
        seconds(self.heartbeat_interval)
    }

    /// The node timeout.
    pub fn node_timeout_duration(&self) -> (r: Duration)
        ensures
            duration_nanos(r) == self.node_timeout * 1_000_000_000,
    {
        seconds(self.node_timeout)
    }

    /// The configuration with the node's identifier and zone from the command line, where they
    /// are given there.
    pub fn overridden(self, node_id: Option<String>, zone: Option<String>) -> (r: ExchangeConfig)
        ensures
            r.node_id == (if node_id is Some { node_id->0 } else { self.node_id }),
            r.zone == (if zone is Some { zone->0 } else { self.zone }),
            r == (ExchangeConfig { node_id: r.node_id, zone: r.zone, ..self }),
    {
        let mut r = self;
        match node_id {
            Some(n) => {
                r.node_id = n;
            },
            None => {},
        }
        match zone {
            Some(z) => {
                r.zone = z;
            },
            None => {},
        }
        r
    }

    /// The configuration with a fresh identifier for the node, where it has none.
    pub fn identified(self) -> (r: ExchangeConfig)
        ensures
            r == (ExchangeConfig { node_id: r.node_id, ..self }),
            self.node_id@.len() > 0 ==> r.node_id == self.node_id,
            self.node_id@.len() == 0 ==> is_uuid_v4(r.node_id@),
    {
        let mut r = self;
        if r.node_id.as_str().unicode_len() == 0 {
            r.node_id = new_uuid();
        }
        r
    }

    /// Whether the driver may start: without a secret it refuses to.
    pub fn may_start(&self) -> (r: Result<(), String>)
        ensures
            r is Ok == (self.auth_key@.len() > 0),
            r matches Err(e) ==> e@ == "auth_key must not be empty"@,
    {
        if self.auth_key.as_str().unicode_len() > 0 {
            Ok(())
        } else {
            Err("auth_key must not be empty".to_owned())
        }
    }
}

impl Default for ExchangeConfig {
    fn default() -> (r: ExchangeConfig)
        ensures
            is_uuid_v4(r.node_id@),
            r.listen_addr@ == "0.0.0.0"@,
            r.listen_port == 9200,
            r.replication_port == DEFAULT_REPLICATION_PORT,
            r.zone@ == "default"@,
            r.auth_key@ == Seq::<char>::empty(),
            r.seed_nodes@.len() == 0,
            r.gossip_interval == 10,
            r.heartbeat_interval == 30,
            r.node_timeout == 90,
            is_default_replication(r.replication),
            is_default_maintenance(r.maintenance),
    {
        ExchangeConfig {
            node_id: new_uuid(),
            listen_addr: "0.0.0.0".to_owned(),
            listen_port: 9200,
            replication_port: DEFAULT_REPLICATION_PORT,
            zone: "default".to_owned(),
            auth_key: String::new(),
            seed_nodes: Vec::new(),
            gossip_interval: 10,
            heartbeat_interval: 30,
            node_timeout: 90,
            replication: ReplicationConfig::default(),
            maintenance: MaintenanceConfig::default(),
        }
    }
}

} // verus!
