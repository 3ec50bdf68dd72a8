//! The configuration values of the service, as plain data with their
//! defaults. Reading them from a file is the caller's business.

use vstd::prelude::*;

verus! {

/// Seconds a buffer ticket lives when nothing else is asked for.
pub const DEFAULT_BUFFER_TICKET_TIMEOUT_SEC: i64 = 300;

/// Shards of the in-memory map when nothing else is asked for.
pub const DEFAULT_DASHMAP_SHARD_AMOUNT: usize = 128;

/// Threads of each pool when nothing else is asked for.
pub const DEFAULT_THREAD_NUM: usize = 1;

/// Minutes without a heartbeat after which an application counts as gone.
pub const DEFAULT_APP_HEARTBEAT_TIMEOUT_MIN: u32 = 5;

/// The in-memory store.
#[derive(Clone, Debug, PartialEq)]
pub struct MemoryStoreConfig {
    pub capacity: String,
    pub buffer_ticket_timeout_sec: Option<i64>,
    pub dashmap_shard_amount: Option<usize>,
}

impl MemoryStoreConfig {
    /// A store of `capacity` with the default ticket timeout and shards.
    pub fn new(capacity: String) -> (config: Self)
        ensures
            config.capacity == capacity,
            config.buffer_ticket_timeout_sec == Some(DEFAULT_BUFFER_TICKET_TIMEOUT_SEC),
            config.dashmap_shard_amount == Some(DEFAULT_DASHMAP_SHARD_AMOUNT),
    {
        Self {
            capacity,
            buffer_ticket_timeout_sec: Some(DEFAULT_BUFFER_TICKET_TIMEOUT_SEC),
            dashmap_shard_amount: Some(DEFAULT_DASHMAP_SHARD_AMOUNT),
        }
    }

    /// A store of `capacity` whose tickets live `buffer_ticket_timeout_sec`
    /// seconds, with the default shards.
    pub fn from(capacity: String, buffer_ticket_timeout_sec: i64) -> (config: Self)
        ensures
            config.capacity == capacity,
            config.buffer_ticket_timeout_sec == Some(buffer_ticket_timeout_sec),
            config.dashmap_shard_amount == Some(DEFAULT_DASHMAP_SHARD_AMOUNT),
    {
        Self {
            capacity,
            buffer_ticket_timeout_sec: Some(buffer_ticket_timeout_sec),
            dashmap_shard_amount: Some(DEFAULT_DASHMAP_SHARD_AMOUNT),
        }
    }
}

/// The remote store.
#[derive(Clone, Debug, PartialEq)]
pub struct HdfsStoreConfig {
    pub max_concurrency: Option<i32>,
}

impl Default for HdfsStoreConfig {
    fn default() -> (config: Self)
        ensures
            config.max_concurrency is None,
    {
        HdfsStoreConfig { max_concurrency: None }
    }
}

/// The sizes of the thread pools.
#[derive(Clone, Debug, PartialEq)]
pub struct RuntimeConfig {
    pub read_thread_num: usize,
    pub write_thread_num: usize,
    pub grpc_thread_num: usize,
    pub http_thread_num: usize,
    pub default_thread_num: usize,
    pub dispatch_thread_num: usize,
}

impl RuntimeConfig {
    /// Every pool has `DEFAULT_THREAD_NUM` threads.
    pub open spec fn is_default(self) -> bool {
        &&& self.read_thread_num == DEFAULT_THREAD_NUM
        &&& self.write_thread_num == DEFAULT_THREAD_NUM
        &&& self.grpc_thread_num == DEFAULT_THREAD_NUM
        &&& self.http_thread_num == DEFAULT_THREAD_NUM
        &&& self.default_thread_num == DEFAULT_THREAD_NUM
        &&& self.dispatch_thread_num == DEFAULT_THREAD_NUM
    }
}

impl Default for RuntimeConfig {
    fn default() -> (config: Self)
        ensures
            config.is_default(),
    {
        RuntimeConfig {
            read_thread_num: DEFAULT_THREAD_NUM,
            write_thread_num: DEFAULT_THREAD_NUM,
            grpc_thread_num: DEFAULT_THREAD_NUM,
            http_thread_num: DEFAULT_THREAD_NUM,
            default_thread_num: DEFAULT_THREAD_NUM,
            dispatch_thread_num: DEFAULT_THREAD_NUM,
        }
    }
}

/// The pools of a configuration that names none.
pub fn as_default_runtime_config() -> (config: RuntimeConfig)
    ensures
        config.is_default(),
{
    RuntimeConfig::default()
}

/// The heartbeat timeout of a configuration that names none.
pub fn as_default_app_heartbeat_timeout_min() -> (minutes: u32)
    ensures
        minutes == DEFAULT_APP_HEARTBEAT_TIMEOUT_MIN,
{
    DEFAULT_APP_HEARTBEAT_TIMEOUT_MIN
}

/// Where traces are reported.
#[derive(Clone, Debug, PartialEq)]
pub struct TracingConfig {
    pub jaeger_reporter_endpoint: String,
    pub jaeger_service_name: String,
}

/// Where metrics are pushed.
#[derive(Clone, Debug, PartialEq)]
pub struct MetricsConfig {
    pub push_gateway_endpoint: Option<String>,
    pub push_interval_sec: Option<u32>,
}

/// How often the log file is rotated.
#[derive(Clone, Copy, Debug, PartialEq, Eq, Structural)]
pub enum RotationConfig {
    Hourly,
    Daily,
    Never,
}

/// Where the log goes.
#[derive(Clone, Debug, PartialEq)]
pub struct LogConfig {
    pub path: String,
    pub rotation: RotationConfig,
}

impl Default for LogConfig {
    fn default() -> (config: Self)
        ensures
            config.path@ == "/tmp/"@,
            config.rotation == RotationConfig::Hourly,
    {
        LogConfig { path: "/tmp/".to_owned(), rotation: RotationConfig::Hourly }
    }
}

/// Bit of the in-memory tier in the code of a storage type.
pub const MEMORY_BIT: u8 = 1;

/// Bit of the local-file tier.
pub const LOCALFILE_BIT: u8 = 2;

/// Bit of the remote tier.
pub const HDFS_BIT: u8 = 4;

/// The tiers that a store is made of.
#[derive(Clone, Copy, Debug, PartialEq, Eq, Structural)]
#[allow(non_camel_case_types)]
pub enum StorageType {
    MEMORY,
    LOCALFILE,
    MEMORY_LOCALFILE,
    HDFS,
    MEMORY_HDFS,
    MEMORY_LOCALFILE_HDFS,
}

impl StorageType {
    /// The code of the type: one bit for each tier it is made of.
    pub open spec fn bits(self) -> u8 {
        match self {
            StorageType::MEMORY => 1,
            StorageType::LOCALFILE => 2,
            StorageType::MEMORY_LOCALFILE => 3,
            StorageType::HDFS => 4,
            StorageType::MEMORY_HDFS => 5,
            StorageType::MEMORY_LOCALFILE_HDFS => 7,
        }
    }

    /// Whether the in-memory tier is part of the type.
    pub open spec fn has_memory(self) -> bool {
        self is MEMORY || self is MEMORY_LOCALFILE || self is MEMORY_HDFS
            || self is MEMORY_LOCALFILE_HDFS
    }

    /// Whether the local-file tier is part of the type.
    pub open spec fn has_localfile(self) -> bool {
        self is LOCALFILE || self is MEMORY_LOCALFILE || self is MEMORY_LOCALFILE_HDFS
    }

    /// Whether the remote tier is part of the type.
    pub open spec fn has_hdfs(self) -> bool {
        self is HDFS || self is MEMORY_HDFS || self is MEMORY_LOCALFILE_HDFS
    }

    /// The code of the type.
    pub fn code(&self) -> (code: u8)
        ensures
            code == self.bits(),
    {
        match self {
            StorageType::MEMORY => 1,
            StorageType::LOCALFILE => 2,
            StorageType::MEMORY_LOCALFILE => 3,
            StorageType::HDFS => 4,
            StorageType::MEMORY_HDFS => 5,
            StorageType::MEMORY_LOCALFILE_HDFS => 7,
        }
    }

    /// Whether the code of `storage_type` has the local-file bit.
    pub fn contains_localfile(storage_type: &StorageType) -> (found: bool)
        ensures
            found == (storage_type.bits() & LOCALFILE_BIT != 0),
            found == storage_type.has_localfile(),
    {
        let val: u8 = storage_type.code();
        proof {
            lemma_tier_bits(*storage_type);
        }
        val & LOCALFILE_BIT != 0
    }

    /// Whether the code of `storage_type` has the in-memory bit.
    pub fn contains_memory(storage_type: &StorageType) -> (found: bool)
        ensures
            found == (storage_type.bits() & MEMORY_BIT != 0),
            found == storage_type.has_memory(),
    {
        let val: u8 = storage_type.code();
        proof {
            lemma_tier_bits(*storage_type);
        }
        val & MEMORY_BIT != 0
    }

    /// Whether the code of `storage_type` has the remote bit.
    pub fn contains_hdfs(storage_type: &StorageType) -> (found: bool)
        ensures
            found == (storage_type.bits() & HDFS_BIT != 0),
            found == storage_type.has_hdfs(),
    {
        let val: u8 = storage_type.code();
        proof {
            lemma_tier_bits(*storage_type);
        }
        val & HDFS_BIT != 0
    }
}

/// The code of a storage type has the bit of a tier exactly when the tier is
/// part of the type.
pub proof fn lemma_tier_bits(storage_type: StorageType)
    ensures
        (storage_type.bits() & MEMORY_BIT != 0) == storage_type.has_memory(),
        (storage_type.bits() & LOCALFILE_BIT != 0) == storage_type.has_localfile(),
        (storage_type.bits() & HDFS_BIT != 0) == storage_type.has_hdfs(),
{
    assert(1u8 & 1u8 != 0 && 1u8 & 2u8 == 0 && 1u8 & 4u8 == 0) by (bit_vector);
    assert(2u8 & 1u8 == 0 && 2u8 & 2u8 != 0 && 2u8 & 4u8 == 0) by (bit_vector);
    assert(3u8 & 1u8 != 0 && 3u8 & 2u8 != 0 && 3u8 & 4u8 == 0) by (bit_vector);
    assert(4u8 & 1u8 == 0 && 4u8 & 2u8 == 0 && 4u8 & 4u8 != 0) by (bit_vector);
    assert(5u8 & 1u8 != 0 && 5u8 & 2u8 == 0 && 5u8 & 4u8 != 0) by (bit_vector);
    assert(7u8 & 1u8 != 0 && 7u8 & 2u8 != 0 && 7u8 & 4u8 != 0) by (bit_vector);
}

} // verus!
