//! Options of the sink that writes the log, and their defaults.

use std::time::Duration;
use vstd::prelude::*;

verus! {

/// Number of shards of the log; it is fixed.
pub const SHARD_COUNT: usize = 256;

/// The duration that `Duration::from_millis` builds from a count of
/// milliseconds.
pub uninterp spec fn duration_of_millis(millis: u64) -> Duration;

/// Calls `Duration::from_millis`. The result is a function of the count
/// alone; a `Duration` is opaque here, so the contract only gives it the
/// name above.
#[verifier::external_body]
fn duration_from_millis(millis: u64) -> (d: Duration)
    ensures
        d == duration_of_millis(millis),
{
    Duration::from_millis(millis)
}

/// Most records that one outbound batch may hold.
pub fn default_batch_len_limit() -> (limit: usize)
    ensures
        limit == 10,
{
    10
}

/// Largest outbound batch, in kilobytes.
pub fn default_batch_size_kb() -> (limit: usize)
    ensures
        limit == 131585,
{
    131585
}

/// How long records are gathered before a batch is flushed: 10 ms.
pub fn default_linger() -> (linger: Duration)
    ensures
        linger == duration_of_millis(10),
{
    duration_from_millis(10)
}

pub fn default_scylla_username() -> (name: String)
    ensures
        name@ == "cassandra"@,
{
    "cassandra".to_owned()
}

pub fn default_scylla_password() -> (password: String)
    ensures
        password@ == "cassandra"@,
{
    "cassandra".to_owned()
}

/// Namespace of the store's tables.
pub fn default_keyspace() -> (keyspace: String)
    ensures
        keyspace@ == "default"@,
{
    "default".to_owned()
}

/// Most batches that may be on their way to the store at once.
pub fn default_max_inflight_batch_delivery() -> (limit: usize)
    ensures
        limit == 100,
{
    100
}

pub fn default_hostname() -> (hostname: String)
    ensures
        hostname@ == "127.0.0.1:9144"@,
{
    "127.0.0.1:9144".to_owned()
}

/// Where the store is and how to log in.
#[derive(Debug)]
pub struct ScyllaDbConnectionInfo {
    pub hostname: String,
    pub username: String,
    pub password: String,
}

impl Default for ScyllaDbConnectionInfo {
    /// Every field empty: the named defaults above apply to an option that
    /// a configuration file leaves out, not to a record that is absent as
    /// a whole.
    fn default() -> (info: Self)
        ensures
            info.hostname@ == Seq::<char>::empty(),
            info.username@ == Seq::<char>::empty(),
            info.password@ == Seq::<char>::empty(),
    {
        ScyllaDbConnectionInfo {
            hostname: String::new(),
            username: String::new(),
            password: String::new(),
        }
    }
}

/// What the sink is handed when it starts.
#[derive(Debug)]
pub struct ScyllaSinkConfig {
    pub batch_len_limit: usize,
    pub batch_size_kb_limit: usize,
    pub linger: Duration,
    pub keyspace: String,
    pub max_inflight_batch_delivery: usize,
    pub shard_count: usize,
}

/// Options of the bridge from the event source to the store.
#[derive(Debug)]
pub struct ConfigGrpc2ScyllaDB {
    pub endpoint: String,
    pub x_token: Option<String>,
    pub batch_len_limit: usize,
    pub batch_size_kb: usize,
    pub linger: Duration,
    pub keyspace: String,
    pub max_inflight_batch_delivery: usize,
}

impl ConfigGrpc2ScyllaDB {
    /// The options of an endpoint for which nothing else was chosen.
    pub fn with_defaults(endpoint: String, x_token: Option<String>) -> (config: Self)
        ensures
            config.endpoint == endpoint,
            config.x_token == x_token,
            config.batch_len_limit == 10,
            config.batch_size_kb == 131585,
            config.linger == duration_of_millis(10),
            config.keyspace@ == "default"@,
            config.max_inflight_batch_delivery == 100,
    {
        ConfigGrpc2ScyllaDB {
            endpoint,
            x_token,
            batch_len_limit: default_batch_len_limit(),
            batch_size_kb: default_batch_size_kb(),
            linger: default_linger(),
            keyspace: default_keyspace(),
            max_inflight_batch_delivery: default_max_inflight_batch_delivery(),
        }
    }

    /// The sink's options: those of the bridge, over the fixed number of
    /// shards.
    pub fn get_scylladb_sink_config(&self) -> (sink: ScyllaSinkConfig)
        ensures
            sink.batch_len_limit == self.batch_len_limit,
            sink.batch_size_kb_limit == self.batch_size_kb,
            sink.linger == self.linger,
            sink.keyspace@ == self.keyspace@,
            sink.max_inflight_batch_delivery == self.max_inflight_batch_delivery,
            sink.shard_count == 256,
    {
        ScyllaSinkConfig {
            batch_len_limit: self.batch_len_limit,
            batch_size_kb_limit: self.batch_size_kb,
            linger: self.linger,
            keyspace: self.keyspace.clone(),
            max_inflight_batch_delivery: self.max_inflight_batch_delivery,
            shard_count: SHARD_COUNT,
        }
    }
}

/// The whole configuration file.
#[derive(Debug)]
pub struct Config {
    /// Address on which metrics are served, as written in the file.
    pub prometheus: Option<String>,
    pub scylladb: ScyllaDbConnectionInfo,
    pub grpc2scylladb: Option<ConfigGrpc2ScyllaDB>,
}

impl Default for Config {
    fn default() -> (config: Self)
        ensures
            config.prometheus is None,
            config.grpc2scylladb is None,
            config.scylladb.hostname@ == Seq::<char>::empty(),
            config.scylladb.username@ == Seq::<char>::empty(),
            config.scylladb.password@ == Seq::<char>::empty(),
    {
        Config { prometheus: None, scylladb: ScyllaDbConnectionInfo::default(), grpc2scylladb: None }
    }
}

} // verus!
