use consumer_group::config::{
    default_batch_len_limit, default_batch_size_kb, default_hostname, default_keyspace,
    default_linger, default_max_inflight_batch_delivery, default_scylla_password,
    default_scylla_username, Config, ConfigGrpc2ScyllaDB, ScyllaDbConnectionInfo, SHARD_COUNT,
};
use std::time::Duration;

#[test]
fn numeric_defaults() {
    assert_eq!(default_batch_len_limit(), 10);
    assert_eq!(default_batch_size_kb(), 131585);
    assert_eq!(default_max_inflight_batch_delivery(), 100);
    assert_eq!(SHARD_COUNT, 256);
}

#[test]
fn linger_default_is_ten_milliseconds() {
    assert_eq!(default_linger(), Duration::from_millis(10));
    assert_ne!(default_linger(), Duration::from_millis(0));
}

#[test]
fn text_defaults() {
    assert_eq!(default_keyspace(), "default");
    assert_eq!(default_scylla_username(), "cassandra");
    assert_eq!(default_scylla_password(), "cassandra");
    assert_eq!(default_hostname(), "127.0.0.1:9144");
}

#[test]
fn absent_connection_record_is_empty() {
    let info = ScyllaDbConnectionInfo::default();
    assert_eq!(info.hostname, "");
    assert_eq!(info.username, "");
    assert_eq!(info.password, "");
}

#[test]
fn default_config_has_no_bridge_and_no_metrics() {
    let config = Config::default();
    assert!(config.prometheus.is_none());
    assert!(config.grpc2scylladb.is_none());
    assert_eq!(config.scylladb.hostname, "");
}

#[test]
fn bridge_with_defaults() {
    let config = ConfigGrpc2ScyllaDB::with_defaults("http://localhost:10000".to_string(), None);
    assert_eq!(config.endpoint, "http://localhost:10000");
    assert_eq!(config.x_token, None);
    assert_eq!(config.batch_len_limit, 10);
    assert_eq!(config.batch_size_kb, 131585);
    assert_eq!(config.linger, Duration::from_millis(10));
    assert_eq!(config.keyspace, "default");
    assert_eq!(config.max_inflight_batch_delivery, 100);
}

#[test]
fn sink_config_copies_the_bridge_options() {
    let config = ConfigGrpc2ScyllaDB {
        endpoint: "http://node:10000".to_string(),
        x_token: Some("token".to_string()),
        batch_len_limit: 3,
        batch_size_kb: 77,
        linger: Duration::from_millis(25),
        keyspace: "solana".to_string(),
        max_inflight_batch_delivery: 9,
    };
    let sink = config.get_scylladb_sink_config();
    assert_eq!(sink.batch_len_limit, 3);
    assert_eq!(sink.batch_size_kb_limit, 77);
    assert_eq!(sink.linger, Duration::from_millis(25));
    assert_eq!(sink.keyspace, "solana");
    assert_eq!(sink.max_inflight_batch_delivery, 9);
    assert_eq!(sink.shard_count, 256);
}
