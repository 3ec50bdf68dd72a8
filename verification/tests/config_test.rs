use eventbus::config::{
    as_default_app_heartbeat_timeout_min, as_default_runtime_config, HdfsStoreConfig, LogConfig,
    MemoryStoreConfig, MetricsConfig, RotationConfig, RuntimeConfig, StorageType, TracingConfig,
};

#[test]
fn storage_type_test() {
    let stype = StorageType::MEMORY_LOCALFILE;
    assert_eq!(true, StorageType::contains_localfile(&stype));

    let stype = StorageType::MEMORY_LOCALFILE;
    assert_eq!(true, StorageType::contains_memory(&stype));
    assert_eq!(false, StorageType::contains_hdfs(&stype));

    let stype = StorageType::MEMORY_LOCALFILE_HDFS;
    assert_eq!(true, StorageType::contains_hdfs(&stype));
}

#[test]
fn storage_type_codes() {
    assert_eq!(1, StorageType::MEMORY.code());
    assert_eq!(2, StorageType::LOCALFILE.code());
    assert_eq!(3, StorageType::MEMORY_LOCALFILE.code());
    assert_eq!(4, StorageType::HDFS.code());
    assert_eq!(5, StorageType::MEMORY_HDFS.code());
    assert_eq!(7, StorageType::MEMORY_LOCALFILE_HDFS.code());
}

#[test]
fn storage_type_tiers_of_every_type() {
    let table = [
        (StorageType::MEMORY, true, false, false),
        (StorageType::LOCALFILE, false, true, false),
        (StorageType::MEMORY_LOCALFILE, true, true, false),
        (StorageType::HDFS, false, false, true),
        (StorageType::MEMORY_HDFS, true, false, true),
        (StorageType::MEMORY_LOCALFILE_HDFS, true, true, true),
    ];
    for (stype, memory, localfile, hdfs) in table {
        assert_eq!(memory, StorageType::contains_memory(&stype));
        assert_eq!(localfile, StorageType::contains_localfile(&stype));
        assert_eq!(hdfs, StorageType::contains_hdfs(&stype));
    }
}

#[test]
fn memory_store_config_new_uses_defaults() {
    let config = MemoryStoreConfig::new("1024M".to_string());
    assert_eq!("1024M", config.capacity);
    assert_eq!(Some(300), config.buffer_ticket_timeout_sec);
    assert_eq!(Some(128), config.dashmap_shard_amount);
}

#[test]
fn memory_store_config_from_keeps_timeout() {
    let config = MemoryStoreConfig::from("1M".to_string(), 42);
    assert_eq!("1M", config.capacity);
    assert_eq!(Some(42), config.buffer_ticket_timeout_sec);
    assert_eq!(Some(128), config.dashmap_shard_amount);
    assert_ne!(config, MemoryStoreConfig::new("1M".to_string()));
}

#[test]
fn runtime_config_defaults_to_one_thread_each() {
    let config = RuntimeConfig::default();
    assert_eq!(1, config.read_thread_num);
    assert_eq!(1, config.write_thread_num);
    assert_eq!(1, config.grpc_thread_num);
    assert_eq!(1, config.http_thread_num);
    assert_eq!(1, config.default_thread_num);
    assert_eq!(1, config.dispatch_thread_num);
    assert_eq!(config, as_default_runtime_config());
}

#[test]
fn app_heartbeat_timeout_defaults_to_five_minutes() {
    assert_eq!(5, as_default_app_heartbeat_timeout_min());
}

#[test]
fn hdfs_store_config_defaults_to_no_limit() {
    assert_eq!(None, HdfsStoreConfig::default().max_concurrency);
}

#[test]
fn log_config_defaults_to_hourly_in_tmp() {
    let config = LogConfig::default();
    assert_eq!("/tmp/", config.path);
    assert_eq!(RotationConfig::Hourly, config.rotation);
}

#[test]
fn plain_configs_compare_by_field() {
    let tracing = TracingConfig {
        jaeger_reporter_endpoint: "http://localhost:14268".to_string(),
        jaeger_service_name: "worker".to_string(),
    };
    assert_eq!(tracing.clone(), tracing);
    let metrics = MetricsConfig { push_gateway_endpoint: None, push_interval_sec: Some(10) };
    assert_eq!(metrics.clone(), metrics);
    assert_ne!(RotationConfig::Daily, RotationConfig::Never);
}
