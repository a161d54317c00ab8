use container_monitoring::docker::{
    normalize_container, parse_container_stats, BlockIoEntry, NetworkCounters, RawSnapshot,
};

fn empty_snapshot() -> RawSnapshot {
    RawSnapshot {
        cpu_total_usage: 0,
        precpu_total_usage: 0,
        system_cpu_usage: None,
        presystem_cpu_usage: None,
        online_cpus: None,
        memory_usage: None,
        memory_limit: None,
        networks: None,
        blkio_entries: None,
        pids_current: None,
    }
}

#[test]
fn test_missing_fields_default_to_zero() {
    let stats = parse_container_stats(&empty_snapshot());
    assert_eq!(stats.cpu_total_delta, 0);
    assert_eq!(stats.system_cpu_delta, 0);
    assert_eq!(stats.online_cpus, 1);
    assert_eq!(stats.memory_usage_bytes, 0);
    assert_eq!(stats.memory_limit_bytes, 0);
    assert_eq!(stats.network_rx_bytes, 0);
    assert_eq!(stats.network_tx_bytes, 0);
    assert_eq!(stats.block_read_bytes, 0);
    assert_eq!(stats.block_write_bytes, 0);
    assert_eq!(stats.pids, 0);
}

#[test]
fn test_network_bytes_sum_over_all_interfaces() {
    let mut raw = empty_snapshot();
    raw.networks = Some(vec![
        NetworkCounters { rx_bytes: 100, tx_bytes: 10 },
        NetworkCounters { rx_bytes: 250, tx_bytes: 40 },
        NetworkCounters { rx_bytes: 0, tx_bytes: 1 },
    ]);
    let stats = parse_container_stats(&raw);
    assert_eq!(stats.network_rx_bytes, 350);
    assert_eq!(stats.network_tx_bytes, 51);
}

#[test]
fn test_block_io_sums_only_exact_labels() {
    let mut raw = empty_snapshot();
    raw.blkio_entries = Some(vec![
        BlockIoEntry { op: Some(String::from("Read")), value: Some(100) },
        BlockIoEntry { op: Some(String::from("Write")), value: Some(40) },
        BlockIoEntry { op: Some(String::from("Read")), value: Some(5) },
        BlockIoEntry { op: Some(String::from("read")), value: Some(1000) },
        BlockIoEntry { op: Some(String::from("Total")), value: Some(1000) },
        BlockIoEntry { op: None, value: Some(1000) },
        BlockIoEntry { op: Some(String::from("Write")), value: None },
    ]);
    let stats = parse_container_stats(&raw);
    assert_eq!(stats.block_read_bytes, 105);
    assert_eq!(stats.block_write_bytes, 40);
}

#[test]
fn test_cpu_readings_are_clamped_differences() {
    let mut raw = empty_snapshot();
    raw.cpu_total_usage = 150;
    raw.precpu_total_usage = 100;
    raw.system_cpu_usage = Some(1000);
    raw.presystem_cpu_usage = Some(500);
    raw.online_cpus = Some(2);
    let stats = parse_container_stats(&raw);
    assert_eq!(stats.cpu_total_delta, 50);
    assert_eq!(stats.system_cpu_delta, 500);
    assert_eq!(stats.online_cpus, 2);

    // A backwards counter clamps to 0, which reads as "no CPU percent".
    raw.cpu_total_usage = 90;
    let stats = parse_container_stats(&raw);
    assert_eq!(stats.cpu_total_delta, 0);
}

#[test]
fn test_memory_fields_pass_through() {
    let mut raw = empty_snapshot();
    raw.memory_usage = Some(50_000_000);
    raw.memory_limit = Some(100_000_000);
    raw.pids_current = Some(17);
    let stats = parse_container_stats(&raw);
    assert_eq!(stats.memory_usage_bytes, 50_000_000);
    assert_eq!(stats.memory_limit_bytes, 100_000_000);
    assert_eq!(stats.pids, 17);
}

#[test]
fn test_normalize_container_strips_leading_slashes() {
    let c = normalize_container(
        Some(String::from("abc123")),
        Some(vec![String::from("/web"), String::from("/other")]),
        Some(String::from("nginx")),
        Some(String::from("running")),
    );
    assert_eq!(c.id, "abc123");
    assert_eq!(c.name, "web");
    assert_eq!(c.image, "nginx");
    assert_eq!(c.status, "running");
    assert!(c.stats.is_none());
}

#[test]
fn test_normalize_container_defaults_missing_fields() {
    let c = normalize_container(None, None, None, None);
    assert_eq!(c.id, "");
    assert_eq!(c.name, "");
    assert_eq!(c.image, "");
    assert_eq!(c.status, "");
    assert!(c.stats.is_none());

    let c = normalize_container(None, Some(Vec::new()), None, None);
    assert_eq!(c.name, "");

    let c = normalize_container(None, Some(vec![String::from("//x/y")]), None, None);
    assert_eq!(c.name, "x/y");
}
