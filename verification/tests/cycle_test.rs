use container_monitoring::config::{ContainerFilters, MetricsConfig};
use container_monitoring::cycle::{
    attach_stats, container_ids, count_by_status, lookup_stats, process_metrics,
    running_container_ids, MetricEvent,
};
use container_monitoring::delta::PreviousValues;
use container_monitoring::docker::{
    parse_container_stats, ContainerInfo, NetworkCounters, RawSnapshot,
};
use container_monitoring::filter::select_containers;

fn all_enabled(filters: ContainerFilters) -> MetricsConfig {
    MetricsConfig {
        enable_cpu: true,
        enable_memory: true,
        enable_network: true,
        enable_disk: true,
        container_filters: filters,
    }
}

fn web_container() -> ContainerInfo {
    ContainerInfo {
        id: String::from("c1"),
        name: String::from("web"),
        image: String::from("nginx"),
        status: String::from("running"),
        stats: None,
    }
}

fn snapshot(net_rx: u64) -> RawSnapshot {
    RawSnapshot {
        cpu_total_usage: 150,
        precpu_total_usage: 100,
        system_cpu_usage: Some(1000),
        presystem_cpu_usage: Some(500),
        online_cpus: Some(2),
        memory_usage: Some(50_000_000),
        memory_limit: Some(100_000_000),
        networks: Some(vec![NetworkCounters { rx_bytes: net_rx, tx_bytes: 0 }]),
        blkio_entries: None,
        pids_current: Some(3),
    }
}

#[test]
fn test_count_by_status() {
    let mut inv = vec![web_container()];
    inv.push(ContainerInfo {
        id: String::from("c2"),
        name: String::from("db"),
        image: String::from("postgres"),
        status: String::from("exited"),
        stats: None,
    });
    let (running, not_running) = count_by_status(&inv);
    assert_eq!(running, 1);
    assert_eq!(not_running, 1);
    assert_eq!(running_container_ids(&inv), vec![String::from("c1")]);
    assert_eq!(container_ids(&inv), vec![String::from("c1"), String::from("c2")]);
}

#[test]
fn test_attach_stats_merges_only_successful_fetches() {
    let mut inv = vec![web_container()];
    inv.push(ContainerInfo {
        id: String::from("c2"),
        name: String::from("db"),
        image: String::from("postgres"),
        status: String::from("running"),
        stats: None,
    });
    let stats = parse_container_stats(&snapshot(1000));
    let results = vec![
        (String::from("c1"), Some(stats)),
        (String::from("c2"), None), // this fetch failed; no stats, not zeroes
    ];
    assert_eq!(lookup_stats(&results, "c1"), Some(stats));
    assert_eq!(lookup_stats(&results, "c2"), None);
    attach_stats(&mut inv, &results);
    assert_eq!(inv[0].stats, Some(stats));
    assert_eq!(inv[1].stats, None);
}

#[test]
fn test_end_to_end_cycle() {
    // Cycle 1: one running container, selected by the name pattern "w*".
    let filters = ContainerFilters {
        container_ids: Vec::new(),
        name_patterns: vec![String::from("w*")],
        image_patterns: Vec::new(),
    };
    let config = all_enabled(filters);

    let inventory = vec![web_container()];
    let mut in_scope = select_containers(inventory, &config.container_filters);
    assert_eq!(in_scope.len(), 1);
    assert_eq!(in_scope[0].id, "c1");

    let stats = parse_container_stats(&snapshot(1000));

    // The CPU and memory percentages from their integer ingredients.
    let cpu_percent = (stats.cpu_total_delta as f64 / stats.system_cpu_delta as f64)
        * stats.online_cpus as f64 * 100.0;
    assert_eq!(cpu_percent, 20.0);
    let memory_percent =
        stats.memory_usage_bytes as f64 / stats.memory_limit_bytes as f64 * 100.0;
    assert_eq!(memory_percent, 50.0);

    let results = vec![(String::from("c1"), Some(stats))];
    attach_stats(&mut in_scope, &results);

    let mut prev = PreviousValues::new();
    let records = process_metrics(&config, &in_scope, &mut prev);

    // cpu, memory usage/limit/percent, and the first-ever network delta.
    let events: Vec<MetricEvent> = records.iter().map(|r| r.event).collect();
    assert!(events.contains(&MetricEvent::NetworkReceiveDelta { bytes: 1000 }));
    assert!(events.contains(&MetricEvent::CpuUsagePercent {
        cpu_total_delta: 50,
        system_cpu_delta: 500,
        online_cpus: 2,
    }));
    assert!(events.contains(&MetricEvent::MemoryUsagePercent {
        usage_bytes: 50_000_000,
        limit_bytes: 100_000_000,
    }));
    // No transmitted bytes: a zero delta is not emitted.
    assert!(!events
        .iter()
        .any(|e| matches!(e, MetricEvent::NetworkTransmitDelta { .. })));
    assert!(records.iter().all(|r| r.container_id == "c1"
        && r.container_name == "web"
        && r.image == "nginx"));
    assert_eq!(prev.network_rx.get("c1"), Some(1000));

    // Cycle 2: the counter moved to 1500; the delta is 500.
    let mut in_scope2 = vec![web_container()];
    let stats2 = parse_container_stats(&snapshot(1500));
    let results2 = vec![(String::from("c1"), Some(stats2))];
    attach_stats(&mut in_scope2, &results2);
    let records2 = process_metrics(&config, &in_scope2, &mut prev);
    let events2: Vec<MetricEvent> = records2.iter().map(|r| r.event).collect();
    assert!(events2.contains(&MetricEvent::NetworkReceiveDelta { bytes: 500 }));
    assert_eq!(prev.network_rx.get("c1"), Some(1500));

    // Cycle 3: c1 disappeared; pruning clears it from all four stores.
    let empty_inventory: Vec<ContainerInfo> = Vec::new();
    let live = container_ids(&empty_inventory);
    let removed = prev.cleanup_previous_values(&live);
    assert_eq!(removed, 4);
    assert_eq!(prev.network_rx.get("c1"), None);
    assert_eq!(prev.network_tx.get("c1"), None);
    assert_eq!(prev.fs_reads.get("c1"), None);
    assert_eq!(prev.fs_writes.get("c1"), None);
}

#[test]
fn test_flags_gate_emission_but_not_observation() {
    let config = MetricsConfig {
        enable_cpu: false,
        enable_memory: false,
        enable_network: false,
        enable_disk: false,
        container_filters: ContainerFilters::default(),
    };
    let mut inv = vec![web_container()];
    let stats = parse_container_stats(&snapshot(1000));
    attach_stats(&mut inv, &vec![(String::from("c1"), Some(stats))]);
    let mut prev = PreviousValues::new();
    let records = process_metrics(&config, &inv, &mut prev);
    // Nothing is emitted, but the stores still learned the readings.
    assert!(records.is_empty());
    assert_eq!(prev.network_rx.get("c1"), Some(1000));
    assert_eq!(prev.network_tx.get("c1"), Some(0));
    assert_eq!(prev.fs_reads.get("c1"), Some(0));
    assert_eq!(prev.fs_writes.get("c1"), Some(0));
}

#[test]
fn test_non_running_containers_are_skipped() {
    let config = all_enabled(ContainerFilters::default());
    let mut stopped = web_container();
    stopped.status = String::from("exited");
    let stats = parse_container_stats(&snapshot(1000));
    let mut inv = vec![stopped];
    attach_stats(&mut inv, &vec![(String::from("c1"), Some(stats))]);
    let mut prev = PreviousValues::new();
    let records = process_metrics(&config, &inv, &mut prev);
    assert!(records.is_empty());
    assert_eq!(prev.network_rx.get("c1"), None);
}
