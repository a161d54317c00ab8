use container_monitoring::delta::{CounterStore, PreviousValues};

#[test]
fn test_metrics_collector_calculate_delta() {
    let mut prev_values = CounterStore::new();
    prev_values.calculate_delta("container1", 500);
    assert_eq!(prev_values.get("container1"), Some(500));

    // First delta after the seed (1000 - 500 = 500).
    let delta = prev_values.calculate_delta("container1", 1000);
    assert_eq!(delta, 500);
    assert_eq!(prev_values.get("container1"), Some(1000));

    // Second delta (1500 - 1000 = 500).
    let delta = prev_values.calculate_delta("container1", 1500);
    assert_eq!(delta, 500);
    assert_eq!(prev_values.get("container1"), Some(1500));

    // Counter reset (300 < 1500): the current value is the delta.
    let delta = prev_values.calculate_delta("container1", 300);
    assert_eq!(delta, 300);
    assert_eq!(prev_values.get("container1"), Some(300));

    // A container never seen before: the current value is the delta.
    let delta = prev_values.calculate_delta("non_existent", 100);
    assert_eq!(delta, 100);
    assert_eq!(prev_values.get("non_existent"), Some(100));
}

#[test]
fn test_first_observation_equals_zero_previous() {
    let mut store = CounterStore::new();
    assert_eq!(store.get("c1"), None);
    let delta = store.calculate_delta("c1", 4242);
    assert_eq!(delta, 4242);
    assert_eq!(store.get("c1"), Some(4242));

    let mut seeded = CounterStore::new();
    seeded.calculate_delta("c2", 0);
    assert_eq!(seeded.get("c2"), Some(0));
    let delta = seeded.calculate_delta("c2", 4242);
    assert_eq!(delta, 4242);
}

#[test]
fn test_monotonic_delta_is_difference() {
    let mut store = CounterStore::new();
    store.calculate_delta("c1", 700);
    let delta = store.calculate_delta("c1", 700);
    assert_eq!(delta, 0);
    let delta = store.calculate_delta("c1", 1200);
    assert_eq!(delta, 500);
    assert_eq!(store.get("c1"), Some(1200));
}

#[test]
fn test_reset_reports_current_value() {
    let mut store = CounterStore::new();
    store.calculate_delta("c1", 9000);
    let delta = store.calculate_delta("c1", 17);
    assert_eq!(delta, 17);
    assert_eq!(store.get("c1"), Some(17));
}

#[test]
fn test_prune_keeps_only_live_ids() {
    let mut store = CounterStore::new();
    store.calculate_delta("a", 1);
    store.calculate_delta("b", 2);
    store.calculate_delta("c", 3);
    assert_eq!(store.len(), 3);

    let live = vec![String::from("a")];
    let removed = store.prune(&live);
    assert_eq!(removed, 2);
    assert_eq!(store.len(), 1);
    assert_eq!(store.get("a"), Some(1));
    assert_eq!(store.get("b"), None);
    assert_eq!(store.get("c"), None);
}

#[test]
fn test_prune_with_no_live_ids_empties_the_store() {
    let mut store = CounterStore::new();
    store.calculate_delta("a", 1);
    store.calculate_delta("b", 2);
    let removed = store.prune(&Vec::new());
    assert_eq!(removed, 2);
    assert_eq!(store.len(), 0);
}

#[test]
fn test_cleanup_previous_values_sums_over_all_stores() {
    let mut prev = PreviousValues::new();
    prev.network_rx.calculate_delta("a", 1);
    prev.network_rx.calculate_delta("b", 2);
    prev.network_tx.calculate_delta("a", 3);
    prev.fs_reads.calculate_delta("b", 4);
    prev.fs_writes.calculate_delta("c", 5);

    let live = vec![String::from("a")];
    let removed = prev.cleanup_previous_values(&live);
    // Removed: "b" from rx, "b" from reads, "c" from writes.
    assert_eq!(removed, 3);
    assert_eq!(prev.network_rx.get("a"), Some(1));
    assert_eq!(prev.network_rx.get("b"), None);
    assert_eq!(prev.network_tx.get("a"), Some(3));
    assert_eq!(prev.fs_reads.get("b"), None);
    assert_eq!(prev.fs_writes.get("c"), None);
}

#[test]
fn test_equal_keys_update_in_place() {
    let mut store = CounterStore::new();
    store.calculate_delta("same", 10);
    store.calculate_delta("same", 20);
    store.calculate_delta("same", 30);
    assert_eq!(store.len(), 1);
    assert_eq!(store.get("same"), Some(30));
}
