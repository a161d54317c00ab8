use container_monitoring::config::ContainerFilters;
use container_monitoring::docker::ContainerInfo;
use container_monitoring::filter::{container_matches, select_containers};

fn inventory() -> Vec<ContainerInfo> {
    vec![
        ContainerInfo {
            id: String::from("c1"),
            name: String::from("web"),
            image: String::from("nginx"),
            status: String::from("running"),
            stats: None,
        },
        ContainerInfo {
            id: String::from("c2"),
            name: String::from("db"),
            image: String::from("postgres:16"),
            status: String::from("exited"),
            stats: None,
        },
        ContainerInfo {
            id: String::from("c3"),
            name: String::from("worker"),
            image: String::from("nginx"),
            status: String::from("running"),
            stats: None,
        },
    ]
}

#[test]
fn test_empty_filters_return_input_unchanged() {
    let filters = ContainerFilters::default();
    let input = inventory();
    let out = select_containers(input, &filters);
    assert_eq!(out.len(), 3);
    assert_eq!(out[0].id, "c1");
    assert_eq!(out[1].id, "c2");
    assert_eq!(out[2].id, "c3");
}

#[test]
fn test_id_filter_selects_exactly_the_listed_ids() {
    let filters = ContainerFilters {
        container_ids: vec![String::from("c2")],
        name_patterns: Vec::new(),
        image_patterns: Vec::new(),
    };
    let out = select_containers(inventory(), &filters);
    assert_eq!(out.len(), 1);
    assert_eq!(out[0].id, "c2");
}

#[test]
fn test_name_pattern_selects_by_glob() {
    let filters = ContainerFilters {
        container_ids: Vec::new(),
        name_patterns: vec![String::from("w*")],
        image_patterns: Vec::new(),
    };
    let out = select_containers(inventory(), &filters);
    assert_eq!(out.len(), 2);
    assert_eq!(out[0].name, "web");
    assert_eq!(out[1].name, "worker");
}

#[test]
fn test_image_pattern_selects_by_glob() {
    let filters = ContainerFilters {
        container_ids: Vec::new(),
        name_patterns: Vec::new(),
        image_patterns: vec![String::from("postgres*")],
    };
    let out = select_containers(inventory(), &filters);
    assert_eq!(out.len(), 1);
    assert_eq!(out[0].id, "c2");
}

#[test]
fn test_criteria_combine_with_or() {
    let filters = ContainerFilters {
        container_ids: vec![String::from("c2")],
        name_patterns: vec![String::from("web")],
        image_patterns: Vec::new(),
    };
    let inv = inventory();
    assert!(container_matches(&inv[0], &filters));
    assert!(container_matches(&inv[1], &filters));
    assert!(!container_matches(&inv[2], &filters));
    let out = select_containers(inv, &filters);
    assert_eq!(out.len(), 2);
    assert_eq!(out[0].id, "c1");
    assert_eq!(out[1].id, "c2");
}
