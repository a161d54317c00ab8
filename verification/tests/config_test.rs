use container_monitoring::config::{
    Config, ContainerFilters, DockerConfig, GeneralConfig, LoggingConfig, MetricsConfig,
    TelemetryConfig,
};

#[test]
fn test_config_holds_its_values() {
    let config = Config {
        general: GeneralConfig { interval: 15 },
        telemetry: TelemetryConfig {
            service_name: String::from("test-service"),
            otel_exporter: String::from("otlp"),
            otel_endpoint: String::from("http://localhost:4317"),
            prometheus_port: 8080,
        },
        docker: DockerConfig { socket_path: String::from("/var/run/docker.sock") },
        metrics: MetricsConfig {
            enable_cpu: true,
            enable_memory: true,
            enable_network: true,
            enable_disk: true,
            container_filters: ContainerFilters::default(),
        },
        logging: LoggingConfig { level: String::from("debug") },
    };
    assert_eq!(config.general.interval, 15);
    assert_eq!(config.telemetry.service_name, "test-service");
    assert_eq!(config.telemetry.otel_exporter, "otlp");
    assert_eq!(config.telemetry.otel_endpoint, "http://localhost:4317");
    assert_eq!(config.telemetry.prometheus_port, 8080);
    assert_eq!(config.docker.socket_path, "/var/run/docker.sock");
    assert!(config.metrics.enable_cpu);
    assert!(config.metrics.enable_memory);
    assert!(config.metrics.enable_network);
    assert!(config.metrics.enable_disk);
    assert_eq!(config.logging.level, "debug");
}

#[test]
fn test_default_filters_are_empty() {
    let filters = ContainerFilters::default();
    assert!(filters.container_ids.is_empty());
    assert!(filters.name_patterns.is_empty());
    assert!(filters.image_patterns.is_empty());
}
