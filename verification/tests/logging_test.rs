use container_monitoring::logger::StructuredLogger;
use container_monitoring::logging::{Level, LevelFilter, LoggerConfig, OutputFormat};
use container_monitoring::logging::is_level_enabled;

#[test]
fn test_logger_carries_its_configuration() {
    let config = StructuredLogger::builder()
        .with_level(LevelFilter::Warn)
        .with_format(OutputFormat::Compact)
        .with_metadata("service", "collector");
    let logger = StructuredLogger::new(config);
    assert!(logger.enabled(Level::Error));
    assert!(logger.enabled(Level::Warn));
    assert!(!logger.enabled(Level::Info));
    assert_eq!(logger.formatter.format, OutputFormat::Compact);
    assert_eq!(logger.formatter.global_metadata.len(), 1);
    assert_eq!(logger.config.level, LevelFilter::Warn);
}

#[test]
fn test_default_config() {
    let config = LoggerConfig::new();
    assert_eq!(config.level, LevelFilter::Info);
    assert_eq!(config.format, OutputFormat::Json);
    assert!(config.global_metadata.is_empty());
    assert!(config.include_file_info);
    assert!(config.include_module_path);
    assert!(config.include_timestamp);
    assert!(config.timestamp_format.is_none());
    assert!(config.output_path.is_none());
}

#[test]
fn test_builder_chain() {
    let config = LoggerConfig::new()
        .with_level(LevelFilter::Debug)
        .with_format(OutputFormat::Compact)
        .with_file_info(false)
        .with_module_path(false)
        .with_timestamp(false)
        .with_timestamp_format("%Y-%m-%d")
        .with_output_path("/tmp/app.log");
    assert_eq!(config.level, LevelFilter::Debug);
    assert_eq!(config.format, OutputFormat::Compact);
    assert!(!config.include_file_info);
    assert!(!config.include_module_path);
    assert!(!config.include_timestamp);
    assert_eq!(config.timestamp_format.as_deref(), Some("%Y-%m-%d"));
    assert_eq!(config.output_path.as_deref(), Some("/tmp/app.log"));
}

#[test]
fn test_with_metadata_inserts_and_overwrites() {
    let config = LoggerConfig::new()
        .with_metadata("service", "collector")
        .with_metadata("region", "eu")
        .with_metadata("service", "monitor");
    assert_eq!(config.global_metadata.len(), 2);
    assert_eq!(config.global_metadata[0].0, "service");
    assert_eq!(config.global_metadata[0].1, "monitor");
    assert_eq!(config.global_metadata[1].0, "region");
    assert_eq!(config.global_metadata[1].1, "eu");
}

#[test]
fn test_level_filtering() {
    assert!(is_level_enabled(Level::Error, LevelFilter::Info));
    assert!(is_level_enabled(Level::Info, LevelFilter::Info));
    assert!(!is_level_enabled(Level::Debug, LevelFilter::Info));
    assert!(!is_level_enabled(Level::Error, LevelFilter::Off));
    assert!(is_level_enabled(Level::Trace, LevelFilter::Trace));
}
