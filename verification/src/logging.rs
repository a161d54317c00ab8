//! Structured-logging support: the logger's configuration and its builder.
//!
//! The collector's programs log through a structured logger. Its
//! configuration — level filter, output format, global metadata and the
//! switches for the optional record fields — is plain data and lives here;
//! the sink it writes to and its registration as the process-wide logger
//! belong to the composing program.

use vstd::prelude::*;
use crate::strutil::str_eq;

verus! {

/// Severity of one log message, most severe first.
#[derive(Debug, Clone, Copy, PartialEq, Eq, Structural)]
pub enum Level {
    Error,
    Warn,
    Info,
    Debug,
    Trace,
}

/// How verbose the logger is: `Off` silences everything, `Trace` lets
/// everything through.
#[derive(Debug, Clone, Copy, PartialEq, Eq, Structural)]
pub enum LevelFilter {
    Off,
    Error,
    Warn,
    Info,
    Debug,
    Trace,
}

/// A message's verbosity rank; smaller is more severe.
pub open spec fn level_rank(l: Level) -> int {
    match l {
        Level::Error => 1,
        Level::Warn => 2,
        Level::Info => 3,
        Level::Debug => 4,
        Level::Trace => 5,
    }
}

/// A filter's verbosity rank; a message passes a filter when its rank is
/// at most the filter's.
pub open spec fn filter_rank(f: LevelFilter) -> int {
    match f {
        LevelFilter::Off => 0,
        LevelFilter::Error => 1,
        LevelFilter::Warn => 2,
        LevelFilter::Info => 3,
        LevelFilter::Debug => 4,
        LevelFilter::Trace => 5,
    }
}

/// Whether a message of level `l` passes the filter `f`.
pub open spec fn level_enabled(l: Level, f: LevelFilter) -> bool {
    level_rank(l) <= filter_rank(f)
}

/// Executable form of [`level_enabled`].
pub fn is_level_enabled(l: Level, f: LevelFilter) -> (r: bool)
    ensures
        r == level_enabled(l, f),
{
    let lr: u8 = match l {
        Level::Error => 1,
        Level::Warn => 2,
        Level::Info => 3,
        Level::Debug => 4,
        Level::Trace => 5,
    };
    let fr: u8 = match f {
        LevelFilter::Off => 0,
        LevelFilter::Error => 1,
        LevelFilter::Warn => 2,
        LevelFilter::Info => 3,
        LevelFilter::Debug => 4,
        LevelFilter::Trace => 5,
    };
    lr <= fr
}

/// Logger output format.
#[derive(Debug, Clone, Copy, PartialEq, Eq, Structural)]
pub enum OutputFormat {
    /// JSON, for machine processing.
    Json,
    /// Human-readable, colored in a terminal.
    Pretty,
    /// A single minimal line.
    Compact,
}

impl Default for OutputFormat {
    fn default() -> (r: Self)
        ensures
            r == OutputFormat::Json,
    {
        OutputFormat::Json
    }
}

/// A failure in the logging machinery. Formatting itself never fails;
/// registering the logger or writing to its sink can, and the composing
/// program maps those failures onto these.
#[derive(Debug)]
pub enum LoggerError {
    /// The process-wide logger was already set.
    SetLoggerError,
    /// The sink could not be written.
    IoError,
    /// An entry could not be serialized.
    SerializationError,
    /// Anything else, with its description.
    Other(String),
}

/// Whether some metadata entry carries the key `k`.
pub open spec fn meta_has_key(entries: Seq<(String, String)>, k: Seq<char>) -> bool {
    exists|j: int| 0 <= j < entries.len() && entries[j].0@ == k
}

/// Configuration for the structured logger.
#[derive(Debug)]
pub struct LoggerConfig {
    /// Log level filter.
    pub level: LevelFilter,
    /// Output format.
    pub format: OutputFormat,
    /// Metadata included in every log entry, keys unique, in insertion
    /// order.
    pub global_metadata: Vec<(String, String)>,
    /// Whether to include file name and line number.
    pub include_file_info: bool,
    /// Whether to include the module path.
    pub include_module_path: bool,
    /// Whether to include a timestamp.
    pub include_timestamp: bool,
    /// Custom timestamp format (RFC 3339 when absent).
    pub timestamp_format: Option<String>,
    /// Output destination (standard output when absent).
    pub output_path: Option<String>,
}

impl Default for LoggerConfig {
    /// Sensible defaults: info level, JSON, no global metadata, every
    /// optional record field on, RFC 3339 timestamps, standard output.
    fn default() -> (r: Self)
        ensures
            r.level == LevelFilter::Info,
            r.format == OutputFormat::Json,
            r.global_metadata@.len() == 0,
            r.include_file_info,
            r.include_module_path,
            r.include_timestamp,
            r.timestamp_format is None,
            r.output_path is None,
    {
        LoggerConfig {
            level: LevelFilter::Info,
            format: OutputFormat::Json,
            global_metadata: Vec::new(),
            include_file_info: true,
            include_module_path: true,
            include_timestamp: true,
            timestamp_format: None,
            output_path: None,
        }
    }
}

impl LoggerConfig {
    /// Create a new configuration with sensible defaults.
    pub fn new() -> (r: Self)
        ensures
            r.level == LevelFilter::Info,
            r.format == OutputFormat::Json,
            r.global_metadata@.len() == 0,
            r.include_file_info,
            r.include_module_path,
            r.include_timestamp,
            r.timestamp_format is None,
            r.output_path is None,
    {
        LoggerConfig::default()
    }

    /// Set the log level.
    pub fn with_level(self, level: LevelFilter) -> (r: Self)
        ensures
            r.level == level,
            r.format == self.format,
            r.global_metadata == self.global_metadata,
            r.include_file_info == self.include_file_info,
            r.include_module_path == self.include_module_path,
            r.include_timestamp == self.include_timestamp,
            r.timestamp_format == self.timestamp_format,
            r.output_path == self.output_path,
    {
        LoggerConfig { level, ..self }
    }

    /// Set the output format.
    pub fn with_format(self, format: OutputFormat) -> (r: Self)
        ensures
            r.format == format,
            r.level == self.level,
            r.global_metadata == self.global_metadata,
            r.include_file_info == self.include_file_info,
            r.include_module_path == self.include_module_path,
            r.include_timestamp == self.include_timestamp,
            r.timestamp_format == self.timestamp_format,
            r.output_path == self.output_path,
    {
        LoggerConfig { format, ..self }
    }

    /// Add a global metadata field included in every log entry. An existing
    /// key keeps its place and gets the new value; a new key goes to the
    /// end.
    pub fn with_metadata(self, key: &str, value: &str) -> (r: Self)
        ensures
            r.level == self.level,
            r.format == self.format,
            r.include_file_info == self.include_file_info,
            r.include_module_path == self.include_module_path,
            r.include_timestamp == self.include_timestamp,
            r.timestamp_format == self.timestamp_format,
            r.output_path == self.output_path,
            meta_has_key(self.global_metadata@, key@) ==> {
                &&& r.global_metadata@.len() == self.global_metadata@.len()
                &&& (exists|j: int| {
                    &&& 0 <= j < self.global_metadata@.len()
                    &&& self.global_metadata@[j].0@ == key@
                    &&& (forall|l: int| 0 <= l < self.global_metadata@.len() && l != j
                        ==> r.global_metadata@[l] == self.global_metadata@[l])
                    &&& (#[trigger] r.global_metadata@[j]).0@ == key@
                    &&& r.global_metadata@[j].1@ == value@
                })
            },
            !meta_has_key(self.global_metadata@, key@) ==> {
                &&& r.global_metadata@.len() == self.global_metadata@.len() + 1
                &&& r.global_metadata@.take(self.global_metadata@.len() as int)
                    == self.global_metadata@
                &&& r.global_metadata@.last().0@ == key@
                &&& r.global_metadata@.last().1@ == value@
            },
    {
        let mut cfg = self;
        let len = cfg.global_metadata.len();
        let mut i: usize = 0;
        while i < len
            invariant
                i <= len,
                len == cfg.global_metadata@.len(),
                cfg.level == self.level,
                cfg.format == self.format,
                cfg.include_file_info == self.include_file_info,
                cfg.include_module_path == self.include_module_path,
                cfg.include_timestamp == self.include_timestamp,
                cfg.timestamp_format == self.timestamp_format,
                cfg.output_path == self.output_path,
                cfg.global_metadata@ == self.global_metadata@,
                forall|j: int| 0 <= j < i ==> cfg.global_metadata@[j].0@ != key@,
        decreases len - i,
        {
            if str_eq(cfg.global_metadata[i].0.as_str(), key) {
                cfg.global_metadata.set(i, (key.to_owned(), value.to_owned()));
                proof {
                    let j = i as int;
                    assert((#[trigger] cfg.global_metadata@[j]).0@ == key@);
                    assert(cfg.global_metadata@[j].1@ == value@);
                    assert(forall|l: int| 0 <= l < self.global_metadata@.len() && l != j
                        ==> cfg.global_metadata@[l] == self.global_metadata@[l]);
                }
                return cfg;
            }
            i = i + 1;
        }
        cfg.global_metadata.push((key.to_owned(), value.to_owned()));
        proof {
            assert(cfg.global_metadata@.take(cfg.global_metadata@.len() - 1)
                =~= self.global_metadata@);
        }
        cfg
    }

    /// Enable or disable file information (file name and line number).
    pub fn with_file_info(self, enabled: bool) -> (r: Self)
        ensures
            r.include_file_info == enabled,
            r.level == self.level,
            r.format == self.format,
            r.global_metadata == self.global_metadata,
            r.include_module_path == self.include_module_path,
            r.include_timestamp == self.include_timestamp,
            r.timestamp_format == self.timestamp_format,
            r.output_path == self.output_path,
    {
        LoggerConfig { include_file_info: enabled, ..self }
    }

    /// Enable or disable module path information.
    pub fn with_module_path(self, enabled: bool) -> (r: Self)
        ensures
            r.include_module_path == enabled,
            r.level == self.level,
            r.format == self.format,
            r.global_metadata == self.global_metadata,
            r.include_file_info == self.include_file_info,
            r.include_timestamp == self.include_timestamp,
            r.timestamp_format == self.timestamp_format,
            r.output_path == self.output_path,
    {
        LoggerConfig { include_module_path: enabled, ..self }
    }

    /// Enable or disable timestamps.
    pub fn with_timestamp(self, enabled: bool) -> (r: Self)
        ensures
            r.include_timestamp == enabled,
            r.level == self.level,
            r.format == self.format,
            r.global_metadata == self.global_metadata,
            r.include_file_info == self.include_file_info,
            r.include_module_path == self.include_module_path,
            r.timestamp_format == self.timestamp_format,
            r.output_path == self.output_path,
    {
        LoggerConfig { include_timestamp: enabled, ..self }
    }

    /// Set a custom timestamp format.
    pub fn with_timestamp_format(self, format: &str) -> (r: Self)
        ensures
            r.timestamp_format matches Some(f) && f@ == format@,
            r.level == self.level,
            r.format == self.format,
            r.global_metadata == self.global_metadata,
            r.include_file_info == self.include_file_info,
            r.include_module_path == self.include_module_path,
            r.include_timestamp == self.include_timestamp,
            r.output_path == self.output_path,
    {
        LoggerConfig { timestamp_format: Some(format.to_owned()), ..self }
    }

    /// Send output to a file at `path` instead of standard output.
    pub fn with_output_path(self, path: &str) -> (r: Self)
        ensures
            r.output_path matches Some(p) && p@ == path@,
            r.level == self.level,
            r.format == self.format,
            r.global_metadata == self.global_metadata,
            r.include_file_info == self.include_file_info,
            r.include_module_path == self.include_module_path,
            r.include_timestamp == self.include_timestamp,
            r.timestamp_format == self.timestamp_format,
    {
        LoggerConfig { output_path: Some(path.to_owned()), ..self }
    }
}

} // verus!
