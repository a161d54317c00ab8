//! The structured logger.
//!
//! A logger is its formatter and its configuration. The sink it writes to
//! (standard output or a file) and its registration as the process-wide
//! logger belong to the composing program, which writes each line the
//! formatter hands back.

use vstd::prelude::*;
use crate::formatter::LogFormatter;
use crate::logging::{is_level_enabled, level_enabled, Level, LevelFilter, LoggerConfig,
    OutputFormat};

verus! {

fn clone_pairs(v: &Vec<(String, String)>) -> (res: Vec<(String, String)>)
    ensures
        res@ == v@,
{
    let len = v.len();
    let mut res: Vec<(String, String)> = Vec::new();
    let mut i: usize = 0;
    while i < len
        invariant
            i <= len,
            len == v@.len(),
            res@ == v@.take(i as int),
        decreases len - i,
    {
        res.push((v[i].0.clone(), v[i].1.clone()));
        proof {
            assert(res@ =~= v@.take(i + 1 as int));
        }
        i = i + 1;
    }
    proof {
        assert(v@.take(len as int) =~= v@);
    }
    res
}

/// A structured logger implementation.
#[derive(Debug)]
pub struct StructuredLogger {
    pub formatter: LogFormatter,
    pub config: LoggerConfig,
}

impl StructuredLogger {
    /// Build a logger from its configuration; the formatter takes over the
    /// configuration's formatting choices.
    pub fn new(config: LoggerConfig) -> (r: Self)
        ensures
            r.formatter.include_file_info == config.include_file_info,
            r.formatter.include_module_path == config.include_module_path,
            r.formatter.include_timestamp == config.include_timestamp,
            r.formatter.timestamp_format == config.timestamp_format,
            r.formatter.global_metadata@ == config.global_metadata@,
            r.formatter.format == config.format,
            r.config == config,
    {
        let timestamp_format = match &config.timestamp_format {
            Some(f) => Some(f.clone()),
            None => None,
        };
        let global_metadata = clone_pairs(&config.global_metadata);
        let formatter = LogFormatter::new(
            config.include_file_info,
            config.include_module_path,
            config.include_timestamp,
            timestamp_format,
            global_metadata,
            config.format,
        );
        StructuredLogger { formatter, config }
    }

    /// Create a builder for custom logger configuration.
    pub fn builder() -> (r: LoggerConfig)
        ensures
            r.level == LevelFilter::Info,
            r.format == OutputFormat::Json,
            r.global_metadata@.len() == 0,
            r.include_file_info,
            r.include_module_path,
            r.include_timestamp,
            r.timestamp_format is None,
            r.output_path is None,
    {
        LoggerConfig::new()
    }

    /// Whether a message at `level` would be logged at all.
    pub fn enabled(&self, level: Level) -> (r: bool)
        ensures
            r == level_enabled(level, self.config.level),
    {
        is_level_enabled(level, self.config.level)
    }
}

} // verus!
