//! Collector configuration.
//!
//! Configuration is owned by the composing program (which reads and parses
//! it); these are the plain values the collector works from.

use vstd::prelude::*;

verus! {

/// Everything the collector's program is configured with.
#[derive(Debug)]
pub struct Config {
    pub general: GeneralConfig,
    pub telemetry: TelemetryConfig,
    pub docker: DockerConfig,
    pub metrics: MetricsConfig,
    pub logging: LoggingConfig,
}

/// The collection interval, in seconds.
#[derive(Debug)]
pub struct GeneralConfig {
    pub interval: u64,
}

/// Where and as what the program exports its telemetry.
#[derive(Debug)]
pub struct TelemetryConfig {
    pub service_name: String,
    pub otel_exporter: String,
    pub otel_endpoint: String,
    pub prometheus_port: u16,
}

/// How to reach the container runtime.
#[derive(Debug)]
pub struct DockerConfig {
    pub socket_path: String,
}

/// Which metric families to record, and which containers are in scope.
#[derive(Debug)]
pub struct MetricsConfig {
    pub enable_cpu: bool,
    pub enable_memory: bool,
    pub enable_network: bool,
    pub enable_disk: bool,
    pub container_filters: ContainerFilters,
}

impl Clone for MetricsConfig {
    fn clone(&self) -> (res: Self)
        ensures
            res.enable_cpu == self.enable_cpu,
            res.enable_memory == self.enable_memory,
            res.enable_network == self.enable_network,
            res.enable_disk == self.enable_disk,
            res.container_filters.container_ids@ == self.container_filters.container_ids@,
            res.container_filters.name_patterns@ == self.container_filters.name_patterns@,
            res.container_filters.image_patterns@ == self.container_filters.image_patterns@,
    {
        MetricsConfig {
            enable_cpu: self.enable_cpu,
            enable_memory: self.enable_memory,
            enable_network: self.enable_network,
            enable_disk: self.enable_disk,
            container_filters: self.container_filters.clone(),
        }
    }
}

/// Which containers are in scope: a container is selected when its id is
/// listed, or its name matches any name pattern, or its image matches any
/// image pattern. With nothing configured, every container is in scope.
#[derive(Debug)]
pub struct ContainerFilters {
    pub container_ids: Vec<String>,
    pub name_patterns: Vec<String>,
    pub image_patterns: Vec<String>,
}

impl Clone for ContainerFilters {
    fn clone(&self) -> (res: Self)
        ensures
            res.container_ids@ == self.container_ids@,
            res.name_patterns@ == self.name_patterns@,
            res.image_patterns@ == self.image_patterns@,
    {
        ContainerFilters {
            container_ids: clone_strings(&self.container_ids),
            name_patterns: clone_strings(&self.name_patterns),
            image_patterns: clone_strings(&self.image_patterns),
        }
    }
}

impl Default for ContainerFilters {
    /// No filtering at all: every container is in scope.
    fn default() -> (res: Self)
        ensures
            res.container_ids@.len() == 0,
            res.name_patterns@.len() == 0,
            res.image_patterns@.len() == 0,
    {
        ContainerFilters {
            container_ids: Vec::new(),
            name_patterns: Vec::new(),
            image_patterns: Vec::new(),
        }
    }
}

fn clone_strings(v: &Vec<String>) -> (res: Vec<String>)
    ensures
        res@ == v@,
{
    let len = v.len();
    let mut res: Vec<String> = Vec::new();
    let mut i: usize = 0;
    while i < len
        invariant
            i <= len,
            len == v@.len(),
            res@ == v@.take(i as int),
        decreases len - i,
    {
        res.push(v[i].clone());
        proof {
            assert(res@ =~= v@.take(i + 1 as int));
        }
        i = i + 1;
    }
    proof {
        assert(v@.take(len as int) =~= v@);
    }
    res
}

/// The log level the program runs at.
#[derive(Debug)]
pub struct LoggingConfig {
    pub level: String,
}

} // verus!
