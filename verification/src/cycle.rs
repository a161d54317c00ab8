//! The cycle orchestrator's decisions.
//!
//! One collection cycle lists the inventory, selects the in-scope
//! containers, fetches usage for the running ones, and turns the results
//! into metric records for the sink; afterwards the previous-value state is
//! pruned to the containers that still exist. The listing, the concurrent
//! fetch and the sink are the composing program's; every decision in
//! between — who is counted, who is fetched, what is recorded, what the
//! stores hold afterwards — is made here.

use vstd::prelude::*;
use crate::config::MetricsConfig;
use crate::delta::{delta_value, stored_or_zero, PreviousValues};
use crate::docker::{container_is_running, is_running, ContainerInfo, ContainerStats};
use crate::strutil::str_eq;

verus! {

/// How many of the listed containers are running.
pub open spec fn num_running(s: Seq<ContainerInfo>) -> int
    decreases s.len(),
{
    if s.len() == 0 {
        0
    } else {
        num_running(s.drop_last()) + if is_running(s.last()) {
            1 as int
        } else {
            0 as int
        }
    }
}

proof fn lemma_num_running_bounds(s: Seq<ContainerInfo>)
    ensures
        0 <= num_running(s) <= s.len(),
    decreases s.len(),
{
    if s.len() > 0 {
        lemma_num_running_bounds(s.drop_last());
    }
}

/// Count containers by status: how many are running, and how many are not.
/// These are the per-status container-count measurements of a cycle.
pub fn count_by_status(containers: &Vec<ContainerInfo>) -> (counts: (usize, usize))
    ensures
        counts.0 == num_running(containers@),
        counts.1 == containers@.len() - num_running(containers@),
{
    let len = containers.len();
    let mut running: usize = 0;
    let mut i: usize = 0;
    proof {
        assert(containers@.take(0) =~= Seq::<ContainerInfo>::empty());
    }
    while i < len
        invariant
            i <= len,
            len == containers@.len(),
            running == num_running(containers@.take(i as int)),
            running <= i,
        decreases len - i,
    {
        proof {
            assert(containers@.take(i + 1 as int).drop_last() =~= containers@.take(i as int));
            assert(containers@.take(i + 1 as int).last() == containers@[i as int]);
        }
        if container_is_running(&containers[i]) {
            running = running + 1;
        }
        i = i + 1;
    }
    proof {
        assert(containers@.take(len as int) =~= containers@);
        lemma_num_running_bounds(containers@);
    }
    (running, len - running)
}

/// The ids of the running containers, in order: exactly the containers a
/// cycle fetches usage for.
pub open spec fn running_ids(s: Seq<ContainerInfo>) -> Seq<String>
    decreases s.len(),
{
    if s.len() == 0 {
        Seq::empty()
    } else if is_running(s.last()) {
        running_ids(s.drop_last()).push(s.last().id)
    } else {
        running_ids(s.drop_last())
    }
}

/// The containers a cycle queries: the running ones, in order.
pub fn running_container_ids(containers: &Vec<ContainerInfo>) -> (ids: Vec<String>)
    ensures
        ids@ == running_ids(containers@),
{
    let len = containers.len();
    let mut ids: Vec<String> = Vec::new();
    let mut i: usize = 0;
    proof {
        assert(containers@.take(0) =~= Seq::<ContainerInfo>::empty());
    }
    while i < len
        invariant
            i <= len,
            len == containers@.len(),
            ids@ == running_ids(containers@.take(i as int)),
        decreases len - i,
    {
        proof {
            assert(containers@.take(i + 1 as int).drop_last() =~= containers@.take(i as int));
            assert(containers@.take(i + 1 as int).last() == containers@[i as int]);
        }
        if container_is_running(&containers[i]) {
            ids.push(containers[i].id.clone());
        }
        i = i + 1;
    }
    proof {
        assert(containers@.take(len as int) =~= containers@);
    }
    ids
}

/// The ids of all listed containers, in order: the live set the stores are
/// pruned against at the end of a cycle.
pub fn container_ids(containers: &Vec<ContainerInfo>) -> (ids: Vec<String>)
    ensures
        ids@.len() == containers@.len(),
        forall|i: int| 0 <= i < containers@.len() ==> ids@[i] == containers@[i].id,
{
    let len = containers.len();
    let mut ids: Vec<String> = Vec::new();
    let mut i: usize = 0;
    while i < len
        invariant
            i <= len,
            len == containers@.len(),
            ids@.len() == i,
            forall|j: int| 0 <= j < i ==> ids@[j] == containers@[j].id,
        decreases len - i,
    {
        ids.push(containers[i].id.clone());
        i = i + 1;
    }
    ids
}

/// The fetch result a cycle works from, the last word per id winning, as
/// a keyed collection of per-container results would have it: the stats of
/// the last successful entry for `id`, if any.
pub open spec fn stats_for(
    results: Seq<(String, Option<ContainerStats>)>,
    id: Seq<char>,
) -> Option<ContainerStats>
    decreases results.len(),
{
    if results.len() == 0 {
        None
    } else if results.last().0@ == id && results.last().1 is Some {
        results.last().1
    } else {
        stats_for(results.drop_last(), id)
    }
}

/// Look one container's fetched stats up in the cycle's result list.
pub fn lookup_stats(results: &Vec<(String, Option<ContainerStats>)>, id: &str) -> (r: Option<
    ContainerStats,
>)
    ensures
        r == stats_for(results@, id@),
{
    let len = results.len();
    let mut found: Option<ContainerStats> = None;
    let mut i: usize = 0;
    proof {
        assert(results@.take(0) =~= Seq::<(String, Option<ContainerStats>)>::empty());
    }
    while i < len
        invariant
            i <= len,
            len == results@.len(),
            found == stats_for(results@.take(i as int), id@),
        decreases len - i,
    {
        proof {
            assert(results@.take(i + 1 as int).drop_last() =~= results@.take(i as int));
            assert(results@.take(i + 1 as int).last() == results@[i as int]);
        }
        if str_eq(results[i].0.as_str(), id) {
            match results[i].1 {
                Some(st) => {
                    found = Some(st);
                }
                None => {}
            }
        }
        i = i + 1;
    }
    proof {
        assert(results@.take(len as int) =~= results@);
    }
    found
}

/// The fan-in step: merge the fetched per-container results back into the
/// inventory. A container whose fetch succeeded carries its stats from here
/// on; a failed or missing fetch leaves it as it was — absent, not zeroed.
pub fn attach_stats(
    containers: &mut Vec<ContainerInfo>,
    results: &Vec<(String, Option<ContainerStats>)>,
)
    ensures
        final(containers)@.len() == old(containers)@.len(),
        forall|i: int| 0 <= i < old(containers)@.len() ==> {
            &&& (#[trigger] final(containers)@[i]).id == old(containers)@[i].id
            &&& final(containers)@[i].name == old(containers)@[i].name
            &&& final(containers)@[i].image == old(containers)@[i].image
            &&& final(containers)@[i].status == old(containers)@[i].status
            &&& final(containers)@[i].stats == (match stats_for(
                results@,
                old(containers)@[i].id@,
            ) {
                Some(st) => Some(st),
                None => old(containers)@[i].stats,
            })
        },
{
    let len = containers.len();
    let mut i: usize = 0;
    while i < len
        invariant
            i <= len,
            len == containers@.len(),
            containers@.len() == old(containers)@.len(),
            forall|j: int| i <= j < len ==> containers@[j] == old(containers)@[j],
            forall|j: int| 0 <= j < i ==> {
                &&& (#[trigger] containers@[j]).id == old(containers)@[j].id
                &&& containers@[j].name == old(containers)@[j].name
                &&& containers@[j].image == old(containers)@[j].image
                &&& containers@[j].status == old(containers)@[j].status
                &&& containers@[j].stats == (match stats_for(results@, old(containers)@[j].id@) {
                    Some(st) => Some(st),
                    None => old(containers)@[j].stats,
                })
            },
        decreases len - i,
    {
        let found = lookup_stats(results, containers[i].id.as_str());
        match found {
            Some(st) => {
                let mut updated = containers[i].clone();
                updated.stats = Some(st);
                containers.set(i, updated);
            }
            None => {}
        }
        i = i + 1;
    }
}

/// One measurement for the metrics sink. Byte deltas are per-cycle
/// increments of cumulative counters; the two percentages travel as their
/// exact integer ingredients and the sink-side adapter divides.
#[derive(Debug, Clone, Copy, PartialEq, Eq, Structural)]
pub enum MetricEvent {
    CpuUsagePercent { cpu_total_delta: u64, system_cpu_delta: u64, online_cpus: u64 },
    MemoryUsageBytes { bytes: u64 },
    MemoryLimitBytes { bytes: u64 },
    MemoryUsagePercent { usage_bytes: u64, limit_bytes: u64 },
    NetworkReceiveDelta { bytes: u64 },
    NetworkTransmitDelta { bytes: u64 },
    FsReadsDelta { bytes: u64 },
    FsWritesDelta { bytes: u64 },
}

/// One measurement tagged with the container it belongs to.
#[derive(Debug)]
pub struct MetricRecord {
    pub container_id: String,
    pub container_name: String,
    pub image: String,
    pub event: MetricEvent,
}

impl Clone for MetricRecord {
    fn clone(&self) -> (res: Self)
        ensures
            res == *self,
    {
        MetricRecord {
            container_id: self.container_id.clone(),
            container_name: self.container_name.clone(),
            image: self.image.clone(),
            event: self.event,
        }
    }
}

/// The four previous-value maps, as one ghost value.
pub ghost struct StoreMaps {
    pub network_rx: Map<Seq<char>, u64>,
    pub network_tx: Map<Seq<char>, u64>,
    pub fs_reads: Map<Seq<char>, u64>,
    pub fs_writes: Map<Seq<char>, u64>,
}

/// What the previous-value state holds.
pub open spec fn maps_of(p: PreviousValues) -> StoreMaps {
    StoreMaps {
        network_rx: p.network_rx@,
        network_tx: p.network_tx@,
        fs_reads: p.fs_reads@,
        fs_writes: p.fs_writes@,
    }
}

/// All four maps after one container's counters were observed.
pub open spec fn observe_all(m: StoreMaps, id: Seq<char>, st: ContainerStats) -> StoreMaps {
    StoreMaps {
        network_rx: m.network_rx.insert(id, st.network_rx_bytes),
        network_tx: m.network_tx.insert(id, st.network_tx_bytes),
        fs_reads: m.fs_reads.insert(id, st.block_read_bytes),
        fs_writes: m.fs_writes.insert(id, st.block_write_bytes),
    }
}

/// The measurements one running container contributes, given the
/// previous-value maps at that point: per enabled family its events, with
/// counter deltas (computed whether or not their family is enabled)
/// reported only when positive.
pub open spec fn container_events(
    cfg: MetricsConfig,
    c: ContainerInfo,
    st: ContainerStats,
    m: StoreMaps,
) -> Seq<MetricEvent> {
    let rx_d = delta_value(stored_or_zero(m.network_rx, c.id@), st.network_rx_bytes);
    let tx_d = delta_value(stored_or_zero(m.network_tx, c.id@), st.network_tx_bytes);
    let rd_d = delta_value(stored_or_zero(m.fs_reads, c.id@), st.block_read_bytes);
    let wr_d = delta_value(stored_or_zero(m.fs_writes, c.id@), st.block_write_bytes);
    (if cfg.enable_cpu {
        seq![
            MetricEvent::CpuUsagePercent {
                cpu_total_delta: st.cpu_total_delta,
                system_cpu_delta: st.system_cpu_delta,
                online_cpus: st.online_cpus,
            },
        ]
    } else {
        Seq::empty()
    }) + (if cfg.enable_memory {
        seq![
            MetricEvent::MemoryUsageBytes { bytes: st.memory_usage_bytes },
            MetricEvent::MemoryLimitBytes { bytes: st.memory_limit_bytes },
            MetricEvent::MemoryUsagePercent {
                usage_bytes: st.memory_usage_bytes,
                limit_bytes: st.memory_limit_bytes,
            },
        ]
    } else {
        Seq::empty()
    }) + (if cfg.enable_network {
        (if rx_d > 0 {
            seq![MetricEvent::NetworkReceiveDelta { bytes: rx_d }]
        } else {
            Seq::empty()
        }) + (if tx_d > 0 {
            seq![MetricEvent::NetworkTransmitDelta { bytes: tx_d }]
        } else {
            Seq::empty()
        })
    } else {
        Seq::empty()
    }) + (if cfg.enable_disk {
        (if rd_d > 0 {
            seq![MetricEvent::FsReadsDelta { bytes: rd_d }]
        } else {
            Seq::empty()
        }) + (if wr_d > 0 {
            seq![MetricEvent::FsWritesDelta { bytes: wr_d }]
        } else {
            Seq::empty()
        })
    } else {
        Seq::empty()
    })
}

/// Observe one running container's counters and emit its enabled
/// measurements. The four stores learn the current readings whether or not
/// their families are enabled; the flags gate only what is emitted.
#[verifier::rlimit(60)]
pub fn process_enabled_metrics(
    config: &MetricsConfig,
    container: &ContainerInfo,
    stats: &ContainerStats,
    prev: &mut PreviousValues,
) -> (events: Vec<MetricEvent>)
    requires
        old(prev).wf(),
    ensures
        final(prev).wf(),
        maps_of(*final(prev)) == observe_all(maps_of(*old(prev)), container.id@, *stats),
        events@ == container_events(*config, *container, *stats, maps_of(*old(prev))),
{
    let rx_d = prev.network_rx.calculate_delta(container.id.as_str(), stats.network_rx_bytes);
    let tx_d = prev.network_tx.calculate_delta(container.id.as_str(), stats.network_tx_bytes);
    let rd_d = prev.fs_reads.calculate_delta(container.id.as_str(), stats.block_read_bytes);
    let wr_d = prev.fs_writes.calculate_delta(container.id.as_str(), stats.block_write_bytes);
    let mut events: Vec<MetricEvent> = Vec::new();
    if config.enable_cpu {
        events.push(MetricEvent::CpuUsagePercent {
            cpu_total_delta: stats.cpu_total_delta,
            system_cpu_delta: stats.system_cpu_delta,
            online_cpus: stats.online_cpus,
        });
    }
    if config.enable_memory {
        events.push(MetricEvent::MemoryUsageBytes { bytes: stats.memory_usage_bytes });
        events.push(MetricEvent::MemoryLimitBytes { bytes: stats.memory_limit_bytes });
        events.push(MetricEvent::MemoryUsagePercent {
            usage_bytes: stats.memory_usage_bytes,
            limit_bytes: stats.memory_limit_bytes,
        });
    }
    if config.enable_network {
        if rx_d > 0 {
            events.push(MetricEvent::NetworkReceiveDelta { bytes: rx_d });
        }
        if tx_d > 0 {
            events.push(MetricEvent::NetworkTransmitDelta { bytes: tx_d });
        }
    }
    if config.enable_disk {
        if rd_d > 0 {
            events.push(MetricEvent::FsReadsDelta { bytes: rd_d });
        }
        if wr_d > 0 {
            events.push(MetricEvent::FsWritesDelta { bytes: wr_d });
        }
    }
    proof {
        assert(events@ =~= container_events(*config, *container, *stats, maps_of(*old(prev))));
    }
    events
}

/// The records each container contributes, tagged with its identity.
pub open spec fn records_for(c: ContainerInfo, evs: Seq<MetricEvent>) -> Seq<MetricRecord> {
    evs.map_values(
        |e: MetricEvent| MetricRecord {
            container_id: c.id,
            container_name: c.name,
            image: c.image,
            event: e,
        },
    )
}

/// Tag each of one container's measurements with the container's identity.
fn wrap_records(c: &ContainerInfo, evs: &Vec<MetricEvent>) -> (out: Vec<MetricRecord>)
    ensures
        out@ == records_for(*c, evs@),
{
    let n = evs.len();
    let mut out: Vec<MetricRecord> = Vec::new();
    let mut j: usize = 0;
    while j < n
        invariant
            j <= n,
            n == evs@.len(),
            out@.len() == j,
            forall|k: int| 0 <= k < j ==> out@[k] == records_for(*c, evs@)[k],
        decreases n - j,
    {
        out.push(MetricRecord {
            container_id: c.id.clone(),
            container_name: c.name.clone(),
            image: c.image.clone(),
            event: evs[j],
        });
        j = j + 1;
    }
    proof {
        assert(out@ =~= records_for(*c, evs@));
    }
    out
}

/// One whole recording pass over the inventory, front to back: the records
/// that reach the sink, and what the stores hold afterwards. Containers
/// that are not running, or whose fetch brought no stats, contribute and
/// change nothing.
pub open spec fn run_cycle(cfg: MetricsConfig, s: Seq<ContainerInfo>, m: StoreMaps) -> (Seq<
    MetricRecord,
>, StoreMaps)
    decreases s.len(),
{
    if s.len() == 0 {
        (Seq::empty(), m)
    } else {
        let prior = run_cycle(cfg, s.drop_last(), m);
        let c = s.last();
        match c.stats {
            Some(st) => if is_running(c) {
                (
                    prior.0 + records_for(c, container_events(cfg, c, st, prior.1)),
                    observe_all(prior.1, c.id@, st),
                )
            } else {
                prior
            },
            None => prior,
        }
    }
}

/// Record the whole cycle: walk the in-scope inventory in order and, for
/// each running container with fetched stats, observe its counters and
/// append its enabled measurements.
pub fn process_metrics(
    config: &MetricsConfig,
    containers: &Vec<ContainerInfo>,
    prev: &mut PreviousValues,
) -> (records: Vec<MetricRecord>)
    requires
        old(prev).wf(),
    ensures
        final(prev).wf(),
        records@ == run_cycle(*config, containers@, maps_of(*old(prev))).0,
        maps_of(*final(prev)) == run_cycle(*config, containers@, maps_of(*old(prev))).1,
{
    let len = containers.len();
    let mut records: Vec<MetricRecord> = Vec::new();
    let mut i: usize = 0;
    proof {
        assert(containers@.take(0) =~= Seq::<ContainerInfo>::empty());
    }
    while i < len
        invariant
            i <= len,
            len == containers@.len(),
            prev.wf(),
            records@ == run_cycle(*config, containers@.take(i as int), maps_of(*old(prev))).0,
            maps_of(*prev) == run_cycle(*config, containers@.take(i as int), maps_of(*old(prev))).1,
        decreases len - i,
    {
        proof {
            assert(containers@.take(i + 1 as int).drop_last() =~= containers@.take(i as int));
            assert(containers@.take(i + 1 as int).last() == containers@[i as int]);
        }
        let c = &containers[i];
        if container_is_running(c) {
            match &c.stats {
                Some(st_ref) => {
                    let st = *st_ref;
                    let evs = process_enabled_metrics(config, c, &st, prev);
                    let mut wrapped = wrap_records(c, &evs);
                    records.append(&mut wrapped);
                }
                None => {}
            }
        }
        i = i + 1;
    }
    proof {
        assert(containers@.take(len as int) =~= containers@);
    }
    records
}

} // verus!
