//! Container identity and usage snapshots.
//!
//! The composing program talks to the container runtime; this module owns
//! the data it hands back and everything computed from it. A listed
//! container is normalized into a [`ContainerInfo`]; a raw usage snapshot
//! ([`RawSnapshot`], the plain fields of the runtime's one-shot stats reply)
//! is condensed into a [`ContainerStats`].

use vstd::prelude::*;
use crate::strutil::str_eq;

verus! {

/// Identity and status of one container, fresh every cycle.
#[derive(Debug)]
pub struct ContainerInfo {
    pub id: String,
    pub name: String,
    pub image: String,
    pub status: String,
    pub stats: Option<ContainerStats>,
}

impl Clone for ContainerInfo {
    fn clone(&self) -> (res: Self)
        ensures
            res == *self,
    {
        ContainerInfo {
            id: self.id.clone(),
            name: self.name.clone(),
            image: self.image.clone(),
            status: self.status.clone(),
            stats: match &self.stats {
                Some(s) => Some(*s),
                None => None,
            },
        }
    }
}

/// Whether a container counts as running; only running containers are
/// queried for usage.
pub open spec fn is_running(c: ContainerInfo) -> bool {
    c.status@ == "running"@
}

/// Executable form of [`is_running`].
pub fn container_is_running(c: &ContainerInfo) -> (r: bool)
    ensures
        r == is_running(*c),
{
    str_eq(c.status.as_str(), "running")
}

/// One container's usage for one cycle, condensed from a raw snapshot.
///
/// CPU load is reported by the runtime as two pairs of cumulative readings
/// (container and whole system, each with the runtime's own previous
/// sample). The CPU percentage is the ratio of the two increases, scaled by
/// the online CPU count and 100, and defined as 0 unless both increases are
/// positive; it is a fraction, so this struct carries its exact integer
/// ingredients and the consumer divides.
#[derive(Debug, Clone, Copy, PartialEq, Eq, Structural)]
pub struct ContainerStats {
    /// Increase of the container's cumulative CPU usage, clamped at 0.
    pub cpu_total_delta: u64,
    /// Increase of the system's cumulative CPU usage, clamped at 0.
    pub system_cpu_delta: u64,
    /// Number of online CPUs (1 when the runtime does not report it).
    pub online_cpus: u64,
    pub memory_usage_bytes: u64,
    pub memory_limit_bytes: u64,
    pub network_rx_bytes: u64,
    pub network_tx_bytes: u64,
    pub block_read_bytes: u64,
    pub block_write_bytes: u64,
    pub pids: u64,
}

/// Cumulative byte counters of one network interface.
#[derive(Debug, Clone, Copy, PartialEq, Eq, Structural)]
pub struct NetworkCounters {
    pub rx_bytes: u64,
    pub tx_bytes: u64,
}

/// One raw block-I/O accounting entry: an operation label and a byte count.
#[derive(Debug)]
pub struct BlockIoEntry {
    pub op: Option<String>,
    pub value: Option<u64>,
}

/// The plain fields of the runtime's one-shot stats reply for one container.
/// Fields the runtime may omit are options; a missing numeric field counts
/// as 0 (as 1 for the CPU count).
#[derive(Debug)]
pub struct RawSnapshot {
    pub cpu_total_usage: u64,
    pub precpu_total_usage: u64,
    pub system_cpu_usage: Option<u64>,
    pub presystem_cpu_usage: Option<u64>,
    pub online_cpus: Option<u64>,
    pub memory_usage: Option<u64>,
    pub memory_limit: Option<u64>,
    /// Per-interface counters; the interface names play no role in the sums.
    pub networks: Option<Vec<NetworkCounters>>,
    pub blkio_entries: Option<Vec<BlockIoEntry>>,
    pub pids_current: Option<u64>,
}

pub open spec fn or_zero(v: Option<u64>) -> u64 {
    match v {
        Some(x) => x,
        None => 0,
    }
}

pub open spec fn or_one(v: Option<u64>) -> u64 {
    match v {
        Some(x) => x,
        None => 1,
    }
}

/// `a - b`, clamped at 0.
pub open spec fn clamped_sub(a: u64, b: u64) -> u64 {
    if a >= b {
        (a - b) as u64
    } else {
        0
    }
}

/// A mathematical byte total, clamped into `u64` range.
pub open spec fn clamped_total(x: int) -> u64 {
    if x > u64::MAX {
        u64::MAX
    } else if x < 0 {
        0
    } else {
        x as u64
    }
}

/// Total received bytes over all reported interfaces.
pub open spec fn sum_rx(s: Seq<NetworkCounters>) -> int
    decreases s.len(),
{
    if s.len() == 0 {
        0
    } else {
        sum_rx(s.drop_last()) + s.last().rx_bytes
    }
}

/// Total transmitted bytes over all reported interfaces.
pub open spec fn sum_tx(s: Seq<NetworkCounters>) -> int
    decreases s.len(),
{
    if s.len() == 0 {
        0
    } else {
        sum_tx(s.drop_last()) + s.last().tx_bytes
    }
}

/// What one block-I/O entry contributes to the total for label `label`:
/// its byte count when its operation label is exactly `label`, else nothing.
pub open spec fn blkio_contribution(e: BlockIoEntry, label: Seq<char>) -> int {
    match e.op {
        Some(o) => if o@ == label {
            or_zero(e.value) as int
        } else {
            0
        },
        None => 0,
    }
}

/// Total bytes over all block-I/O entries whose operation label is exactly
/// `label`.
pub open spec fn sum_blkio(s: Seq<BlockIoEntry>, label: Seq<char>) -> int
    decreases s.len(),
{
    if s.len() == 0 {
        0
    } else {
        sum_blkio(s.drop_last(), label) + blkio_contribution(s.last(), label)
    }
}

/// The interface list of a snapshot, empty when the runtime reported none.
pub open spec fn networks_of(raw: RawSnapshot) -> Seq<NetworkCounters> {
    match raw.networks {
        Some(v) => v@,
        None => Seq::empty(),
    }
}

/// The block-I/O entries of a snapshot, empty when the runtime reported
/// none.
pub open spec fn blkio_of(raw: RawSnapshot) -> Seq<BlockIoEntry> {
    match raw.blkio_entries {
        Some(v) => v@,
        None => Seq::empty(),
    }
}

proof fn lemma_sum_rx_nonneg(s: Seq<NetworkCounters>)
    ensures
        sum_rx(s) >= 0,
        sum_tx(s) >= 0,
    decreases s.len(),
{
    if s.len() > 0 {
        lemma_sum_rx_nonneg(s.drop_last());
    }
}

proof fn lemma_sum_blkio_nonneg(s: Seq<BlockIoEntry>, label: Seq<char>)
    ensures
        sum_blkio(s, label) >= 0,
    decreases s.len(),
{
    if s.len() > 0 {
        lemma_sum_blkio_nonneg(s.drop_last(), label);
    }
}

/// Sum both network counters, clamped into `u64` range.
fn sum_network_bytes(networks: &Vec<NetworkCounters>) -> (r: (u64, u64))
    ensures
        r.0 == clamped_total(sum_rx(networks@)),
        r.1 == clamped_total(sum_tx(networks@)),
{
    let len = networks.len();
    let mut rx: u64 = 0;
    let mut tx: u64 = 0;
    let mut i: usize = 0;
    proof {
        assert(networks@.take(0) =~= Seq::<NetworkCounters>::empty());
    }
    while i < len
        invariant
            i <= len,
            len == networks@.len(),
            rx == clamped_total(sum_rx(networks@.take(i as int))),
            tx == clamped_total(sum_tx(networks@.take(i as int))),
        decreases len - i,
    {
        proof {
            assert(networks@.take(i + 1 as int).drop_last() =~= networks@.take(i as int));
            assert(networks@.take(i + 1 as int).last() == networks@[i as int]);
            lemma_sum_rx_nonneg(networks@.take(i as int));
        }
        rx = rx.saturating_add(networks[i].rx_bytes);
        tx = tx.saturating_add(networks[i].tx_bytes);
        i = i + 1;
    }
    proof {
        assert(networks@.take(len as int) =~= networks@);
    }
    (rx, tx)
}

/// Sum block-I/O bytes by operation label, clamped into `u64` range.
fn sum_blkio_bytes(entries: &Vec<BlockIoEntry>) -> (r: (u64, u64))
    ensures
        r.0 == clamped_total(sum_blkio(entries@, "Read"@)),
        r.1 == clamped_total(sum_blkio(entries@, "Write"@)),
{
    let len = entries.len();
    let mut read: u64 = 0;
    let mut write: u64 = 0;
    let mut i: usize = 0;
    proof {
        assert(entries@.take(0) =~= Seq::<BlockIoEntry>::empty());
    }
    while i < len
        invariant
            i <= len,
            len == entries@.len(),
            read == clamped_total(sum_blkio(entries@.take(i as int), "Read"@)),
            write == clamped_total(sum_blkio(entries@.take(i as int), "Write"@)),
        decreases len - i,
    {
        proof {
            assert(entries@.take(i + 1 as int).drop_last() =~= entries@.take(i as int));
            assert(entries@.take(i + 1 as int).last() == entries@[i as int]);
            lemma_sum_blkio_nonneg(entries@.take(i as int), "Read"@);
            lemma_sum_blkio_nonneg(entries@.take(i as int), "Write"@);
            reveal_strlit("Read");
            reveal_strlit("Write");
            assert("Read"@.len() == 4);
            assert("Write"@.len() == 5);
        }
        let v = match entries[i].value {
            Some(x) => x,
            None => 0,
        };
        let (is_read, is_write) = match &entries[i].op {
            Some(o) => (str_eq(o.as_str(), "Read"), str_eq(o.as_str(), "Write")),
            None => (false, false),
        };
        proof {
            assert(blkio_contribution(entries@[i as int], "Read"@)
                == if is_read { v as int } else { 0 });
            assert(blkio_contribution(entries@[i as int], "Write"@)
                == if is_write { v as int } else { 0 });
        }
        if is_read {
            read = read.saturating_add(v);
        } else if is_write {
            write = write.saturating_add(v);
        }
        i = i + 1;
    }
    proof {
        assert(entries@.take(len as int) =~= entries@);
    }
    (read, write)
}

/// Condense a raw runtime snapshot into canonical usage values: CPU and
/// memory readings with their defaults, byte totals over all network
/// interfaces, and byte totals of the `Read` and `Write` block-I/O entries.
pub fn parse_container_stats(raw: &RawSnapshot) -> (r: ContainerStats)
    ensures
        r.cpu_total_delta == clamped_sub(raw.cpu_total_usage, raw.precpu_total_usage),
        r.system_cpu_delta == clamped_sub(
            or_zero(raw.system_cpu_usage),
            or_zero(raw.presystem_cpu_usage),
        ),
        r.online_cpus == or_one(raw.online_cpus),
        r.memory_usage_bytes == or_zero(raw.memory_usage),
        r.memory_limit_bytes == or_zero(raw.memory_limit),
        r.network_rx_bytes == clamped_total(sum_rx(networks_of(*raw))),
        r.network_tx_bytes == clamped_total(sum_tx(networks_of(*raw))),
        r.block_read_bytes == clamped_total(sum_blkio(blkio_of(*raw), "Read"@)),
        r.block_write_bytes == clamped_total(sum_blkio(blkio_of(*raw), "Write"@)),
        r.pids == or_zero(raw.pids_current),
{
    let cpu_total_delta = if raw.cpu_total_usage >= raw.precpu_total_usage {
        raw.cpu_total_usage - raw.precpu_total_usage
    } else {
        0
    };
    let sys = match raw.system_cpu_usage {
        Some(x) => x,
        None => 0,
    };
    let presys = match raw.presystem_cpu_usage {
        Some(x) => x,
        None => 0,
    };
    let system_cpu_delta = if sys >= presys {
        sys - presys
    } else {
        0
    };
    let online_cpus = match raw.online_cpus {
        Some(x) => x,
        None => 1,
    };
    let memory_usage_bytes = match raw.memory_usage {
        Some(x) => x,
        None => 0,
    };
    let memory_limit_bytes = match raw.memory_limit {
        Some(x) => x,
        None => 0,
    };
    let (network_rx_bytes, network_tx_bytes) = match &raw.networks {
        Some(v) => sum_network_bytes(v),
        None => (0, 0),
    };
    let (block_read_bytes, block_write_bytes) = match &raw.blkio_entries {
        Some(v) => sum_blkio_bytes(v),
        None => (0, 0),
    };
    let pids = match raw.pids_current {
        Some(x) => x,
        None => 0,
    };
    ContainerStats {
        cpu_total_delta,
        system_cpu_delta,
        online_cpus,
        memory_usage_bytes,
        memory_limit_bytes,
        network_rx_bytes,
        network_tx_bytes,
        block_read_bytes,
        block_write_bytes,
        pids,
    }
}

/// `s` without its leading `c` characters.
pub open spec fn drop_leading(s: Seq<char>, c: char) -> Seq<char>
    decreases s.len(),
{
    if s.len() > 0 && s[0] == c {
        drop_leading(s.drop_first(), c)
    } else {
        s
    }
}

proof fn lemma_drop_leading_at(s: Seq<char>, c: char, i: int)
    requires
        0 <= i <= s.len(),
        forall|j: int| 0 <= j < i ==> s[j] == c,
        i < s.len() ==> s[i] != c,
    ensures
        drop_leading(s, c) == s.subrange(i, s.len() as int),
    decreases i,
{
    if i == 0 {
        assert(s.subrange(0, s.len() as int) =~= s);
    } else {
        assert(s[0] == c);
        assert(forall|j: int| 0 <= j < i - 1 ==> s.drop_first()[j] == s[j + 1]);
        lemma_drop_leading_at(s.drop_first(), c, i - 1);
        assert(s.drop_first().subrange(i - 1, s.drop_first().len() as int) =~= s.subrange(
            i,
            s.len() as int,
        ));
    }
}

/// The first of the runtime's name strings, without its leading slashes;
/// empty when the runtime reported no name.
pub open spec fn normalized_name(names: Option<Vec<String>>) -> Seq<char> {
    match names {
        Some(v) => if v@.len() > 0 {
            drop_leading(v@[0]@, '/')
        } else {
            Seq::empty()
        },
        None => Seq::empty(),
    }
}

pub open spec fn string_or_empty(v: Option<String>) -> Seq<char> {
    match v {
        Some(s) => s@,
        None => Seq::empty(),
    }
}

/// The index of the first character of `s` that is not a slash.
fn first_non_slash(s: &str) -> (i: usize)
    ensures
        i <= s@.len(),
        forall|j: int| 0 <= j < i ==> s@[j] == '/',
        i < s@.len() ==> s@[i as int] != '/',
{
    let len = s.unicode_len();
    let mut i: usize = 0;
    while i < len
        invariant
            i <= len,
            len == s@.len(),
            forall|j: int| 0 <= j < i ==> s@[j] == '/',
        decreases len - i,
    {
        if s.get_char(i) != '/' {
            return i;
        }
        i = i + 1;
    }
    i
}

/// Strip the leading slashes the runtime puts in front of container names.
fn strip_leading_slashes(s: &str) -> (r: String)
    ensures
        r@ == drop_leading(s@, '/'),
{
    let len = s.unicode_len();
    let i = first_non_slash(s);
    proof {
        lemma_drop_leading_at(s@, '/', i as int);
    }
    let rest = s.substring_char(i, len);
    rest.to_owned()
}

/// Normalize one listed container into the collector's identity record:
/// missing fields become empty strings, the first name loses its leading
/// slashes, and no usage is attached yet.
pub fn normalize_container(
    id: Option<String>,
    names: Option<Vec<String>>,
    image: Option<String>,
    state: Option<String>,
) -> (c: ContainerInfo)
    ensures
        c.id@ == string_or_empty(id),
        c.name@ == normalized_name(names),
        c.image@ == string_or_empty(image),
        c.status@ == string_or_empty(state),
        c.stats is None,
{
    let id_s = match id {
        Some(s) => s,
        None => String::new(),
    };
    let name_s = match names {
        Some(v) => {
            if v.len() > 0 {
                strip_leading_slashes(v[0].as_str())
            } else {
                String::new()
            }
        }
        None => String::new(),
    };
    let image_s = match image {
        Some(s) => s,
        None => String::new(),
    };
    let state_s = match state {
        Some(s) => s,
        None => String::new(),
    };
    ContainerInfo {
        id: id_s,
        name: name_s,
        image: image_s,
        status: state_s,
        stats: None,
    }
}

} // verus!
