//! The delta/counter engine.
//!
//! Cumulative runtime counters (network bytes, block I/O bytes) only grow
//! while a container lives; each cycle reports the increment since the last
//! cycle. One [`CounterStore`] remembers the last observed value per
//! container id for one counter family; [`PreviousValues`] bundles the four
//! families the collector tracks and prunes them to the set of containers
//! that still exist.

use vstd::prelude::*;
use crate::strutil::{contains_id, ids_contain, str_eq};

verus! {

/// The delta reported for one counter observation: the increment since
/// `previous`, or — when the counter went backwards, which means the
/// container restarted and its counter reset — the whole current reading,
/// counted from zero again.
pub open spec fn delta_value(previous: u64, current: u64) -> u64 {
    if current >= previous {
        (current - previous) as u64
    } else {
        current
    }
}

/// The last value a store holds for `id`, with 0 standing in for a
/// first-ever observation.
pub open spec fn stored_or_zero(m: Map<Seq<char>, u64>, id: Seq<char>) -> u64 {
    if m.contains_key(id) {
        m[id]
    } else {
        0
    }
}

/// The ids of `ids`, as a set of character sequences.
pub open spec fn live_id_set(ids: Seq<String>) -> Set<Seq<char>> {
    Set::new(|k: Seq<char>| ids_contain(ids, k))
}

/// Law: while a counter grows monotonically, the delta is the exact
/// difference of the two readings.
pub proof fn lemma_delta_monotonic(previous: u64, current: u64)
    requires
        current >= previous,
    ensures
        delta_value(previous, current) == current - previous,
{
}

/// Law: a counter observed below its previous value has reset; the whole
/// current reading is that interval's increment.
pub proof fn lemma_delta_reset(previous: u64, current: u64)
    requires
        current < previous,
    ensures
        delta_value(previous, current) == current,
{
}

/// Law: a first-ever observation behaves exactly like a previous value of
/// zero: the delta is the current reading itself.
pub proof fn lemma_delta_first_observation(m: Map<Seq<char>, u64>, id: Seq<char>, current: u64)
    requires
        !m.contains_key(id),
    ensures
        delta_value(stored_or_zero(m, id), current) == delta_value(0, current),
        delta_value(stored_or_zero(m, id), current) == current,
{
}

/// Law: after pruning against `ids`, a store holds keys only for ids in
/// `ids`, each still mapped to its old value; nothing else survives.
pub proof fn lemma_pruned_store(m: Map<Seq<char>, u64>, ids: Seq<String>)
    ensures
        forall|k: Seq<char>| #[trigger] m.restrict(live_id_set(ids)).contains_key(k)
            ==> ids_contain(ids, k),
        forall|k: Seq<char>| #[trigger] m.restrict(live_id_set(ids)).contains_key(k)
            ==> m.contains_key(k) && m.restrict(live_id_set(ids))[k] == m[k],
        forall|k: Seq<char>| m.contains_key(k) && ids_contain(ids, k)
            ==> #[trigger] m.restrict(live_id_set(ids)).contains_key(k),
{
}

/// One `container id -> last observed counter value` mapping.
pub struct CounterStore {
    entries: Vec<(String, u64)>,
}

/// The mapping an association list stands for; later entries win, though
/// with distinct keys the order never matters.
spec fn assoc_map(s: Seq<(String, u64)>) -> Map<Seq<char>, u64>
    decreases s.len(),
{
    if s.len() == 0 {
        Map::empty()
    } else {
        assoc_map(s.drop_last()).insert(s.last().0@, s.last().1)
    }
}

spec fn distinct_keys(s: Seq<(String, u64)>) -> bool {
    forall|i: int, j: int| 0 <= i < j < s.len() ==> s[i].0@ != s[j].0@
}

proof fn lemma_assoc_contains(s: Seq<(String, u64)>, k: Seq<char>)
    ensures
        assoc_map(s).contains_key(k) <==> (exists|i: int| 0 <= i < s.len() && s[i].0@ == k),
    decreases s.len(),
{
    if s.len() > 0 {
        lemma_assoc_contains(s.drop_last(), k);
        if s.last().0@ == k {
            assert(s[s.len() - 1].0@ == k);
        } else if assoc_map(s).contains_key(k) {
            let i = choose|i: int| 0 <= i < s.drop_last().len() && s.drop_last()[i].0@ == k;
            assert(s[i].0@ == k);
        } else if exists|i: int| 0 <= i < s.len() && s[i].0@ == k {
            let i = choose|i: int| 0 <= i < s.len() && s[i].0@ == k;
            assert(i < s.len() - 1);
            assert(s.drop_last()[i].0@ == k);
        }
    }
}

proof fn lemma_assoc_value(s: Seq<(String, u64)>, i: int)
    requires
        distinct_keys(s),
        0 <= i < s.len(),
    ensures
        assoc_map(s).contains_key(s[i].0@),
        assoc_map(s)[s[i].0@] == s[i].1,
    decreases s.len(),
{
    if i == s.len() - 1 {
    } else {
        assert(s.drop_last()[i] == s[i]);
        lemma_assoc_value(s.drop_last(), i);
        assert(s.last().0@ != s[i].0@);
    }
}

proof fn lemma_assoc_push(s: Seq<(String, u64)>, p: (String, u64))
    ensures
        assoc_map(s.push(p)) == assoc_map(s).insert(p.0@, p.1),
{
    assert(s.push(p).drop_last() =~= s);
    assert(s.push(p).last() == p);
}

proof fn lemma_assoc_update(s: Seq<(String, u64)>, i: int, p: (String, u64))
    requires
        distinct_keys(s),
        0 <= i < s.len(),
        p.0@ == s[i].0@,
    ensures
        assoc_map(s.update(i, p)) == assoc_map(s).insert(p.0@, p.1),
    decreases s.len(),
{
    let t = s.update(i, p);
    if i == s.len() - 1 {
        assert(t.drop_last() =~= s.drop_last());
        assert(t.last() == p);
        assert(assoc_map(s).insert(p.0@, p.1) =~=
            assoc_map(s.drop_last()).insert(p.0@, p.1));
    } else {
        assert(t.drop_last() =~= s.drop_last().update(i, p));
        assert(t.last() == s.last());
        assert(s.drop_last()[i] == s[i]);
        lemma_assoc_update(s.drop_last(), i, p);
        assert(s.last().0@ != p.0@);
        assert(assoc_map(s.drop_last()).insert(p.0@, p.1).insert(s.last().0@, s.last().1) =~=
            assoc_map(s.drop_last()).insert(s.last().0@, s.last().1).insert(p.0@, p.1));
    }
}

proof fn lemma_assoc_dom_len(s: Seq<(String, u64)>)
    requires
        distinct_keys(s),
    ensures
        assoc_map(s).dom().finite(),
        assoc_map(s).dom().len() == s.len(),
    decreases s.len(),
{
    if s.len() > 0 {
        lemma_assoc_dom_len(s.drop_last());
        lemma_assoc_contains(s.drop_last(), s.last().0@);
        assert(forall|i: int| 0 <= i < s.drop_last().len() ==> s.drop_last()[i] == s[i]);
        assert(!assoc_map(s.drop_last()).contains_key(s.last().0@));
        assert(assoc_map(s).dom() =~= assoc_map(s.drop_last()).dom().insert(s.last().0@));
    }
}

impl View for CounterStore {
    type V = Map<Seq<char>, u64>;

    closed spec fn view(&self) -> Map<Seq<char>, u64> {
        assoc_map(self.entries@)
    }
}

impl CounterStore {
    /// Internal consistency: each container id occurs at most once.
    pub closed spec fn wf(&self) -> bool {
        distinct_keys(self.entries@)
    }

    /// An empty store: no container has been observed yet.
    pub fn new() -> (s: Self)
        ensures
            s.wf(),
            s@ == Map::<Seq<char>, u64>::empty(),
    {
        CounterStore { entries: Vec::new() }
    }

    /// How many containers the store holds a previous value for.
    pub fn len(&self) -> (n: usize)
        requires
            self.wf(),
        ensures
            n == self@.dom().len(),
            self@.dom().finite(),
    {
        proof {
            lemma_assoc_dom_len(self.entries@);
        }
        self.entries.len()
    }

    fn find_index(&self, container_id: &str) -> (r: Option<usize>)
        ensures
            match r {
                Some(i) => i < self.entries@.len() && self.entries@[i as int].0@ == container_id@,
                None => forall|j: int| 0 <= j < self.entries@.len()
                    ==> self.entries@[j].0@ != container_id@,
            },
    {
        let len = self.entries.len();
        let mut i: usize = 0;
        while i < len
            invariant
                i <= len,
                len == self.entries@.len(),
                forall|j: int| 0 <= j < i ==> self.entries@[j].0@ != container_id@,
            decreases len - i,
        {
            if str_eq(self.entries[i].0.as_str(), container_id) {
                return Some(i);
            }
            i = i + 1;
        }
        None
    }

    /// The last observed value for a container, if any.
    pub fn get(&self, container_id: &str) -> (r: Option<u64>)
        requires
            self.wf(),
        ensures
            r == if self@.contains_key(container_id@) {
                Some(self@[container_id@])
            } else {
                None::<u64>
            },
    {
        proof {
            lemma_assoc_contains(self.entries@, container_id@);
        }
        match self.find_index(container_id) {
            Some(i) => {
                proof {
                    lemma_assoc_value(self.entries@, i as int);
                }
                Some(self.entries[i].1)
            }
            None => None,
        }
    }

    /// One counter observation: report the per-cycle delta (reset-aware) and
    /// remember `current_value` as the new previous value.
    pub fn calculate_delta(&mut self, container_id: &str, current_value: u64) -> (d: u64)
        requires
            old(self).wf(),
        ensures
            final(self).wf(),
            final(self)@ == old(self)@.insert(container_id@, current_value),
            d == delta_value(stored_or_zero(old(self)@, container_id@), current_value),
    {
        proof {
            lemma_assoc_contains(self.entries@, container_id@);
        }
        match self.find_index(container_id) {
            Some(i) => {
                proof {
                    lemma_assoc_value(self.entries@, i as int);
                }
                let prev = self.entries[i].1;
                let key = self.entries[i].0.clone();
                self.entries.set(i, (key, current_value));
                proof {
                    lemma_assoc_update(old(self).entries@, i as int,
                        self.entries@[i as int]);
                    assert(distinct_keys(self.entries@));
                }
                if current_value >= prev {
                    current_value - prev
                } else {
                    current_value
                }
            }
            None => {
                self.entries.push((container_id.to_owned(), current_value));
                proof {
                    lemma_assoc_push(old(self).entries@,
                        self.entries@[self.entries@.len() - 1]);
                    assert(distinct_keys(self.entries@));
                }
                current_value
            }
        }
    }

    /// Drop every container id that is not in `live_ids`; report how many
    /// entries were removed.
    pub fn prune(&mut self, live_ids: &Vec<String>) -> (removed: usize)
        requires
            old(self).wf(),
        ensures
            final(self).wf(),
            final(self)@ == old(self)@.restrict(live_id_set(live_ids@)),
            old(self)@.dom().finite(),
            final(self)@.dom().finite(),
            removed == old(self)@.dom().len() - final(self)@.dom().len(),
    {
        let ghost orig = self.entries@;
        let len = self.entries.len();
        let mut kept: Vec<(String, u64)> = Vec::new();
        let mut removed: usize = 0;
        let mut i: usize = 0;
        proof {
            lemma_assoc_dom_len(orig);
        }
        while i < len
            invariant
                i <= len,
                len == orig.len(),
                self.entries@ == orig,
                distinct_keys(orig),
                distinct_keys(kept@),
                kept@.len() + removed == i,
                forall|k: Seq<char>| #[trigger] assoc_map(kept@).contains_key(k)
                    <==> (assoc_map(orig.take(i as int)).contains_key(k)
                        && ids_contain(live_ids@, k)),
                forall|k: Seq<char>| #[trigger] assoc_map(kept@).contains_key(k)
                    ==> assoc_map(kept@)[k] == assoc_map(orig)[k],
            decreases len - i,
        {
            let ghost prefix = orig.take(i as int);
            proof {
                assert(orig.take(i as int + 1) =~= prefix.push(orig[i as int]));
                lemma_assoc_push(prefix, orig[i as int]);
                lemma_assoc_contains(prefix, orig[i as int].0@);
            }
            let keep = contains_id(live_ids, self.entries[i].0.as_str());
            if keep {
                let ghost kept_prev = kept@;
                let entry = (self.entries[i].0.clone(), self.entries[i].1);
                assert(entry.0@ == orig[i as int].0@);
                kept.push(entry);
                proof {
                    assert(kept@ == kept_prev.push(entry));
                    lemma_assoc_contains(kept_prev, entry.0@);
                    lemma_assoc_push(kept_prev, entry);
                    lemma_assoc_value(orig, i as int);
                    assert forall|a: int, b: int| 0 <= a < b < kept@.len()
                        implies kept@[a].0@ != kept@[b].0@ by {
                        if b == kept@.len() - 1 {
                            if kept@[a].0@ == entry.0@ {
                                assert(kept_prev[a] == kept@[a]);
                                assert(assoc_map(kept_prev).contains_key(entry.0@));
                                assert(assoc_map(prefix).contains_key(entry.0@));
                                let j = choose|j: int| 0 <= j < prefix.len()
                                    && prefix[j].0@ == entry.0@;
                                assert(orig[j].0@ == orig[i as int].0@);
                                assert(false);
                            }
                        } else {
                            assert(kept@[a] == kept_prev[a] && kept@[b] == kept_prev[b]);
                        }
                    }
                }
            } else {
                removed = removed + 1;
            }
            i = i + 1;
        }
        proof {
            assert(orig.take(len as int) =~= orig);
            lemma_assoc_dom_len(kept@);
            assert(assoc_map(kept@) =~= assoc_map(orig).restrict(live_id_set(live_ids@)));
        }
        self.entries = kept;
        removed
    }
}

/// The number of entries a cleanup pass removed, summed over the four
/// counter families.
pub open spec fn removed_total(before: PreviousValues, after: PreviousValues) -> int {
    (before.network_rx@.dom().len() - after.network_rx@.dom().len())
        + (before.network_tx@.dom().len() - after.network_tx@.dom().len())
        + (before.fs_reads@.dom().len() - after.fs_reads@.dom().len())
        + (before.fs_writes@.dom().len() - after.fs_writes@.dom().len())
}

/// The previous-value state for all four counter families the collector
/// tracks.
pub struct PreviousValues {
    pub network_rx: CounterStore,
    pub network_tx: CounterStore,
    pub fs_reads: CounterStore,
    pub fs_writes: CounterStore,
}

impl PreviousValues {
    pub open spec fn wf(&self) -> bool {
        self.network_rx.wf() && self.network_tx.wf() && self.fs_reads.wf() && self.fs_writes.wf()
    }

    /// Fresh state: nothing has been observed for any container.
    pub fn new() -> (s: Self)
        ensures
            s.wf(),
            s.network_rx@ == Map::<Seq<char>, u64>::empty(),
            s.network_tx@ == Map::<Seq<char>, u64>::empty(),
            s.fs_reads@ == Map::<Seq<char>, u64>::empty(),
            s.fs_writes@ == Map::<Seq<char>, u64>::empty(),
    {
        PreviousValues {
            network_rx: CounterStore::new(),
            network_tx: CounterStore::new(),
            fs_reads: CounterStore::new(),
            fs_writes: CounterStore::new(),
        }
    }

    /// Prune all four stores to the containers that still exist; the result
    /// is the total number of entries removed, summed over the stores.
    pub fn cleanup_previous_values(&mut self, live_ids: &Vec<String>) -> (removed: usize)
        requires
            old(self).wf(),
        ensures
            final(self).wf(),
            final(self).network_rx@ == old(self).network_rx@.restrict(live_id_set(live_ids@)),
            final(self).network_tx@ == old(self).network_tx@.restrict(live_id_set(live_ids@)),
            final(self).fs_reads@ == old(self).fs_reads@.restrict(live_id_set(live_ids@)),
            final(self).fs_writes@ == old(self).fs_writes@.restrict(live_id_set(live_ids@)),
            removed as int == if removed_total(*old(self), *final(self)) <= usize::MAX as int {
                removed_total(*old(self), *final(self))
            } else {
                usize::MAX as int
            },
    {
        let a = self.network_rx.prune(live_ids);
        let b = self.network_tx.prune(live_ids);
        let c = self.fs_reads.prune(live_ids);
        let d = self.fs_writes.prune(live_ids);
        a.saturating_add(b).saturating_add(c).saturating_add(d)
    }
}

} // verus!
