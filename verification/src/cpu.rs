//! Per-application CPU time between polls of the scheduler probe's map,
//! which is keyed by process name.
use vstd::prelude::*;

use crate::text::{chars_of, starts_with};
use crate::util::{comm_name_spec, comm_to_string};
use crate::util::sat_sub;

verus! {

/// The name of a `comm` key: the name it holds, or `(unknown)` when it is
/// empty or not valid UTF-8.
pub open spec fn cpu_app_name(comm: Seq<u8>) -> Seq<char> {
    match comm_name_spec(comm) {
        Some(n) => n,
        None => seq!['(', 'u', 'n', 'k', 'n', 'o', 'w', 'n', ')'],
    }
}

/// Kernel idle tasks (`swapper/N`) stand for idle time, not work: they are
/// not reported.
pub open spec fn is_idle_task(name: Seq<char>) -> bool {
    let p = seq!['s', 'w', 'a', 'p', 'p', 'e', 'r'];
    p.len() <= name.len() && name.subrange(0, p.len() as int) == p
}

/// The CPU time recorded for `name` at the previous poll (the last entry
/// under that name), or zero.
pub open spec fn cpu_lookup(st: Seq<(Seq<char>, u64)>, name: Seq<char>) -> u64
    decreases st.len(),
{
    if st.len() == 0 {
        0
    } else if st.last().0 == name {
        st.last().1
    } else {
        cpu_lookup(st.drop_last(), name)
    }
}

/// The names of the map's entries that are reported, with their cumulative
/// CPU time, in map order.
pub open spec fn cpu_observed(entries: Seq<([u8; 16], u64)>) -> Seq<(Seq<char>, u64)>
    decreases entries.len(),
{
    if entries.len() == 0 {
        seq![]
    } else {
        let rest = cpu_observed(entries.drop_last());
        let name = cpu_app_name(entries.last().0@);
        if is_idle_task(name) {
            rest
        } else {
            rest.push((name, entries.last().1))
        }
    }
}

/// `(application, nanoseconds on CPU during the interval)` for each observed
/// entry whose time grew since the previous poll.
pub open spec fn cpu_deltas(observed: Seq<(Seq<char>, u64)>, prev: Seq<(Seq<char>, u64)>) -> Seq<
    (Seq<char>, u64),
>
    decreases observed.len(),
{
    if observed.len() == 0 {
        seq![]
    } else {
        let rest = cpu_deltas(observed.drop_last(), prev);
        let d = sat_sub(observed.last().1, cpu_lookup(prev, observed.last().0));
        if d > 0 {
            rest.push((observed.last().0, d))
        } else {
            rest
        }
    }
}

/// The CPU time of one application during one interval, with the capacity of
/// the machine over that interval (`interval × cores`, saturating), against
/// which a usage share is computed.
#[derive(Debug, Clone)]
pub struct CpuRecord {
    pub app_name: String,
    pub cpu_time_ns: u64,
    pub capacity_ns: u64,
}

pub open spec fn cpu_record_views(v: Seq<CpuRecord>) -> Seq<(Seq<char>, u64, u64)> {
    v.map_values(|r: CpuRecord| (r.app_name@, r.cpu_time_ns, r.capacity_ns))
}

/// The capacity of `num_cores` cores over `interval_ns`, saturating.
pub open spec fn capacity_spec(interval_ns: u64, num_cores: u64) -> u64 {
    if interval_ns * num_cores > u64::MAX {
        u64::MAX
    } else {
        (interval_ns * num_cores) as u64
    }
}

pub open spec fn state_views(v: Seq<(String, u64)>) -> Seq<(Seq<char>, u64)> {
    v.map_values(|e: (String, u64)| (e.0@, e.1))
}

fn name_of_comm(comm: &[u8; 16]) -> (r: String)
    ensures
        r@ == cpu_app_name(comm@),
{
    match comm_to_string(comm) {
        Some(s) => s,
        None => {
            let s = String::from_str("(unknown)");
            proof {
                reveal_strlit("(unknown)");
            }
            assert(s@ =~= seq!['(', 'u', 'n', 'k', 'n', 'o', 'w', 'n', ')']);
            s
        },
    }
}

fn idle_task(name: &String) -> (r: bool)
    ensures
        r == is_idle_task(name@),
{
    let cs = chars_of(name.as_str());
    let p = chars_of("swapper");
    proof {
        reveal_strlit("swapper");
    }
    assert(p@ =~= seq!['s', 'w', 'a', 'p', 'p', 'e', 'r']);
    starts_with(cs.as_slice(), p.as_slice())
}

fn lookup_prev(st: &Vec<(String, u64)>, name: &String) -> (r: u64)
    ensures
        r == cpu_lookup(state_views(st@), name@),
{
    let ghost sv = state_views(st@);
    let mut k = st.len();
    assert(sv.take(k as int) =~= sv);
    while k > 0
        invariant
            k <= st@.len(),
            sv == state_views(st@),
            cpu_lookup(sv, name@) == cpu_lookup(sv.take(k as int), name@),
        decreases k,
    {
        assert(sv.take(k as int).last() == (st@[k - 1].0@, st@[k - 1].1));
        if st[k - 1].0 == *name {
            return st[k - 1].1;
        }
        assert(sv.take(k as int).drop_last() =~= sv.take(k - 1));
        k = k - 1;
    }
    0
}

/// CPU usage between polls, keyed by application name.
pub struct CpuCollector {
    /// The cumulative CPU time of each observed application at the previous
    /// poll.
    pub prev_state: Vec<(String, u64)>,
    /// The number of CPU cores.
    pub num_cores: u64,
}

impl CpuCollector {
    /// A collector for a machine of `num_cores` cores that has seen no poll.
    pub fn new(num_cores: u64) -> (c: Self)
        ensures
            c.prev_state@.len() == 0,
            c.num_cores == num_cores,
    {
        CpuCollector { prev_state: Vec::new(), num_cores }
    }

    /// One poll of the map `(comm, cumulative ns)` over an interval of
    /// `interval_ns`: idle tasks are skipped; each other entry whose time
    /// grew since the previous poll gives one record, whatever the interval
    /// (over an empty interval the capacity is zero); the observed times
    /// become the previous ones.
    pub fn collect_cpu(&mut self, entries: &Vec<([u8; 16], u64)>, interval_ns: u64) -> (r: Vec<CpuRecord>)
        ensures
            cpu_record_views(r@) == cpu_deltas(cpu_observed(entries@), state_views(old(self).prev_state@)).map_values(
                |d: (Seq<char>, u64)| (d.0, d.1, capacity_spec(interval_ns, old(self).num_cores)),
            ),
            state_views(final(self).prev_state@) == cpu_observed(entries@),
            final(self).num_cores == old(self).num_cores,
    {
        let capacity = match interval_ns.checked_mul(self.num_cores) {
            Some(c) => c,
            None => u64::MAX,
        };
        let ghost cap = capacity_spec(interval_ns, self.num_cores);
        let ghost pv = state_views(self.prev_state@);
        let mut r: Vec<CpuRecord> = Vec::new();
        let mut next: Vec<(String, u64)> = Vec::new();
        let mut i: usize = 0;
        while i < entries.len()
            invariant
                i <= entries@.len(),
                capacity == cap,
                pv == state_views(self.prev_state@),
                state_views(next@) == cpu_observed(entries@.take(i as int)),
                cpu_record_views(r@) == cpu_deltas(cpu_observed(entries@.take(i as int)), pv).map_values(
                    |d: (Seq<char>, u64)| (d.0, d.1, cap),
                ),
            decreases entries.len() - i,
        {
            let ghost es = entries@.take(i + 1);
            assert(es.drop_last() =~= entries@.take(i as int));
            assert(es.last() == entries@[i as int]);
            let name = name_of_comm(&entries[i].0);
            if !idle_task(&name) {
                let cur = entries[i].1;
                let prev = lookup_prev(&self.prev_state, &name);
                let delta = cur.saturating_sub(prev);
                let ghost obs_before = state_views(next@);
                let ghost recs_before = cpu_record_views(r@);
                let ghost obs_after = obs_before.push((name@, cur));
                assert(obs_after.drop_last() =~= obs_before);
                assert(cpu_observed(es) == obs_after);
                let ghost ds = cpu_deltas(obs_before, pv);
                if delta > 0 {
                    r.push(CpuRecord { app_name: name.clone(), cpu_time_ns: delta, capacity_ns: capacity });
                    assert(cpu_record_views(r@) =~= recs_before.push((name@, delta, cap)));
                    assert(cpu_deltas(obs_after, pv) == ds.push((name@, delta)));
                    assert(ds.push((name@, delta)).map_values(|d: (Seq<char>, u64)| (d.0, d.1, cap))
                        =~= ds.map_values(|d: (Seq<char>, u64)| (d.0, d.1, cap)).push((name@, delta, cap)));
                } else {
                    assert(cpu_deltas(obs_after, pv) == ds);
                }
                let ghost nv = name@;
                next.push((name, cur));
                assert(state_views(next@) =~= obs_before.push((nv, cur)));
            }
            i = i + 1;
        }
        assert(entries@.take(entries@.len() as int) =~= entries@);
        self.prev_state = next;
        r
    }
}

/// Whether no two observed entries share a name.
pub open spec fn distinct_observed(obs: Seq<(Seq<char>, u64)>) -> bool {
    forall|i: int, j: int| 0 <= i < j < obs.len() ==> (#[trigger] obs[i]).0 != (#[trigger] obs[j]).0
}

proof fn lemma_cpu_lookup_own(st: Seq<(Seq<char>, u64)>, k: int)
    requires
        distinct_observed(st),
        0 <= k < st.len(),
    ensures
        cpu_lookup(st, st[k].0) == st[k].1,
    decreases st.len(),
{
    if k < st.len() - 1 {
        assert(st.last().0 != st[k].0);
        assert forall|i: int, j: int| 0 <= i < j < st.drop_last().len() implies (
        #[trigger] st.drop_last()[i]).0 != (#[trigger] st.drop_last()[j]).0 by {
            assert(st.drop_last()[i] == st[i]);
            assert(st.drop_last()[j] == st[j]);
        }
        lemma_cpu_lookup_own(st.drop_last(), k);
        assert(st.drop_last()[k] == st[k]);
    }
}

proof fn lemma_cpu_no_deltas_prefix(obs: Seq<(Seq<char>, u64)>, n: int)
    requires
        distinct_observed(obs),
        0 <= n <= obs.len(),
    ensures
        cpu_deltas(obs.take(n), obs).len() == 0,
    decreases n,
{
    if n > 0 {
        lemma_cpu_no_deltas_prefix(obs, n - 1);
        assert(obs.take(n).drop_last() =~= obs.take(n - 1));
        assert(obs.take(n).last() == obs[n - 1]);
        lemma_cpu_lookup_own(obs, n - 1);
    }
}

/// Law: polling the same map twice reports no CPU time the second time
/// (when no two reported entries share a name).
pub proof fn law_cpu_repeat_poll_is_silent(entries: Seq<([u8; 16], u64)>)
    requires
        distinct_observed(cpu_observed(entries)),
    ensures
        cpu_deltas(cpu_observed(entries), cpu_observed(entries)).len() == 0,
{
    let obs = cpu_observed(entries);
    lemma_cpu_no_deltas_prefix(obs, obs.len() as int);
    assert(obs.take(obs.len() as int) =~= obs);
}

proof fn lemma_observed_not_idle(entries: Seq<([u8; 16], u64)>)
    ensures
        forall|i: int| 0 <= i < cpu_observed(entries).len() ==> !is_idle_task(
            (#[trigger] cpu_observed(entries)[i]).0,
        ),
    decreases entries.len(),
{
    if entries.len() > 0 {
        lemma_observed_not_idle(entries.drop_last());
        let rest = cpu_observed(entries.drop_last());
        let obs = cpu_observed(entries);
        assert forall|i: int| 0 <= i < obs.len() implies !is_idle_task((#[trigger] obs[i]).0) by {
            if i < rest.len() {
                assert(obs[i] == rest[i]);
            }
        }
    }
}

proof fn lemma_deltas_not_idle(obs: Seq<(Seq<char>, u64)>, prev: Seq<(Seq<char>, u64)>)
    requires
        forall|i: int| 0 <= i < obs.len() ==> !is_idle_task((#[trigger] obs[i]).0),
    ensures
        forall|i: int| 0 <= i < cpu_deltas(obs, prev).len() ==> !is_idle_task(
            (#[trigger] cpu_deltas(obs, prev)[i]).0,
        ),
    decreases obs.len(),
{
    if obs.len() > 0 {
        assert forall|i: int| 0 <= i < obs.drop_last().len() implies !is_idle_task(
            (#[trigger] obs.drop_last()[i]).0,
        ) by {
            assert(obs.drop_last()[i] == obs[i]);
        }
        lemma_deltas_not_idle(obs.drop_last(), prev);
        assert(!is_idle_task(obs[obs.len() - 1].0));
        let rest = cpu_deltas(obs.drop_last(), prev);
        let ds = cpu_deltas(obs, prev);
        assert forall|i: int| 0 <= i < ds.len() implies !is_idle_task((#[trigger] ds[i]).0) by {
            if i < rest.len() {
                assert(ds[i] == rest[i]);
            }
        }
    }
}

/// Law: no idle task (`swapper...`) is ever reported, whatever the previous
/// poll.
pub proof fn law_idle_tasks_never_reported(entries: Seq<([u8; 16], u64)>, prev: Seq<(Seq<char>, u64)>)
    ensures
        forall|i: int| 0 <= i < cpu_deltas(cpu_observed(entries), prev).len() ==> !is_idle_task(
            (#[trigger] cpu_deltas(cpu_observed(entries), prev)[i]).0,
        ),
{
    lemma_observed_not_idle(entries);
    lemma_deltas_not_idle(cpu_observed(entries), prev);
}

/// Law: every CPU record reports time spent on the CPU.
pub proof fn law_cpu_records_report_time(observed: Seq<(Seq<char>, u64)>, prev: Seq<(Seq<char>, u64)>)
    ensures
        forall|i: int| 0 <= i < cpu_deltas(observed, prev).len() ==> (#[trigger] cpu_deltas(observed, prev)[i]).1 > 0,
    decreases observed.len(),
{
    if observed.len() > 0 {
        law_cpu_records_report_time(observed.drop_last(), prev);
        let rest = cpu_deltas(observed.drop_last(), prev);
        let ds = cpu_deltas(observed, prev);
        assert forall|i: int| 0 <= i < ds.len() implies (#[trigger] ds[i]).1 > 0 by {
            if i < rest.len() {
                assert(ds[i] == rest[i]);
            }
        }
    }
}

} // verus!
