//! A verified model of the map updates that the kernel probes make:
//! per-process counters keyed by the process name (`comm`), in maps of
//! bounded size. The probes that run are a separately built eBPF object;
//! this module states and proves what their map bookkeeping does.
//!
//! Each probe event updates the entry of the current process, or inserts one
//! when the process has none yet; when the map is full, the new process is
//! not tracked and a warning is due.
use vstd::prelude::*;

use crate::metrics::{PidCpuStats, PidDiskStats, PidNetStats};
use crate::util::{sat_add, sat_sub};

verus! {

/// Max entries per probe map.
pub const BPF_MAP_ENTRIES: usize = 10240;

/// Whether a `comm` field is empty (its first byte is NUL).
pub fn is_comm_empty(comm: &[u8; 16]) -> (r: bool)
    ensures
        r == (comm@[0] == 0),
{
    comm[0] == 0
}

/// Whether two `comm` fields are equal.
pub fn comm_eq(a: &[u8; 16], b: &[u8; 16]) -> (r: bool)
    ensures
        r == (a@ == b@),
{
    let mut i: usize = 0;
    while i < 16
        invariant
            i <= 16,
            a@.len() == 16,
            b@.len() == 16,
            forall|k: int| 0 <= k < i ==> a@[k] == b@[k],
        decreases 16 - i,
    {
        if a[i] != b[i] {
            return false;
        }
        i = i + 1;
    }
    assert(a@ =~= b@);
    true
}

/// A probe map: counters of type `V` keyed by process name.
pub struct ProbeMap<V> {
    pub entries: Vec<([u8; 16], V)>,
}

/// The value recorded for `key`, if any.
pub open spec fn pm_lookup<V>(es: Seq<([u8; 16], V)>, key: Seq<u8>) -> Option<V>
    decreases es.len(),
{
    if es.len() == 0 {
        None
    } else if es.last().0@ == key {
        Some(es.last().1)
    } else {
        pm_lookup(es.drop_last(), key)
    }
}

pub open spec fn pm_distinct<V>(es: Seq<([u8; 16], V)>) -> bool {
    forall|i: int, j: int| 0 <= i < j < es.len() ==> es[i].0@ != es[j].0@
}

proof fn lemma_pm_lookup<V>(es: Seq<([u8; 16], V)>, key: Seq<u8>)
    requires
        pm_distinct(es),
    ensures
        forall|i: int| 0 <= i < es.len() && es[i].0@ == key ==> pm_lookup(es, key) == Some(es[i].1),
        (forall|i: int| 0 <= i < es.len() ==> es[i].0@ != key) ==> pm_lookup(es, key) is None,
    decreases es.len(),
{
    if es.len() > 0 {
        assert(pm_distinct(es.drop_last())) by {
            assert forall|i: int, j: int| 0 <= i < j < es.drop_last().len() implies es.drop_last()[i].0@
                != es.drop_last()[j].0@ by {
                assert(es.drop_last()[i] == es[i]);
                assert(es.drop_last()[j] == es[j]);
            }
        }
        lemma_pm_lookup(es.drop_last(), key);
        assert forall|i: int| 0 <= i < es.len() && es[i].0@ == key implies pm_lookup(es, key) == Some(
            es[i].1,
        ) by {
            if i < es.len() - 1 {
                assert(es.drop_last()[i] == es[i]);
            }
        }
        if forall|i: int| 0 <= i < es.len() ==> es[i].0@ != key {
            assert forall|i: int| 0 <= i < es.drop_last().len() implies es.drop_last()[i].0@ != key by {
                assert(es.drop_last()[i] == es[i]);
            }
        }
    }
}

impl<V: Copy> ProbeMap<V> {
    /// Keys are distinct and the map holds at most `BPF_MAP_ENTRIES` entries.
    pub open spec fn wf(&self) -> bool {
        &&& pm_distinct(self.entries@)
        &&& self.entries@.len() <= BPF_MAP_ENTRIES
    }

    pub open spec fn lookup(&self, key: Seq<u8>) -> Option<V> {
        pm_lookup(self.entries@, key)
    }

    pub open spec fn is_full(&self) -> bool {
        self.entries@.len() >= BPF_MAP_ENTRIES
    }

    /// An empty map.
    pub fn new() -> (m: Self)
        ensures
            m.wf(),
            forall|k: Seq<u8>| m.lookup(k) is None,
            !m.is_full(),
    {
        ProbeMap { entries: Vec::new() }
    }

    fn index_of(&self, key: &[u8; 16]) -> (r: Option<usize>)
        requires
            self.wf(),
        ensures
            match r {
                Some(i) => i < self.entries@.len() && self.entries@[i as int].0@ == key@ && self.lookup(
                    key@,
                ) == Some(self.entries@[i as int].1),
                None => self.lookup(key@) is None,
            },
    {
        let mut i: usize = 0;
        while i < self.entries.len()
            invariant
                self.wf(),
                i <= self.entries@.len(),
                forall|k: int| 0 <= k < i ==> self.entries@[k].0@ != key@,
            decreases self.entries.len() - i,
        {
            if comm_eq(&self.entries[i].0, key) {
                proof {
                    lemma_pm_lookup(self.entries@, key@);
                }
                return Some(i);
            }
            i = i + 1;
        }
        proof {
            lemma_pm_lookup(self.entries@, key@);
        }
        None
    }

    /// The value recorded for `key`.
    pub fn get(&self, key: &[u8; 16]) -> (r: Option<V>)
        requires
            self.wf(),
        ensures
            r == self.lookup(key@),
    {
        match self.index_of(key) {
            Some(i) => Some(self.entries[i].1),
            None => None,
        }
    }

    /// Records `v` for `key`: in place when `key` is present, as a new entry
    /// when there is room. Returns whether the value was stored.
    pub fn upsert(&mut self, key: [u8; 16], v: V) -> (stored: bool)
        requires
            old(self).wf(),
        ensures
            final(self).wf(),
            stored == (old(self).lookup(key@) is Some || !old(self).is_full()),
            stored ==> final(self).lookup(key@) == Some(v),
            !stored ==> final(self).entries@ == old(self).entries@,
            old(self).lookup(key@) is Some ==> final(self).entries@.len() == old(self).entries@.len(),
            forall|k: Seq<u8>| k != key@ ==> final(self).lookup(k) == old(self).lookup(k),
    {
        let ghost before = self.entries@;
        match self.index_of(&key) {
            Some(i) => {
                self.entries.set(i, (key, v));
                proof {
                    assert(self.entries@[i as int].0@ == key@);
                    assert(pm_distinct(self.entries@)) by {
                        assert forall|a: int, b: int|
                            0 <= a < b < self.entries@.len() implies self.entries@[a].0@
                            != self.entries@[b].0@ by {
                            assert(self.entries@[a].0@ == before[a].0@);
                            assert(self.entries@[b].0@ == before[b].0@);
                        }
                    }
                    lemma_pm_lookup(self.entries@, key@);
                    assert forall|k: Seq<u8>| k != key@ implies self.lookup(k) == old(self).lookup(
                        k,
                    ) by {
                        lemma_pm_lookup(self.entries@, k);
                        lemma_pm_lookup(before, k);
                        if exists|j: int| 0 <= j < before.len() && before[j].0@ == k {
                            let j = choose|j: int| 0 <= j < before.len() && before[j].0@ == k;
                            assert(self.entries@[j] == before[j]);
                        } else {
                            assert forall|j: int| 0 <= j < self.entries@.len() implies self.entries@[j].0@
                                != k by {
                                assert(self.entries@[j].0@ == before[j].0@);
                            }
                        }
                    }
                }
                true
            },
            None => {
                if self.entries.len() >= BPF_MAP_ENTRIES {
                    return false;
                }
                self.entries.push((key, v));
                proof {
                    let n = self.entries@.len() - 1;
                    assert(self.entries@[n].0@ == key@);
                    lemma_pm_lookup(before, key@);
                    assert forall|j: int| 0 <= j < before.len() implies before[j].0@ != key@ by {
                        if before[j].0@ == key@ {
                            assert(old(self).lookup(key@) == Some(before[j].1));
                        }
                    }
                    assert(pm_distinct(self.entries@)) by {
                        assert forall|a: int, b: int|
                            0 <= a < b < self.entries@.len() implies self.entries@[a].0@
                            != self.entries@[b].0@ by {
                            if b < n {
                                assert(self.entries@[a] == before[a]);
                                assert(self.entries@[b] == before[b]);
                            } else {
                                assert(self.entries@[a] == before[a]);
                            }
                        }
                    }
                    lemma_pm_lookup(self.entries@, key@);
                    assert forall|k: Seq<u8>| k != key@ implies self.lookup(k) == old(self).lookup(
                        k,
                    ) by {
                        assert(self.entries@.drop_last() =~= before);
                    }
                }
                true
            },
        }
    }
}

/// What a probe event did to its map.
#[derive(Debug, Clone, Copy, PartialEq, Eq, Structural)]
pub enum ProbeOutcome {
    /// The process's entry was updated.
    Updated,
    /// An entry was created for the process.
    Inserted,
    /// The process has no entry and the map is full: it is not tracked (a
    /// warning is due).
    MapFull,
    /// The event carried nothing to record.
    Ignored,
}

/// The outcome of recording `v` for a process that may or may not have an
/// entry.
pub open spec fn upsert_outcome(present: bool, stored: bool) -> ProbeOutcome {
    if present {
        ProbeOutcome::Updated
    } else if stored {
        ProbeOutcome::Inserted
    } else {
        ProbeOutcome::MapFull
    }
}

// ---------------------------------------------------------------------------
// Network: tcp_sendmsg / tcp_recvmsg
// ---------------------------------------------------------------------------

/// The network counters of a process after it sent `size` bytes.
pub open spec fn net_after_send(prev: Option<PidNetStats>, comm: [u8; 16], size: u64) -> PidNetStats {
    match prev {
        Some(s) => PidNetStats { tx_bytes: sat_add(s.tx_bytes, size), ..s },
        None => PidNetStats { tx_bytes: size, rx_bytes: 0, comm },
    }
}

/// The network counters of a process after it received `n` bytes.
pub open spec fn net_after_recv(prev: Option<PidNetStats>, comm: [u8; 16], n: u64) -> PidNetStats {
    match prev {
        Some(s) => PidNetStats { rx_bytes: sat_add(s.rx_bytes, n), ..s },
        None => PidNetStats { tx_bytes: 0, rx_bytes: n, comm },
    }
}

/// `tcp_sendmsg` by the process `comm` with `size` bytes to send.
pub fn on_tcp_sendmsg(map: &mut ProbeMap<PidNetStats>, comm: [u8; 16], size: u64) -> (r: ProbeOutcome)
    requires
        old(map).wf(),
    ensures
        final(map).wf(),
        r == upsert_outcome(
            old(map).lookup(comm@) is Some,
            old(map).lookup(comm@) is Some || !old(map).is_full(),
        ),
        r != ProbeOutcome::MapFull ==> final(map).lookup(comm@) == Some(
            net_after_send(old(map).lookup(comm@), comm, size),
        ),
        r == ProbeOutcome::MapFull ==> final(map).entries@ == old(map).entries@,
        forall|k: Seq<u8>| k != comm@ ==> final(map).lookup(k) == old(map).lookup(k),
{
    let prev = map.get(&comm);
    let next = match prev {
        Some(s) => PidNetStats { tx_bytes: s.tx_bytes.saturating_add(size), rx_bytes: s.rx_bytes, comm: s.comm },
        None => PidNetStats { tx_bytes: size, rx_bytes: 0, comm },
    };
    let present = prev.is_some();
    let stored = map.upsert(comm, next);
    if present {
        ProbeOutcome::Updated
    } else if stored {
        ProbeOutcome::Inserted
    } else {
        ProbeOutcome::MapFull
    }
}

/// `tcp_recvmsg` returning `bytes_received` to the process `comm`: errors and
/// empty reads (`<= 0`) are not counted.
pub fn on_tcp_recvmsg(map: &mut ProbeMap<PidNetStats>, comm: [u8; 16], bytes_received: i64) -> (r:
    ProbeOutcome)
    requires
        old(map).wf(),
    ensures
        final(map).wf(),
        bytes_received <= 0 ==> r == ProbeOutcome::Ignored && final(map).entries@ == old(map).entries@,
        bytes_received > 0 ==> r == upsert_outcome(
            old(map).lookup(comm@) is Some,
            old(map).lookup(comm@) is Some || !old(map).is_full(),
        ),
        bytes_received > 0 && r != ProbeOutcome::MapFull ==> final(map).lookup(comm@) == Some(
            net_after_recv(old(map).lookup(comm@), comm, bytes_received as u64),
        ),
        r == ProbeOutcome::MapFull ==> final(map).entries@ == old(map).entries@,
        forall|k: Seq<u8>| k != comm@ ==> final(map).lookup(k) == old(map).lookup(k),
{
    if bytes_received <= 0 {
        return ProbeOutcome::Ignored;
    }
    let n = bytes_received as u64;
    let prev = map.get(&comm);
    let next = match prev {
        Some(s) => PidNetStats { tx_bytes: s.tx_bytes, rx_bytes: s.rx_bytes.saturating_add(n), comm: s.comm },
        None => PidNetStats { tx_bytes: 0, rx_bytes: n, comm },
    };
    let present = prev.is_some();
    let stored = map.upsert(comm, next);
    if present {
        ProbeOutcome::Updated
    } else if stored {
        ProbeOutcome::Inserted
    } else {
        ProbeOutcome::MapFull
    }
}

// ---------------------------------------------------------------------------
// CPU: sched_switch
// ---------------------------------------------------------------------------

/// The CPU counters of a process switched out at `now`: the time since it
/// was switched in (if it was) is added, and it is marked off-CPU.
pub open spec fn cpu_sched_out(s: PidCpuStats, now: u64) -> PidCpuStats {
    PidCpuStats {
        cpu_time_ns: if s.last_sched_in_ns > 0 {
            sat_add(s.cpu_time_ns, sat_sub(now, s.last_sched_in_ns))
        } else {
            s.cpu_time_ns
        },
        last_sched_in_ns: 0,
    }
}

/// The CPU counters of a process switched in at `now`.
pub open spec fn cpu_sched_in(prev: Option<PidCpuStats>, now: u64) -> PidCpuStats {
    match prev {
        Some(s) => PidCpuStats { last_sched_in_ns: now, ..s },
        None => PidCpuStats { cpu_time_ns: 0, last_sched_in_ns: now },
    }
}

/// What a process's entry is once `prev_comm` has been switched out at `now`.
pub open spec fn after_sched_out(v: Option<PidCpuStats>, k: Seq<u8>, prev_comm: [u8; 16], now: u64) -> Option<
    PidCpuStats,
> {
    if prev_comm@[0] != 0 && k == prev_comm@ {
        match v {
            Some(s) => Some(cpu_sched_out(s, now)),
            None => None,
        }
    } else {
        v
    }
}

fn sched_out(map: &mut ProbeMap<PidCpuStats>, now_ns: u64, prev_comm: [u8; 16])
    requires
        old(map).wf(),
    ensures
        final(map).wf(),
        forall|k: Seq<u8>|
            final(map).lookup(k) == after_sched_out(old(map).lookup(k), k, prev_comm, now_ns),
        !old(map).is_full() ==> !final(map).is_full(),
        old(map).is_full() ==> final(map).is_full(),
{
    if !is_comm_empty(&prev_comm) {
        match map.get(&prev_comm) {
            Some(s) => {
                let cpu_time_ns = if s.last_sched_in_ns > 0 {
                    s.cpu_time_ns.saturating_add(now_ns.saturating_sub(s.last_sched_in_ns))
                } else {
                    s.cpu_time_ns
                };
                let _ = map.upsert(prev_comm, PidCpuStats { cpu_time_ns, last_sched_in_ns: 0 });
            },
            None => {},
        }
    }
}

fn sched_in(map: &mut ProbeMap<PidCpuStats>, now_ns: u64, next_comm: [u8; 16]) -> (r: ProbeOutcome)
    requires
        old(map).wf(),
    ensures
        final(map).wf(),
        next_comm@[0] == 0 ==> r == ProbeOutcome::Ignored && final(map).entries@ == old(map).entries@,
        next_comm@[0] != 0 ==> r == upsert_outcome(
            old(map).lookup(next_comm@) is Some,
            old(map).lookup(next_comm@) is Some || !old(map).is_full(),
        ),
        next_comm@[0] != 0 && r != ProbeOutcome::MapFull ==> final(map).lookup(next_comm@) == Some(
            cpu_sched_in(old(map).lookup(next_comm@), now_ns),
        ),
        r == ProbeOutcome::MapFull ==> final(map).entries@ == old(map).entries@,
        forall|k: Seq<u8>| k != next_comm@ ==> final(map).lookup(k) == old(map).lookup(k),
{
    if is_comm_empty(&next_comm) {
        return ProbeOutcome::Ignored;
    }
    let prev = map.get(&next_comm);
    let next = match prev {
        Some(s) => PidCpuStats { cpu_time_ns: s.cpu_time_ns, last_sched_in_ns: now_ns },
        None => PidCpuStats { cpu_time_ns: 0, last_sched_in_ns: now_ns },
    };
    let present = prev.is_some();
    let stored = map.upsert(next_comm, next);
    if present {
        ProbeOutcome::Updated
    } else if stored {
        ProbeOutcome::Inserted
    } else {
        ProbeOutcome::MapFull
    }
}

/// A context switch at `now_ns` from `prev_comm` to `next_comm` (empty names
/// are skipped): the outgoing process is charged and marked off-CPU, then the
/// incoming one is stamped. The outcome is that of recording the incoming
/// process.
pub fn on_sched_switch(
    map: &mut ProbeMap<PidCpuStats>,
    now_ns: u64,
    prev_comm: [u8; 16],
    next_comm: [u8; 16],
) -> (r: ProbeOutcome)
    requires
        old(map).wf(),
    ensures
        final(map).wf(),
        next_comm@[0] == 0 ==> r == ProbeOutcome::Ignored,
        next_comm@[0] != 0 ==> r == upsert_outcome(
            after_sched_out(old(map).lookup(next_comm@), next_comm@, prev_comm, now_ns) is Some,
            after_sched_out(old(map).lookup(next_comm@), next_comm@, prev_comm, now_ns) is Some
                || !old(map).is_full(),
        ),
        next_comm@[0] != 0 && r != ProbeOutcome::MapFull ==> final(map).lookup(next_comm@) == Some(
            cpu_sched_in(
                after_sched_out(old(map).lookup(next_comm@), next_comm@, prev_comm, now_ns),
                now_ns,
            ),
        ),
        forall|k: Seq<u8>|
            (next_comm@[0] == 0 || k != next_comm@ || r == ProbeOutcome::MapFull)
                ==> final(map).lookup(k) == after_sched_out(old(map).lookup(k), k, prev_comm, now_ns),
{
    sched_out(map, now_ns, prev_comm);
    sched_in(map, now_ns, next_comm)
}

/// Law: a process switched in at `t_in > 0` and out at `t_out >= t_in` is
/// charged exactly `t_out - t_in` nanoseconds (saturating at `u64::MAX`).
pub proof fn law_sched_in_out_charges_elapsed(prev: Option<PidCpuStats>, t_in: u64, t_out: u64)
    requires
        0 < t_in <= t_out,
    ensures
        cpu_sched_out(cpu_sched_in(prev, t_in), t_out).cpu_time_ns == sat_add(
            match prev {
                Some(s) => s.cpu_time_ns,
                None => 0,
            },
            (t_out - t_in) as u64,
        ),
        cpu_sched_out(cpu_sched_in(prev, t_in), t_out).last_sched_in_ns == 0,
{
}

/// Law: CPU time never decreases, whatever the switch.
pub proof fn law_cpu_time_monotone(s: PidCpuStats, now: u64)
    ensures
        cpu_sched_out(s, now).cpu_time_ns >= s.cpu_time_ns,
        cpu_sched_in(Some(s), now).cpu_time_ns == s.cpu_time_ns,
{
}

// ---------------------------------------------------------------------------
// Disk: block_rq_issue
// ---------------------------------------------------------------------------

/// The direction of a block request from the first flag of its `rwbs`
/// field: `R`/`r` reads, `W`/`w` writes; anything else is neither.
pub open spec fn rwbs_direction(first: u8) -> (bool, bool) {
    (first == 82 || first == 114, first == 87 || first == 119)
}

/// The disk counters of a process after a request of `bytes` bytes.
pub open spec fn disk_after_request(prev: Option<PidDiskStats>, bytes: u64, is_read: bool, is_write: bool) -> PidDiskStats {
    match prev {
        Some(s) => if is_read {
            PidDiskStats { read_bytes: sat_add(s.read_bytes, bytes), ..s }
        } else if is_write {
            PidDiskStats { write_bytes: sat_add(s.write_bytes, bytes), ..s }
        } else {
            s
        },
        None => PidDiskStats {
            read_bytes: if is_read {
                bytes
            } else {
                0
            },
            write_bytes: if is_write {
                bytes
            } else {
                0
            },
        },
    }
}

/// A block request of `bytes` bytes issued by `comm`. Empty requests and
/// empty names are not recorded.
pub fn on_block_rq_issue(map: &mut ProbeMap<PidDiskStats>, bytes: u32, rwbs: &[u8; 10], comm: [u8; 16]) -> (r:
    ProbeOutcome)
    requires
        old(map).wf(),
    ensures
        final(map).wf(),
        (bytes == 0 || comm@[0] == 0) ==> r == ProbeOutcome::Ignored
            && final(map).entries@ == old(map).entries@,
        bytes != 0 && comm@[0] != 0 ==> r == upsert_outcome(
            old(map).lookup(comm@) is Some,
            old(map).lookup(comm@) is Some || !old(map).is_full(),
        ),
        bytes != 0 && comm@[0] != 0 && r != ProbeOutcome::MapFull ==> final(map).lookup(comm@)
            == Some(
            disk_after_request(
                old(map).lookup(comm@),
                bytes as u64,
                rwbs_direction(rwbs@[0]).0,
                rwbs_direction(rwbs@[0]).1,
            ),
        ),
        r == ProbeOutcome::MapFull ==> final(map).entries@ == old(map).entries@,
        forall|k: Seq<u8>| k != comm@ ==> final(map).lookup(k) == old(map).lookup(k),
{
    if bytes == 0 {
        return ProbeOutcome::Ignored;
    }
    if is_comm_empty(&comm) {
        return ProbeOutcome::Ignored;
    }
    let b = bytes as u64;
    let first = rwbs[0];
    let is_read = first == 82 || first == 114;
    let is_write = first == 87 || first == 119;
    let prev = map.get(&comm);
    let next = match prev {
        Some(s) => if is_read {
            PidDiskStats { read_bytes: s.read_bytes.saturating_add(b), write_bytes: s.write_bytes }
        } else if is_write {
            PidDiskStats { read_bytes: s.read_bytes, write_bytes: s.write_bytes.saturating_add(b) }
        } else {
            s
        },
        None => PidDiskStats {
            read_bytes: if is_read {
                b
            } else {
                0
            },
            write_bytes: if is_write {
                b
            } else {
                0
            },
        },
    };
    let present = prev.is_some();
    let stored = map.upsert(comm, next);
    if present {
        ProbeOutcome::Updated
    } else if stored {
        ProbeOutcome::Inserted
    } else {
        ProbeOutcome::MapFull
    }
}

/// Law: the network counters of a process never decrease.
pub proof fn law_net_counters_monotone(s: PidNetStats, comm: [u8; 16], n: u64)
    ensures
        net_after_send(Some(s), comm, n).tx_bytes >= s.tx_bytes,
        net_after_send(Some(s), comm, n).rx_bytes == s.rx_bytes,
        net_after_recv(Some(s), comm, n).rx_bytes >= s.rx_bytes,
        net_after_recv(Some(s), comm, n).tx_bytes == s.tx_bytes,
{
}

/// Law: the disk counters of a process never decrease.
pub proof fn law_disk_counters_monotone(s: PidDiskStats, bytes: u64, is_read: bool, is_write: bool)
    ensures
        disk_after_request(Some(s), bytes, is_read, is_write).read_bytes >= s.read_bytes,
        disk_after_request(Some(s), bytes, is_read, is_write).write_bytes >= s.write_bytes,
{
}

/// Law: a write request (first `rwbs` flag `W` or `w`) adds its size to the
/// process's written bytes (saturating) and leaves its read bytes alone; a
/// read request (`R` or `r`) does the converse; any other request changes
/// nothing. A process seen for the first time starts from zero.
pub proof fn law_disk_request_direction(prev: Option<PidDiskStats>, bytes: u64, first: u8)
    ensures
        ({
            let s = match prev {
                Some(s) => s,
                None => PidDiskStats { read_bytes: 0, write_bytes: 0 },
            };
            let n = disk_after_request(prev, bytes, rwbs_direction(first).0, rwbs_direction(first).1);
            &&& (first == 87 || first == 119) ==> {
                &&& n.read_bytes == s.read_bytes
                &&& n.write_bytes == (if s.write_bytes + bytes > u64::MAX {
                    u64::MAX as int
                } else {
                    s.write_bytes + bytes
                })
            }
            &&& (first == 82 || first == 114) ==> {
                &&& n.write_bytes == s.write_bytes
                &&& n.read_bytes == (if s.read_bytes + bytes > u64::MAX {
                    u64::MAX as int
                } else {
                    s.read_bytes + bytes
                })
            }
            &&& !(first == 87 || first == 119 || first == 82 || first == 114) ==> n == s
        }),
{
}

/// Law: a send of `n` bytes adds `n` to the process's sent bytes
/// (saturating at `u64::MAX`) and leaves its received bytes alone; a receive
/// does the converse. A process seen for the first time starts from zero.
pub proof fn law_net_traffic_counted_by_direction(prev: Option<PidNetStats>, comm: [u8; 16], n: u64)
    ensures
        ({
            let (tx, rx) = match prev {
                Some(s) => (s.tx_bytes, s.rx_bytes),
                None => (0u64, 0u64),
            };
            let sent = net_after_send(prev, comm, n);
            let received = net_after_recv(prev, comm, n);
            &&& sent.rx_bytes == rx
            &&& sent.tx_bytes == (if tx + n > u64::MAX {
                u64::MAX as int
            } else {
                tx + n
            })
            &&& received.tx_bytes == tx
            &&& received.rx_bytes == (if rx + n > u64::MAX {
                u64::MAX as int
            } else {
                rx + n
            })
        }),
{
}

/// Law: a process switched in at `t_in > 0` and out at `t_out >= t_in` has
/// its CPU time grow by exactly `t_out - t_in` nanoseconds, unless that
/// would pass `u64::MAX`, where it stops.
pub proof fn law_sched_charges_elapsed_time(prev: Option<PidCpuStats>, t_in: u64, t_out: u64)
    requires
        0 < t_in <= t_out,
    ensures
        ({
            let before = match prev {
                Some(s) => s.cpu_time_ns,
                None => 0u64,
            };
            let after = cpu_sched_out(cpu_sched_in(prev, t_in), t_out).cpu_time_ns;
            after == (if before + (t_out - t_in) > u64::MAX {
                u64::MAX as int
            } else {
                before + (t_out - t_in)
            })
        }),
{
}

} // verus!
