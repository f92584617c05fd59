//! Per-application memory use from snapshots of `/proc/<pid>/status`: the
//! resident, virtual and swapped sizes of each process, summed per
//! application.
use vstd::prelude::*;

use crate::error::CollectorError;
use crate::util::sat_add;
use crate::metrics::MemoryData;
use crate::text::{chars_of, chars_eq, lines, lines_chars, parse_u64, parse_uint, split_ws, split_ws_chars, views};

verus! {

/// The memory fields read from `/proc/<pid>/status`, in KiB.
#[derive(Debug, Clone, Copy, PartialEq, Eq, Structural)]
pub struct ProcStatus {
    pub vm_rss: Option<u64>,
    pub vm_size: Option<u64>,
    pub vm_swap: Option<u64>,
}

impl Default for ProcStatus {
    fn default() -> (r: Self)
        ensures
            r.vm_rss is None,
            r.vm_size is None,
            r.vm_swap is None,
    {
        ProcStatus { vm_rss: None, vm_size: None, vm_swap: None }
    }
}

/// The value of the field `key` in the status lines: that of the last line
/// whose first word is `key` and whose second word is a number.
pub open spec fn status_field(ls: Seq<Seq<char>>, key: Seq<char>) -> Option<u64>
    decreases ls.len(),
{
    if ls.len() == 0 {
        None
    } else {
        let parts = split_ws(ls.last());
        if parts.len() >= 2 && parts[0] == key && parse_uint(parts[1], 10, u64::MAX as nat) is Some {
            Some(parse_uint(parts[1], 10, u64::MAX as nat)->0 as u64)
        } else {
            status_field(ls.drop_last(), key)
        }
    }
}

pub open spec fn rss_key() -> Seq<char> {
    seq!['V', 'm', 'R', 'S', 'S', ':']
}

pub open spec fn size_key() -> Seq<char> {
    seq!['V', 'm', 'S', 'i', 'z', 'e', ':']
}

pub open spec fn swap_key() -> Seq<char> {
    seq!['V', 'm', 'S', 'w', 'a', 'p', ':']
}

/// What the status file says of the three fields.
pub open spec fn proc_status_spec(content: Seq<char>) -> ProcStatus {
    ProcStatus {
        vm_rss: status_field(lines(content), rss_key()),
        vm_size: status_field(lines(content), size_key()),
        vm_swap: status_field(lines(content), swap_key()),
    }
}

fn key_chars(which: u8) -> (r: Vec<char>)
    requires
        which < 3,
    ensures
        which == 0 ==> r@ == rss_key(),
        which == 1 ==> r@ == size_key(),
        which == 2 ==> r@ == swap_key(),
{
    if which == 0 {
        let r = chars_of("VmRSS:");
        proof {
            reveal_strlit("VmRSS:");
        }
        assert(r@ =~= rss_key());
        r
    } else if which == 1 {
        let r = chars_of("VmSize:");
        proof {
            reveal_strlit("VmSize:");
        }
        assert(r@ =~= size_key());
        r
    } else {
        let r = chars_of("VmSwap:");
        proof {
            reveal_strlit("VmSwap:");
        }
        assert(r@ =~= swap_key());
        r
    }
}

/// Parses the contents of `/proc/<pid>/status`: the `VmRSS:`, `VmSize:` and
/// `VmSwap:` lines, whose second word is the size in KiB. Lines with fewer
/// than two words, or whose value is not a number, are passed over.
pub fn parse_proc_status(content: &str) -> (r: ProcStatus)
    ensures
        r == proc_status_spec(content@),
{
    let cs = chars_of(content);
    let ls = lines_chars(cs.as_slice());
    let ghost lv = views(ls@);
    let rss_k = key_chars(0);
    let size_k = key_chars(1);
    let swap_k = key_chars(2);
    let mut result = ProcStatus { vm_rss: None, vm_size: None, vm_swap: None };
    let mut i: usize = 0;
    assert(lv.take(0) =~= Seq::<Seq<char>>::empty());
    while i < ls.len()
        invariant
            i <= ls@.len(),
            lv == views(ls@),
            lv == lines(content@),
            rss_k@ == rss_key(),
            size_k@ == size_key(),
            swap_k@ == swap_key(),
            result.vm_rss == status_field(lv.take(i as int), rss_key()),
            result.vm_size == status_field(lv.take(i as int), size_key()),
            result.vm_swap == status_field(lv.take(i as int), swap_key()),
        decreases ls.len() - i,
    {
        assert(lv.take(i + 1).drop_last() =~= lv.take(i as int));
        assert(lv.take(i + 1).last() == ls@[i as int]@);
        let parts = split_ws_chars(ls[i].as_slice());
        let ghost pv = views(parts@);
        if parts.len() >= 2 {
            assert(pv[0] == parts@[0]@ && pv[1] == parts@[1]@);
            let value = parse_u64(parts[1].as_slice());
            if let Some(v) = value {
                if chars_eq(parts[0].as_slice(), rss_k.as_slice()) {
                    result.vm_rss = Some(v);
                } else if chars_eq(parts[0].as_slice(), size_k.as_slice()) {
                    result.vm_size = Some(v);
                } else if chars_eq(parts[0].as_slice(), swap_k.as_slice()) {
                    result.vm_swap = Some(v);
                }
            }
        }
        i = i + 1;
    }
    assert(lv.take(ls@.len() as int) =~= lv);
    result
}

/// The largest size in KiB whose size in bytes fits in a `u64`.
pub const MAX_KIB: u64 = 18014398509481983;

/// A size in KiB in bytes (`kib * 1024`).
pub fn kib_to_bytes(kib: u64) -> (r: u64)
    requires
        kib <= MAX_KIB,
    ensures
        r == kib * 1024,
{
    kib * 1024
}

/// Whether every size of `s` can be converted to bytes.
pub open spec fn status_fits(s: ProcStatus) -> bool {
    &&& (s.vm_rss matches Some(v) ==> v <= MAX_KIB)
    &&& (s.vm_size matches Some(v) ==> v <= MAX_KIB)
    &&& (s.vm_swap matches Some(v) ==> v <= MAX_KIB)
}

pub open spec fn bytes_of(v: Option<u64>) -> u64 {
    match v {
        Some(k) => (k * 1024) as u64,
        None => 0,
    }
}

/// One process of a snapshot: its name (if it could be resolved) and its
/// status (if it could be read).
#[derive(Debug, Clone)]
pub struct MemorySample {
    pub app_name: Option<String>,
    pub status: Option<ProcStatus>,
}

/// What one process adds to its application: its sizes in bytes and a
/// process count of one.
pub open spec fn process_memory(s: ProcStatus) -> MemoryData {
    MemoryData {
        rss_bytes: bytes_of(s.vm_rss),
        vms_bytes: bytes_of(s.vm_size),
        swap_bytes: bytes_of(s.vm_swap),
        process_count: 1,
    }
}

pub open spec fn sat_add_u32(a: u32, b: u32) -> u32 {
    if a + b > u32::MAX {
        u32::MAX
    } else {
        (a + b) as u32
    }
}

pub open spec fn add_memory(a: MemoryData, b: MemoryData) -> MemoryData {
    MemoryData {
        rss_bytes: sat_add(a.rss_bytes, b.rss_bytes),
        vms_bytes: sat_add(a.vms_bytes, b.vms_bytes),
        swap_bytes: sat_add(a.swap_bytes, b.swap_bytes),
        process_count: sat_add_u32(a.process_count, b.process_count),
    }
}

/// Adds one process's memory to its application's, saturating.
pub fn merge_memory_data(a: MemoryData, b: MemoryData) -> (r: MemoryData)
    ensures
        r == add_memory(a, b),
{
    MemoryData {
        rss_bytes: a.rss_bytes.saturating_add(b.rss_bytes),
        vms_bytes: a.vms_bytes.saturating_add(b.vms_bytes),
        swap_bytes: a.swap_bytes.saturating_add(b.swap_bytes),
        process_count: a.process_count.saturating_add(b.process_count),
    }
}

/// Whether a process reports more resident than virtual memory, which the
/// kernel should never do (such a process is still counted, with a
/// warning).
pub fn rss_exceeds_vms(rss_bytes: u64, vms_bytes: u64) -> (r: bool)
    ensures
        r == (rss_bytes > vms_bytes),
{
    rss_bytes > vms_bytes
}

/// Index of the entry named `name`, or -1.
pub open spec fn index_of_mem(ts: Seq<(Seq<char>, MemoryData)>, name: Seq<char>) -> int
    decreases ts.len(),
{
    if ts.len() == 0 {
        -1
    } else if ts.last().0 == name {
        ts.len() - 1
    } else {
        index_of_mem(ts.drop_last(), name)
    }
}

pub open spec fn merge_memory(ts: Seq<(Seq<char>, MemoryData)>, name: Seq<char>, m: MemoryData) -> Seq<
    (Seq<char>, MemoryData),
> {
    let i = index_of_mem(ts, name);
    if i < 0 {
        ts.push((name, m))
    } else {
        ts.update(i, (name, add_memory(ts[i].1, m)))
    }
}

/// The per-application memory of a snapshot, applications in the order in
/// which they first appear. Processes whose status or name could not be
/// read are skipped.
pub open spec fn memory_by_app(samples: Seq<MemorySample>) -> Seq<(Seq<char>, MemoryData)>
    decreases samples.len(),
{
    if samples.len() == 0 {
        seq![]
    } else {
        let rest = memory_by_app(samples.drop_last());
        let s = samples.last();
        match (s.app_name, s.status) {
            (Some(n), Some(st)) => merge_memory(rest, n@, process_memory(st)),
            _ => rest,
        }
    }
}

pub open spec fn samples_fit(samples: Seq<MemorySample>) -> bool {
    forall|i: int| 0 <= i < samples.len() ==> ((#[trigger] samples[i]).status matches Some(st) ==> status_fits(st))
}

/// The memory of one application in one snapshot.
#[derive(Debug, Clone)]
pub struct MemoryRecord {
    pub app_name: String,
    pub data: MemoryData,
}

impl View for MemoryRecord {
    type V = (Seq<char>, MemoryData);

    open spec fn view(&self) -> (Seq<char>, MemoryData) {
        (self.app_name@, self.data)
    }
}

pub open spec fn memory_views(v: Seq<MemoryRecord>) -> Seq<(Seq<char>, MemoryData)> {
    v.map_values(|r: MemoryRecord| r@)
}

fn find_memory(ts: &Vec<MemoryRecord>, name: &String) -> (r: Option<usize>)
    ensures
        match r {
            Some(i) => i as int == index_of_mem(memory_views(ts@), name@) && i < ts@.len(),
            None => index_of_mem(memory_views(ts@), name@) == -1,
        },
{
    let ghost tv = memory_views(ts@);
    let mut k = ts.len();
    assert(tv.take(k as int) =~= tv);
    while k > 0
        invariant
            k <= ts@.len(),
            tv == memory_views(ts@),
            index_of_mem(tv, name@) == index_of_mem(tv.take(k as int), name@),
        decreases k,
    {
        assert(tv.take(k as int).last() == ts@[k - 1]@);
        if ts[k - 1].app_name == *name {
            return Some(k - 1);
        }
        assert(tv.take(k as int).drop_last() =~= tv.take(k - 1));
        k = k - 1;
    }
    None
}

proof fn lemma_index_of_mem(ts: Seq<(Seq<char>, MemoryData)>, name: Seq<char>)
    ensures
        -1 <= index_of_mem(ts, name) < ts.len(),
        index_of_mem(ts, name) >= 0 ==> ts[index_of_mem(ts, name)].0 == name,
        index_of_mem(ts, name) < 0 ==> forall|k: int| 0 <= k < ts.len() ==> (#[trigger] ts[k]).0 != name,
    decreases ts.len(),
{
    if ts.len() > 0 {
        lemma_index_of_mem(ts.drop_last(), name);
        if ts.last().0 != name {
            assert forall|k: int| 0 <= k < ts.len() - 1 implies ts.drop_last()[k] == ts[k] by {}
        }
    }
}

/// Collects memory use from `/proc` snapshots.
pub struct MemoryCollector;

impl MemoryCollector {
    /// A memory collector; it needs no setup, so this always succeeds.
    pub fn new() -> (r: Result<Self, CollectorError>)
        ensures
            r is Ok,
    {
        Ok(MemoryCollector)
    }

    /// Sums a snapshot per application: sizes (KiB converted to bytes) and
    /// process counts add up, saturating.
    pub fn collect_memory(&self, samples: &Vec<MemorySample>) -> (r: Vec<MemoryRecord>)
        requires
            samples_fit(samples@),
        ensures
            memory_views(r@) == memory_by_app(samples@),
    {
        let mut r: Vec<MemoryRecord> = Vec::new();
        let mut i: usize = 0;
        assert(memory_views(r@) =~= Seq::<(Seq<char>, MemoryData)>::empty());
        while i < samples.len()
            invariant
                i <= samples@.len(),
                samples_fit(samples@),
                memory_views(r@) == memory_by_app(samples@.take(i as int)),
            decreases samples.len() - i,
        {
            let s = &samples[i];
            assert(samples@.take(i + 1).drop_last() =~= samples@.take(i as int));
            assert(samples@.take(i + 1).last() == *s);
            if let (Some(name), Some(st)) = (&s.app_name, &s.status) {
                assert(status_fits(*st));
                let m = MemoryData {
                    rss_bytes: match st.vm_rss {
                        Some(k) => kib_to_bytes(k),
                        None => 0,
                    },
                    vms_bytes: match st.vm_size {
                        Some(k) => kib_to_bytes(k),
                        None => 0,
                    },
                    swap_bytes: match st.vm_swap {
                        Some(k) => kib_to_bytes(k),
                        None => 0,
                    },
                    process_count: 1,
                };
                assert(m == process_memory(*st));
                let ghost before = memory_views(r@);
                proof {
                    lemma_index_of_mem(before, name@);
                }
                match find_memory(&r, name) {
                    None => {
                        r.push(MemoryRecord { app_name: name.clone(), data: m });
                        assert(memory_views(r@) =~= before.push((name@, m)));
                    },
                    Some(j) => {
                        let merged = merge_memory_data(r[j].data, m);
                        r.set(j, MemoryRecord { app_name: name.clone(), data: merged });
                        assert(memory_views(r@) =~= before.update(
                            j as int,
                            (name@, add_memory(before[j as int].1, m)),
                        ));
                    },
                }
            }
            i = i + 1;
        }
        assert(samples@.take(samples@.len() as int) =~= samples@);
        r
    }
}

/// Law: a snapshot names each application once, and each named application
/// has at least one process.
pub proof fn law_memory_apps_distinct_and_counted(samples: Seq<MemorySample>)
    ensures
        forall|i: int, j: int|
            0 <= i < j < memory_by_app(samples).len() ==> (#[trigger] memory_by_app(samples)[i]).0
                != (#[trigger] memory_by_app(samples)[j]).0,
        forall|i: int|
            0 <= i < memory_by_app(samples).len() ==> (#[trigger] memory_by_app(samples)[i]).1.process_count
                >= 1,
    decreases samples.len(),
{
    if samples.len() > 0 {
        law_memory_apps_distinct_and_counted(samples.drop_last());
        let rest = memory_by_app(samples.drop_last());
        let t = memory_by_app(samples);
        let s = samples.last();
        if let (Some(n), Some(st)) = (s.app_name, s.status) {
            lemma_index_of_mem(rest, n@);
            let k = index_of_mem(rest, n@);
            assert forall|i: int, j: int| 0 <= i < j < t.len() implies (#[trigger] t[i]).0 != (
            #[trigger] t[j]).0 by {
                if k < 0 && j == rest.len() {
                    assert(t[i] == rest[i]);
                } else {
                    if i != k {
                        assert(t[i] == rest[i]);
                    }
                    if j != k {
                        assert(t[j] == rest[j]);
                    }
                }
            }
            assert forall|i: int| 0 <= i < t.len() implies (#[trigger] t[i]).1.process_count >= 1 by {
                if i < rest.len() && i != k {
                    assert(t[i] == rest[i]);
                }
            }
        }
    }
}

/// The memory recorded for `name`, if any.
pub open spec fn memory_lookup(ts: Seq<(Seq<char>, MemoryData)>, name: Seq<char>) -> Option<MemoryData> {
    let i = index_of_mem(ts, name);
    if i < 0 {
        None
    } else {
        Some(ts[i].1)
    }
}

/// The memory of the counted processes named `name`, added in order
/// (saturating); `None` when there is none.
pub open spec fn memory_total(samples: Seq<MemorySample>, name: Seq<char>) -> Option<MemoryData>
    decreases samples.len(),
{
    if samples.len() == 0 {
        None
    } else {
        let rest = memory_total(samples.drop_last(), name);
        let s = samples.last();
        match (s.app_name, s.status) {
            (Some(n), Some(st)) => if n@ == name {
                match rest {
                    Some(m) => Some(add_memory(m, process_memory(st))),
                    None => Some(process_memory(st)),
                }
            } else {
                rest
            },
            _ => rest,
        }
    }
}

proof fn lemma_index_mem_same_names(a: Seq<(Seq<char>, MemoryData)>, b: Seq<(Seq<char>, MemoryData)>, n: Seq<char>)
    requires
        a.len() == b.len(),
        forall|k: int| 0 <= k < a.len() ==> (#[trigger] a[k]).0 == b[k].0,
    ensures
        index_of_mem(a, n) == index_of_mem(b, n),
    decreases a.len(),
{
    if a.len() > 0 {
        assert(a.last().0 == b.last().0);
        assert forall|k: int| 0 <= k < a.drop_last().len() implies (#[trigger] a.drop_last()[k]).0
            == b.drop_last()[k].0 by {
            assert(a.drop_last()[k] == a[k]);
            assert(b.drop_last()[k] == b[k]);
        }
        lemma_index_mem_same_names(a.drop_last(), b.drop_last(), n);
    }
}

/// Law: each application's memory is the sum over its own processes, and
/// over no other application's.
pub proof fn law_memory_is_per_app_sum(samples: Seq<MemorySample>, name: Seq<char>)
    ensures
        memory_lookup(memory_by_app(samples), name) == memory_total(samples, name),
    decreases samples.len(),
{
    if samples.len() > 0 {
        law_memory_is_per_app_sum(samples.drop_last(), name);
        let ts = memory_by_app(samples.drop_last());
        let s = samples.last();
        lemma_index_of_mem(ts, name);
        if let (Some(n), Some(st)) = (s.app_name, s.status) {
            lemma_index_of_mem(ts, n@);
            let i = index_of_mem(ts, n@);
            let r = merge_memory(ts, n@, process_memory(st));
            if i < 0 {
                assert(r.drop_last() =~= ts);
                if n@ != name {
                    assert(index_of_mem(r, name) == index_of_mem(ts, name));
                }
            } else {
                assert forall|k: int| 0 <= k < r.len() implies (#[trigger] r[k]).0 == ts[k].0 by {}
                lemma_index_mem_same_names(r, ts, name);
                let j = index_of_mem(ts, name);
                if n@ == name {
                    assert(j == i);
                } else if j >= 0 {
                    assert(j != i);
                    assert(r[j] == ts[j]);
                }
            }
        }
    }
}

} // verus!
