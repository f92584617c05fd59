//! Per-process GPU usage between two polls of the DRM fdinfo counters.
use vstd::prelude::*;

use crate::gpu::fdinfo::{
    aggregate_fds, aggregate_process_fds, string_views, DrmFdStats,
    GpuProcView, ProcessGpuStats,
};
use crate::text::{chars_of, dec_chars, label_with_number, string_of, trim, trim_chars};
use crate::util::{pid_label, pid_label_spec, sat_add, sat_sub};

verus! {

/// One process's use of one GPU, as scanned from `/proc`.
#[derive(Debug, Clone)]
pub struct ProcessGpuEntry {
    pub pid: u32,
    pub app_name: String,
    pub stats: ProcessGpuStats,
}

pub ghost struct EntryView {
    pub pid: u32,
    pub app_name: Seq<char>,
    pub stats: GpuProcView,
}

impl View for ProcessGpuEntry {
    type V = EntryView;

    open spec fn view(&self) -> EntryView {
        EntryView { pid: self.pid, app_name: self.app_name@, stats: self.stats@ }
    }
}

pub open spec fn entry_views(v: Seq<ProcessGpuEntry>) -> Seq<EntryView> {
    v.map_values(|e: ProcessGpuEntry| e@)
}

/// The name of a process in GPU records: its trimmed `comm`, or `pid:<pid>`
/// when `comm` could not be read.
pub open spec fn gpu_app_name(pid: u32, comm: Option<Seq<char>>) -> Seq<char> {
    match comm {
        Some(c) => trim(c),
        None => pid_label_spec(pid),
    }
}

/// The entries of one process: one per known GPU that its DRM descriptors use.
pub fn process_gpu_entries(
    pid: u32,
    comm: Option<&str>,
    fds: &Vec<DrmFdStats>,
    known_pdevs: &Vec<String>,
) -> (r: Vec<ProcessGpuEntry>)
    ensures
        r@.len() == aggregate_fds(fds@.map_values(|f: DrmFdStats| f@), string_views(known_pdevs@)).len(),
        forall|i: int|
            0 <= i < r@.len() ==> (#[trigger] r@[i])@ == (EntryView {
                pid,
                app_name: gpu_app_name(
                    pid,
                    match comm {
                        Some(c) => Some(c@),
                        None => None,
                    },
                ),
                stats: aggregate_fds(
                    fds@.map_values(|f: DrmFdStats| f@),
                    string_views(known_pdevs@),
                )[i],
            }),
{
    let app_name = match comm {
        Some(c) => {
            let cs = chars_of(c);
            string_of(trim_chars(cs.as_slice()).as_slice())
        },
        None => pid_label(pid),
    };
    let groups = aggregate_process_fds(fds, known_pdevs);
    let ghost gv = groups@.map_values(|g: ProcessGpuStats| g@);
    let mut r: Vec<ProcessGpuEntry> = Vec::new();
    let mut i: usize = 0;
    while i < groups.len()
        invariant
            i <= groups@.len(),
            gv == groups@.map_values(|g: ProcessGpuStats| g@),
            r@.len() == i,
            forall|k: int|
                0 <= k < i ==> (#[trigger] r@[k])@ == (EntryView {
                    pid,
                    app_name: app_name@,
                    stats: gv[k],
                }),
        decreases groups.len() - i,
    {
        let g = ProcessGpuStats {
            pdev: groups[i].pdev.clone(),
            engine_time: groups[i].engine_time,
            total_cycles: groups[i].total_cycles,
            is_cycles_schema: groups[i].is_cycles_schema,
            vram_bytes: groups[i].vram_bytes,
        };
        r.push(ProcessGpuEntry { pid, app_name: app_name.clone(), stats: g });
        i = i + 1;
    }
    r
}

/// Parses a `/proc` entry name as a PID: only all-digit names are PIDs.
pub fn parse_pid_dir(name: &str) -> (r: Option<u32>)
    ensures
        match r {
            Some(p) => crate::text::all_ascii_digits(name@) && crate::text::parse_uint(
                name@,
                10,
                u32::MAX as nat,
            ) == Some(p as nat),
            None => !crate::text::all_ascii_digits(name@) || crate::text::parse_uint(
                name@,
                10,
                u32::MAX as nat,
            ) is None,
        },
{
    let cs = chars_of(name);
    let mut i: usize = 0;
    while i < cs.len()
        invariant
            i <= cs@.len(),
            cs@ == name@,
            forall|k: int| 0 <= k < i ==> 48 <= (#[trigger] cs@[k]) as u32 <= 57,
        decreases cs.len() - i,
    {
        let n = cs[i] as u32;
        if n < 48 || n > 57 {
            return None;
        }
        i = i + 1;
    }
    assert(cs@.subrange(0, cs@.len() as int) =~= cs@);
    match crate::text::parse_uint_range(cs.as_slice(), 0, cs.len(), 10, u32::MAX as u64) {
        Some(v) => Some(v as u32),
        None => None,
    }
}

/// `format!("gpu:{}", index)`: the application name of a GPU's own record.
pub fn gpu_record_name(index: u32) -> (r: String)
    ensures
        r@ == "gpu:"@ + dec_chars(index as nat),
{
    label_with_number("gpu:", index as u64)
}

// ---------------------------------------------------------------------------
// Usage between two polls
// ---------------------------------------------------------------------------

/// The counters of one process on one GPU at the previous poll.
#[derive(Debug, Clone, Copy, PartialEq, Eq, Structural)]
pub struct FdinfoSnapshot {
    pub engine_time: u64,
    pub total_cycles: u64,
    pub is_cycles_schema: bool,
}

/// A snapshot together with its key `(pid, pdev)`.
#[derive(Debug, Clone)]
pub struct KeyedSnapshot {
    pub pid: u32,
    pub pdev: String,
    pub snapshot: FdinfoSnapshot,
}

pub ghost struct KeyedSnapshotView {
    pub pid: u32,
    pub pdev: Seq<char>,
    pub snapshot: FdinfoSnapshot,
}

impl View for KeyedSnapshot {
    type V = KeyedSnapshotView;

    open spec fn view(&self) -> KeyedSnapshotView {
        KeyedSnapshotView { pid: self.pid, pdev: self.pdev@, snapshot: self.snapshot }
    }
}

pub open spec fn snapshot_views(v: Seq<KeyedSnapshot>) -> Seq<KeyedSnapshotView> {
    v.map_values(|k: KeyedSnapshot| k@)
}

pub open spec fn zero_snapshot() -> FdinfoSnapshot {
    FdinfoSnapshot { engine_time: 0, total_cycles: 0, is_cycles_schema: false }
}

/// The snapshot recorded last for `(pid, pdev)`, or zero counters.
pub open spec fn lookup_snapshot(prev: Seq<KeyedSnapshotView>, pid: u32, pdev: Seq<char>) -> FdinfoSnapshot
    decreases prev.len(),
{
    if prev.len() == 0 {
        zero_snapshot()
    } else if prev.last().pid == pid && prev.last().pdev == pdev {
        prev.last().snapshot
    } else {
        lookup_snapshot(prev.drop_last(), pid, pdev)
    }
}

/// The snapshots to keep for the next poll: one per scanned entry.
pub open spec fn snapshots_of(es: Seq<EntryView>) -> Seq<KeyedSnapshotView> {
    es.map_values(
        |e: EntryView|
            KeyedSnapshotView {
                pid: e.pid,
                pdev: e.stats.pdev,
                snapshot: FdinfoSnapshot {
                    engine_time: e.stats.engine_time,
                    total_cycles: e.stats.total_cycles,
                    is_cycles_schema: e.stats.is_cycles_schema,
                },
            },
    )
}

/// A share of a GPU: `numerator / denominator` of it, i.e.
/// `numerator / denominator * 100` percent.
#[derive(Debug, Clone, Copy, PartialEq, Eq, Structural)]
pub struct UsageRatio {
    pub numerator: u64,
    pub denominator: u64,
}

/// A process's share of a GPU since the previous poll. Cycle counters
/// (Intel, NVIDIA): engine cycles over total cycles elapsed, when some elapsed.
/// Nanosecond counters (AMD): engine time over the poll interval, when both
/// are non-zero.
pub open spec fn process_usage(stats: GpuProcView, prev: FdinfoSnapshot, interval_ns: u64) -> Option<
    UsageRatio,
> {
    if stats.is_cycles_schema {
        let delta_cycles = sat_sub(stats.engine_time, prev.engine_time);
        let delta_total = sat_sub(stats.total_cycles, prev.total_cycles);
        if delta_total > 0 {
            Some(UsageRatio { numerator: delta_cycles, denominator: delta_total })
        } else {
            None
        }
    } else {
        let delta_ns = sat_sub(stats.engine_time, prev.engine_time);
        if interval_ns > 0 && delta_ns > 0 {
            Some(UsageRatio { numerator: delta_ns, denominator: interval_ns })
        } else {
            None
        }
    }
}

/// The GPU index of the backend at PCI address `pdev` (the last one listed).
pub open spec fn index_for_pdev(backends: Seq<(Seq<char>, u32)>, pdev: Seq<char>) -> Option<u32>
    decreases backends.len(),
{
    if backends.len() == 0 {
        None
    } else if backends.last().0 == pdev {
        Some(backends.last().1)
    } else {
        index_for_pdev(backends.drop_last(), pdev)
    }
}

/// One application's use of one GPU during the interval.
#[derive(Debug, Clone)]
pub struct AppGpuUsage {
    pub app_name: String,
    pub pdev: String,
    pub gpu_index: u32,
    /// The share of each of the application's processes that reported one.
    pub usages: Vec<UsageRatio>,
    pub vram_bytes: u64,
}

pub ghost struct AppGpuView {
    pub app_name: Seq<char>,
    pub pdev: Seq<char>,
    pub gpu_index: u32,
    pub usages: Seq<UsageRatio>,
    pub vram_bytes: u64,
}

impl View for AppGpuUsage {
    type V = AppGpuView;

    open spec fn view(&self) -> AppGpuView {
        AppGpuView {
            app_name: self.app_name@,
            pdev: self.pdev@,
            gpu_index: self.gpu_index,
            usages: self.usages@,
            vram_bytes: self.vram_bytes,
        }
    }
}

pub open spec fn usage_views(v: Seq<AppGpuUsage>) -> Seq<AppGpuView> {
    v.map_values(|u: AppGpuUsage| u@)
}

/// Index of the group of `(app, pdev)`, or -1.
pub open spec fn index_of_app_gpu(gs: Seq<AppGpuView>, app: Seq<char>, pdev: Seq<char>) -> int
    decreases gs.len(),
{
    if gs.len() == 0 {
        -1
    } else if gs.last().app_name == app && gs.last().pdev == pdev {
        gs.len() - 1
    } else {
        index_of_app_gpu(gs.drop_last(), app, pdev)
    }
}

/// Folds one process entry into the per-(application, GPU) groups.
pub open spec fn merge_usage(
    gs: Seq<AppGpuView>,
    e: EntryView,
    prev: Seq<KeyedSnapshotView>,
    backends: Seq<(Seq<char>, u32)>,
    interval_ns: u64,
) -> Seq<AppGpuView> {
    let u = process_usage(e.stats, lookup_snapshot(prev, e.pid, e.stats.pdev), interval_ns);
    let i = index_of_app_gpu(gs, e.app_name, e.stats.pdev);
    let base = if i < 0 {
        AppGpuView {
            app_name: e.app_name,
            pdev: e.stats.pdev,
            gpu_index: 0,
            usages: seq![],
            vram_bytes: 0,
        }
    } else {
        gs[i]
    };
    let updated = AppGpuView {
        usages: match u {
            Some(x) => base.usages.push(x),
            None => base.usages,
        },
        vram_bytes: sat_add(base.vram_bytes, e.stats.vram_bytes),
        gpu_index: match index_for_pdev(backends, e.stats.pdev) {
            Some(ix) => ix,
            None => base.gpu_index,
        },
        ..base
    };
    if i < 0 {
        gs.push(updated)
    } else {
        gs.update(i, updated)
    }
}

/// Per-(application, GPU) usage of the scanned entries, groups in the order
/// in which they first appear.
pub open spec fn aggregate_usage(
    es: Seq<EntryView>,
    prev: Seq<KeyedSnapshotView>,
    backends: Seq<(Seq<char>, u32)>,
    interval_ns: u64,
) -> Seq<AppGpuView>
    decreases es.len(),
{
    if es.len() == 0 {
        seq![]
    } else {
        merge_usage(
            aggregate_usage(es.drop_last(), prev, backends, interval_ns),
            es.last(),
            prev,
            backends,
            interval_ns,
        )
    }
}

pub open spec fn backend_views(v: Seq<(String, u32)>) -> Seq<(Seq<char>, u32)> {
    v.map_values(|b: (String, u32)| (b.0@, b.1))
}

fn find_snapshot(prev: &Vec<KeyedSnapshot>, pid: u32, pdev: &String) -> (r: FdinfoSnapshot)
    ensures
        r == lookup_snapshot(snapshot_views(prev@), pid, pdev@),
{
    let ghost pv = snapshot_views(prev@);
    let mut k = prev.len();
    assert(pv.take(k as int) =~= pv);
    while k > 0
        invariant
            k <= prev@.len(),
            pv == snapshot_views(prev@),
            lookup_snapshot(pv, pid, pdev@) == lookup_snapshot(pv.take(k as int), pid, pdev@),
        decreases k,
    {
        assert(pv.take(k as int).last() == prev@[k - 1]@);
        if prev[k - 1].pid == pid && prev[k - 1].pdev == *pdev {
            return prev[k - 1].snapshot;
        }
        assert(pv.take(k as int).drop_last() =~= pv.take(k - 1));
        k = k - 1;
    }
    FdinfoSnapshot { engine_time: 0, total_cycles: 0, is_cycles_schema: false }
}

fn find_backend_index(backends: &Vec<(String, u32)>, pdev: &String) -> (r: Option<u32>)
    ensures
        r == index_for_pdev(backend_views(backends@), pdev@),
{
    let ghost bv = backend_views(backends@);
    let mut k = backends.len();
    assert(bv.take(k as int) =~= bv);
    while k > 0
        invariant
            k <= backends@.len(),
            bv == backend_views(backends@),
            index_for_pdev(bv, pdev@) == index_for_pdev(bv.take(k as int), pdev@),
        decreases k,
    {
        assert(bv.take(k as int).last() == (backends@[k - 1].0@, backends@[k - 1].1));
        if backends[k - 1].0 == *pdev {
            return Some(backends[k - 1].1);
        }
        assert(bv.take(k as int).drop_last() =~= bv.take(k - 1));
        k = k - 1;
    }
    None
}

fn find_app_gpu(gs: &Vec<AppGpuUsage>, app: &String, pdev: &String) -> (r: Option<usize>)
    ensures
        match r {
            Some(i) => i < gs@.len() && index_of_app_gpu(usage_views(gs@), app@, pdev@) == i,
            None => index_of_app_gpu(usage_views(gs@), app@, pdev@) < 0,
        },
{
    let ghost gv = usage_views(gs@);
    let mut k = gs.len();
    assert(gv.take(k as int) =~= gv);
    while k > 0
        invariant
            k <= gs@.len(),
            gv == usage_views(gs@),
            index_of_app_gpu(gv, app@, pdev@) == index_of_app_gpu(gv.take(k as int), app@, pdev@),
        decreases k,
    {
        assert(gv.take(k as int).last() == gs@[k - 1]@);
        if gs[k - 1].app_name == *app && gs[k - 1].pdev == *pdev {
            return Some(k - 1);
        }
        assert(gv.take(k as int).drop_last() =~= gv.take(k - 1));
        k = k - 1;
    }
    None
}

fn copy_usages(v: &Vec<UsageRatio>) -> (r: Vec<UsageRatio>)
    ensures
        r@ == v@,
{
    let mut r: Vec<UsageRatio> = Vec::new();
    let mut i: usize = 0;
    while i < v.len()
        invariant
            i <= v@.len(),
            r@ == v@.take(i as int),
        decreases v.len() - i,
    {
        r.push(v[i]);
        i = i + 1;
        assert(r@ =~= v@.take(i as int));
    }
    assert(v@.take(v@.len() as int) =~= v@);
    r
}

/// The share of each process of each application on each GPU since the
/// previous poll, with the VRAM its processes hold; `backends` lists the PCI
/// address and index of each GPU.
pub fn aggregate_gpu_usage(
    entries: &Vec<ProcessGpuEntry>,
    prev: &Vec<KeyedSnapshot>,
    backends: &Vec<(String, u32)>,
    interval_ns: u64,
) -> (r: Vec<AppGpuUsage>)
    ensures
        usage_views(r@) == aggregate_usage(
            entry_views(entries@),
            snapshot_views(prev@),
            backend_views(backends@),
            interval_ns,
        ),
{
    let ghost ev = entry_views(entries@);
    let ghost pv = snapshot_views(prev@);
    let ghost bv = backend_views(backends@);
    let mut gs: Vec<AppGpuUsage> = Vec::new();
    let mut i: usize = 0;
    assert(ev.take(0) =~= Seq::<EntryView>::empty());
    assert(usage_views(gs@) =~= Seq::<AppGpuView>::empty());
    while i < entries.len()
        invariant
            i <= entries@.len(),
            ev == entry_views(entries@),
            pv == snapshot_views(prev@),
            bv == backend_views(backends@),
            usage_views(gs@) == aggregate_usage(ev.take(i as int), pv, bv, interval_ns),
        decreases entries.len() - i,
    {
        let e = &entries[i];
        let ghost before = usage_views(gs@);
        assert(ev.take(i + 1).drop_last() =~= ev.take(i as int));
        assert(ev.take(i + 1).last() == e@);
        let snap = find_snapshot(prev, e.pid, &e.stats.pdev);
        let usage: Option<UsageRatio> = if e.stats.is_cycles_schema {
            let delta_cycles = e.stats.engine_time.saturating_sub(snap.engine_time);
            let delta_total = e.stats.total_cycles.saturating_sub(snap.total_cycles);
            if delta_total > 0 {
                Some(UsageRatio { numerator: delta_cycles, denominator: delta_total })
            } else {
                None
            }
        } else {
            let delta_ns = e.stats.engine_time.saturating_sub(snap.engine_time);
            if interval_ns > 0 && delta_ns > 0 {
                Some(UsageRatio { numerator: delta_ns, denominator: interval_ns })
            } else {
                None
            }
        };
        assert(usage == process_usage(e@.stats, lookup_snapshot(pv, e.pid, e@.stats.pdev), interval_ns));
        let ix = find_backend_index(backends, &e.stats.pdev);
        match find_app_gpu(&gs, &e.app_name, &e.stats.pdev) {
            None => {
                let mut usages: Vec<UsageRatio> = Vec::new();
                if let Some(u) = usage {
                    usages.push(u);
                }
                let g = AppGpuUsage {
                    app_name: e.app_name.clone(),
                    pdev: e.stats.pdev.clone(),
                    gpu_index: match ix {
                        Some(x) => x,
                        None => 0,
                    },
                    usages,
                    vram_bytes: e.stats.vram_bytes,
                };
                gs.push(g);
                assert(usage_views(gs@) =~= merge_usage(before, e@, pv, bv, interval_ns)) by {
                    assert(usage_views(gs@).last().usages =~= merge_usage(
                        before,
                        e@,
                        pv,
                        bv,
                        interval_ns,
                    ).last().usages);
                }
            },
            Some(j) => {
                let mut usages = copy_usages(&gs[j].usages);
                if let Some(u) = usage {
                    usages.push(u);
                }
                let g = AppGpuUsage {
                    app_name: gs[j].app_name.clone(),
                    pdev: gs[j].pdev.clone(),
                    gpu_index: match ix {
                        Some(x) => x,
                        None => gs[j].gpu_index,
                    },
                    usages,
                    vram_bytes: gs[j].vram_bytes.saturating_add(e.stats.vram_bytes),
                };
                gs.set(j, g);
                assert(usage_views(gs@) =~= merge_usage(before, e@, pv, bv, interval_ns));
            },
        }
        i = i + 1;
    }
    assert(ev.take(entries@.len() as int) =~= ev);
    gs
}

/// The snapshots of the scanned entries, to compare the next poll against.
pub fn snapshot_entries(entries: &Vec<ProcessGpuEntry>) -> (r: Vec<KeyedSnapshot>)
    ensures
        snapshot_views(r@) == snapshots_of(entry_views(entries@)),
{
    let mut r: Vec<KeyedSnapshot> = Vec::new();
    let mut i: usize = 0;
    while i < entries.len()
        invariant
            i <= entries@.len(),
            snapshot_views(r@) == snapshots_of(entry_views(entries@)).take(i as int),
        decreases entries.len() - i,
    {
        let e = &entries[i];
        let ghost before = snapshot_views(r@);
        r.push(
            KeyedSnapshot {
                pid: e.pid,
                pdev: e.stats.pdev.clone(),
                snapshot: FdinfoSnapshot {
                    engine_time: e.stats.engine_time,
                    total_cycles: e.stats.total_cycles,
                    is_cycles_schema: e.stats.is_cycles_schema,
                },
            },
        );
        assert(snapshot_views(r@) =~= before.push(r@[i as int]@));
        assert(entry_views(entries@)[i as int] == e@);
        assert(snapshots_of(entry_views(entries@))[i as int] == r@[i as int]@);
        i = i + 1;
        assert(snapshot_views(r@) =~= snapshots_of(entry_views(entries@)).take(i as int));
    }
    assert(snapshots_of(entry_views(entries@)).take(entries@.len() as int) =~= snapshots_of(
        entry_views(entries@),
    ));
    r
}

/// The PCI addresses of the GPUs whose processes are tracked: the non-empty
/// addresses of the backends, in order.
pub fn known_pdevs(backends: &Vec<(String, u32)>) -> (r: Vec<String>)
    ensures
        string_views(r@) == backend_views(backends@).map_values(|b: (Seq<char>, u32)| b.0).filter(
            |a: Seq<char>| a.len() > 0,
        ),
{
    let ghost addrs = backend_views(backends@).map_values(|b: (Seq<char>, u32)| b.0);
    let ghost pred = |a: Seq<char>| a.len() > 0;
    let mut r: Vec<String> = Vec::new();
    let mut i: usize = 0;
    assert(addrs.take(0) =~= Seq::<Seq<char>>::empty());
    assert(string_views(r@) =~= Seq::<Seq<char>>::empty());
    while i < backends.len()
        invariant
            i <= backends@.len(),
            addrs == backend_views(backends@).map_values(|b: (Seq<char>, u32)| b.0),
            pred == (|a: Seq<char>| a.len() > 0),
            string_views(r@) == addrs.take(i as int).filter(pred),
        decreases backends.len() - i,
    {
        reveal_with_fuel(Seq::<_>::filter, 1);
        let ghost before = string_views(r@);
        assert(addrs.take(i + 1).drop_last() =~= addrs.take(i as int));
        assert(addrs.take(i + 1).last() == backends@[i as int].0@);
        if !backends[i].0.as_str().is_empty() {
            r.push(backends[i].0.clone());
            assert(string_views(r@) =~= before.push(backends@[i as int].0@));
        } else {
            assert(backends@[i as int].0@.len() == 0);
        }
        i = i + 1;
    }
    assert(addrs.take(backends@.len() as int) =~= addrs);
    r
}

/// Tracks the fdinfo counters between polls.
pub struct GpuProcessTracker {
    pub prev: Vec<KeyedSnapshot>,
}

impl GpuProcessTracker {
    /// A tracker that has seen no poll yet.
    pub fn new() -> (t: Self)
        ensures
            t.prev@.len() == 0,
    {
        GpuProcessTracker { prev: Vec::new() }
    }

    /// One poll: the per-application usage against the previous poll, after
    /// which the scanned counters become the previous ones.
    pub fn poll(
        &mut self,
        entries: &Vec<ProcessGpuEntry>,
        backends: &Vec<(String, u32)>,
        interval_ns: u64,
    ) -> (r: Vec<AppGpuUsage>)
        ensures
            usage_views(r@) == aggregate_usage(
                entry_views(entries@),
                snapshot_views(old(self).prev@),
                backend_views(backends@),
                interval_ns,
            ),
            snapshot_views(final(self).prev@) == snapshots_of(entry_views(entries@)),
    {
        let r = aggregate_gpu_usage(entries, &self.prev, backends, interval_ns);
        self.prev = snapshot_entries(entries);
        r
    }
}

/// Whether no two entries share a `(pid, pdev)` key.
pub open spec fn distinct_keys(es: Seq<EntryView>) -> bool {
    forall|i: int, j: int|
        0 <= i < j < es.len() ==> !((#[trigger] es[i]).pid == (#[trigger] es[j]).pid
            && es[i].stats.pdev == es[j].stats.pdev)
}

proof fn lemma_lookup_own_snapshot(es: Seq<EntryView>, k: int)
    requires
        distinct_keys(es),
        0 <= k < es.len(),
    ensures
        lookup_snapshot(snapshots_of(es), es[k].pid, es[k].stats.pdev) == (FdinfoSnapshot {
            engine_time: es[k].stats.engine_time,
            total_cycles: es[k].stats.total_cycles,
            is_cycles_schema: es[k].stats.is_cycles_schema,
        }),
    decreases es.len(),
{
    let sv = snapshots_of(es);
    if k == es.len() - 1 {
    } else {
        let last = es.len() - 1;
        assert(sv.last().pid != es[k].pid || sv.last().pdev != es[k].stats.pdev);
        assert(sv.drop_last() =~= snapshots_of(es.drop_last()));
        assert forall|i: int, j: int|
            0 <= i < j < es.drop_last().len() implies !((#[trigger] es.drop_last()[i]).pid == (
            #[trigger] es.drop_last()[j]).pid && es.drop_last()[i].stats.pdev
            == es.drop_last()[j].stats.pdev) by {
            assert(es.drop_last()[i] == es[i]);
            assert(es.drop_last()[j] == es[j]);
        }
        lemma_lookup_own_snapshot(es.drop_last(), k);
    }
}

proof fn lemma_repeat_poll_prefix(
    es: Seq<EntryView>,
    n: int,
    backends: Seq<(Seq<char>, u32)>,
    interval_ns: u64,
)
    requires
        distinct_keys(es),
        0 <= n <= es.len(),
    ensures
        forall|g: int|
            0 <= g < aggregate_usage(es.take(n), snapshots_of(es), backends, interval_ns).len()
                ==> (#[trigger] aggregate_usage(
                es.take(n),
                snapshots_of(es),
                backends,
                interval_ns,
            )[g]).usages.len() == 0,
    decreases n,
{
    if n > 0 {
        lemma_repeat_poll_prefix(es, n - 1, backends, interval_ns);
        assert(es.take(n).drop_last() =~= es.take(n - 1));
        assert(es.take(n).last() == es[n - 1]);
        lemma_lookup_own_snapshot(es, n - 1);
        let prev = snapshots_of(es);
        let a = aggregate_usage(es.take(n - 1), prev, backends, interval_ns);
        let e = es[n - 1];
        assert(aggregate_usage(es.take(n), prev, backends, interval_ns) == merge_usage(
            a,
            e,
            prev,
            backends,
            interval_ns,
        ));
        assert(process_usage(e.stats, lookup_snapshot(prev, e.pid, e.stats.pdev), interval_ns)
            is None);
        lemma_index_of_app_gpu(a, e.app_name, e.stats.pdev);
    }
}

proof fn lemma_index_of_app_gpu(gs: Seq<AppGpuView>, app: Seq<char>, pdev: Seq<char>)
    ensures
        -1 <= index_of_app_gpu(gs, app, pdev) < gs.len(),
    decreases gs.len(),
{
    if gs.len() > 0 {
        lemma_index_of_app_gpu(gs.drop_last(), app, pdev);
    }
}

/// Law: polling twice over counters that did not advance reports, at the
/// second poll, no share of any GPU for any process.
pub proof fn law_repeated_poll_reports_no_usage(
    es: Seq<EntryView>,
    backends: Seq<(Seq<char>, u32)>,
    interval_ns: u64,
)
    requires
        distinct_keys(es),
    ensures
        forall|g: int|
            0 <= g < aggregate_usage(es, snapshots_of(es), backends, interval_ns).len()
                ==> (#[trigger] aggregate_usage(es, snapshots_of(es), backends, interval_ns)[g]).usages.len()
                == 0,
{
    lemma_repeat_poll_prefix(es, es.len() as int, backends, interval_ns);
    assert(es.take(es.len() as int) =~= es);
}

/// Law: on cycle counters (Intel, NVIDIA), a process's share of a GPU is
/// reported exactly when the total-cycle counter grew since the previous
/// poll; its numerator is the growth of the engine-cycle counter (zero when
/// it went down) and its denominator the growth of the total-cycle counter.
/// So for counters that only grow, with engine growth within total growth,
/// the share never exceeds the whole GPU.
pub proof fn law_cycles_share_is_counter_growth(stats: GpuProcView, prev: FdinfoSnapshot, interval_ns: u64)
    requires
        stats.is_cycles_schema,
    ensures
        (process_usage(stats, prev, interval_ns) is Some) == (stats.total_cycles > prev.total_cycles),
        process_usage(stats, prev, interval_ns) matches Some(u) ==> {
            &&& u.denominator == stats.total_cycles - prev.total_cycles
            &&& stats.engine_time >= prev.engine_time ==> u.numerator == stats.engine_time
                - prev.engine_time
            &&& stats.engine_time < prev.engine_time ==> u.numerator == 0
        },
        prev.engine_time <= stats.engine_time && stats.engine_time - prev.engine_time
            <= stats.total_cycles - prev.total_cycles ==> (process_usage(stats, prev, interval_ns) matches Some(
            u,
        ) ==> u.numerator <= u.denominator),
{
}

/// Law: a single process polled on one GPU against its own previous
/// snapshot, on cycle counters that both grew, gets one group whose one share
/// is its engine-cycle growth over its total-cycle growth.
pub proof fn law_single_process_cycles_share(
    e: EntryView,
    p: FdinfoSnapshot,
    backends: Seq<(Seq<char>, u32)>,
    interval_ns: u64,
)
    requires
        e.stats.is_cycles_schema,
        e.stats.total_cycles > p.total_cycles,
        e.stats.engine_time >= p.engine_time,
    ensures
        ({
            let g = aggregate_usage(
                seq![e],
                seq![KeyedSnapshotView { pid: e.pid, pdev: e.stats.pdev, snapshot: p }],
                backends,
                interval_ns,
            );
            &&& g.len() == 1
            &&& g[0].app_name == e.app_name
            &&& g[0].usages == seq![
                UsageRatio {
                    numerator: (e.stats.engine_time - p.engine_time) as u64,
                    denominator: (e.stats.total_cycles - p.total_cycles) as u64,
                },
            ]
        }),
{
    let es = seq![e];
    let prev = seq![KeyedSnapshotView { pid: e.pid, pdev: e.stats.pdev, snapshot: p }];
    assert(es.drop_last() =~= Seq::<EntryView>::empty());
    assert(prev.drop_last() =~= Seq::<KeyedSnapshotView>::empty());
    assert(lookup_snapshot(prev, e.pid, e.stats.pdev) == p);
    let u = UsageRatio {
        numerator: (e.stats.engine_time - p.engine_time) as u64,
        denominator: (e.stats.total_cycles - p.total_cycles) as u64,
    };
    assert(process_usage(e.stats, p, interval_ns) == Some(u));
    assert(aggregate_usage(es.drop_last(), prev, backends, interval_ns) =~= Seq::<AppGpuView>::empty());
    assert(index_of_app_gpu(Seq::<AppGpuView>::empty(), e.app_name, e.stats.pdev) == -1);
    assert(es.last() == e);
    let g = aggregate_usage(es, prev, backends, interval_ns);
    assert(g == merge_usage(Seq::<AppGpuView>::empty(), e, prev, backends, interval_ns));
    assert(Seq::<UsageRatio>::empty().push(u) =~= seq![u]);
}

/// Law: on nanosecond counters (AMD), a process's share of a GPU is the
/// growth of its engine time since the previous poll over the poll
/// interval, reported exactly when both are non-zero.
pub proof fn law_ns_share_is_engine_time_over_interval(stats: GpuProcView, prev: FdinfoSnapshot, interval_ns: u64)
    requires
        !stats.is_cycles_schema,
    ensures
        (process_usage(stats, prev, interval_ns) is Some) == (interval_ns > 0 && stats.engine_time
            > prev.engine_time),
        process_usage(stats, prev, interval_ns) matches Some(u) ==> u.numerator == stats.engine_time
            - prev.engine_time && u.denominator == interval_ns,
{
}

} // verus!
