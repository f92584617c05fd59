//! Per-application disk I/O between polls of the kernel's per-process block
//! request counters.
use vstd::prelude::*;

use crate::apps::{
    aggregate_by_app, app_name_spec, counter_views, deltas_since, interval_deltas,
    law_unchanged_totals_give_no_deltas, opt_string_view, resolve_app_name, totals_by_app, AppCounters,
    CounterPair,
};

verus! {

/// One entry of the probe's map: the process, its name as found under
/// `/proc` (if it could be read), its byte counters and its kernel `comm`.
#[derive(Debug, Clone)]
pub struct DiskSample {
    pub pid: u32,
    pub proc_name: Option<String>,
    pub read_bytes: u64,
    pub write_bytes: u64,
    pub comm: [u8; 16],
}

/// A sample as `(application, (read, write))`.
pub open spec fn disk_sample_view(s: DiskSample) -> (Seq<char>, CounterPair) {
    (
        app_name_spec(opt_string_view(s.proc_name), s.comm@, s.pid),
        CounterPair { first: s.read_bytes, second: s.write_bytes },
    )
}

/// The samples that count: those of PID 0 (the idle task) are left out.
pub open spec fn disk_samples_view(v: Seq<DiskSample>) -> Seq<(Seq<char>, CounterPair)>
    decreases v.len(),
{
    if v.len() == 0 {
        seq![]
    } else if v.last().pid == 0 {
        disk_samples_view(v.drop_last())
    } else {
        disk_samples_view(v.drop_last()).push(disk_sample_view(v.last()))
    }
}

/// The I/O of one application during one interval. The mount point is left
/// empty: the probe sees processes, not file systems.
#[derive(Debug, Clone)]
pub struct DiskRecord {
    pub app_name: String,
    pub read_bytes: u64,
    pub write_bytes: u64,
    pub mount_point: String,
}

impl View for DiskRecord {
    type V = (Seq<char>, CounterPair, Seq<char>);

    open spec fn view(&self) -> (Seq<char>, CounterPair, Seq<char>) {
        (self.app_name@, CounterPair { first: self.read_bytes, second: self.write_bytes }, self.mount_point@)
    }
}

pub open spec fn disk_record_of(d: (Seq<char>, CounterPair)) -> (Seq<char>, CounterPair, Seq<char>) {
    (d.0, d.1, Seq::<char>::empty())
}

pub open spec fn disk_record_views(v: Seq<DiskRecord>) -> Seq<(Seq<char>, CounterPair, Seq<char>)> {
    v.map_values(|r: DiskRecord| r@)
}

fn disk_counters(samples: &Vec<DiskSample>) -> (r: Vec<AppCounters>)
    ensures
        counter_views(r@) == disk_samples_view(samples@),
{
    let mut r: Vec<AppCounters> = Vec::new();
    let mut i: usize = 0;
    while i < samples.len()
        invariant
            i <= samples@.len(),
            counter_views(r@) == disk_samples_view(samples@.take(i as int)),
        decreases samples.len() - i,
    {
        let s = &samples[i];
        let ghost before = counter_views(r@);
        assert(samples@.take(i + 1).drop_last() =~= samples@.take(i as int));
        assert(samples@.take(i + 1).last() == *s);
        if s.pid != 0 {
            let proc_name = match &s.proc_name {
                Some(n) => Some(n.clone()),
                None => None,
            };
            let name = resolve_app_name(proc_name, &s.comm, s.pid);
            r.push(
                AppCounters {
                    app_name: name,
                    counters: CounterPair { first: s.read_bytes, second: s.write_bytes },
                },
            );
            assert(counter_views(r@) =~= before.push(disk_sample_view(*s)));
        }
        i = i + 1;
    }
    assert(samples@.take(samples@.len() as int) =~= samples@);
    r
}

/// Per-interval disk deltas, keyed by application name.
pub struct DiskCollector {
    /// The per-application `(read, write)` totals at the previous poll.
    pub prev_state: Vec<AppCounters>,
}

impl DiskCollector {
    /// A collector that has seen no poll yet.
    pub fn new() -> (c: Self)
        ensures
            c.prev_state@.len() == 0,
    {
        DiskCollector { prev_state: Vec::new() }
    }

    /// One poll of the probe's map: samples of PID 0 are skipped, the others
    /// summed per application; one record is returned per application whose
    /// reads or writes grew since the previous poll. The totals become the
    /// previous ones.
    pub fn collect_disk(&mut self, samples: &Vec<DiskSample>) -> (r: Vec<DiskRecord>)
        ensures
            disk_record_views(r@) == deltas_since(
                totals_by_app(disk_samples_view(samples@)),
                counter_views(old(self).prev_state@),
            ).map_values(|d: (Seq<char>, CounterPair)| disk_record_of(d)),
            counter_views(final(self).prev_state@) == totals_by_app(disk_samples_view(samples@)),
    {
        let per_process = disk_counters(samples);
        let current = aggregate_by_app(&per_process);
        let deltas = interval_deltas(&current, &self.prev_state);
        let ghost dv = counter_views(deltas@);
        let mut r: Vec<DiskRecord> = Vec::new();
        let mut i: usize = 0;
        while i < deltas.len()
            invariant
                i <= deltas@.len(),
                dv == counter_views(deltas@),
                disk_record_views(r@) == dv.take(i as int).map_values(
                    |d: (Seq<char>, CounterPair)| disk_record_of(d),
                ),
            decreases deltas.len() - i,
        {
            let d = &deltas[i];
            let ghost before = disk_record_views(r@);
            r.push(
                DiskRecord {
                    app_name: d.app_name.clone(),
                    read_bytes: d.counters.first,
                    write_bytes: d.counters.second,
                    mount_point: String::new(),
                },
            );
            assert(disk_record_views(r@) =~= before.push(disk_record_of(dv[i as int])));
            i = i + 1;
            assert(disk_record_views(r@) =~= dv.take(i as int).map_values(
                |d: (Seq<char>, CounterPair)| disk_record_of(d),
            ));
        }
        assert(dv.take(deltas@.len() as int) =~= dv);
        self.prev_state = current;
        r
    }
}

/// Law: polling the same counters twice reports no I/O the second time.
pub proof fn law_disk_repeat_poll_is_silent(samples: Seq<DiskSample>)
    ensures
        deltas_since(
            totals_by_app(disk_samples_view(samples)),
            totals_by_app(disk_samples_view(samples)),
        ).len() == 0,
{
    law_unchanged_totals_give_no_deltas(disk_samples_view(samples));
}

} // verus!
