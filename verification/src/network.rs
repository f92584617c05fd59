//! Per-application network traffic between polls of the kernel's
//! per-process byte counters.
use vstd::prelude::*;

use crate::apps::{
    aggregate_by_app, counter_views, deltas_since, interval_deltas,
    law_unchanged_totals_give_no_deltas, network_app_name_spec, opt_string_view, resolve_network_app_name, totals_by_app, AppCounters,
    CounterPair,
};
use crate::metrics::{NetworkData, PidNetStats};

verus! {

/// One entry of the probe's map: the process, its name as found under
/// `/proc` (if it could be read), and its counters.
#[derive(Debug, Clone)]
pub struct NetSample {
    pub pid: u32,
    pub proc_name: Option<String>,
    pub stats: PidNetStats,
}

/// A sample as `(application, (tx, rx))`.
pub open spec fn net_sample_view(s: NetSample) -> (Seq<char>, CounterPair) {
    (
        network_app_name_spec(opt_string_view(s.proc_name), s.stats.comm@, s.pid),
        CounterPair { first: s.stats.tx_bytes, second: s.stats.rx_bytes },
    )
}

pub open spec fn net_samples_view(v: Seq<NetSample>) -> Seq<(Seq<char>, CounterPair)> {
    v.map_values(|s: NetSample| net_sample_view(s))
}

/// The traffic of one application during one interval.
#[derive(Debug, Clone)]
pub struct NetworkRecord {
    pub app_name: String,
    pub data: NetworkData,
}

impl View for NetworkRecord {
    type V = (Seq<char>, NetworkData);

    open spec fn view(&self) -> (Seq<char>, NetworkData) {
        (self.app_name@, self.data)
    }
}

pub open spec fn net_record_of(d: (Seq<char>, CounterPair)) -> (Seq<char>, NetworkData) {
    (d.0, NetworkData { tx_bytes: d.1.first, rx_bytes: d.1.second, connections: 0 })
}

pub open spec fn net_record_views(v: Seq<NetworkRecord>) -> Seq<(Seq<char>, NetworkData)> {
    v.map_values(|r: NetworkRecord| r@)
}

fn clone_name(n: &Option<String>) -> (r: Option<String>)
    ensures
        opt_string_view(r) == opt_string_view(*n),
{
    match n {
        Some(s) => Some(s.clone()),
        None => None,
    }
}

fn net_counters(samples: &Vec<NetSample>) -> (r: Vec<AppCounters>)
    ensures
        counter_views(r@) == net_samples_view(samples@),
{
    let mut r: Vec<AppCounters> = Vec::new();
    let mut i: usize = 0;
    while i < samples.len()
        invariant
            i <= samples@.len(),
            counter_views(r@) == net_samples_view(samples@).take(i as int),
        decreases samples.len() - i,
    {
        let s = &samples[i];
        let name = resolve_network_app_name(clone_name(&s.proc_name), &s.stats.comm, s.pid);
        let ghost before = counter_views(r@);
        r.push(
            AppCounters {
                app_name: name,
                counters: CounterPair { first: s.stats.tx_bytes, second: s.stats.rx_bytes },
            },
        );
        assert(counter_views(r@) =~= before.push(net_sample_view(*s)));
        i = i + 1;
        assert(counter_views(r@) =~= net_samples_view(samples@).take(i as int));
    }
    assert(net_samples_view(samples@).take(samples@.len() as int) =~= net_samples_view(samples@));
    r
}

/// Per-interval network deltas, keyed by application name so that they
/// survive PID reuse.
pub struct NetworkCollector {
    /// The per-application totals at the previous poll.
    pub prev_state: Vec<AppCounters>,
}

impl NetworkCollector {
    /// A collector that has seen no poll yet.
    pub fn new() -> (c: Self)
        ensures
            c.prev_state@.len() == 0,
    {
        NetworkCollector { prev_state: Vec::new() }
    }

    /// One poll of the probe's map: the samples are summed per application,
    /// each application's totals are compared with those of the previous
    /// poll, and one record is returned per application whose traffic grew
    /// (a counter that went down counts as no traffic). The totals become the
    /// previous ones.
    pub fn collect_network(&mut self, samples: &Vec<NetSample>) -> (r: Vec<NetworkRecord>)
        ensures
            net_record_views(r@) == deltas_since(
                totals_by_app(net_samples_view(samples@)),
                counter_views(old(self).prev_state@),
            ).map_values(|d: (Seq<char>, CounterPair)| net_record_of(d)),
            counter_views(final(self).prev_state@) == totals_by_app(net_samples_view(samples@)),
    {
        let per_process = net_counters(samples);
        let current = aggregate_by_app(&per_process);
        let deltas = interval_deltas(&current, &self.prev_state);
        let ghost dv = counter_views(deltas@);
        let mut r: Vec<NetworkRecord> = Vec::new();
        let mut i: usize = 0;
        while i < deltas.len()
            invariant
                i <= deltas@.len(),
                dv == counter_views(deltas@),
                net_record_views(r@) == dv.take(i as int).map_values(
                    |d: (Seq<char>, CounterPair)| net_record_of(d),
                ),
            decreases deltas.len() - i,
        {
            let d = &deltas[i];
            let ghost before = net_record_views(r@);
            r.push(
                NetworkRecord {
                    app_name: d.app_name.clone(),
                    data: NetworkData {
                        tx_bytes: d.counters.first,
                        rx_bytes: d.counters.second,
                        connections: 0,
                    },
                },
            );
            assert(net_record_views(r@) =~= before.push(net_record_of(dv[i as int])));
            i = i + 1;
            assert(net_record_views(r@) =~= dv.take(i as int).map_values(
                |d: (Seq<char>, CounterPair)| net_record_of(d),
            ));
        }
        assert(dv.take(deltas@.len() as int) =~= dv);
        self.prev_state = current;
        r
    }
}

/// Law: polling the same counters twice reports no traffic the second time.
pub proof fn law_network_repeat_poll_is_silent(samples: Seq<NetSample>)
    ensures
        deltas_since(
            totals_by_app(net_samples_view(samples)),
            totals_by_app(net_samples_view(samples)),
        ).len() == 0,
{
    law_unchanged_totals_give_no_deltas(net_samples_view(samples));
}

} // verus!
