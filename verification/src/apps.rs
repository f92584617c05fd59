//! Application names and per-application counters: per-process samples are
//! folded into per-application totals (saturating), and the totals of two
//! consecutive polls give the per-interval deltas.
use vstd::prelude::*;

use crate::util::{sat_add, sat_sub};
use crate::util::{comm_lossy_spec, comm_name_spec, comm_to_string, comm_to_string_lossy, pid_label, pid_label_spec};

verus! {

/// The application name of a process seen by the disk probe: the name found
/// under `/proc` when there is one, else the kernel-captured `comm` (decoded
/// lossily), else `pid:<pid>`.
pub open spec fn app_name_spec(proc_name: Option<Seq<char>>, comm: Seq<u8>, pid: u32) -> Seq<char> {
    match proc_name {
        Some(n) => n,
        None => match comm_lossy_spec(comm) {
            Some(c) => c,
            None => pid_label_spec(pid),
        },
    }
}

/// The application name of a process seen by the network probe: the
/// kernel-captured `comm` when it holds a name (non-empty, valid UTF-8), else
/// the name found under `/proc`, else `pid:<pid>`.
pub open spec fn network_app_name_spec(proc_name: Option<Seq<char>>, comm: Seq<u8>, pid: u32) -> Seq<
    char,
> {
    match comm_name_spec(comm) {
        Some(c) => c,
        None => match proc_name {
            Some(n) => n,
            None => pid_label_spec(pid),
        },
    }
}

pub open spec fn opt_string_view(s: Option<String>) -> Option<Seq<char>> {
    match s {
        Some(n) => Some(n@),
        None => None,
    }
}

/// Resolves the application name of a process seen by the disk probe (see
/// `app_name_spec`).
pub fn resolve_app_name(proc_name: Option<String>, comm: &[u8; 16], pid: u32) -> (r: String)
    ensures
        r@ == app_name_spec(opt_string_view(proc_name), comm@, pid),
{
    match proc_name {
        Some(n) => n,
        None => match comm_to_string_lossy(comm) {
            Some(s) => s,
            None => pid_label(pid),
        },
    }
}

/// Resolves the application name of a process seen by the network probe
/// (see `network_app_name_spec`).
pub fn resolve_network_app_name(proc_name: Option<String>, comm: &[u8; 16], pid: u32) -> (r: String)
    ensures
        r@ == network_app_name_spec(opt_string_view(proc_name), comm@, pid),
{
    match comm_to_string(comm) {
        Some(s) => s,
        None => match proc_name {
            Some(n) => n,
            None => pid_label(pid),
        },
    }
}

/// Two byte counters of one application: `(tx, rx)` for the network,
/// `(read, write)` for the disk.
#[derive(Debug, Clone, Copy, PartialEq, Eq, Structural)]
pub struct CounterPair {
    pub first: u64,
    pub second: u64,
}

/// The counters of one application (or one process, before aggregation).
#[derive(Debug, Clone)]
pub struct AppCounters {
    pub app_name: String,
    pub counters: CounterPair,
}

impl View for AppCounters {
    type V = (Seq<char>, CounterPair);

    open spec fn view(&self) -> (Seq<char>, CounterPair) {
        (self.app_name@, self.counters)
    }
}

pub open spec fn counter_views(v: Seq<AppCounters>) -> Seq<(Seq<char>, CounterPair)> {
    v.map_values(|a: AppCounters| a@)
}

pub open spec fn zero_pair() -> CounterPair {
    CounterPair { first: 0, second: 0 }
}

/// Index of the last entry named `name`, or -1.
pub open spec fn index_of_app(ts: Seq<(Seq<char>, CounterPair)>, name: Seq<char>) -> int
    decreases ts.len(),
{
    if ts.len() == 0 {
        -1
    } else if ts.last().0 == name {
        ts.len() - 1
    } else {
        index_of_app(ts.drop_last(), name)
    }
}

pub open spec fn add_pairs(a: CounterPair, b: CounterPair) -> CounterPair {
    CounterPair { first: sat_add(a.first, b.first), second: sat_add(a.second, b.second) }
}

/// Adds one sample to the totals: to its application's entry, or as a new
/// entry at the end.
pub open spec fn merge_sample(ts: Seq<(Seq<char>, CounterPair)>, s: (Seq<char>, CounterPair)) -> Seq<
    (Seq<char>, CounterPair),
> {
    let i = index_of_app(ts, s.0);
    if i < 0 {
        ts.push(s)
    } else {
        ts.update(i, (s.0, add_pairs(ts[i].1, s.1)))
    }
}

/// Per-application totals of the samples, applications in the order in
/// which they first appear.
pub open spec fn totals_by_app(samples: Seq<(Seq<char>, CounterPair)>) -> Seq<(Seq<char>, CounterPair)>
    decreases samples.len(),
{
    if samples.len() == 0 {
        seq![]
    } else {
        merge_sample(totals_by_app(samples.drop_last()), samples.last())
    }
}

/// The counters recorded for `name`, or zero.
pub open spec fn lookup_pair(ts: Seq<(Seq<char>, CounterPair)>, name: Seq<char>) -> CounterPair {
    let i = index_of_app(ts, name);
    if i < 0 {
        zero_pair()
    } else {
        ts[i].1
    }
}

/// The growth of the counters since `prev`; a counter that went down (its
/// process was replaced) grew by zero.
pub open spec fn pair_delta(cur: CounterPair, prev: CounterPair) -> CounterPair {
    CounterPair { first: sat_sub(cur.first, prev.first), second: sat_sub(cur.second, prev.second) }
}

/// The deltas of the current totals against the previous ones, for the
/// applications whose counters grew, in the order of `cur`.
pub open spec fn deltas_since(cur: Seq<(Seq<char>, CounterPair)>, prev: Seq<(Seq<char>, CounterPair)>) -> Seq<
    (Seq<char>, CounterPair),
>
    decreases cur.len(),
{
    if cur.len() == 0 {
        seq![]
    } else {
        let rest = deltas_since(cur.drop_last(), prev);
        let d = pair_delta(cur.last().1, lookup_pair(prev, cur.last().0));
        if d.first > 0 || d.second > 0 {
            rest.push((cur.last().0, d))
        } else {
            rest
        }
    }
}

/// Whether no two entries share a name.
pub open spec fn distinct_names(ts: Seq<(Seq<char>, CounterPair)>) -> bool {
    forall|i: int, j: int| 0 <= i < j < ts.len() ==> (#[trigger] ts[i]).0 != (#[trigger] ts[j]).0
}

proof fn lemma_index_of_app(ts: Seq<(Seq<char>, CounterPair)>, name: Seq<char>)
    ensures
        -1 <= index_of_app(ts, name) < ts.len(),
        index_of_app(ts, name) >= 0 ==> ts[index_of_app(ts, name)].0 == name,
        index_of_app(ts, name) < 0 ==> forall|k: int| 0 <= k < ts.len() ==> (#[trigger] ts[k]).0 != name,
    decreases ts.len(),
{
    if ts.len() > 0 {
        lemma_index_of_app(ts.drop_last(), name);
        if ts.last().0 != name {
            assert forall|k: int| 0 <= k < ts.len() - 1 implies ts.drop_last()[k] == ts[k] by {}
        }
    }
}

fn find_app(ts: &Vec<AppCounters>, name: &String) -> (r: Option<usize>)
    ensures
        match r {
            Some(i) => i as int == index_of_app(counter_views(ts@), name@) && i < ts@.len(),
            None => index_of_app(counter_views(ts@), name@) == -1,
        },
{
    let ghost tv = counter_views(ts@);
    let mut k = ts.len();
    assert(tv.take(k as int) =~= tv);
    while k > 0
        invariant
            k <= ts@.len(),
            tv == counter_views(ts@),
            index_of_app(tv, name@) == index_of_app(tv.take(k as int), name@),
        decreases k,
    {
        assert(tv.take(k as int).last() == ts@[k - 1]@);
        if ts[k - 1].app_name == *name {
            return Some(k - 1);
        }
        assert(tv.take(k as int).drop_last() =~= tv.take(k - 1));
        k = k - 1;
    }
    None
}

/// Folds per-process samples into per-application totals.
pub fn aggregate_by_app(samples: &Vec<AppCounters>) -> (r: Vec<AppCounters>)
    ensures
        counter_views(r@) == totals_by_app(counter_views(samples@)),
{
    let ghost sv = counter_views(samples@);
    let mut r: Vec<AppCounters> = Vec::new();
    let mut i: usize = 0;
    assert(sv.take(0) =~= Seq::<(Seq<char>, CounterPair)>::empty());
    assert(counter_views(r@) =~= Seq::<(Seq<char>, CounterPair)>::empty());
    while i < samples.len()
        invariant
            i <= samples@.len(),
            sv == counter_views(samples@),
            counter_views(r@) == totals_by_app(sv.take(i as int)),
        decreases samples.len() - i,
    {
        let s = &samples[i];
        let ghost before = counter_views(r@);
        assert(sv.take(i + 1).drop_last() =~= sv.take(i as int));
        assert(sv.take(i + 1).last() == s@);
        proof {
            lemma_index_of_app(before, s.app_name@);
        }
        match find_app(&r, &s.app_name) {
            None => {
                r.push(AppCounters { app_name: s.app_name.clone(), counters: s.counters });
                assert(counter_views(r@) =~= before.push(s@));
            },
            Some(j) => {
                let c = CounterPair {
                    first: r[j].counters.first.saturating_add(s.counters.first),
                    second: r[j].counters.second.saturating_add(s.counters.second),
                };
                r.set(j, AppCounters { app_name: s.app_name.clone(), counters: c });
                assert(counter_views(r@) =~= before.update(
                    j as int,
                    (s.app_name@, add_pairs(before[j as int].1, s.counters)),
                ));
            },
        }
        i = i + 1;
    }
    assert(sv.take(samples@.len() as int) =~= sv);
    r
}

fn lookup_counters(ts: &Vec<AppCounters>, name: &String) -> (r: CounterPair)
    ensures
        r == lookup_pair(counter_views(ts@), name@),
{
    match find_app(ts, name) {
        Some(i) => ts[i].counters,
        None => CounterPair { first: 0, second: 0 },
    }
}

/// The per-interval deltas of the current totals against the previous ones.
pub fn interval_deltas(cur: &Vec<AppCounters>, prev: &Vec<AppCounters>) -> (r: Vec<AppCounters>)
    ensures
        counter_views(r@) == deltas_since(counter_views(cur@), counter_views(prev@)),
{
    let ghost cv = counter_views(cur@);
    let ghost pv = counter_views(prev@);
    let mut r: Vec<AppCounters> = Vec::new();
    let mut i: usize = 0;
    assert(cv.take(0) =~= Seq::<(Seq<char>, CounterPair)>::empty());
    assert(counter_views(r@) =~= Seq::<(Seq<char>, CounterPair)>::empty());
    while i < cur.len()
        invariant
            i <= cur@.len(),
            cv == counter_views(cur@),
            pv == counter_views(prev@),
            counter_views(r@) == deltas_since(cv.take(i as int), pv),
        decreases cur.len() - i,
    {
        let c = &cur[i];
        let ghost before = counter_views(r@);
        assert(cv.take(i + 1).drop_last() =~= cv.take(i as int));
        assert(cv.take(i + 1).last() == c@);
        let p = lookup_counters(prev, &c.app_name);
        let d = CounterPair {
            first: c.counters.first.saturating_sub(p.first),
            second: c.counters.second.saturating_sub(p.second),
        };
        if d.first > 0 || d.second > 0 {
            r.push(AppCounters { app_name: c.app_name.clone(), counters: d });
            assert(counter_views(r@) =~= before.push((c.app_name@, d)));
        }
        i = i + 1;
    }
    assert(cv.take(cur@.len() as int) =~= cv);
    r
}

proof fn lemma_totals_distinct(samples: Seq<(Seq<char>, CounterPair)>)
    ensures
        distinct_names(totals_by_app(samples)),
    decreases samples.len(),
{
    if samples.len() > 0 {
        let ts = totals_by_app(samples.drop_last());
        lemma_totals_distinct(samples.drop_last());
        lemma_index_of_app(ts, samples.last().0);
        let r = merge_sample(ts, samples.last());
        assert forall|i: int, j: int| 0 <= i < j < r.len() implies (#[trigger] r[i]).0 != (
        #[trigger] r[j]).0 by {
            if index_of_app(ts, samples.last().0) < 0 && j == ts.len() {
                assert(ts[i] == r[i]);
            }
        }
    }
}

proof fn lemma_lookup_own(ts: Seq<(Seq<char>, CounterPair)>, k: int)
    requires
        distinct_names(ts),
        0 <= k < ts.len(),
    ensures
        lookup_pair(ts, ts[k].0) == ts[k].1,
    decreases ts.len(),
{
    if k < ts.len() - 1 {
        assert(ts.last().0 != ts[k].0);
        assert forall|i: int, j: int| 0 <= i < j < ts.drop_last().len() implies (
        #[trigger] ts.drop_last()[i]).0 != (#[trigger] ts.drop_last()[j]).0 by {
            assert(ts.drop_last()[i] == ts[i]);
            assert(ts.drop_last()[j] == ts[j]);
        }
        lemma_lookup_own(ts.drop_last(), k);
        assert(ts.drop_last()[k] == ts[k]);
        lemma_index_of_app(ts.drop_last(), ts[k].0);
        let i = index_of_app(ts.drop_last(), ts[k].0);
        assert(index_of_app(ts, ts[k].0) == i);
        assert(ts.drop_last()[i] == ts[i]);
    }
}

proof fn lemma_no_deltas_prefix(ts: Seq<(Seq<char>, CounterPair)>, n: int)
    requires
        distinct_names(ts),
        0 <= n <= ts.len(),
    ensures
        deltas_since(ts.take(n), ts).len() == 0,
    decreases n,
{
    if n > 0 {
        lemma_no_deltas_prefix(ts, n - 1);
        assert(ts.take(n).drop_last() =~= ts.take(n - 1));
        assert(ts.take(n).last() == ts[n - 1]);
        lemma_lookup_own(ts, n - 1);
    }
}

/// Law: the per-application totals name each application once.
pub proof fn law_totals_name_each_app_once(samples: Seq<(Seq<char>, CounterPair)>)
    ensures
        distinct_names(totals_by_app(samples)),
{
    lemma_totals_distinct(samples);
}

/// Law: two polls over counters that did not move report no delta at the
/// second poll.
pub proof fn law_unchanged_totals_give_no_deltas(samples: Seq<(Seq<char>, CounterPair)>)
    ensures
        deltas_since(totals_by_app(samples), totals_by_app(samples)).len() == 0,
{
    let ts = totals_by_app(samples);
    lemma_totals_distinct(samples);
    lemma_no_deltas_prefix(ts, ts.len() as int);
    assert(ts.take(ts.len() as int) =~= ts);
}

/// Law: a delta never exceeds the current total, and is the whole total
/// for an application that was not seen before.
pub proof fn law_delta_bounded_by_total(cur: CounterPair, prev: CounterPair)
    ensures
        pair_delta(cur, prev).first <= cur.first,
        pair_delta(cur, prev).second <= cur.second,
        pair_delta(cur, zero_pair()) == cur,
        prev.first >= cur.first ==> pair_delta(cur, prev).first == 0,
        prev.second >= cur.second ==> pair_delta(cur, prev).second == 0,
{
}

/// Law: every delta reported shows growth: no application is reported
/// whose counters did not move.
pub proof fn law_deltas_report_growth(cur: Seq<(Seq<char>, CounterPair)>, prev: Seq<(Seq<char>, CounterPair)>)
    ensures
        forall|i: int|
            0 <= i < deltas_since(cur, prev).len() ==> (#[trigger] deltas_since(cur, prev)[i]).1.first > 0
                || deltas_since(cur, prev)[i].1.second > 0,
    decreases cur.len(),
{
    if cur.len() > 0 {
        law_deltas_report_growth(cur.drop_last(), prev);
        let rest = deltas_since(cur.drop_last(), prev);
        let ds = deltas_since(cur, prev);
        assert forall|i: int| 0 <= i < ds.len() implies (#[trigger] ds[i]).1.first > 0 || ds[i].1.second > 0 by {
            if i < rest.len() {
                assert(ds[i] == rest[i]);
            }
        }
    }
}

/// The total of the samples named `name`, added in order (saturating).
pub open spec fn app_total(samples: Seq<(Seq<char>, CounterPair)>, name: Seq<char>) -> CounterPair
    decreases samples.len(),
{
    if samples.len() == 0 {
        zero_pair()
    } else if samples.last().0 == name {
        add_pairs(app_total(samples.drop_last(), name), samples.last().1)
    } else {
        app_total(samples.drop_last(), name)
    }
}

proof fn lemma_index_same_names(a: Seq<(Seq<char>, CounterPair)>, b: Seq<(Seq<char>, CounterPair)>, n: Seq<char>)
    requires
        a.len() == b.len(),
        forall|k: int| 0 <= k < a.len() ==> (#[trigger] a[k]).0 == b[k].0,
    ensures
        index_of_app(a, n) == index_of_app(b, n),
    decreases a.len(),
{
    if a.len() > 0 {
        assert(a.last().0 == b.last().0);
        assert forall|k: int| 0 <= k < a.drop_last().len() implies (#[trigger] a.drop_last()[k]).0
            == b.drop_last()[k].0 by {
            assert(a.drop_last()[k] == a[k]);
            assert(b.drop_last()[k] == b[k]);
        }
        lemma_index_same_names(a.drop_last(), b.drop_last(), n);
    }
}

/// Law: aggregation keeps applications apart. Each application's total is
/// the sum of its own samples, and of no other application's.
pub proof fn law_totals_are_per_app_sums(samples: Seq<(Seq<char>, CounterPair)>, name: Seq<char>)
    ensures
        lookup_pair(totals_by_app(samples), name) == app_total(samples, name),
    decreases samples.len(),
{
    if samples.len() > 0 {
        let ts = totals_by_app(samples.drop_last());
        let s = samples.last();
        law_totals_are_per_app_sums(samples.drop_last(), name);
        lemma_index_of_app(ts, s.0);
        lemma_index_of_app(ts, name);
        let i = index_of_app(ts, s.0);
        let r = merge_sample(ts, s);
        if i < 0 {
            assert(r.drop_last() =~= ts);
            if s.0 == name {
                assert(index_of_app(r, name) == r.len() - 1);
                assert(add_pairs(zero_pair(), s.1) == s.1);
            } else {
                assert(index_of_app(r, name) == index_of_app(ts, name));
            }
        } else {
            assert forall|k: int| 0 <= k < r.len() implies (#[trigger] r[k]).0 == ts[k].0 by {}
            lemma_index_same_names(r, ts, name);
            let j = index_of_app(ts, name);
            if s.0 == name {
                assert(j == i);
            } else if j >= 0 {
                assert(j != i);
                assert(r[j] == ts[j]);
            }
        }
    }
}

} // verus!
