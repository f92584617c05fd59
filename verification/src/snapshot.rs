//! One-shot snapshots: which snapshot is asked for, how it is printed, the
//! order and totals of its table rows, and the units its values are shown in.
use vstd::prelude::*;

use crate::text::{chars_eq, chars_of, string_of};

verus! {

// ---------------------------------------------------------------------------
// What is asked for
// ---------------------------------------------------------------------------

/// The metric of a snapshot.
#[derive(Debug, Clone, Copy, PartialEq, Eq, Structural)]
pub enum SnapshotKind {
    Cpu,
    Disk,
    Focus,
    Gpu,
    Memory,
    Network,
}

/// Why a snapshot request is refused.
#[derive(Debug, Clone, Copy, PartialEq, Eq, Structural)]
pub enum SnapshotError {
    /// The observation window is zero seconds.
    ZeroWindow,
    /// The metric is none of those known.
    UnknownMetric,
}

impl SnapshotError {
    /// The error's message.
    pub fn message(&self) -> (r: String)
        ensures
            *self == SnapshotError::ZeroWindow ==> r@ == "Window must be greater than 0 seconds"@,
            *self == SnapshotError::UnknownMetric ==> r@
                == "Please choose cpu, disk, focus, gpu, memory, or network"@,
    {
        match self {
            SnapshotError::ZeroWindow => String::from_str("Window must be greater than 0 seconds"),
            SnapshotError::UnknownMetric => String::from_str(
                "Please choose cpu, disk, focus, gpu, memory, or network",
            ),
        }
    }
}

pub open spec fn kind_words() -> Seq<(Seq<char>, SnapshotKind)> {
    seq![
        (seq!['c', 'p', 'u'], SnapshotKind::Cpu),
        (seq!['d', 'i', 's', 'k'], SnapshotKind::Disk),
        (seq!['f', 'o', 'c', 'u', 's'], SnapshotKind::Focus),
        (seq!['g', 'p', 'u'], SnapshotKind::Gpu),
        (seq!['m', 'e', 'm', 'o', 'r', 'y'], SnapshotKind::Memory),
        (seq!['n', 'e', 't', 'w', 'o', 'r', 'k'], SnapshotKind::Network),
    ]
}

/// The snapshot named `metric_type` (exactly, in lower case).
pub open spec fn kind_spec(metric_type: Seq<char>) -> Option<SnapshotKind> {
    if metric_type == kind_words()[0].0 {
        Some(SnapshotKind::Cpu)
    } else if metric_type == kind_words()[1].0 {
        Some(SnapshotKind::Disk)
    } else if metric_type == kind_words()[2].0 {
        Some(SnapshotKind::Focus)
    } else if metric_type == kind_words()[3].0 {
        Some(SnapshotKind::Gpu)
    } else if metric_type == kind_words()[4].0 {
        Some(SnapshotKind::Memory)
    } else if metric_type == kind_words()[5].0 {
        Some(SnapshotKind::Network)
    } else {
        None
    }
}

/// Checks a snapshot request: the window must be at least one second, and
/// the metric one of `cpu`, `disk`, `focus`, `gpu`, `memory`, `network`.
pub fn snapshot_kind(window_secs: u64, metric_type: &str) -> (r: Result<SnapshotKind, SnapshotError>)
    ensures
        window_secs == 0 ==> r == Err::<SnapshotKind, SnapshotError>(SnapshotError::ZeroWindow),
        window_secs > 0 ==> r == match kind_spec(metric_type@) {
            Some(k) => Ok::<SnapshotKind, SnapshotError>(k),
            None => Err::<SnapshotKind, SnapshotError>(SnapshotError::UnknownMetric),
        },
{
    if window_secs == 0 {
        return Err(SnapshotError::ZeroWindow);
    }
    let m = chars_of(metric_type);
    let words = [
        chars_of("cpu"),
        chars_of("disk"),
        chars_of("focus"),
        chars_of("gpu"),
        chars_of("memory"),
        chars_of("network"),
    ];
    proof {
        reveal_strlit("cpu");
        reveal_strlit("disk");
        reveal_strlit("focus");
        reveal_strlit("gpu");
        reveal_strlit("memory");
        reveal_strlit("network");
    }
    assert(words@[0]@ =~= kind_words()[0].0);
    assert(words@[1]@ =~= kind_words()[1].0);
    assert(words@[2]@ =~= kind_words()[2].0);
    assert(words@[3]@ =~= kind_words()[3].0);
    assert(words@[4]@ =~= kind_words()[4].0);
    assert(words@[5]@ =~= kind_words()[5].0);
    if chars_eq(m.as_slice(), words[0].as_slice()) {
        Ok(SnapshotKind::Cpu)
    } else if chars_eq(m.as_slice(), words[1].as_slice()) {
        Ok(SnapshotKind::Disk)
    } else if chars_eq(m.as_slice(), words[2].as_slice()) {
        Ok(SnapshotKind::Focus)
    } else if chars_eq(m.as_slice(), words[3].as_slice()) {
        Ok(SnapshotKind::Gpu)
    } else if chars_eq(m.as_slice(), words[4].as_slice()) {
        Ok(SnapshotKind::Memory)
    } else if chars_eq(m.as_slice(), words[5].as_slice()) {
        Ok(SnapshotKind::Network)
    } else {
        Err(SnapshotError::UnknownMetric)
    }
}

/// How a snapshot is printed.
#[derive(Debug, Clone, Copy, PartialEq, Eq, Structural)]
pub enum OutputFormat {
    Json,
    Table,
}

/// `json` prints JSON; any other format a table.
pub fn output_format(format: &str) -> (r: OutputFormat)
    ensures
        (r == OutputFormat::Json) == (format@ == seq!['j', 's', 'o', 'n']),
{
    let f = chars_of(format);
    let j = chars_of("json");
    proof {
        reveal_strlit("json");
    }
    assert(j@ =~= seq!['j', 's', 'o', 'n']);
    if chars_eq(f.as_slice(), j.as_slice()) {
        OutputFormat::Json
    } else {
        OutputFormat::Table
    }
}

// ---------------------------------------------------------------------------
// Application names in tables
// ---------------------------------------------------------------------------

/// The number of bytes of `c` in UTF-8.
pub open spec fn utf8_width(c: char) -> nat {
    let n = c as u32;
    if n < 0x80 {
        1
    } else if n < 0x800 {
        2
    } else if n < 0x10000 {
        3
    } else {
        4
    }
}

/// The number of bytes of `s` in UTF-8.
pub open spec fn utf8_len(s: Seq<char>) -> nat
    decreases s.len(),
{
    if s.len() == 0 {
        0
    } else {
        utf8_len(s.drop_last()) + utf8_width(s.last())
    }
}

/// The number of characters of the longest prefix of `s` that fits in
/// `max_len` bytes.
pub open spec fn fitting_prefix_len(s: Seq<char>, max_len: nat) -> nat
    decreases s.len(),
{
    if s.len() == 0 {
        0
    } else if utf8_len(s) <= max_len {
        s.len()
    } else {
        fitting_prefix_len(s.drop_last(), max_len)
    }
}

proof fn lemma_utf8_len_prefix(s: Seq<char>, k: int)
    requires
        0 <= k <= s.len(),
    ensures
        utf8_len(s.take(k)) <= utf8_len(s),
    decreases s.len() - k,
{
    if k < s.len() {
        lemma_utf8_len_prefix(s, k + 1);
        assert(s.take(k + 1).drop_last() =~= s.take(k));
    } else {
        assert(s.take(k) =~= s);
    }
}

proof fn lemma_fitting_prefix(s: Seq<char>, max_len: nat, k: int)
    requires
        0 <= k <= s.len(),
        utf8_len(s.take(k)) <= max_len,
        k == s.len() || utf8_len(s.take(k + 1)) > max_len,
    ensures
        fitting_prefix_len(s, max_len) == k,
    decreases s.len(),
{
    if s.len() > 0 {
        if k == s.len() {
            assert(s.take(k) =~= s);
        } else {
            lemma_utf8_len_prefix(s, k + 1);
            assert(s.drop_last().take(k) =~= s.take(k));
            if k + 1 <= s.len() - 1 {
                assert(s.drop_last().take(k + 1) =~= s.take(k + 1));
            }
            lemma_fitting_prefix(s.drop_last(), max_len, k);
        }
    }
}

fn char_width(c: char) -> (r: usize)
    ensures
        r == utf8_width(c),
{
    let n = c as u32;
    if n < 0x80 {
        1
    } else if n < 0x800 {
        2
    } else if n < 0x10000 {
        3
    } else {
        4
    }
}

/// Shortens an application name to at most `max_len` bytes of UTF-8, never
/// cutting a character in two: the longest prefix of whole characters that
/// fits.
pub fn format_app_name(name: &str, max_len: usize) -> (r: String)
    ensures
        r@ == name@.take(fitting_prefix_len(name@, max_len as nat) as int),
        utf8_len(r@) <= max_len,
{
    let cs = chars_of(name);
    let mut used: usize = 0;
    let mut k: usize = 0;
    while k < cs.len() && char_width(cs[k]) <= max_len - used
        invariant
            k <= cs@.len(),
            cs@ == name@,
            used == utf8_len(cs@.take(k as int)),
            used <= max_len,
        decreases cs.len() - k,
    {
        let w = char_width(cs[k]);
        assert(cs@.take(k + 1).drop_last() =~= cs@.take(k as int));
        used = used + w;
        k = k + 1;
    }
    proof {
        if k < cs@.len() {
            assert(cs@.take(k + 1).drop_last() =~= cs@.take(k as int));
            assert(utf8_len(cs@.take(k + 1)) == used + utf8_width(cs@[k as int]));
        }
        lemma_fitting_prefix(cs@, max_len as nat, k as int);
    }
    string_of(crate::text::copy_range(cs.as_slice(), 0, k).as_slice())
}

// ---------------------------------------------------------------------------
// Units
// ---------------------------------------------------------------------------

/// The unit a byte count is shown in.
#[derive(Debug, Clone, Copy, PartialEq, Eq, Structural)]
pub enum ByteUnit {
    B,
    KB,
    MB,
    GB,
}

/// Bytes below 1 KiB, KiB below 1 MiB, MiB below 1 GiB, GiB above.
pub fn fmt_bytes_unit(b: u64) -> (r: ByteUnit)
    ensures
        b < 1024 ==> r == ByteUnit::B,
        1024 <= b < 1_048_576 ==> r == ByteUnit::KB,
        1_048_576 <= b < 1_073_741_824 ==> r == ByteUnit::MB,
        1_073_741_824 <= b ==> r == ByteUnit::GB,
{
    if b < 1024 {
        ByteUnit::B
    } else if b < 1_048_576 {
        ByteUnit::KB
    } else if b < 1_073_741_824 {
        ByteUnit::MB
    } else {
        ByteUnit::GB
    }
}

impl ByteUnit {
    /// The unit's suffix.
    pub fn suffix(&self) -> (r: &'static str)
        ensures
            *self == ByteUnit::B ==> r@ == "B"@,
            *self == ByteUnit::KB ==> r@ == "KB"@,
            *self == ByteUnit::MB ==> r@ == "MB"@,
            *self == ByteUnit::GB ==> r@ == "GB"@,
    {
        match self {
            ByteUnit::B => "B",
            ByteUnit::KB => "KB",
            ByteUnit::MB => "MB",
            ByteUnit::GB => "GB",
        }
    }

    /// The number of bytes in one unit.
    pub fn divisor(&self) -> (r: u64)
        ensures
            *self == ByteUnit::B ==> r == 1,
            *self == ByteUnit::KB ==> r == 1024,
            *self == ByteUnit::MB ==> r == 1_048_576,
            *self == ByteUnit::GB ==> r == 1_073_741_824,
    {
        match self {
            ByteUnit::B => 1,
            ByteUnit::KB => 1024,
            ByteUnit::MB => 1_048_576,
            ByteUnit::GB => 1_073_741_824,
        }
    }
}

/// The unit a duration is shown in.
#[derive(Debug, Clone, Copy, PartialEq, Eq, Structural)]
pub enum TimeUnit {
    Micros,
    Millis,
    Seconds,
    Minutes,
    Hours,
}

impl TimeUnit {
    /// The unit's suffix.
    pub fn suffix(&self) -> (r: &'static str)
        ensures
            *self == TimeUnit::Micros ==> r@ == "us"@,
            *self == TimeUnit::Millis ==> r@ == "ms"@,
            *self == TimeUnit::Seconds ==> r@ == "s"@,
            *self == TimeUnit::Minutes ==> r@ == "m"@,
            *self == TimeUnit::Hours ==> r@ == "h"@,
    {
        match self {
            TimeUnit::Micros => "us",
            TimeUnit::Millis => "ms",
            TimeUnit::Seconds => "s",
            TimeUnit::Minutes => "m",
            TimeUnit::Hours => "h",
        }
    }
}

/// CPU time in nanoseconds: microseconds below 1 ms, milliseconds below 1 s,
/// seconds below 1 min, minutes below 1 h, hours above.
pub fn fmt_cpu_time_ns_unit(ns: u64) -> (r: TimeUnit)
    ensures
        ns < 1_000_000 ==> r == TimeUnit::Micros,
        1_000_000 <= ns < 1_000_000_000 ==> r == TimeUnit::Millis,
        1_000_000_000 <= ns < 60_000_000_000 ==> r == TimeUnit::Seconds,
        60_000_000_000 <= ns < 3_600_000_000_000 ==> r == TimeUnit::Minutes,
        3_600_000_000_000 <= ns ==> r == TimeUnit::Hours,
{
    if ns < 1_000_000 {
        TimeUnit::Micros
    } else if ns < 1_000_000_000 {
        TimeUnit::Millis
    } else if ns < 60_000_000_000 {
        TimeUnit::Seconds
    } else if ns < 3_600_000_000_000 {
        TimeUnit::Minutes
    } else {
        TimeUnit::Hours
    }
}

/// A duration in milliseconds: milliseconds below 1 s, seconds below 1 min,
/// minutes below 1 h, hours above.
pub fn fmt_duration_ms_unit(ms: u64) -> (r: TimeUnit)
    ensures
        ms < 1_000 ==> r == TimeUnit::Millis,
        1_000 <= ms < 60_000 ==> r == TimeUnit::Seconds,
        60_000 <= ms < 3_600_000 ==> r == TimeUnit::Minutes,
        3_600_000 <= ms ==> r == TimeUnit::Hours,
{
    if ms < 1_000 {
        TimeUnit::Millis
    } else if ms < 60_000 {
        TimeUnit::Seconds
    } else if ms < 3_600_000 {
        TimeUnit::Minutes
    } else {
        TimeUnit::Hours
    }
}

// ---------------------------------------------------------------------------
// Rows and totals
// ---------------------------------------------------------------------------

/// Whether row `a` comes before row `b` when rows are sorted by key,
/// largest first, rows of equal keys keeping their order.
pub open spec fn comes_before(keys: Seq<u64>, a: int, b: int) -> bool {
    keys[a] > keys[b] || (keys[a] == keys[b] && a < b)
}

/// Whether `order` lists rows sorted by key, largest first, stably.
pub open spec fn sorted_desc(keys: Seq<u64>, order: Seq<usize>) -> bool {
    forall|i: int, j: int| 0 <= i < j < order.len() ==> comes_before(keys, #[trigger] order[i] as int, #[trigger] order[j] as int)
}

/// The order in which to print rows with the given keys: largest key first,
/// rows of equal keys in their input order (a stable sort). Each row
/// index appears exactly once.
pub fn order_desc(keys: &Vec<u64>) -> (order: Vec<usize>)
    ensures
        order@.len() == keys@.len(),
        forall|i: int| 0 <= i < order@.len() ==> (#[trigger] order@[i]) < keys@.len(),
        forall|i: int, j: int| 0 <= i < j < order@.len() ==> (#[trigger] order@[i]) != (#[trigger] order@[j]),
        sorted_desc(keys@, order@),
{
    let mut order: Vec<usize> = Vec::new();
    let mut i: usize = 0;
    while i < keys.len()
        invariant
            i <= keys@.len(),
            order@.len() == i,
            forall|k: int| 0 <= k < order@.len() ==> (#[trigger] order@[k]) < i,
            forall|a: int, b: int| 0 <= a < b < order@.len() ==> (#[trigger] order@[a]) != (#[trigger] order@[b]),
            sorted_desc(keys@, order@),
        decreases keys.len() - i,
    {
        let key = keys[i];
        let mut p: usize = 0;
        while p < order.len() && keys[order[p]] >= key
            invariant
                p <= order@.len(),
                order@.len() == i,
                i < keys@.len(),
                key == keys@[i as int],
                forall|k: int| 0 <= k < order@.len() ==> (#[trigger] order@[k]) < i,
                forall|k: int| 0 <= k < p ==> keys@[(#[trigger] order@[k]) as int] >= key,
            decreases order.len() - p,
        {
            p = p + 1;
        }
        let ghost before = order@;
        proof {
            if p < before.len() {
                assert(keys@[before[p as int] as int] < key);
                assert forall|k: int| p <= k < before.len() implies keys@[(#[trigger] before[k]) as int] < key by {
                    if k > p {
                        assert(comes_before(keys@, before[p as int] as int, before[k] as int));
                    }
                }
            }
        }
        order.insert(p, i);
        assert(order@ =~= before.insert(p as int, i));
        assert forall|a: int, b: int| 0 <= a < b < order@.len() implies comes_before(
            keys@,
            #[trigger] order@[a] as int,
            #[trigger] order@[b] as int,
        ) by {
            if b < p {
                assert(order@[a] == before[a] && order@[b] == before[b]);
            } else if b == p {
                assert(order@[a] == before[a]);
            } else if a < p {
                assert(order@[a] == before[a] && order@[b] == before[b - 1]);
            } else if a == p {
                assert(order@[b] == before[b - 1]);
            } else {
                assert(order@[a] == before[a - 1] && order@[b] == before[b - 1]);
            }
        }
        assert forall|a: int, b: int| 0 <= a < b < order@.len() implies (#[trigger] order@[a]) != (
        #[trigger] order@[b]) by {
            if b < p {
                assert(order@[a] == before[a] && order@[b] == before[b]);
            } else if b == p {
                assert(order@[a] == before[a]);
            } else if a < p {
                assert(order@[a] == before[a] && order@[b] == before[b - 1]);
            } else if a == p {
                assert(order@[b] == before[b - 1]);
            } else {
                assert(order@[a] == before[a - 1] && order@[b] == before[b - 1]);
            }
        }
        assert forall|k: int| 0 <= k < order@.len() implies (#[trigger] order@[k]) < i + 1 by {
            if k < p {
                assert(order@[k] == before[k]);
            } else if k > p {
                assert(order@[k] == before[k - 1]);
            }
        }
        i = i + 1;
    }
    order
}

/// The sum of a column.
pub open spec fn column_sum(values: Seq<u64>) -> int
    decreases values.len(),
{
    if values.len() == 0 {
        0
    } else {
        column_sum(values.drop_last()) + values.last()
    }
}

proof fn lemma_column_sum_prefix(values: Seq<u64>, k: int)
    requires
        0 <= k <= values.len(),
    ensures
        column_sum(values.take(k)) <= column_sum(values),
    decreases values.len() - k,
{
    if k < values.len() {
        lemma_column_sum_prefix(values, k + 1);
        assert(values.take(k + 1).drop_last() =~= values.take(k));
    } else {
        assert(values.take(k) =~= values);
    }
}

/// The total row of a column; the column's sum must fit in a `u64`.
pub fn column_total(values: &Vec<u64>) -> (r: u64)
    requires
        column_sum(values@) <= u64::MAX,
    ensures
        r == column_sum(values@),
{
    let mut total: u64 = 0;
    let mut i: usize = 0;
    while i < values.len()
        invariant
            i <= values@.len(),
            column_sum(values@) <= u64::MAX,
            total == column_sum(values@.take(i as int)),
        decreases values.len() - i,
    {
        assert(values@.take(i + 1).drop_last() =~= values@.take(i as int));
        proof {
            lemma_column_sum_prefix(values@, i + 1);
        }
        total = total + values[i];
        i = i + 1;
    }
    assert(values@.take(values@.len() as int) =~= values@);
    total
}

/// Focus time summed per application, applications in the order in which
/// they first appear.
pub open spec fn focus_by_app(entries: Seq<(Seq<char>, u64)>) -> Seq<(Seq<char>, int)>
    decreases entries.len(),
{
    if entries.len() == 0 {
        seq![]
    } else {
        let rest = focus_by_app(entries.drop_last());
        let e = entries.last();
        let i = index_of_focus(rest, e.0);
        if i < 0 {
            rest.push((e.0, e.1 as int))
        } else {
            rest.update(i, (e.0, rest[i].1 + e.1))
        }
    }
}

/// Index of the application `name` in per-application totals, or -1.
pub open spec fn index_of_focus(rows: Seq<(Seq<char>, int)>, name: Seq<char>) -> int
    decreases rows.len(),
{
    if rows.len() == 0 {
        -1
    } else if rows.last().0 == name {
        rows.len() - 1
    } else {
        index_of_focus(rows.drop_last(), name)
    }
}

pub open spec fn focus_views(v: Seq<(String, u64)>) -> Seq<(Seq<char>, u64)> {
    v.map_values(|e: (String, u64)| (e.0@, e.1))
}

pub open spec fn focus_total(entries: Seq<(Seq<char>, u64)>) -> int
    decreases entries.len(),
{
    if entries.len() == 0 {
        0
    } else {
        focus_total(entries.drop_last()) + entries.last().1
    }
}

proof fn lemma_index_of_focus(rows: Seq<(Seq<char>, int)>, name: Seq<char>)
    ensures
        -1 <= index_of_focus(rows, name) < rows.len(),
        index_of_focus(rows, name) >= 0 ==> rows[index_of_focus(rows, name)].0 == name,
    decreases rows.len(),
{
    if rows.len() > 0 {
        lemma_index_of_focus(rows.drop_last(), name);
    }
}

proof fn lemma_focus_rows_bounded(entries: Seq<(Seq<char>, u64)>)
    ensures
        focus_total(entries) >= 0,
        forall|i: int|
            0 <= i < focus_by_app(entries).len() ==> 0 <= (#[trigger] focus_by_app(entries)[i]).1 <= focus_total(
                entries,
            ),
    decreases entries.len(),
{
    if entries.len() > 0 {
        lemma_focus_rows_bounded(entries.drop_last());
        let rest = focus_by_app(entries.drop_last());
        let e = entries.last();
        lemma_index_of_focus(rest, e.0);
        let t = focus_by_app(entries);
        let k = index_of_focus(rest, e.0);
        assert(focus_total(entries) == focus_total(entries.drop_last()) + e.1);
        if k < 0 {
            assert(t == rest.push((e.0, e.1 as int)));
        } else {
            assert(t == rest.update(k, (e.0, rest[k].1 + e.1)));
        }
        assert forall|i: int| 0 <= i < t.len() implies 0 <= (#[trigger] t[i]).1 <= focus_total(entries) by {
            if i < rest.len() && i != k {
                assert(t[i] == rest[i]);
                assert(0 <= rest[i].1 <= focus_total(entries.drop_last()));
            } else if i == k {
                assert(0 <= rest[k].1 <= focus_total(entries.drop_last()));
                assert(t[i].1 == rest[k].1 + e.1);
            } else {
                assert(k < 0);
                assert(i == rest.len());
                assert(t[i].1 == e.1 as int);
            }
        }
    }
}

fn find_focus(rows: &Vec<(String, u64)>, name: &String) -> (r: Option<usize>)
    ensures
        match r {
            Some(i) => i < rows@.len() && rows@[i as int].0@ == name@,
            None => forall|k: int| 0 <= k < rows@.len() ==> (#[trigger] rows@[k]).0@ != name@,
        },
{
    let mut k: usize = 0;
    while k < rows.len()
        invariant
            k <= rows@.len(),
            forall|j: int| 0 <= j < k ==> (#[trigger] rows@[j]).0@ != name@,
        decreases rows.len() - k,
    {
        if rows[k].0 == *name {
            return Some(k);
        }
        k = k + 1;
    }
    None
}

/// Focus time per application, summed over the focus records: the rows of
/// the focus table, before sorting. The total of all records must fit in a
/// `u64`, as the table's total row does.
pub fn focus_totals(entries: &Vec<(String, u64)>) -> (r: Vec<(String, u64)>)
    requires
        focus_total(focus_views(entries@)) <= u64::MAX,
    ensures
        r@.len() == focus_by_app(focus_views(entries@)).len(),
        forall|i: int|
            0 <= i < r@.len() ==> (#[trigger] r@[i]).0@ == focus_by_app(focus_views(entries@))[i].0
                && r@[i].1 == focus_by_app(focus_views(entries@))[i].1,
{
    let ghost ev = focus_views(entries@);
    let mut r: Vec<(String, u64)> = Vec::new();
    let mut i: usize = 0;
    while i < entries.len()
        invariant
            i <= entries@.len(),
            ev == focus_views(entries@),
            focus_total(ev) <= u64::MAX,
            r@.len() == focus_by_app(ev.take(i as int)).len(),
            forall|k: int|
                0 <= k < r@.len() ==> (#[trigger] r@[k]).0@ == focus_by_app(ev.take(i as int))[k].0
                    && r@[k].1 == focus_by_app(ev.take(i as int))[k].1,
            forall|a: int, b: int| 0 <= a < b < r@.len() ==> (#[trigger] r@[a]).0@ != (#[trigger] r@[b]).0@,
        decreases entries.len() - i,
    {
        let ghost pre = ev.take(i as int);
        let ghost cur = ev.take(i + 1);
        assert(cur.drop_last() =~= pre);
        assert(cur.last() == ev[i as int]);
        let ghost rows = focus_by_app(pre);
        proof {
            lemma_index_of_focus(rows, ev[i as int].0);
            lemma_focus_rows_bounded(cur);
            assert(focus_total(cur) <= focus_total(ev)) by {
                lemma_focus_total_prefix(ev, i + 1);
            }
        }
        let e = &entries[i];
        match find_focus(&r, &e.0) {
            None => {
                proof {
                    if index_of_focus(rows, e.0@) >= 0 {
                        let k = index_of_focus(rows, e.0@);
                        assert(r@[k].0@ == rows[k].0);
                    }
                }
                let ghost before = r@;
                r.push((e.0.clone(), e.1));
                assert forall|k: int| 0 <= k < r@.len() implies (#[trigger] r@[k]).0@ == focus_by_app(cur)[k].0
                    && r@[k].1 == focus_by_app(cur)[k].1 by {
                    if k < before.len() {
                        assert(r@[k] == before[k]);
                    }
                }
                assert forall|a: int, b: int| 0 <= a < b < r@.len() implies (#[trigger] r@[a]).0@ != (
                #[trigger] r@[b]).0@ by {
                    if b < before.len() {
                        assert(r@[a] == before[a] && r@[b] == before[b]);
                    } else {
                        assert(r@[a] == before[a]);
                    }
                }
            },
            Some(j) => {
                proof {
                    let k = index_of_focus(rows, e.0@);
                    if k != j as int {
                        if k < 0 {
                            lemma_focus_absent(rows, e.0@, j as int);
                        } else {
                            assert(r@[k].0@ == rows[k].0);
                            assert(r@[j as int].0@ == r@[k].0@);
                        }
                    }
                    assert(focus_by_app(cur)[j as int].1 == rows[j as int].1 + e.1);
                    assert(0 <= focus_by_app(cur)[j as int].1 <= focus_total(cur));
                }
                let ghost before = r@;
                let v = r[j].1 + e.1;
                r.set(j, (e.0.clone(), v));
                assert forall|k: int| 0 <= k < r@.len() implies (#[trigger] r@[k]).0@ == focus_by_app(cur)[k].0
                    && r@[k].1 == focus_by_app(cur)[k].1 by {
                    if k != j {
                        assert(r@[k] == before[k]);
                    }
                }
                assert forall|a: int, b: int| 0 <= a < b < r@.len() implies (#[trigger] r@[a]).0@ != (
                #[trigger] r@[b]).0@ by {
                    if a != j {
                        assert(r@[a] == before[a]);
                    }
                    if b != j {
                        assert(r@[b] == before[b]);
                    }
                }
            },
        }
        i = i + 1;
    }
    assert(ev.take(entries@.len() as int) =~= ev);
    r
}

proof fn lemma_focus_absent(rows: Seq<(Seq<char>, int)>, name: Seq<char>, j: int)
    requires
        index_of_focus(rows, name) < 0,
        0 <= j < rows.len(),
    ensures
        rows[j].0 != name,
    decreases rows.len(),
{
    if j < rows.len() - 1 {
        assert(rows.drop_last()[j] == rows[j]);
        lemma_focus_absent(rows.drop_last(), name, j);
    }
}

proof fn lemma_focus_total_prefix(entries: Seq<(Seq<char>, u64)>, k: int)
    requires
        0 <= k <= entries.len(),
    ensures
        focus_total(entries.take(k)) <= focus_total(entries),
    decreases entries.len() - k,
{
    if k < entries.len() {
        lemma_focus_total_prefix(entries, k + 1);
        assert(entries.take(k + 1).drop_last() =~= entries.take(k));
    } else {
        assert(entries.take(k) =~= entries);
    }
}

} // verus!
