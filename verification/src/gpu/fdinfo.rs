//! DRM `fdinfo` parsing and per-process aggregation of GPU usage.
//!
//! `/proc/<pid>/fdinfo/<fd>` of a DRM file descriptor holds lines such as
//! `drm-pdev:\t0000:03:00.0`, `drm-engine-gfx:\t5000000000 ns` (AMD, nanoseconds),
//! `drm-cycles-gfx:\t1000000` and `drm-total-cycles-gfx:\t2000000` (Intel,
//! NVIDIA, cycle counters) and `drm-memory-vram:\t512 MiB`.
use vstd::prelude::*;

use crate::text::{
    chars_of, copy_range, ends_with, lines, lines_chars, parse_uint, parse_uint_range,
    starts_with, string_of, trim, trim_range, views,
};
use crate::util::{sat_add, sat_sub};

verus! {

// ---------------------------------------------------------------------------
// Memory sizes
// ---------------------------------------------------------------------------

/// The value of a memory size with an optional binary unit (`512 KiB`,
/// `2 MiB`, `1 GiB`, or raw bytes), before any bound on its size.
pub open spec fn mem_size_value(s: Seq<char>) -> Option<nat> {
    let t = trim(s);
    let num = |k: int| parse_uint(trim(t.subrange(0, t.len() - k)), 10, u64::MAX as nat);
    if t.len() >= 4 && t.subrange(t.len() - 4, t.len() as int) == " KiB"@ {
        match num(4) {
            Some(n) => Some(n * 1024),
            None => None,
        }
    } else if t.len() >= 4 && t.subrange(t.len() - 4, t.len() as int) == " MiB"@ {
        match num(4) {
            Some(n) => Some(n * 1048576),
            None => None,
        }
    } else if t.len() >= 4 && t.subrange(t.len() - 4, t.len() as int) == " GiB"@ {
        match num(4) {
            Some(n) => Some(n * 1073741824),
            None => None,
        }
    } else {
        parse_uint(t, 10, u64::MAX as nat)
    }
}

/// Whether the size `s` denotes fits in 64 bits (the scaling multiplication
/// does not overflow).
pub open spec fn mem_size_fits(s: Seq<char>) -> bool {
    mem_size_value(s) matches Some(v) ==> v <= u64::MAX
}

/// Parse memory size with unit suffix (e.g., "512 KiB", "2 MiB", "1 GiB" or raw bytes).
pub fn parse_memory_size(s: &str) -> (r: Option<u64>)
    requires
        mem_size_fits(s@),
    ensures
        match r {
            Some(v) => mem_size_value(s@) == Some(v as nat),
            None => mem_size_value(s@) is None,
        },
{
    let cs = chars_of(s);
    parse_memory_size_chars(cs.as_slice())
}

fn parse_memory_size_chars(s: &[char]) -> (r: Option<u64>)
    requires
        mem_size_fits(s@),
    ensures
        match r {
            Some(v) => mem_size_value(s@) == Some(v as nat),
            None => mem_size_value(s@) is None,
        },
{
    let (a, b) = trim_range(s, 0, s.len());
    assert(s@.subrange(0, s@.len() as int) =~= s@);
    let t = copy_range(s, a, b);
    let kib = chars_of(" KiB");
    let mib = chars_of(" MiB");
    let gib = chars_of(" GiB");
    proof {
        reveal_strlit(" KiB");
        reveal_strlit(" MiB");
        reveal_strlit(" GiB");
    }
    let ghost tv = t@;
    if ends_with(t.as_slice(), kib.as_slice()) || ends_with(t.as_slice(), mib.as_slice())
        || ends_with(t.as_slice(), gib.as_slice()) {
        let (c, d) = trim_range(t.as_slice(), 0, t.len() - 4);
        assert(tv.subrange(0, tv.len() - 4).subrange(0, tv.len() - 4) =~= tv.subrange(
            0,
            tv.len() - 4,
        ));
        let n = parse_uint_range(t.as_slice(), c, d, 10, u64::MAX);
        match n {
            None => None,
            Some(n) => {
                if ends_with(t.as_slice(), kib.as_slice()) {
                    assert(n as nat * 1024 <= u64::MAX);
                    Some(n * 1024)
                } else if ends_with(t.as_slice(), mib.as_slice()) {
                    assert(n as nat * 1048576 <= u64::MAX);
                    Some(n * 1048576)
                } else {
                    assert(n as nat * 1073741824 <= u64::MAX);
                    Some(n * 1073741824)
                }
            },
        }
    } else {
        assert(tv.subrange(0, tv.len() as int) =~= tv);
        parse_uint_range(t.as_slice(), 0, t.len(), 10, u64::MAX)
    }
}

// ---------------------------------------------------------------------------
// One fdinfo file
// ---------------------------------------------------------------------------

/// What one fdinfo file says of a DRM file descriptor.
pub ghost struct FdinfoFields {
    pub pdev: Seq<char>,
    pub engine_gfx_ns: Option<u64>,
    pub cycles_gfx: Option<u64>,
    pub total_cycles_gfx: Option<u64>,
    pub memory_vram_bytes: Option<u64>,
}

/// Whether `line` begins with `p`.
pub open spec fn has_prefix(line: Seq<char>, p: Seq<char>) -> bool {
    p.len() <= line.len() && line.subrange(0, p.len() as int) == p
}

/// Whether `line` ends with `p`.
pub open spec fn has_suffix(line: Seq<char>, p: Seq<char>) -> bool {
    p.len() <= line.len() && line.subrange(line.len() - p.len(), line.len() as int) == p
}

/// `line` from index `k` on.
pub open spec fn after(line: Seq<char>, k: int) -> Seq<char> {
    line.subrange(k, line.len() as int)
}

pub open spec fn opt_u64(o: Option<nat>) -> Option<u64> {
    match o {
        Some(v) => Some(v as u64),
        None => None,
    }
}

/// The decimal number after trimming, as `trim().parse::<u64>().ok()` gives it.
pub open spec fn parse_trimmed(s: Seq<char>) -> Option<u64> {
    opt_u64(parse_uint(trim(s), 10, u64::MAX as nat))
}

/// How one line changes what is known of the descriptor: each recognised
/// key overwrites its field.
pub open spec fn fdinfo_step(st: FdinfoFields, line: Seq<char>) -> FdinfoFields {
    if has_prefix(line, "drm-pdev:\t"@) {
        FdinfoFields { pdev: trim(after(line, "drm-pdev:\t"@.len() as int)), ..st }
    } else if has_prefix(line, "drm-engine-gfx:\t"@) {
        let v = after(line, "drm-engine-gfx:\t"@.len() as int);
        if has_suffix(v, " ns"@) {
            FdinfoFields {
                engine_gfx_ns: parse_trimmed(v.subrange(0, v.len() - 3)),
                ..st
            }
        } else {
            st
        }
    } else if has_prefix(line, "drm-cycles-gfx:\t"@) {
        FdinfoFields {
            cycles_gfx: parse_trimmed(after(line, "drm-cycles-gfx:\t"@.len() as int)),
            ..st
        }
    } else if has_prefix(line, "drm-total-cycles-gfx:\t"@) {
        FdinfoFields {
            total_cycles_gfx: parse_trimmed(after(line, "drm-total-cycles-gfx:\t"@.len() as int)),
            ..st
        }
    } else if has_prefix(line, "drm-memory-vram:\t"@) {
        FdinfoFields {
            memory_vram_bytes: opt_u64(
                mem_size_value(after(line, "drm-memory-vram:\t"@.len() as int)),
            ),
            ..st
        }
    } else {
        st
    }
}

/// The fields known after reading the lines `ls` in order.
pub open spec fn fdinfo_scan(ls: Seq<Seq<char>>) -> FdinfoFields
    decreases ls.len(),
{
    if ls.len() == 0 {
        FdinfoFields {
            pdev: Seq::empty(),
            engine_gfx_ns: None,
            cycles_gfx: None,
            total_cycles_gfx: None,
            memory_vram_bytes: None,
        }
    } else {
        fdinfo_step(fdinfo_scan(ls.drop_last()), ls.last())
    }
}

/// Whether every VRAM size in the text fits in 64 bits.
pub open spec fn fdinfo_sizes_fit(contents: Seq<char>) -> bool {
    forall|i: int|
        0 <= i < lines(contents).len() && has_prefix(#[trigger] lines(contents)[i], "drm-memory-vram:\t"@)
            ==> mem_size_fits(after(lines(contents)[i], "drm-memory-vram:\t"@.len() as int))
}

/// What a DRM fdinfo text describes: `None` unless it names the device
/// (`drm-pdev`).
pub open spec fn parse_drm_fdinfo_spec(contents: Seq<char>) -> Option<FdinfoFields> {
    let st = fdinfo_scan(lines(contents));
    if st.pdev.len() == 0 {
        None
    } else {
        Some(st)
    }
}

/// Raw per-fd metrics parsed from one DRM fdinfo file.
#[derive(Debug, Clone)]
pub struct DrmFdStats {
    pub pdev: String,
    pub engine_gfx_ns: Option<u64>,
    pub cycles_gfx: Option<u64>,
    pub total_cycles_gfx: Option<u64>,
    pub memory_vram_bytes: Option<u64>,
}

impl View for DrmFdStats {
    type V = FdinfoFields;

    open spec fn view(&self) -> FdinfoFields {
        FdinfoFields {
            pdev: self.pdev@,
            engine_gfx_ns: self.engine_gfx_ns,
            cycles_gfx: self.cycles_gfx,
            total_cycles_gfx: self.total_cycles_gfx,
            memory_vram_bytes: self.memory_vram_bytes,
        }
    }
}

/// Whether every VRAM size in an fdinfo text fits in 64 bits; the parser
/// is only defined for texts where it does.
pub fn fdinfo_sizes_fit_check(contents: &str) -> (r: bool)
    ensures
        r == fdinfo_sizes_fit(contents@),
{
    let cs = chars_of(contents);
    let ls = lines_chars(cs.as_slice());
    let mv = chars_of("drm-memory-vram:\t");
    let mut i: usize = 0;
    while i < ls.len()
        invariant
            i <= ls@.len(),
            views(ls@) == lines(contents@),
            mv@ == "drm-memory-vram:\t"@,
            forall|k: int|
                0 <= k < i && has_prefix(#[trigger] lines(contents@)[k], "drm-memory-vram:\t"@)
                    ==> mem_size_fits(after(lines(contents@)[k], "drm-memory-vram:\t"@.len() as int)),
        decreases ls.len() - i,
    {
        let line = &ls[i];
        assert(line@ == lines(contents@)[i as int]);
        if starts_with(line.as_slice(), mv.as_slice()) {
            let rest = copy_range(line.as_slice(), mv.len(), line.len());
            if !mem_size_fits_chars(rest.as_slice()) {
                return false;
            }
        }
        i = i + 1;
    }
    true
}

fn mem_size_fits_chars(s: &[char]) -> (r: bool)
    ensures
        r == mem_size_fits(s@),
{
    let (a, b) = trim_range(s, 0, s.len());
    assert(s@.subrange(0, s@.len() as int) =~= s@);
    let t = copy_range(s, a, b);
    let kib = chars_of(" KiB");
    let mib = chars_of(" MiB");
    let gib = chars_of(" GiB");
    proof {
        reveal_strlit(" KiB");
        reveal_strlit(" MiB");
        reveal_strlit(" GiB");
    }
    let ghost tv = t@;
    if ends_with(t.as_slice(), kib.as_slice()) || ends_with(t.as_slice(), mib.as_slice())
        || ends_with(t.as_slice(), gib.as_slice()) {
        let (c, d) = trim_range(t.as_slice(), 0, t.len() - 4);
        assert(tv.subrange(0, tv.len() - 4).subrange(0, tv.len() - 4) =~= tv.subrange(
            0,
            tv.len() - 4,
        ));
        match parse_uint_range(t.as_slice(), c, d, 10, u64::MAX) {
            None => true,
            Some(n) => {
                if ends_with(t.as_slice(), kib.as_slice()) {
                    n <= u64::MAX / 1024
                } else if ends_with(t.as_slice(), mib.as_slice()) {
                    n <= u64::MAX / 1048576
                } else {
                    n <= u64::MAX / 1073741824
                }
            },
        }
    } else {
        true
    }
}

/// Parse a single fdinfo file and extract DRM metrics if present.
pub fn parse_drm_fdinfo(contents: &str) -> (r: Option<DrmFdStats>)
    requires
        fdinfo_sizes_fit(contents@),
    ensures
        match r {
            Some(x) => parse_drm_fdinfo_spec(contents@) == Some(x@),
            None => parse_drm_fdinfo_spec(contents@) is None,
        },
{
    let cs = chars_of(contents);
    let ls = lines_chars(cs.as_slice());
    let pd = chars_of("drm-pdev:\t");
    let eg = chars_of("drm-engine-gfx:\t");
    let cy = chars_of("drm-cycles-gfx:\t");
    let tc = chars_of("drm-total-cycles-gfx:\t");
    let mv = chars_of("drm-memory-vram:\t");
    let ns = chars_of(" ns");
    proof {
        reveal_strlit(" ns");
    }
    let mut pdev: Vec<char> = Vec::new();
    let mut engine_gfx_ns: Option<u64> = None;
    let mut cycles_gfx: Option<u64> = None;
    let mut total_cycles_gfx: Option<u64> = None;
    let mut memory_vram_bytes: Option<u64> = None;
    let ghost ls_v = views(ls@);
    assert(ls_v.take(0) =~= Seq::<Seq<char>>::empty());
    let mut i: usize = 0;
    while i < ls.len()
        invariant
            i <= ls@.len(),
            ls_v == views(ls@),
            ls_v == lines(contents@),
            fdinfo_sizes_fit(contents@),
            pd@ == "drm-pdev:\t"@,
            eg@ == "drm-engine-gfx:\t"@,
            cy@ == "drm-cycles-gfx:\t"@,
            tc@ == "drm-total-cycles-gfx:\t"@,
            mv@ == "drm-memory-vram:\t"@,
            ns@ == " ns"@,
            ns@.len() == 3,
            fdinfo_scan(ls_v.take(i as int)) == (FdinfoFields {
                pdev: pdev@,
                engine_gfx_ns,
                cycles_gfx,
                total_cycles_gfx,
                memory_vram_bytes,
            }),
        decreases ls.len() - i,
    {
        let line = ls[i].as_slice();
        let n = line.len();
        let ghost lv = line@;
        assert(lv == ls_v[i as int]);
        assert(ls_v.take(i + 1).drop_last() =~= ls_v.take(i as int));
        assert(ls_v.take(i + 1).last() == lv);
        if starts_with(line, pd.as_slice()) {
            let (a, b) = trim_range(line, pd.len(), n);
            pdev = copy_range(line, a, b);
        } else if starts_with(line, eg.as_slice()) {
            let k = eg.len();
            let ghost v = after(lv, k as int);
            if n - k >= 3 && ends_with(line, ns.as_slice()) {
                assert(v.subrange(v.len() - 3, v.len() as int) =~= lv.subrange(
                    n - 3,
                    n as int,
                ));
                let (a, b) = trim_range(line, k, n - 3);
                assert(v.subrange(0, v.len() - 3) =~= lv.subrange(k as int, n - 3));
                engine_gfx_ns = parse_uint_range(line, a, b, 10, u64::MAX);
            } else {
                assert(!has_suffix(v, " ns"@)) by {
                    if has_suffix(v, " ns"@) {
                        assert(v.subrange(v.len() - 3, v.len() as int) =~= lv.subrange(
                            n - 3,
                            n as int,
                        ));
                    }
                }
            }
        } else if starts_with(line, cy.as_slice()) {
            let (a, b) = trim_range(line, cy.len(), n);
            cycles_gfx = parse_uint_range(line, a, b, 10, u64::MAX);
        } else if starts_with(line, tc.as_slice()) {
            let (a, b) = trim_range(line, tc.len(), n);
            total_cycles_gfx = parse_uint_range(line, a, b, 10, u64::MAX);
        } else if starts_with(line, mv.as_slice()) {
            let rest = copy_range(line, mv.len(), n);
            assert(has_prefix(lines(contents@)[i as int], "drm-memory-vram:\t"@));
            memory_vram_bytes = parse_memory_size_chars(rest.as_slice());
        }
        i = i + 1;
    }
    assert(ls_v.take(ls@.len() as int) =~= ls_v);
    if pdev.len() == 0 {
        return None;
    }
    Some(
        DrmFdStats {
            pdev: string_of(pdev.as_slice()),
            engine_gfx_ns,
            cycles_gfx,
            total_cycles_gfx,
            memory_vram_bytes,
        },
    )
}

// ---------------------------------------------------------------------------
// Per-process aggregation over the descriptors of one process
// ---------------------------------------------------------------------------

/// What is known of one process's use of one GPU.
pub ghost struct GpuProcView {
    pub pdev: Seq<char>,
    pub engine_time: u64,
    pub total_cycles: u64,
    pub is_cycles_schema: bool,
    pub vram_bytes: u64,
}

/// Aggregated per-process stats for one GPU.
#[derive(Debug, Clone)]
pub struct ProcessGpuStats {
    pub pdev: String,
    /// AMD: cumulative ns. Intel/NVIDIA: cumulative cycles.
    pub engine_time: u64,
    /// Intel/NVIDIA only: drm-total-cycles-gfx from the window.
    pub total_cycles: u64,
    /// false = AMD (ns-based); true = Intel/NVIDIA (cycles-based).
    pub is_cycles_schema: bool,
    pub vram_bytes: u64,
}

impl View for ProcessGpuStats {
    type V = GpuProcView;

    open spec fn view(&self) -> GpuProcView {
        GpuProcView {
            pdev: self.pdev@,
            engine_time: self.engine_time,
            total_cycles: self.total_cycles,
            is_cycles_schema: self.is_cycles_schema,
            vram_bytes: self.vram_bytes,
        }
    }
}

/// Index of the group for `pdev`, or -1.
pub open spec fn index_of_pdev(groups: Seq<GpuProcView>, pdev: Seq<char>) -> int
    decreases groups.len(),
{
    if groups.len() == 0 {
        -1
    } else if groups.last().pdev == pdev {
        groups.len() - 1
    } else {
        index_of_pdev(groups.drop_last(), pdev)
    }
}

/// The engine counter that one descriptor contributes: nanoseconds when it
/// reports them, else cycles, else nothing.
pub open spec fn fd_engine_time(fd: FdinfoFields) -> u64 {
    match fd.engine_gfx_ns {
        Some(v) => v,
        None => match fd.cycles_gfx {
            Some(v) => v,
            None => 0,
        },
    }
}

/// Folds one descriptor into the per-GPU groups of its process: the first
/// descriptor of a GPU fixes the schema; engine time and VRAM are summed
/// (saturating) and the largest total-cycles value is kept.
pub open spec fn merge_fd(groups: Seq<GpuProcView>, fd: FdinfoFields) -> Seq<GpuProcView> {
    let i = index_of_pdev(groups, fd.pdev);
    if i < 0 {
        groups.push(
            GpuProcView {
                pdev: fd.pdev,
                engine_time: fd_engine_time(fd),
                total_cycles: match fd.total_cycles_gfx {
                    Some(tc) => tc,
                    None => 0,
                },
                is_cycles_schema: fd.cycles_gfx is Some,
                vram_bytes: match fd.memory_vram_bytes {
                    Some(v) => v,
                    None => 0,
                },
            },
        )
    } else {
        let g = groups[i];
        groups.update(
            i,
            GpuProcView {
                engine_time: sat_add(g.engine_time, fd_engine_time(fd)),
                total_cycles: match fd.total_cycles_gfx {
                    Some(tc) => if tc > g.total_cycles {
                        tc
                    } else {
                        g.total_cycles
                    },
                    None => g.total_cycles,
                },
                vram_bytes: match fd.memory_vram_bytes {
                    Some(v) => sat_add(g.vram_bytes, v),
                    None => g.vram_bytes,
                },
                ..g
            },
        )
    }
}

/// The per-GPU stats of a process from its DRM descriptors, in the order in
/// which the GPUs first appear, counting only the known GPUs.
pub open spec fn aggregate_fds(fds: Seq<FdinfoFields>, known: Seq<Seq<char>>) -> Seq<GpuProcView>
    decreases fds.len(),
{
    if fds.len() == 0 {
        seq![]
    } else {
        let g = aggregate_fds(fds.drop_last(), known);
        if known.contains(fds.last().pdev) {
            merge_fd(g, fds.last())
        } else {
            g
        }
    }
}

/// The character sequences of a vector of strings.
pub open spec fn string_views(v: Seq<String>) -> Seq<Seq<char>> {
    v.map_values(|s: String| s@)
}

/// Whether `v` holds a string equal to `s`.
pub fn contains_string(v: &Vec<String>, s: &String) -> (r: bool)
    ensures
        r == string_views(v@).contains(s@),
{
    let mut i: usize = 0;
    while i < v.len()
        invariant
            i <= v@.len(),
            forall|k: int| 0 <= k < i ==> v@[k]@ != s@,
        decreases v.len() - i,
    {
        if v[i] == *s {
            assert(string_views(v@)[i as int] == s@);
            return true;
        }
        i = i + 1;
    }
    assert forall|k: int| 0 <= k < string_views(v@).len() implies string_views(v@)[k] != s@ by {
        assert(string_views(v@)[k] == v@[k]@);
    }
    false
}

fn find_group(groups: &Vec<ProcessGpuStats>, pdev: &String) -> (r: Option<usize>)
    ensures
        match r {
            Some(i) => i < groups@.len() && index_of_pdev(groups@.map_values(|g: ProcessGpuStats| g@), pdev@)
                == i,
            None => index_of_pdev(groups@.map_values(|g: ProcessGpuStats| g@), pdev@) < 0,
        },
{
    let ghost gv = groups@.map_values(|g: ProcessGpuStats| g@);
    let mut k = groups.len();
    assert(gv.take(k as int) =~= gv);
    while k > 0
        invariant
            k <= groups@.len(),
            gv == groups@.map_values(|g: ProcessGpuStats| g@),
            index_of_pdev(gv, pdev@) == index_of_pdev(gv.take(k as int), pdev@),
        decreases k,
    {
        assert(gv.take(k as int).last() == groups@[k - 1]@);
        if groups[k - 1].pdev == *pdev {
            return Some(k - 1);
        }
        assert(gv.take(k as int).drop_last() =~= gv.take(k - 1));
        k = k - 1;
    }
    None
}

/// Folds the DRM descriptors of one process into per-GPU stats, keeping only
/// the GPUs in `known_pdevs`.
pub fn aggregate_process_fds(fds: &Vec<DrmFdStats>, known_pdevs: &Vec<String>) -> (r: Vec<
    ProcessGpuStats,
>)
    ensures
        r@.map_values(|g: ProcessGpuStats| g@) == aggregate_fds(
            fds@.map_values(|f: DrmFdStats| f@),
            string_views(known_pdevs@),
        ),
{
    let ghost fv = fds@.map_values(|f: DrmFdStats| f@);
    let mut groups: Vec<ProcessGpuStats> = Vec::new();
    let mut i: usize = 0;
    assert(fv.take(0) =~= Seq::<FdinfoFields>::empty());
    assert(groups@.map_values(|g: ProcessGpuStats| g@) =~= Seq::<GpuProcView>::empty());
    while i < fds.len()
        invariant
            i <= fds@.len(),
            fv == fds@.map_values(|f: DrmFdStats| f@),
            groups@.map_values(|g: ProcessGpuStats| g@) == aggregate_fds(
                fv.take(i as int),
                string_views(known_pdevs@),
            ),
        decreases fds.len() - i,
    {
        let fd = &fds[i];
        let ghost before = groups@.map_values(|g: ProcessGpuStats| g@);
        assert(fv.take(i + 1).drop_last() =~= fv.take(i as int));
        assert(fv.take(i + 1).last() == fd@);
        if contains_string(known_pdevs, &fd.pdev) {
            let added_time = match fd.engine_gfx_ns {
                Some(v) => v,
                None => match fd.cycles_gfx {
                    Some(v) => v,
                    None => 0,
                },
            };
            match find_group(&groups, &fd.pdev) {
                None => {
                    let g = ProcessGpuStats {
                        pdev: fd.pdev.clone(),
                        engine_time: added_time,
                        total_cycles: match fd.total_cycles_gfx {
                            Some(tc) => tc,
                            None => 0,
                        },
                        is_cycles_schema: fd.cycles_gfx.is_some(),
                        vram_bytes: match fd.memory_vram_bytes {
                            Some(v) => v,
                            None => 0,
                        },
                    };
                    groups.push(g);
                    assert(groups@.map_values(|g: ProcessGpuStats| g@) =~= merge_fd(before, fd@));
                },
                Some(j) => {
                    let old_g = ProcessGpuStats {
                        pdev: groups[j].pdev.clone(),
                        engine_time: groups[j].engine_time,
                        total_cycles: groups[j].total_cycles,
                        is_cycles_schema: groups[j].is_cycles_schema,
                        vram_bytes: groups[j].vram_bytes,
                    };
                    assert(old_g@ == before[j as int]);
                    let engine_time = old_g.engine_time.saturating_add(added_time);
                    let total_cycles = match fd.total_cycles_gfx {
                        Some(tc) => if tc > old_g.total_cycles {
                            tc
                        } else {
                            old_g.total_cycles
                        },
                        None => old_g.total_cycles,
                    };
                    let vram_bytes = match fd.memory_vram_bytes {
                        Some(v) => old_g.vram_bytes.saturating_add(v),
                        None => old_g.vram_bytes,
                    };
                    let g = ProcessGpuStats {
                        pdev: old_g.pdev,
                        engine_time,
                        total_cycles,
                        is_cycles_schema: old_g.is_cycles_schema,
                        vram_bytes,
                    };
                    groups.set(j, g);
                    assert(groups@.map_values(|g: ProcessGpuStats| g@) =~= merge_fd(before, fd@));
                },
            }
        }
        i = i + 1;
    }
    assert(fv.take(fds@.len() as int) =~= fv);
    groups
}

} // verus!
