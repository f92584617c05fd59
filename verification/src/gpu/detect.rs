//! GPU detection under `/sys/class/drm`: which entries are cards, their PCI
//! vendor, and which backend serves them.
use vstd::prelude::*;

use crate::gpu::fdinfo::{after, has_prefix};
use crate::text::{
    chars_of, copy_range, find, find_from, parse_uint, parse_uint_range, starts_with, trim,
    trim_range,
};

verus! {

/// The card index of a `/sys/class/drm` entry named `cardN` (no `-`, as in
/// `card0-DP-1`), when `N` is a `u32`.
pub open spec fn card_index_spec(name: Seq<char>) -> Option<u32> {
    if has_prefix(name, "card"@) && find(name, '-') < 0 {
        match parse_uint(after(name, 4), 10, u32::MAX as nat) {
            Some(v) => Some(v as u32),
            None => None,
        }
    } else {
        None
    }
}

/// Parses a `/sys/class/drm` entry name as a card index.
pub fn parse_card_index(name: &str) -> (r: Option<u32>)
    ensures
        r == card_index_spec(name@),
{
    let cs = chars_of(name);
    let card = chars_of("card");
    proof {
        reveal_strlit("card");
    }
    if !starts_with(cs.as_slice(), card.as_slice()) {
        return None;
    }
    let d = find_from(cs.as_slice(), 0, '-');
    assert(cs@.skip(0) =~= cs@);
    if d < cs.len() {
        return None;
    }
    match parse_uint_range(cs.as_slice(), 4, cs.len(), 10, u32::MAX as u64) {
        Some(v) => Some(v as u32),
        None => None,
    }
}

/// The PCI vendor ID of a device, from the text of its `vendor` file (`None`
/// when unreadable): `0x`-prefixed hexadecimal after trimming, else `0xFFFF`.
pub open spec fn vendor_id_spec(content: Option<Seq<char>>) -> u32 {
    match content {
        Some(c) => {
            let t = trim(c);
            if has_prefix(t, "0x"@) {
                match parse_uint(after(t, 2), 16, u32::MAX as nat) {
                    Some(v) => v as u32,
                    None => 0xFFFF,
                }
            } else {
                0xFFFF
            }
        },
        None => 0xFFFF,
    }
}

/// Reads the PCI vendor ID from the `vendor` file's text.
pub fn parse_vendor_id(content: Option<&str>) -> (r: u32)
    ensures
        r == vendor_id_spec(
            match content {
                Some(c) => Some(c@),
                None => None,
            },
        ),
{
    match content {
        None => 0xFFFF,
        Some(c) => {
            let cs = chars_of(c);
            let (a, b) = trim_range(cs.as_slice(), 0, cs.len());
            assert(cs@.subrange(0, cs@.len() as int) =~= cs@);
            let t = copy_range(cs.as_slice(), a, b);
            let hex = chars_of("0x");
            proof {
                reveal_strlit("0x");
            }
            if !starts_with(t.as_slice(), hex.as_slice()) {
                return 0xFFFF;
            }
            match parse_uint_range(t.as_slice(), 2, t.len(), 16, u32::MAX as u64) {
                Some(v) => v as u32,
                None => 0xFFFF,
            }
        },
    }
}

/// The kind of backend that serves a GPU.
#[derive(Debug, Clone, Copy, PartialEq, Eq, Structural)]
pub enum BackendKind {
    Amd,
    Intel,
    Nvidia,
    Generic,
}

/// Backend dispatch by PCI vendor and kernel driver: AMD (0x1002) with
/// `amdgpu`, Intel (0x8086) with `i915` or `xe`, NVIDIA (0x10de) with `nvidia`
/// when NVML support is built in; anything else gets the generic backend.
pub open spec fn backend_kind_spec(vendor_id: u32, driver: Option<Seq<char>>, nvidia_enabled: bool) -> BackendKind {
    match driver {
        Some(d) => if vendor_id == 0x1002 && d == "amdgpu"@ {
            BackendKind::Amd
        } else if vendor_id == 0x8086 && (d == "i915"@ || d == "xe"@) {
            BackendKind::Intel
        } else if nvidia_enabled && vendor_id == 0x10de && d == "nvidia"@ {
            BackendKind::Nvidia
        } else {
            BackendKind::Generic
        },
        None => BackendKind::Generic,
    }
}

fn str_is(s: &str, lit: &str) -> (r: bool)
    ensures
        r == (s@ == lit@),
{
    let a = chars_of(s);
    let b = chars_of(lit);
    crate::text::chars_eq(a.as_slice(), b.as_slice())
}

/// Chooses the backend for a card from its vendor ID and driver module.
pub fn select_backend(vendor_id: u32, driver: Option<&str>, nvidia_enabled: bool) -> (r: BackendKind)
    ensures
        r == backend_kind_spec(
            vendor_id,
            match driver {
                Some(d) => Some(d@),
                None => None,
            },
            nvidia_enabled,
        ),
{
    match driver {
        None => BackendKind::Generic,
        Some(d) => {
            if vendor_id == 0x1002 && str_is(d, "amdgpu") {
                BackendKind::Amd
            } else if vendor_id == 0x8086 && (str_is(d, "i915") || str_is(d, "xe")) {
                BackendKind::Intel
            } else if nvidia_enabled && vendor_id == 0x10de && str_is(d, "nvidia") {
                BackendKind::Nvidia
            } else {
                BackendKind::Generic
            }
        },
    }
}

// ---------------------------------------------------------------------------
// Card ordering
// ---------------------------------------------------------------------------

/// A detected card: its index and its sysfs path.
#[derive(Debug, Clone)]
pub struct CardEntry {
    pub index: u32,
    pub path: String,
}

pub open spec fn card_views(v: Seq<CardEntry>) -> Seq<(u32, Seq<char>)> {
    v.map_values(|c: CardEntry| (c.index, c.path@))
}

/// Whether the indices are in non-decreasing order.
pub open spec fn sorted_by_index(v: Seq<(u32, Seq<char>)>) -> bool {
    forall|i: int, j: int| 0 <= i < j < v.len() ==> v[i].0 <= v[j].0
}

/// `x` inserted into the sorted `s` after every card whose index is not
/// greater than its own.
pub open spec fn insert_card(s: Seq<(u32, Seq<char>)>, x: (u32, Seq<char>)) -> Seq<(u32, Seq<char>)>
    decreases s.len(),
{
    if s.len() == 0 {
        seq![x]
    } else if s.last().0 <= x.0 {
        s.push(x)
    } else {
        insert_card(s.drop_last(), x).push(s.last())
    }
}

/// The cards sorted by index, cards of equal index in their input order
/// (a stable sort, as `sort_by_key` is).
pub open spec fn stable_sort_cards(s: Seq<(u32, Seq<char>)>) -> Seq<(u32, Seq<char>)>
    decreases s.len(),
{
    if s.len() == 0 {
        seq![]
    } else {
        insert_card(stable_sort_cards(s.drop_last()), s.last())
    }
}

proof fn lemma_insert_card_at(s: Seq<(u32, Seq<char>)>, x: (u32, Seq<char>), p: int)
    requires
        0 <= p <= s.len(),
        forall|k: int| p <= k < s.len() ==> (#[trigger] s[k]).0 > x.0,
        p == 0 || s[p - 1].0 <= x.0,
    ensures
        insert_card(s, x) == s.take(p).push(x) + s.skip(p),
    decreases s.len(),
{
    if s.len() == p {
        assert(s.take(p) =~= s);
        assert(s.skip(p) =~= Seq::<(u32, Seq<char>)>::empty());
        assert(s.take(p).push(x) + s.skip(p) =~= s.push(x));
    } else {
        let t = s.drop_last();
        assert forall|k: int| p <= k < t.len() implies (#[trigger] t[k]).0 > x.0 by {
            assert(t[k] == s[k]);
        }
        if p > 0 {
            assert(t[p - 1] == s[p - 1]);
        }
        lemma_insert_card_at(t, x, p);
        assert(s.last().0 > x.0);
        assert(t.take(p) =~= s.take(p));
        assert((t.take(p).push(x) + t.skip(p)).push(s.last()) =~= s.take(p).push(x) + s.skip(p));
    }
}

/// Sorts cards by index, keeping the relative order of equal indices.
pub fn sort_cards(cards: Vec<CardEntry>) -> (r: Vec<CardEntry>)
    ensures
        card_views(r@) == stable_sort_cards(card_views(cards@)),
        sorted_by_index(card_views(r@)),
        r@.len() == cards@.len(),
{
    let ghost cv = card_views(cards@);
    let mut out: Vec<CardEntry> = Vec::new();
    let mut i: usize = 0;
    assert(cv.take(0) =~= Seq::<(u32, Seq<char>)>::empty());
    assert(card_views(out@) =~= Seq::<(u32, Seq<char>)>::empty());
    while i < cards.len()
        invariant
            i <= cards@.len(),
            cv == card_views(cards@),
            card_views(out@) == stable_sort_cards(cv.take(i as int)),
            sorted_by_index(card_views(out@)),
            out@.len() == i,
        decreases cards.len() - i,
    {
        let x = CardEntry { index: cards[i].index, path: cards[i].path.clone() };
        let ghost xv = (x.index, x.path@);
        assert(xv == cv[i as int]);
        let ghost before = card_views(out@);
        let mut p = out.len();
        while p > 0 && out[p - 1].index > x.index
            invariant
                p <= out@.len(),
                before == card_views(out@),
                xv == (x.index, x.path@),
                forall|k: int| p <= k < out@.len() ==> (#[trigger] before[k]).0 > x.index,
            decreases p,
        {
            assert(before[p - 1].0 == out@[p - 1].index);
            p = p - 1;
        }
        proof {
            if p > 0 {
                assert(before[p - 1].0 == out@[p - 1].index);
            }
            lemma_insert_card_at(before, xv, p as int);
            assert(cv.take(i + 1).drop_last() =~= cv.take(i as int));
            assert(cv.take(i + 1).last() == xv);
        }
        out.insert(p, x);
        assert(card_views(out@) =~= before.take(p as int).push(xv) + before.skip(p as int));
        assert forall|a: int, b: int| 0 <= a < b < card_views(out@).len() implies card_views(out@)[a].0
            <= card_views(out@)[b].0 by {
            let ov = card_views(out@);
            if b < p {
                assert(ov[a] == before[a] && ov[b] == before[b]);
            } else if b == p {
                assert(ov[a] == before[a]);
                assert(before[p - 1].0 <= xv.0);
                assert(before[a].0 <= before[p - 1].0);
            } else if a < p {
                assert(ov[a] == before[a] && ov[b] == before[b - 1]);
            } else if a == p {
                assert(ov[b] == before[b - 1]);
            } else {
                assert(ov[a] == before[a - 1] && ov[b] == before[b - 1]);
            }
        }
        i = i + 1;
    }
    assert(cv.take(cards@.len() as int) =~= cv);
    out
}

} // verus!
