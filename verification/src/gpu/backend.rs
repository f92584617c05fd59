//! GPU backends and the sysfs texts they read: device names, PCI slot
//! names, AMD clock tables, Intel clocks.
use vstd::prelude::*;

use crate::error::CollectorError;
use crate::gpu::fdinfo::{after, has_prefix, parse_trimmed};
use crate::text::{
    chars_of, copy_range, dec_chars, ends_with, find, find_from, label_with_number, lines,
    lines_chars, parse_uint, parse_uint_range, split_ws, split_ws_chars, starts_with, string_of,
    trim, trim_chars, trim_range, views,
};

verus! {

/// What a sysfs attribute holding a number reads as: `trim().parse::<u64>()`.
pub fn sysfs_u64(content: &str) -> (r: Option<u64>)
    ensures
        r == parse_trimmed(content@),
{
    let cs = chars_of(content);
    let (a, b) = trim_range(cs.as_slice(), 0, cs.len());
    assert(cs@.subrange(0, cs@.len() as int) =~= cs@);
    parse_uint_range(cs.as_slice(), a, b, 10, u64::MAX)
}

/// What a sysfs attribute holding text reads as: the trimmed text.
pub fn sysfs_string(content: &str) -> (r: String)
    ensures
        r@ == trim(content@),
{
    let cs = chars_of(content);
    string_of(trim_chars(cs.as_slice()).as_slice())
}

pub open spec fn opt_view(o: Option<&str>) -> Option<Seq<char>> {
    match o {
        Some(s) => Some(s@),
        None => None,
    }
}

/// The device name from the `product_name` attribute (AMD) or else the
/// `name` attribute, trimmed; `None` when neither can be read.
pub open spec fn device_name_spec(product_name: Option<Seq<char>>, name: Option<Seq<char>>) -> Option<
    Seq<char>,
> {
    match product_name {
        Some(p) => Some(trim(p)),
        None => match name {
            Some(n) => Some(trim(n)),
            None => None,
        },
    }
}

/// Read the device name from the texts of `product_name` and `name`
/// (`None` for an attribute that could not be read).
pub fn read_device_name(product_name: Option<&str>, name: Option<&str>) -> (r: Option<String>)
    ensures
        match r {
            Some(s) => device_name_spec(opt_view(product_name), opt_view(name)) == Some(s@),
            None => device_name_spec(opt_view(product_name), opt_view(name)) is None,
        },
{
    match product_name {
        Some(p) => Some(sysfs_string(p)),
        None => match name {
            Some(n) => Some(sysfs_string(n)),
            None => None,
        },
    }
}

/// The PCI slot name from a `uevent` text: the trimmed value of its first
/// `PCI_SLOT_NAME=` line.
pub open spec fn pci_slot_spec(ls: Seq<Seq<char>>) -> Option<Seq<char>>
    decreases ls.len(),
{
    if ls.len() == 0 {
        None
    } else if has_prefix(ls[0], "PCI_SLOT_NAME="@) {
        Some(trim(after(ls[0], 14)))
    } else {
        pci_slot_spec(ls.drop_first())
    }
}

/// Read the PCI slot name (e.g., "0000:c5:00.0") from a device's `uevent`
/// text.
pub fn read_pci_slot_name(uevent: &str) -> (r: Option<String>)
    ensures
        match r {
            Some(s) => pci_slot_spec(lines(uevent@)) == Some(s@),
            None => pci_slot_spec(lines(uevent@)) is None,
        },
{
    let cs = chars_of(uevent);
    let ls = lines_chars(cs.as_slice());
    let key = chars_of("PCI_SLOT_NAME=");
    proof {
        reveal_strlit("PCI_SLOT_NAME=");
    }
    let ghost lv = views(ls@);
    let mut i: usize = 0;
    assert(lv.skip(0) =~= lv);
    while i < ls.len()
        invariant
            i <= ls@.len(),
            lv == views(ls@),
            lv == lines(uevent@),
            key@ == "PCI_SLOT_NAME="@,
            key@.len() == 14,
            pci_slot_spec(lv) == pci_slot_spec(lv.skip(i as int)),
        decreases ls.len() - i,
    {
        let line = ls[i].as_slice();
        assert(lv.skip(i as int)[0] == line@);
        if starts_with(line, key.as_slice()) {
            let (a, b) = trim_range(line, 14, line.len());
            return Some(string_of(copy_range(line, a, b).as_slice()));
        }
        assert(lv.skip(i as int).drop_first() =~= lv.skip(i + 1));
        i = i + 1;
    }
    None
}

/// `s` without all its trailing `Mhz` (`trim_end_matches("Mhz")`).
pub open spec fn strip_mhz(s: Seq<char>) -> Seq<char>
    decreases s.len(),
{
    if s.len() >= 3 && s.subrange(s.len() - 3, s.len() as int) == "Mhz"@ {
        strip_mhz(s.subrange(0, s.len() - 3))
    } else {
        s
    }
}

/// The clock of one line of an AMD `pp_dpm_*` table, when it is the marked
/// (`*`) current state: its second whitespace-separated field in MHz.
pub open spec fn dpm_line_clock(line: Seq<char>) -> Option<u32> {
    if find(line, '*') >= 0 && split_ws(line).len() >= 2 {
        match parse_uint(strip_mhz(split_ws(line)[1]), 10, u32::MAX as nat) {
            Some(v) => Some(v as u32),
            None => None,
        }
    } else {
        None
    }
}

/// The first marked clock in the table's lines.
pub open spec fn first_dpm_clock(ls: Seq<Seq<char>>) -> Option<u32>
    decreases ls.len(),
{
    if ls.len() == 0 {
        None
    } else {
        match dpm_line_clock(ls[0]) {
            Some(v) => Some(v),
            None => first_dpm_clock(ls.drop_first()),
        }
    }
}

fn strip_mhz_len(s: &[char]) -> (r: usize)
    ensures
        r <= s@.len(),
        s@.subrange(0, r as int) == strip_mhz(s@),
{
    let mhz = chars_of("Mhz");
    proof {
        reveal_strlit("Mhz");
    }
    let mut k = s.len();
    assert(s@.subrange(0, k as int) =~= s@);
    while k >= 3
        invariant
            k <= s@.len(),
            mhz@ == "Mhz"@,
            mhz@.len() == 3,
            strip_mhz(s@) == strip_mhz(s@.subrange(0, k as int)),
        decreases k,
    {
        let ghost t = s@.subrange(0, k as int);
        let piece = copy_range(s, k - 3, k);
        if !crate::text::chars_eq(piece.as_slice(), mhz.as_slice()) {
            assert(t.subrange(t.len() - 3, t.len() as int) =~= piece@);
            return k;
        }
        assert(t.subrange(t.len() - 3, t.len() as int) =~= piece@);
        assert(t.subrange(0, t.len() - 3) =~= s@.subrange(0, k - 3));
        k = k - 3;
    }
    k
}

/// Parse the text of an AMD `pp_dpm_sclk` or `pp_dpm_mclk` file: lines such
/// as `1: 500Mhz *`, the current state marked with `*`. Returns the MHz value
/// of the first marked line that has one.
pub fn parse_pp_dpm_clock(content: &str) -> (r: Option<u32>)
    ensures
        r == first_dpm_clock(lines(content@)),
{
    let cs = chars_of(content);
    let ls = lines_chars(cs.as_slice());
    let ghost lv = views(ls@);
    let mut i: usize = 0;
    assert(lv.skip(0) =~= lv);
    while i < ls.len()
        invariant
            i <= ls@.len(),
            lv == views(ls@),
            lv == lines(content@),
            first_dpm_clock(lv) == first_dpm_clock(lv.skip(i as int)),
        decreases ls.len() - i,
    {
        let line = ls[i].as_slice();
        assert(lv.skip(i as int)[0] == line@);
        let star = find_from(line, 0, '*');
        assert(line@.skip(0) =~= line@);
        let mut found: Option<u32> = None;
        if star < line.len() {
            let parts = split_ws_chars(line);
            if parts.len() >= 2 {
                let p = parts[1].as_slice();
                assert(views(parts@)[1] == p@);
                let k = strip_mhz_len(p);
                match parse_uint_range(p, 0, k, 10, u32::MAX as u64) {
                    Some(v) => {
                        found = Some(v as u32);
                    },
                    None => {},
                }
            }
        }
        assert(found == dpm_line_clock(line@));
        if found.is_some() {
            return found;
        }
        assert(lv.skip(i as int).drop_first() =~= lv.skip(i + 1));
        i = i + 1;
    }
    None
}

/// The core clock an Intel GPU reports (`rps_cur_freq_mhz`), as a `u32`
/// (`freq as u32`, truncating).
pub fn intel_core_clock_mhz(freq: Option<u64>) -> (r: Option<u32>)
    ensures
        match freq {
            Some(f) => r == Some((f % 0x1_0000_0000) as u32),
            None => r is None,
        },
{
    match freq {
        Some(f) => Some((f % 0x1_0000_0000) as u32),
        None => None,
    }
}

/// `format!("NVIDIA GPU {}", index)`: the name of an NVIDIA GPU that does not
/// report one.
pub fn nvidia_fallback_name(index: u32) -> (r: String)
    ensures
        r@ == "NVIDIA GPU "@ + dec_chars(index as nat),
{
    label_with_number("NVIDIA GPU ", index as u64)
}

fn name_or(name: Option<String>, prefix: &str, index: u32) -> (r: String)
    ensures
        r@ == match name {
            Some(n) => n@,
            None => prefix@ + dec_chars(index as nat),
        },
{
    match name {
        Some(n) => n,
        None => label_with_number(prefix, index as u64),
    }
}

fn or_empty(s: Option<String>) -> (r: String)
    ensures
        r@ == match s {
            Some(x) => x@,
            None => Seq::<char>::empty(),
        },
{
    match s {
        Some(x) => x,
        None => String::new(),
    }
}

/// Generic GPU backend — reads only hwmon (temperature, power). Used as
/// fallback when no vendor-specific backend is available.
pub struct GenericBackend {
    pub gpu_index: u32,
    pub device_path: String,
    pub pci_address: String,
    pub hwmon_path: Option<String>,
    pub name: String,
}

impl GenericBackend {
    /// A generic backend from what its device directory holds: the hwmon
    /// directory, the device name and PCI slot name when they could be read.
    pub fn new(
        gpu_index: u32,
        device_path: String,
        hwmon_path: Option<String>,
        name: Option<String>,
        pci_address: Option<String>,
    ) -> (b: Self)
        ensures
            b.gpu_index == gpu_index,
            b.device_path == device_path,
            b.hwmon_path == hwmon_path,
            b.name@ == match name {
                Some(n) => n@,
                None => "GPU "@ + dec_chars(gpu_index as nat),
            },
            b.pci_address@ == match pci_address {
                Some(p) => p@,
                None => Seq::<char>::empty(),
            },
    {
        GenericBackend {
            gpu_index,
            device_path,
            pci_address: or_empty(pci_address),
            hwmon_path,
            name: name_or(name, "GPU ", gpu_index),
        }
    }

    pub fn gpu_name(&self) -> (r: &str)
        ensures
            r@ == self.name@,
    {
        self.name.as_str()
    }

    pub fn pci_address(&self) -> (r: &str)
        ensures
            r@ == self.pci_address@,
    {
        self.pci_address.as_str()
    }

    pub fn gpu_index(&self) -> (r: u32)
        ensures
            r == self.gpu_index,
    {
        self.gpu_index
    }
}

/// AMD GPU backend — reads metrics from amdgpu sysfs.
pub struct AmdBackend {
    pub gpu_index: u32,
    pub device_path: String,
    pub pci_address: String,
    pub hwmon_path: Option<String>,
    pub name: String,
}

impl AmdBackend {
    /// An AMD backend from what its device directory holds.
    pub fn new(
        gpu_index: u32,
        device_path: String,
        hwmon_path: Option<String>,
        name: Option<String>,
        pci_address: Option<String>,
    ) -> (r: Result<Self, CollectorError>)
        ensures
            r matches Ok(b) && b.gpu_index == gpu_index && b.device_path == device_path
                && b.hwmon_path == hwmon_path && b.name@ == match name {
                Some(n) => n@,
                None => "AMD GPU "@ + dec_chars(gpu_index as nat),
            } && b.pci_address@ == match pci_address {
                Some(p) => p@,
                None => Seq::<char>::empty(),
            },
    {
        Ok(
            AmdBackend {
                gpu_index,
                device_path,
                pci_address: or_empty(pci_address),
                hwmon_path,
                name: name_or(name, "AMD GPU ", gpu_index),
            },
        )
    }

    pub fn gpu_name(&self) -> (r: &str)
        ensures
            r@ == self.name@,
    {
        self.name.as_str()
    }

    pub fn pci_address(&self) -> (r: &str)
        ensures
            r@ == self.pci_address@,
    {
        self.pci_address.as_str()
    }

    pub fn gpu_index(&self) -> (r: u32)
        ensures
            r == self.gpu_index,
    {
        self.gpu_index
    }
}

/// Intel GPU backend — reads metrics from i915/xe sysfs. Its processes are
/// not tracked per GPU (it has no PCI address).
pub struct IntelBackend {
    pub gpu_index: u32,
    pub device_path: String,
    pub hwmon_path: Option<String>,
    pub name: String,
}

impl IntelBackend {
    /// An Intel backend from what its device directory holds.
    pub fn new(gpu_index: u32, device_path: String, hwmon_path: Option<String>, name: Option<String>) -> (r:
        Result<Self, CollectorError>)
        ensures
            r matches Ok(b) && b.gpu_index == gpu_index && b.device_path == device_path
                && b.hwmon_path == hwmon_path && b.name@ == match name {
                Some(n) => n@,
                None => "Intel GPU "@ + dec_chars(gpu_index as nat),
            },
    {
        Ok(
            IntelBackend {
                gpu_index,
                device_path,
                hwmon_path,
                name: name_or(name, "Intel GPU ", gpu_index),
            },
        )
    }

    pub fn gpu_name(&self) -> (r: &str)
        ensures
            r@ == self.name@,
    {
        self.name.as_str()
    }

    pub fn pci_address(&self) -> (r: &str)
        ensures
            r@ == Seq::<char>::empty(),
    {
        proof {
            reveal_strlit("");
        }
        ""
    }

    pub fn gpu_index(&self) -> (r: u32)
        ensures
            r == self.gpu_index,
    {
        self.gpu_index
    }
}

} // verus!
