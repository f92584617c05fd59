//! Power state: which `/sys/class/power_supply` nodes are the battery and
//! the AC adapter, whether the machine is charging, the energy drawn between
//! two readings of the RAPL counter, and which interface carries the
//! default route.
use vstd::prelude::*;

use crate::gpu::backend::sysfs_u64;
use crate::gpu::fdinfo::parse_trimmed;
use crate::util::sat_sub;
use crate::text::{
    chars_eq, chars_of, lines, lines_chars, parse_uint, parse_uint_range, split, split_chars, string_of,
    trim, trim_chars, trim_range, views,
};

verus! {

/// Why power collection could not be set up or a value not be read.
#[derive(Debug, Clone, Copy, PartialEq, Eq, Structural)]
pub enum PowerError {
    /// Neither a battery nor an AC adapter was found.
    Unavailable,
    /// A sysfs attribute did not hold the number it should.
    InvalidValue,
}

impl PowerError {
    /// The error's message.
    pub fn message(&self) -> (r: String)
        ensures
            *self == PowerError::Unavailable ==> r@
                == "Power collection unavailable: no battery or AC adapter found (check /sys/class/power_supply/ permissions)"@,
            *self == PowerError::InvalidValue ==> r@ == "Failed to parse sysfs value"@,
    {
        match self {
            PowerError::Unavailable => String::from_str(
                "Power collection unavailable: no battery or AC adapter found (check /sys/class/power_supply/ permissions)",
            ),
            PowerError::InvalidValue => String::from_str("Failed to parse sysfs value"),
        }
    }
}

/// The kind of a power supply node, from the contents of its `type` file.
#[derive(Debug, Clone, Copy, PartialEq, Eq, Structural)]
pub enum SupplyKind {
    Battery,
    Ac,
    Other,
}

pub open spec fn battery_word() -> Seq<char> {
    seq!['B', 'a', 't', 't', 'e', 'r', 'y']
}

pub open spec fn mains_word() -> Seq<char> {
    seq!['M', 'a', 'i', 'n', 's']
}

pub open spec fn ac_word() -> Seq<char> {
    seq!['A', 'C']
}

/// `Battery` for a trimmed type of `Battery`, `Ac` for `Mains` or `AC`.
pub open spec fn supply_kind_spec(type_content: Seq<char>) -> SupplyKind {
    let t = trim(type_content);
    if t == battery_word() {
        SupplyKind::Battery
    } else if t == mains_word() || t == ac_word() {
        SupplyKind::Ac
    } else {
        SupplyKind::Other
    }
}

fn word(which: u8) -> (r: Vec<char>)
    requires
        which < 3,
    ensures
        which == 0 ==> r@ == battery_word(),
        which == 1 ==> r@ == mains_word(),
        which == 2 ==> r@ == ac_word(),
{
    if which == 0 {
        let r = chars_of("Battery");
        proof {
            reveal_strlit("Battery");
        }
        assert(r@ =~= battery_word());
        r
    } else if which == 1 {
        let r = chars_of("Mains");
        proof {
            reveal_strlit("Mains");
        }
        assert(r@ =~= mains_word());
        r
    } else {
        let r = chars_of("AC");
        proof {
            reveal_strlit("AC");
        }
        assert(r@ =~= ac_word());
        r
    }
}

/// Classifies a power supply node by the contents of its `type` file.
pub fn supply_kind(type_content: &str) -> (r: SupplyKind)
    ensures
        r == supply_kind_spec(type_content@),
{
    let cs = chars_of(type_content);
    let t = trim_chars(cs.as_slice());
    if chars_eq(t.as_slice(), word(0).as_slice()) {
        SupplyKind::Battery
    } else if chars_eq(t.as_slice(), word(1).as_slice()) || chars_eq(t.as_slice(), word(2).as_slice()) {
        SupplyKind::Ac
    } else {
        SupplyKind::Other
    }
}

/// A node of `/sys/class/power_supply`: its path and the contents of its
/// `type` file, when that could be read.
#[derive(Debug, Clone)]
pub struct SupplyNode {
    pub path: String,
    pub type_content: Option<String>,
}

/// The path of the first node of the given kind, in directory order.
pub open spec fn first_node_of(nodes: Seq<SupplyNode>, kind: SupplyKind) -> Option<Seq<char>>
    decreases nodes.len(),
{
    if nodes.len() == 0 {
        None
    } else {
        match nodes[0].type_content {
            Some(t) => if supply_kind_spec(t@) == kind {
                Some(nodes[0].path@)
            } else {
                first_node_of(nodes.drop_first(), kind)
            },
            None => first_node_of(nodes.drop_first(), kind),
        }
    }
}

fn first_node(nodes: &Vec<SupplyNode>, kind: SupplyKind) -> (r: Option<String>)
    ensures
        match r {
            Some(p) => first_node_of(nodes@, kind) == Some(p@),
            None => first_node_of(nodes@, kind) is None,
        },
{
    let mut i: usize = 0;
    assert(nodes@.skip(0) =~= nodes@);
    while i < nodes.len()
        invariant
            i <= nodes@.len(),
            first_node_of(nodes@, kind) == first_node_of(nodes@.skip(i as int), kind),
        decreases nodes.len() - i,
    {
        assert(nodes@.skip(i as int)[0] == nodes@[i as int]);
        assert(nodes@.skip(i as int).drop_first() =~= nodes@.skip(i + 1));
        if let Some(t) = &nodes[i].type_content {
            if supply_kind(t.as_str()) == kind {
                return Some(nodes[i].path.clone());
            }
        }
        i = i + 1;
    }
    None
}

/// The battery node: the first whose type is `Battery`.
pub fn discover_battery_node(nodes: &Vec<SupplyNode>) -> (r: Option<String>)
    ensures
        match r {
            Some(p) => first_node_of(nodes@, SupplyKind::Battery) == Some(p@),
            None => first_node_of(nodes@, SupplyKind::Battery) is None,
        },
{
    first_node(nodes, SupplyKind::Battery)
}

/// The AC adapter node: the first whose type is `Mains` or `AC`.
pub fn discover_ac_node(nodes: &Vec<SupplyNode>) -> (r: Option<String>)
    ensures
        match r {
            Some(p) => first_node_of(nodes@, SupplyKind::Ac) == Some(p@),
            None => first_node_of(nodes@, SupplyKind::Ac) is None,
        },
{
    first_node(nodes, SupplyKind::Ac)
}

/// The trimmed decimal `u32` of a sysfs attribute.
pub open spec fn sysfs_u32_spec(content: Seq<char>) -> Option<u32> {
    match parse_uint(trim(content), 10, u32::MAX as nat) {
        Some(v) => Some(v as u32),
        None => None,
    }
}

/// Whether an AC adapter is online, from the contents of its `online` file:
/// a number other than zero.
pub fn read_ac_online(content: &str) -> (r: Result<bool, PowerError>)
    ensures
        match sysfs_u32_spec(content@) {
            Some(v) => r == Ok::<bool, PowerError>(v != 0),
            None => r == Err::<bool, PowerError>(PowerError::InvalidValue),
        },
{
    let cs = chars_of(content);
    let (a, b) = trim_range(cs.as_slice(), 0, cs.len());
    assert(cs@.subrange(0, cs@.len() as int) =~= cs@);
    match parse_uint_range(cs.as_slice(), a, b, 10, u32::MAX as u64) {
        Some(v) => Ok(v != 0),
        None => Err(PowerError::InvalidValue),
    }
}

pub open spec fn charging_word() -> Seq<char> {
    seq!['C', 'h', 'a', 'r', 'g', 'i', 'n', 'g']
}

/// Whether the machine is charging: when the battery's (trimmed) status reads
/// `Charging`; otherwise, whatever the battery says, when the AC adapter is
/// there and online.
pub open spec fn charging_spec(battery_status: Option<Seq<char>>, ac_online: Option<bool>) -> bool {
    match battery_status {
        Some(s) if trim(s) == charging_word() => true,
        _ => ac_online == Some(true),
    }
}

/// Decides whether the machine is charging (see `charging_spec`).
pub fn charging_state(battery_status: Option<&str>, ac_online: Option<bool>) -> (r: bool)
    ensures
        r == charging_spec(
            match battery_status {
                Some(s) => Some(s@),
                None => None,
            },
            ac_online,
        ),
{
    match battery_status {
        Some(s) => {
            let cs = chars_of(s);
            let t = trim_chars(cs.as_slice());
            let w = chars_of("Charging");
            proof {
                reveal_strlit("Charging");
            }
            assert(w@ =~= charging_word());
            if chars_eq(t.as_slice(), w.as_slice()) {
                return true;
            }
        },
        None => {},
    }
    match ac_online {
        Some(b) => b,
        None => false,
    }
}

/// The RAPL package energy counter of an Intel single-socket machine.
pub open spec fn rapl_path_spec() -> Seq<char> {
    "/sys/class/powercap/intel-rapl/intel-rapl:0/energy_uj"@
}

/// The RAPL energy counter's path, when the counter exists.
pub fn discover_rapl_energy_path(counter_exists: bool) -> (r: Option<String>)
    ensures
        counter_exists ==> (r matches Some(p) && p@ == rapl_path_spec()),
        !counter_exists ==> r is None,
{
    if counter_exists {
        Some(String::from_str("/sys/class/powercap/intel-rapl/intel-rapl:0/energy_uj"))
    } else {
        None
    }
}

/// The microjoules reported for the RAPL reading `e` after the kept reading
/// `prev`: none at the first reading, else the growth (zero when the counter
/// went down).
pub open spec fn rapl_delta(prev: Option<u64>, e: u64) -> Option<u64> {
    match prev {
        Some(p) => Some(sat_sub(e, p)),
        None => None,
    }
}

/// Law: from a fresh collector, a first RAPL reading reports nothing; a
/// second reports the energy used in between, or zero when the counter went
/// down; and what is reported never exceeds the reading itself.
pub proof fn law_rapl_readings(e1: u64, e2: u64)
    ensures
        rapl_delta(None, e1) is None,
        e2 >= e1 ==> rapl_delta(Some(e1), e2) == Some((e2 - e1) as u64),
        e2 < e1 ==> rapl_delta(Some(e1), e2) == Some(0u64),
        forall|p: u64| #[trigger] rapl_delta(Some(p), e2) matches Some(d) && d <= e2,
{
}

/// Where the power collector reads from, and the last RAPL reading.
pub struct PowerCollector {
    pub battery_path: Option<String>,
    pub ac_path: Option<String>,
    pub rapl_energy_path: Option<String>,
    pub prev_rapl_energy_uj: Option<u64>,
}

impl PowerCollector {
    /// A power collector over the discovered nodes; there must be a battery
    /// or an AC adapter.
    pub fn new(
        battery_path: Option<String>,
        ac_path: Option<String>,
        rapl_energy_path: Option<String>,
    ) -> (r: Result<Self, PowerError>)
        ensures
            (battery_path is None && ac_path is None) ==> r == Err::<Self, PowerError>(
                PowerError::Unavailable,
            ),
            !(battery_path is None && ac_path is None) ==> (r matches Ok(c) && c.battery_path
                == battery_path && c.ac_path == ac_path && c.rapl_energy_path == rapl_energy_path
                && c.prev_rapl_energy_uj is None),
    {
        if battery_path.is_none() && ac_path.is_none() {
            return Err(PowerError::Unavailable);
        }
        Ok(PowerCollector { battery_path, ac_path, rapl_energy_path, prev_rapl_energy_uj: None })
    }

    /// Records a reading of the RAPL counter (the contents of `energy_uj`):
    /// returns the microjoules used since the previous reading (`None` at the
    /// first; zero when the counter went down), and keeps this reading. A
    /// reading that is not a number is an error and changes nothing.
    pub fn record_rapl_energy(&mut self, content: &str) -> (r: Result<Option<u64>, PowerError>)
        ensures
            match parse_trimmed(content@) {
                None => r == Err::<Option<u64>, PowerError>(PowerError::InvalidValue)
                    && final(self).prev_rapl_energy_uj == old(self).prev_rapl_energy_uj,
                Some(e) => final(self).prev_rapl_energy_uj == Some(e) && r == Ok::<
                    Option<u64>,
                    PowerError,
                >(rapl_delta(old(self).prev_rapl_energy_uj, e)),
            },
            final(self).battery_path == old(self).battery_path,
            final(self).ac_path == old(self).ac_path,
            final(self).rapl_energy_path == old(self).rapl_energy_path,
    {
        let energy = match sysfs_u64(content) {
            Some(e) => e,
            None => return Err(PowerError::InvalidValue),
        };
        let delta = match self.prev_rapl_energy_uj {
            Some(p) => Some(energy.saturating_sub(p)),
            None => None,
        };
        self.prev_rapl_energy_uj = Some(energy);
        Ok(delta)
    }
}

// ---------------------------------------------------------------------------
// Default route (`/proc/net/route`)
// ---------------------------------------------------------------------------

pub open spec fn default_destination() -> Seq<char> {
    seq!['0', '0', '0', '0', '0', '0', '0', '0']
}

/// A default route of the table: its interface and metric, when the line has
/// at least seven tab-separated fields, its destination is `00000000` and its
/// metric is hexadecimal.
pub open spec fn route_entry(line: Seq<char>) -> Option<(Seq<char>, u32)> {
    let parts = split(line, '\t');
    if parts.len() >= 7 && trim(parts[1]) == default_destination() {
        match parse_uint(trim(parts[6]), 16, u32::MAX as nat) {
            Some(m) => Some((parts[0], m as u32)),
            None => None,
        }
    } else {
        None
    }
}

/// The default route of lowest metric among the lines (the first of equal
/// metrics).
pub open spec fn best_route(ls: Seq<Seq<char>>) -> Option<(Seq<char>, u32)>
    decreases ls.len(),
{
    if ls.len() == 0 {
        None
    } else {
        let prev = best_route(ls.drop_last());
        match route_entry(ls.last()) {
            None => prev,
            Some(e) => match prev {
                None => Some(e),
                Some(p) => if e.1 < p.1 {
                    Some(e)
                } else {
                    Some(p)
                },
            },
        }
    }
}

/// The lines of the route table after its header.
pub open spec fn route_lines(content: Seq<char>) -> Seq<Seq<char>> {
    let ls = lines(content);
    if ls.len() == 0 {
        ls
    } else {
        ls.drop_first()
    }
}

/// The interface of the default route of lowest metric, if any.
pub open spec fn default_interface_spec(content: Seq<char>) -> Option<Seq<char>> {
    match best_route(route_lines(content)) {
        Some(e) => Some(e.0),
        None => None,
    }
}

fn parse_route_line(line: &[char]) -> (r: Option<(Vec<char>, u32)>)
    ensures
        match r {
            Some(e) => route_entry(line@) == Some((e.0@, e.1)),
            None => route_entry(line@) is None,
        },
{
    let parts = split_chars(line, '\t');
    let ghost pv = views(parts@);
    if parts.len() < 7 {
        return None;
    }
    assert(pv[1] == parts@[1]@ && pv[6] == parts@[6]@ && pv[0] == parts@[0]@);
    let dest = trim_chars(parts[1].as_slice());
    let zeros = chars_of("00000000");
    proof {
        reveal_strlit("00000000");
    }
    assert(zeros@ =~= default_destination());
    if !chars_eq(dest.as_slice(), zeros.as_slice()) {
        return None;
    }
    let (a, b) = trim_range(parts[6].as_slice(), 0, parts[6].len());
    assert(parts@[6]@.subrange(0, parts@[6]@.len() as int) =~= parts@[6]@);
    match parse_uint_range(parts[6].as_slice(), a, b, 16, u32::MAX as u64) {
        Some(m) => {
            let iface = crate::text::copy_range(parts[0].as_slice(), 0, parts[0].len());
            assert(iface@ =~= parts@[0]@);
            Some((iface, m as u32))
        },
        None => None,
    }
}

/// The interface that carries the default route, from the contents of
/// `/proc/net/route`: among the lines after the header whose destination is
/// `00000000`, the one of lowest (hexadecimal) metric, the first on ties.
pub fn default_route_interface(route_content: &str) -> (r: Option<String>)
    ensures
        match r {
            Some(s) => default_interface_spec(route_content@) == Some(s@),
            None => default_interface_spec(route_content@) is None,
        },
{
    let cs = chars_of(route_content);
    let ls = lines_chars(cs.as_slice());
    let ghost lv = views(ls@);
    let ghost rl = route_lines(route_content@);
    let mut best: Option<(Vec<char>, u32)> = None;
    if ls.len() == 0 {
        return None;
    }
    assert(rl =~= lv.drop_first());
    let mut i: usize = 1;
    assert(rl.take(0) =~= Seq::<Seq<char>>::empty());
    while i < ls.len()
        invariant
            1 <= i <= ls@.len(),
            lv == views(ls@),
            rl == lv.drop_first(),
            match best {
                Some(e) => best_route(rl.take(i - 1)) == Some((e.0@, e.1)),
                None => best_route(rl.take(i - 1)) is None,
            },
        decreases ls.len() - i,
    {
        assert(rl.take(i as int).drop_last() =~= rl.take(i - 1));
        assert(rl.take(i as int).last() == ls@[i as int]@);
        match parse_route_line(ls[i].as_slice()) {
            None => {},
            Some(e) => {
                let replace = match &best {
                    None => true,
                    Some(p) => e.1 < p.1,
                };
                if replace {
                    best = Some(e);
                }
            },
        }
        i = i + 1;
    }
    assert(rl.take(ls@.len() - 1) =~= rl);
    match best {
        Some(e) => Some(string_of(e.0.as_slice())),
        None => None,
    }
}

/// Law: the chosen default route has a metric no greater than that of any
/// default route in the table, and it is one of them.
pub proof fn law_default_route_has_lowest_metric(ls: Seq<Seq<char>>)
    ensures
        forall|i: int|
            0 <= i < ls.len() ==> (#[trigger] route_entry(ls[i]) matches Some(e) ==> (best_route(ls) matches Some(
                b,
            ) && b.1 <= e.1)),
        best_route(ls) matches Some(b) ==> exists|i: int|
            0 <= i < ls.len() && #[trigger] route_entry(ls[i]) == Some(b),
    decreases ls.len(),
{
    if ls.len() > 0 {
        let rest = ls.drop_last();
        law_default_route_has_lowest_metric(rest);
        assert forall|i: int| 0 <= i < ls.len() implies (#[trigger] route_entry(ls[i]) matches Some(e)
            ==> (best_route(ls) matches Some(b) && b.1 <= e.1)) by {
            if i < ls.len() - 1 {
                assert(ls[i] == rest[i]);
            }
        }
        if let Some(b) = best_route(ls) {
            if best_route(ls) == route_entry(ls.last()) {
                assert(route_entry(ls[ls.len() - 1]) == Some(b));
            } else {
                let j = choose|j: int| 0 <= j < rest.len() && #[trigger] route_entry(rest[j]) == Some(b);
                assert(ls[j] == rest[j]);
            }
        }
    }
}

} // verus!
