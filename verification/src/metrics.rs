//! Shared metric types: the metric kinds, the integer-valued payloads, and the
//! per-process counters that the kernel probes accumulate.
use vstd::prelude::*;

verus! {

/// The kinds of metric tracked.
#[derive(Debug, Clone, Copy, PartialEq, Eq, Hash, Structural)]
pub enum MetricType {
    Net,
    Pwr,
    Foc,
    Cpu,
    Mem,
    Dsk,
    Gpu,
}

/// The three-character key prefix of each metric kind.
pub open spec fn prefix_spec(t: MetricType) -> Seq<char> {
    match t {
        MetricType::Net => seq!['n', 'e', 't'],
        MetricType::Pwr => seq!['p', 'w', 'r'],
        MetricType::Foc => seq!['f', 'o', 'c'],
        MetricType::Cpu => seq!['c', 'p', 'u'],
        MetricType::Mem => seq!['m', 'e', 'm'],
        MetricType::Dsk => seq!['d', 's', 'k'],
        MetricType::Gpu => seq!['g', 'p', 'u'],
    }
}

impl MetricType {
    /// Returns the 3-character prefix used as the key prefix in storage.
    pub fn prefix(&self) -> (r: &'static str)
        ensures
            r@ == prefix_spec(*self),
            r@.len() == 3,
    {
        match self {
            MetricType::Net => {
                proof {
                    reveal_strlit("net");
                }
                assert("net"@ =~= prefix_spec(*self));
                "net"
            },
            MetricType::Pwr => {
                proof {
                    reveal_strlit("pwr");
                }
                assert("pwr"@ =~= prefix_spec(*self));
                "pwr"
            },
            MetricType::Foc => {
                proof {
                    reveal_strlit("foc");
                }
                assert("foc"@ =~= prefix_spec(*self));
                "foc"
            },
            MetricType::Cpu => {
                proof {
                    reveal_strlit("cpu");
                }
                assert("cpu"@ =~= prefix_spec(*self));
                "cpu"
            },
            MetricType::Mem => {
                proof {
                    reveal_strlit("mem");
                }
                assert("mem"@ =~= prefix_spec(*self));
                "mem"
            },
            MetricType::Dsk => {
                proof {
                    reveal_strlit("dsk");
                }
                assert("dsk"@ =~= prefix_spec(*self));
                "dsk"
            },
            MetricType::Gpu => {
                proof {
                    reveal_strlit("gpu");
                }
                assert("gpu"@ =~= prefix_spec(*self));
                "gpu"
            },
        }
    }
}

/// All metric types, in declaration order.
pub fn all_metric_types() -> (r: Vec<MetricType>)
    ensures
        r@ == seq![
            MetricType::Net,
            MetricType::Pwr,
            MetricType::Foc,
            MetricType::Cpu,
            MetricType::Mem,
            MetricType::Dsk,
            MetricType::Gpu,
        ],
{
    let mut v: Vec<MetricType> = Vec::new();
    v.push(MetricType::Net);
    v.push(MetricType::Pwr);
    v.push(MetricType::Foc);
    v.push(MetricType::Cpu);
    v.push(MetricType::Mem);
    v.push(MetricType::Dsk);
    v.push(MetricType::Gpu);
    assert(v@ =~= seq![
        MetricType::Net,
        MetricType::Pwr,
        MetricType::Foc,
        MetricType::Cpu,
        MetricType::Mem,
        MetricType::Dsk,
        MetricType::Gpu,
    ]);
    v
}

/// Network traffic data.
#[derive(Debug, Clone, Copy, PartialEq, Eq, Structural)]
pub struct NetworkData {
    pub tx_bytes: u64,
    pub rx_bytes: u64,
    pub connections: u32,
}

/// Window focus data.
#[derive(Debug, Clone)]
pub struct FocusData {
    pub app_id: String,
    pub duration_ms: u64,
}

/// Memory usage data (aggregated across all processes of an app).
#[derive(Debug, Clone, Copy, PartialEq, Eq, Structural)]
pub struct MemoryData {
    pub rss_bytes: u64,
    pub vms_bytes: u64,
    pub swap_bytes: u64,
    pub process_count: u32,
}

/// Disk I/O data.
#[derive(Debug, Clone)]
pub struct DiskData {
    pub read_bytes: u64,
    pub write_bytes: u64,
    pub mount_point: String,
}

/// GPU vendor identifier.
#[derive(Debug, Clone, Copy, PartialEq, Eq, Structural)]
pub enum GpuVendor {
    Nvidia,
    Amd,
    Intel,
    Unknown,
}

/// Aggregated network statistics for an app across a time range.
#[derive(Debug, Clone)]
pub struct AppNetworkStats {
    pub app_name: String,
    pub tx_bytes: u64,
    pub rx_bytes: u64,
}

/// Aggregated focus time statistics for an app across a time range.
#[derive(Debug, Clone)]
pub struct AppFocusStats {
    pub app_name: String,
    pub total_duration_ms: u64,
}

/// Per-process network byte counters kept by the kernel probes, with the
/// process name (`comm`, NUL-terminated, at most 15 characters) captured at the
/// first packet.
#[derive(Clone, Copy, Debug)]
pub struct PidNetStats {
    pub tx_bytes: u64,
    pub rx_bytes: u64,
    pub comm: [u8; 16],
}

/// Per-process CPU time accumulator kept by the scheduler probe.
#[derive(Clone, Copy, Debug, PartialEq, Eq, Structural)]
pub struct PidCpuStats {
    /// Cumulative nanoseconds on-CPU.
    pub cpu_time_ns: u64,
    /// When the process was last scheduled in; zero while it is off-CPU.
    pub last_sched_in_ns: u64,
}

/// Per-process block I/O byte counters kept by the block-request probe.
#[derive(Clone, Copy, Debug, PartialEq, Eq, Structural)]
pub struct PidDiskStats {
    pub read_bytes: u64,
    pub write_bytes: u64,
}

impl Default for PidNetStats {
    fn default() -> (r: Self)
        ensures
            r.tx_bytes == 0,
            r.rx_bytes == 0,
            forall|i: int| 0 <= i < 16 ==> r.comm@[i] == 0,
    {
        PidNetStats { tx_bytes: 0, rx_bytes: 0, comm: [0u8; 16] }
    }
}

impl Default for PidCpuStats {
    fn default() -> (r: Self)
        ensures
            r.cpu_time_ns == 0,
            r.last_sched_in_ns == 0,
    {
        PidCpuStats { cpu_time_ns: 0, last_sched_in_ns: 0 }
    }
}

impl Default for PidDiskStats {
    fn default() -> (r: Self)
        ensures
            r.read_bytes == 0,
            r.write_bytes == 0,
    {
        PidDiskStats { read_bytes: 0, write_bytes: 0 }
    }
}

} // verus!
