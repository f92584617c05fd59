use heimwatch::apps::{aggregate_by_app, resolve_app_name, resolve_network_app_name, AppCounters, CounterPair};
use heimwatch::cpu::{CpuCollector, CpuRecord};
use heimwatch::disk::{DiskCollector, DiskRecord, DiskSample};
use heimwatch::memory::{MemoryCollector, MemorySample, ProcStatus};
use heimwatch::metrics::PidNetStats;
use heimwatch::probe::{on_tcp_sendmsg, ProbeMap};
use heimwatch::network::{NetSample, NetworkCollector, NetworkRecord};
use heimwatch::util::{comm_to_string, comm_to_string_lossy, timestamp_from_clock, TimestampError};

fn comm(name: &str) -> [u8; 16] {
    let mut c = [0u8; 16];
    for (i, b) in name.bytes().enumerate().take(15) {
        c[i] = b;
    }
    c
}

fn disk_sample(pid: u32, name: &str, read_bytes: u64, write_bytes: u64) -> DiskSample {
    DiskSample {
        pid,
        proc_name: Some(name.to_string()),
        read_bytes,
        write_bytes,
        comm: [0u8; 16],
    }
}

fn net_sample(pid: u32, name: Option<&str>, tx: u64, rx: u64) -> NetSample {
    NetSample {
        pid,
        proc_name: name.map(|n| n.to_string()),
        stats: PidNetStats { tx_bytes: tx, rx_bytes: rx, comm: [0u8; 16] },
    }
}

fn cpu_poll(c: &mut CpuCollector, entries: &[(&str, u64)], interval_ns: u64) -> Vec<CpuRecord> {
    let v: Vec<([u8; 16], u64)> = entries.iter().map(|(n, t)| (comm(n), *t)).collect();
    c.collect_cpu(&v, interval_ns)
}

fn find_disk<'a>(records: &'a [DiskRecord], app: &str) -> Option<&'a DiskRecord> {
    records.iter().find(|r| r.app_name == app)
}

fn find_net<'a>(records: &'a [NetworkRecord], app: &str) -> Option<&'a NetworkRecord> {
    records.iter().find(|r| r.app_name == app)
}

/// The delta between two polls of one process: `(tx, rx, emitted)`.
fn net_delta(curr: (u64, u64), prev: (u64, u64)) -> (u64, u64, bool) {
    let mut c = NetworkCollector::new();
    c.collect_network(&vec![net_sample(1, Some("app"), prev.0, prev.1)]);
    let r = c.collect_network(&vec![net_sample(1, Some("app"), curr.0, curr.1)]);
    match r.first() {
        Some(rec) => (rec.data.tx_bytes, rec.data.rx_bytes, true),
        None => (0, 0, false),
    }
}

/// Aggregation of the probe map with a resolver that skips exited processes.
fn aggregate_resolved(map: &[(u32, u64, u64)], resolve: impl Fn(u32) -> Option<String>) -> Vec<AppCounters> {
    let samples: Vec<AppCounters> = map
        .iter()
        .filter_map(|(pid, tx, rx)| {
            resolve(*pid).map(|n| AppCounters { app_name: n, counters: CounterPair { first: *tx, second: *rx } })
        })
        .collect();
    aggregate_by_app(&samples)
}

fn app<'a>(v: &'a [AppCounters], name: &str) -> Option<&'a AppCounters> {
    v.iter().find(|a| a.app_name == name)
}

// --- CPU and disk deltas ---------------------------------------------------

#[test]
fn test_delta_calculation_no_previous() {
    let mut c = CpuCollector::new(1);
    let r = cpu_poll(&mut c, &[("app", 1000)], 1_000_000_000);
    assert_eq!(r[0].cpu_time_ns, 1000);
}

#[test]
fn linux_test_delta_calculation_no_previous() {
    let mut d = DiskCollector::new();
    let r = d.collect_disk(&vec![disk_sample(7, "app", 1_000_000, 0)]);
    assert_eq!(r[0].read_bytes, 1_000_000);
}

#[test]
fn test_delta_calculation_pid_reuse() {
    let mut c = CpuCollector::new(1);
    cpu_poll(&mut c, &[("app", 1000)], 1_000_000_000);
    let r = cpu_poll(&mut c, &[("app", 500)], 1_000_000_000);
    assert!(r.is_empty());
}

#[test]
fn linux_test_delta_calculation_pid_reuse() {
    let mut d = DiskCollector::new();
    d.collect_disk(&vec![disk_sample(7, "app", 1_000_000, 0)]);
    let r = d.collect_disk(&vec![disk_sample(7, "app", 500_000, 0)]);
    assert!(r.is_empty());
}

#[test]
fn test_delta_calculation_normal_progression() {
    let mut c = CpuCollector::new(1);
    cpu_poll(&mut c, &[("app", 1500)], 1_000_000_000);
    let r = cpu_poll(&mut c, &[("app", 2500)], 1_000_000_000);
    assert_eq!(r[0].cpu_time_ns, 1000);
}

#[test]
fn linux_test_delta_calculation_normal_progression() {
    let mut d = DiskCollector::new();
    d.collect_disk(&vec![disk_sample(7, "app", 1_500_000, 0)]);
    let r = d.collect_disk(&vec![disk_sample(7, "app", 2_500_000, 0)]);
    assert_eq!(r[0].read_bytes, 1_000_000);
}

fn absolute_cpu_time(ns: u64) {
    let mut c = CpuCollector::new(8);
    let r = cpu_poll(&mut c, &[("app", ns)], 1_000_000_000);
    assert_eq!(r[0].cpu_time_ns, ns);
}

#[test]
fn test_absolute_cpu_time_500ms() {
    absolute_cpu_time(500_000_000);
}

#[test]
fn test_absolute_cpu_time_1ms() {
    absolute_cpu_time(1_000_000);
}

#[test]
fn test_absolute_cpu_time_1s() {
    absolute_cpu_time(1_000_000_000);
}

#[test]
fn test_absolute_cpu_time_50ms() {
    absolute_cpu_time(50_000_000);
}

#[test]
fn test_absolute_cpu_time_5s() {
    absolute_cpu_time(5_000_000_000);
}

#[test]
fn test_pid_zero_filtering() {
    let mut d = DiskCollector::new();
    let r = d.collect_disk(&vec![disk_sample(0, "swapper", 4096, 4096)]);
    assert!(r.is_empty());
}

#[test]
fn linux_test_pid_zero_filtering() {
    let mut d = DiskCollector::new();
    let r = d.collect_disk(&vec![disk_sample(0, "swapper", 4096, 4096), disk_sample(1, "init", 4096, 0)]);
    assert_eq!(r.len(), 1);
    assert_eq!(r[0].app_name, "init");
}

#[test]
fn test_aggregation_single_pid() {
    let mut c = CpuCollector::new(1);
    let r = cpu_poll(&mut c, &[("firefox", 500_000_000)], 1_000_000_000);
    assert_eq!(r.len(), 1);
    assert_eq!(r[0].app_name, "firefox");
    assert_eq!(r[0].cpu_time_ns, 500_000_000);
}

#[test]
fn linux_test_aggregation_single_pid() {
    let mut d = DiskCollector::new();
    let r = d.collect_disk(&vec![disk_sample(10, "firefox", 500_000_000, 0)]);
    assert_eq!(r.len(), 1);
    assert_eq!(find_disk(&r, "firefox").unwrap().read_bytes, 500_000_000);
}

#[test]
fn test_aggregation_multiple_pids_same_app() {
    let mut d = DiskCollector::new();
    let r = d.collect_disk(&vec![
        disk_sample(10, "firefox", 300_000_000, 0),
        disk_sample(11, "firefox", 200_000_000, 0),
    ]);
    assert_eq!(r.len(), 1);
    assert_eq!(find_disk(&r, "firefox").unwrap().read_bytes, 500_000_000);
}

#[test]
fn linux_test_aggregation_multiple_pids_same_app() {
    let mut d = DiskCollector::new();
    let r = d.collect_disk(&vec![
        disk_sample(10, "firefox", 0, 300_000_000),
        disk_sample(11, "firefox", 0, 200_000_000),
    ]);
    assert_eq!(r.len(), 1);
    assert_eq!(find_disk(&r, "firefox").unwrap().write_bytes, 500_000_000);
}

#[test]
fn test_aggregation_multiple_apps() {
    let mut c = CpuCollector::new(1);
    let r = cpu_poll(&mut c, &[("firefox", 300_000_000), ("chrome", 400_000_000), ("python", 200_000_000)], 1_000_000_000);
    assert_eq!(r.len(), 3);
    assert_eq!(r[0].cpu_time_ns, 300_000_000);
    assert_eq!(r[1].cpu_time_ns, 400_000_000);
    assert_eq!(r[2].cpu_time_ns, 200_000_000);
}

/// The memory collector's counterpart: three applications, three records.
#[test]
fn memory_test_aggregation_multiple_apps() {
    let m = MemoryCollector::new().unwrap();
    let samples: Vec<MemorySample> = ["firefox", "chrome", "python"]
        .iter()
        .map(|n| MemorySample {
            app_name: Some(n.to_string()),
            status: Some(ProcStatus { vm_rss: Some(244_140), vm_size: None, vm_swap: None }),
        })
        .collect();
    let r = m.collect_memory(&samples);
    assert_eq!(r.len(), 3);
}

#[test]
fn linux_test_aggregation_multiple_apps() {
    let mut d = DiskCollector::new();
    let r = d.collect_disk(&vec![
        disk_sample(10, "firefox", 300_000_000, 0),
        disk_sample(20, "chrome", 400_000_000, 0),
        disk_sample(30, "python", 200_000_000, 0),
    ]);
    assert_eq!(r.len(), 3);
    assert_eq!(find_disk(&r, "firefox").unwrap().read_bytes, 300_000_000);
    assert_eq!(find_disk(&r, "chrome").unwrap().read_bytes, 400_000_000);
    assert_eq!(find_disk(&r, "python").unwrap().read_bytes, 200_000_000);
}

#[test]
fn test_zero_interval_skipped() {
    // If interval_ns is 0, no usage share can be computed.
    let delta_ns = 500u64;
    let interval_ns = 0u64;
    let should_emit = delta_ns > 0 && interval_ns > 0;
    assert!(!should_emit);
}

/// Over an empty interval a grown CPU time is still reported, against a
/// capacity of zero (its usage share is then 0).
#[test]
fn cpu_zero_interval_reports_with_zero_capacity() {
    let mut c = CpuCollector::new(4);
    let r = cpu_poll(&mut c, &[("app", 500)], 0);
    assert_eq!(r.len(), 1);
    assert_eq!(r[0].app_name, "app");
    assert_eq!(r[0].cpu_time_ns, 500);
    assert_eq!(r[0].capacity_ns, 0);
}

#[test]
fn test_zero_delta_skipped() {
    let mut c = CpuCollector::new(4);
    cpu_poll(&mut c, &[("app", 1_000_000_000)], 1_000_000_000);
    let r = cpu_poll(&mut c, &[("app", 1_000_000_000)], 1_000_000_000);
    assert!(r.is_empty());
}

#[test]
fn linux_test_zero_delta_skipped() {
    let mut d = DiskCollector::new();
    d.collect_disk(&vec![disk_sample(5, "app", 10, 10)]);
    let r = d.collect_disk(&vec![disk_sample(5, "app", 10, 10)]);
    assert!(r.is_empty());
}

#[test]
fn test_nonzero_read_delta_emitted() {
    let mut d = DiskCollector::new();
    d.collect_disk(&vec![disk_sample(5, "app", 0, 0)]);
    let r = d.collect_disk(&vec![disk_sample(5, "app", 1000, 0)]);
    assert_eq!(r.len(), 1);
    assert_eq!(r[0].read_bytes, 1000);
    assert_eq!(r[0].write_bytes, 0);
}

#[test]
fn test_nonzero_write_delta_emitted() {
    let mut d = DiskCollector::new();
    d.collect_disk(&vec![disk_sample(5, "app", 0, 0)]);
    let r = d.collect_disk(&vec![disk_sample(5, "app", 0, 2000)]);
    assert_eq!(r.len(), 1);
    assert_eq!(r[0].read_bytes, 0);
    assert_eq!(r[0].write_bytes, 2000);
}

#[test]
fn test_saturation_large_app_map() {
    let mut d = DiskCollector::new();
    let first: Vec<DiskSample> =
        (0..1000).map(|i| disk_sample(i + 1, &format!("app_{:04}", i), 1_000_000, 0)).collect();
    let r = d.collect_disk(&first);
    assert_eq!(r.len(), 1000);
    let mut second = first.clone();
    second[0].read_bytes = 1_000_000 + 500_000;
    let r = d.collect_disk(&second);
    assert_eq!(r.len(), 1);
    assert_eq!(r[0].app_name, "app_0000");
    assert_eq!(r[0].read_bytes, 500_000);
}

#[test]
fn test_overflow_safety_with_large_transfers() {
    let mut d = DiskCollector::new();
    let r = d.collect_disk(&vec![
        disk_sample(1, "large_app", u64::MAX - 1_000_000, 0),
        disk_sample(2, "large_app", 2_000_000, 0),
    ]);
    assert_eq!(find_disk(&r, "large_app").unwrap().read_bytes, u64::MAX);
}

#[test]
fn test_multiple_pids_same_comm_field() {
    let mut d = DiskCollector::new();
    let r = d.collect_disk(&vec![
        disk_sample(1234, "python3.11", 100_000_000, 50_000_000),
        disk_sample(1235, "python3.11", 80_000_000, 40_000_000),
    ]);
    assert_eq!(r.len(), 1);
    assert_eq!(r[0].read_bytes, 180_000_000);
    assert_eq!(r[0].write_bytes, 90_000_000);
}

#[test]
fn test_delta_preserves_previous_state() {
    let mut d = DiskCollector::new();
    let r = d.collect_disk(&vec![disk_sample(9, "testapp", 50_000_000, 30_000_000)]);
    assert_eq!(r[0].read_bytes, 50_000_000);
    assert_eq!(r[0].write_bytes, 30_000_000);
    let r = d.collect_disk(&vec![disk_sample(9, "testapp", 80_000_000, 60_000_000)]);
    assert_eq!(r[0].read_bytes, 30_000_000);
    assert_eq!(r[0].write_bytes, 30_000_000);
}

#[test]
fn test_cpu_delta_clamping_on_pid_reuse() {
    let mut c = CpuCollector::new(2);
    cpu_poll(&mut c, &[("proc", 1000)], 1_000_000_000);
    let r = cpu_poll(&mut c, &[("proc", 500)], 1_000_000_000);
    assert!(r.is_empty(), "PID reuse should clamp delta to 0");
}

// --- comm names -----------------------------------------------------------

#[test]
fn linux_test_comm_to_string_valid() {
    let mut c = [0u8; 16];
    b"firefox".iter().enumerate().for_each(|(i, &b)| c[i] = b);
    assert_eq!(comm_to_string_lossy(&c), Some("firefox".to_string()));
}

#[test]
fn linux_test_comm_to_string_empty() {
    let c = [0u8; 16];
    assert_eq!(comm_to_string_lossy(&c), None);
}

#[test]
fn linux_test_comm_to_string_truncated() {
    let mut c = [0u8; 16];
    b"python3.11".iter().enumerate().for_each(|(i, &b)| c[i] = b);
    c[6] = 0;
    assert_eq!(comm_to_string_lossy(&c), Some("python".to_string()));
}

#[test]
fn util_test_comm_to_string_valid() {
    let mut c = [0u8; 16];
    b"firefox".iter().enumerate().for_each(|(i, &b)| c[i] = b);
    assert_eq!(comm_to_string(&c), Some("firefox".to_string()));
}

#[test]
fn util_test_comm_to_string_empty() {
    let c = [0u8; 16];
    assert_eq!(comm_to_string(&c), None);
}

#[test]
fn util_test_comm_to_string_truncated() {
    let mut c = [0u8; 16];
    b"python3.11".iter().enumerate().for_each(|(i, &b)| c[i] = b);
    c[6] = 0;
    assert_eq!(comm_to_string(&c), Some("python".to_string()));
}

#[test]
fn comm_to_string_full_width_and_invalid_utf8() {
    let c = *b"abcdefghijklmnop";
    assert_eq!(comm_to_string(&c), Some("abcdefghijklmnop".to_string()));
    let mut bad = [0u8; 16];
    bad[0] = b'a';
    bad[1] = 0xff;
    assert_eq!(comm_to_string(&bad), None);
    assert_eq!(comm_to_string_lossy(&bad), Some("a\u{fffd}".to_string()));
    assert_eq!(comm_to_string_lossy(&c), Some("abcdefghijklmnop".to_string()));
    let mut accented = [0u8; 16];
    accented[..5].copy_from_slice("caf\u{e9}".as_bytes());
    assert_eq!(comm_to_string(&accented), Some("caf\u{e9}".to_string()));
}

#[test]
fn network_names_prefer_comm_then_proc_then_pid() {
    let c = comm("curl");
    assert_eq!(resolve_network_app_name(Some("curl-wrapper".to_string()), &c, 5), "curl");
    assert_eq!(resolve_network_app_name(Some("firefox".to_string()), &[0u8; 16], 5), "firefox");
    let mut bad = [0u8; 16];
    bad[0] = 0xff;
    assert_eq!(resolve_network_app_name(Some("firefox".to_string()), &bad, 5), "firefox");
    assert_eq!(resolve_network_app_name(None, &bad, 42), "pid:42");
    assert_eq!(resolve_network_app_name(None, &[0u8; 16], 7), "pid:7");
}

#[test]
fn disk_names_prefer_proc_then_comm_then_pid() {
    let c = comm("dd");
    assert_eq!(resolve_app_name(Some("rsync".to_string()), &c, 5), "rsync");
    assert_eq!(resolve_app_name(None, &c, 5), "dd");
    let mut bad = [0u8; 16];
    bad[0] = 0xff;
    assert_eq!(resolve_app_name(None, &bad, 5), "\u{fffd}");
    assert_eq!(resolve_app_name(None, &[0u8; 16], 9), "pid:9");
}

#[test]
fn network_records_use_the_kernel_name() {
    let mut c = NetworkCollector::new();
    let mut s = net_sample(3, Some("proc-name"), 10, 20);
    s.stats.comm = comm("curl");
    let r = c.collect_network(&vec![s]);
    assert_eq!(r.len(), 1);
    assert_eq!(r[0].app_name, "curl");
}

#[test]
fn cpu_names_invalid_utf8_as_unknown() {
    let mut c = CpuCollector::new(1);
    let mut bad = [0u8; 16];
    bad[0] = b'a';
    bad[1] = 0xc3;
    let r = c.collect_cpu(&vec![(bad, 1000)], 1_000_000_000);
    assert_eq!(r.len(), 1);
    assert_eq!(r[0].app_name, "(unknown)");
}

// --- network --------------------------------------------------------------

fn saturation(transfer_size: u64) {
    let mut map: ProbeMap<PidNetStats> = ProbeMap::new();
    let c = comm("curl");
    on_tcp_sendmsg(&mut map, c, u64::MAX - transfer_size / 2);
    on_tcp_sendmsg(&mut map, c, transfer_size);
    assert_eq!(map.get(&c).unwrap().tx_bytes, u64::MAX);
    on_tcp_sendmsg(&mut map, c, transfer_size);
    assert_eq!(map.get(&c).unwrap().tx_bytes, u64::MAX);
}

#[test]
fn test_large_transfer_saturation() {
    saturation(4 * 1024 * 1024 * 1024);
}

#[test]
fn test_large_transfer_saturation_1gb() {
    saturation(1024 * 1024 * 1024);
}

#[test]
fn test_large_transfer_saturation_100gb() {
    saturation(100 * 1024 * 1024 * 1024);
}

fn pid_reuse(prev_tx: u64, prev_rx: u64, curr_tx: u64, curr_rx: u64) {
    let (tx, rx, emit) = net_delta((curr_tx, curr_rx), (prev_tx, prev_rx));
    if curr_tx < prev_tx {
        assert_eq!(tx, 0);
    }
    if curr_rx < prev_rx {
        assert_eq!(rx, 0);
    }
    if curr_tx < prev_tx || curr_rx < prev_rx {
        assert!(!emit, "PID reuse should not emit a record");
    }
}

#[test]
fn test_pid_reuse_saturation_delta() {
    pid_reuse(1000, 500, 100, 50);
}

#[test]
fn test_pid_reuse_saturation_delta_large_drop() {
    pid_reuse(u64::MAX / 2, u64::MAX / 4, 100, 50);
}

#[test]
fn test_pid_reuse_saturation_delta_small_drop() {
    pid_reuse(1000, 1000, 500, 500);
}

fn normal_delta(prev_tx: u64, prev_rx: u64, curr_tx: u64, curr_rx: u64, etx: u64, erx: u64) {
    let (tx, rx, emit) = net_delta((curr_tx, curr_rx), (prev_tx, prev_rx));
    assert_eq!(tx, etx);
    assert_eq!(rx, erx);
    assert!(emit, "Normal traffic should emit a record");
}

#[test]
fn test_normal_delta_calculation() {
    normal_delta(1000, 2000, 1500, 3000, 500, 1000);
}

#[test]
fn test_normal_delta_calculation_small() {
    normal_delta(100, 200, 150, 250, 50, 50);
}

#[test]
fn test_normal_delta_calculation_large() {
    normal_delta(1_000_000, 2_000_000, 1_500_000, 3_000_000, 500_000, 1_000_000);
}

#[test]
fn test_normal_delta_calculation_asymmetric() {
    normal_delta(100, 10_000, 150, 20_000, 50, 10_000);
}

#[test]
fn test_multi_pid_aggregation_by_app_name() {
    let map = [(1001, 100, 200), (1002, 150, 250), (1003, 50, 100)];
    let by_app = aggregate_resolved(&map, |pid| {
        if (1001..=1003).contains(&pid) {
            Some("chrome".to_string())
        } else {
            None
        }
    });
    assert_eq!(by_app.len(), 1);
    let chrome = app(&by_app, "chrome").unwrap();
    assert_eq!(chrome.counters.first, 300);
    assert_eq!(chrome.counters.second, 550);
}

#[test]
fn test_cross_app_aggregation_boundary() {
    let map = [(1001, 100, 200), (1002, 150, 250), (2001, 300, 400), (2002, 200, 350), (3001, 50, 100)];
    let by_app = aggregate_resolved(&map, |pid| match pid {
        1001..=1002 => Some("chrome".to_string()),
        2001..=2002 => Some("firefox".to_string()),
        3001 => Some("curl".to_string()),
        _ => None,
    });
    assert_eq!(by_app.len(), 3);
    let chrome = app(&by_app, "chrome").unwrap();
    assert_eq!((chrome.counters.first, chrome.counters.second), (250, 450));
    let firefox = app(&by_app, "firefox").unwrap();
    assert_eq!((firefox.counters.first, firefox.counters.second), (500, 750));
    let curl = app(&by_app, "curl").unwrap();
    assert_eq!((curl.counters.first, curl.counters.second), (50, 100));
    assert_ne!(chrome.counters.first, firefox.counters.first);
    assert_ne!(chrome.counters.second, firefox.counters.second);
}

#[test]
fn test_cross_app_aggregation_with_saturation() {
    let map = [(1001, u64::MAX - 500, u64::MAX - 1000), (1002, 1000, 1500), (2001, 100, 200)];
    let by_app = aggregate_resolved(&map, |pid| {
        if (1001..=1002).contains(&pid) {
            Some("chrome".to_string())
        } else if pid == 2001 {
            Some("firefox".to_string())
        } else {
            None
        }
    });
    let chrome = app(&by_app, "chrome").unwrap();
    assert_eq!(chrome.counters.first, u64::MAX);
    assert_eq!(chrome.counters.second, u64::MAX);
    let firefox = app(&by_app, "firefox").unwrap();
    assert_eq!(firefox.counters.first, 100);
    assert_eq!(firefox.counters.second, 200);
}

#[test]
fn test_missing_pid_handling() {
    let map = [(1001, 200, 300), (9999, 500, 1000), (1002, 300, 400)];
    let by_app = aggregate_resolved(&map, |pid| match pid {
        1001 => Some("active_app".to_string()),
        1002 => Some("active_app".to_string()),
        _ => None,
    });
    assert_eq!(by_app.len(), 1);
    let a = app(&by_app, "active_app").unwrap();
    assert_eq!(a.counters.first, 500);
    assert_eq!(a.counters.second, 700);
}

#[test]
fn test_zero_traffic_no_record_emitted() {
    let (tx, rx, emit) = net_delta((100, 200), (100, 200));
    assert_eq!(tx, 0, "Zero traffic: TX delta should be 0");
    assert_eq!(rx, 0, "Zero traffic: RX delta should be 0");
    assert!(!emit, "Zero traffic should not emit a record");
}

#[test]
fn test_pidnetstats_default_is_zero() {
    let zero = PidNetStats::default();
    assert_eq!(zero.tx_bytes, 0, "PidNetStats::default() TX should be 0");
    assert_eq!(zero.rx_bytes, 0, "PidNetStats::default() RX should be 0");
}

// --- own tests --------------------------------------------------------------

#[test]
fn network_name_falls_back_to_comm_then_pid() {
    let mut c = NetworkCollector::new();
    let mut s = net_sample(42, None, 10, 20);
    s.stats.comm = comm("curl");
    let unnamed = net_sample(43, None, 1, 1);
    let r = c.collect_network(&vec![s, unnamed]);
    assert_eq!(r.len(), 2);
    assert_eq!(find_net(&r, "curl").unwrap().data.tx_bytes, 10);
    assert_eq!(find_net(&r, "pid:43").unwrap().data.rx_bytes, 1);
    assert_eq!(r[0].data.connections, 0);
}

#[test]
fn network_records_follow_first_appearance_and_aggregate() {
    let mut c = NetworkCollector::new();
    let r = c.collect_network(&vec![
        net_sample(1, Some("b"), 1, 1),
        net_sample(2, Some("a"), 2, 2),
        net_sample(3, Some("b"), 3, 3),
    ]);
    let names: Vec<&str> = r.iter().map(|x| x.app_name.as_str()).collect();
    assert_eq!(names, vec!["b", "a"]);
    assert_eq!(r[0].data.tx_bytes, 4);
}

#[test]
fn network_repeat_poll_is_silent() {
    let mut c = NetworkCollector::new();
    let samples = vec![net_sample(1, Some("x"), 5, 6), net_sample(2, Some("y"), 7, 8)];
    assert_eq!(c.collect_network(&samples).len(), 2);
    assert!(c.collect_network(&samples).is_empty());
}

#[test]
fn disk_repeat_poll_is_silent() {
    let mut d = DiskCollector::new();
    let samples = vec![disk_sample(3, "x", 5, 6)];
    assert_eq!(d.collect_disk(&samples).len(), 1);
    assert!(d.collect_disk(&samples).is_empty());
    assert_eq!(d.prev_state.len(), 1);
}

#[test]
fn disk_mount_point_is_empty() {
    let mut d = DiskCollector::new();
    let r = d.collect_disk(&vec![disk_sample(3, "x", 5, 6)]);
    assert_eq!(r[0].mount_point, "");
}

#[test]
fn cpu_skips_idle_tasks_and_reports_capacity() {
    let mut c = CpuCollector::new(4);
    let r = cpu_poll(&mut c, &[("swapper/0", 9_000), ("bash", 3_000)], 5_000_000_000);
    assert_eq!(r.len(), 1);
    assert_eq!(r[0].app_name, "bash");
    assert_eq!(r[0].capacity_ns, 20_000_000_000);
    let r = cpu_poll(&mut c, &[("", 7)], u64::MAX);
    assert_eq!(r[0].app_name, "(unknown)");
    assert_eq!(r[0].capacity_ns, u64::MAX);
}

#[test]
fn cpu_repeat_poll_is_silent() {
    let mut c = CpuCollector::new(1);
    let e = [("a", 10), ("b", 20)];
    assert_eq!(cpu_poll(&mut c, &e, 1).len(), 2);
    assert!(cpu_poll(&mut c, &e, 1).is_empty());
}

#[test]
fn clock_readings_become_timestamps() {
    assert_eq!(timestamp_from_clock(Some(1_700_000_000)), Ok(1_700_000_000));
    assert_eq!(timestamp_from_clock(None), Err(TimestampError));
    assert_eq!(TimestampError.message(), "Failed to get current timestamp");
}
