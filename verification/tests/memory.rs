use heimwatch::memory::{
    kib_to_bytes, merge_memory_data, parse_proc_status, rss_exceeds_vms, MemoryCollector, MemoryRecord,
    MemorySample, ProcStatus, MAX_KIB,
};
use heimwatch::metrics::MemoryData;

fn one_process(rss: u64, vms: u64, swap: u64) -> MemoryData {
    MemoryData { rss_bytes: rss, vms_bytes: vms, swap_bytes: swap, process_count: 1 }
}

fn zero() -> MemoryData {
    MemoryData { rss_bytes: 0, vms_bytes: 0, swap_bytes: 0, process_count: 0 }
}

fn sample(name: &str, rss: u64, vms: u64, swap: u64) -> MemorySample {
    MemorySample {
        app_name: Some(name.to_string()),
        status: Some(ProcStatus { vm_rss: Some(rss), vm_size: Some(vms), vm_swap: Some(swap) }),
    }
}

fn find<'a>(r: &'a [MemoryRecord], name: &str) -> &'a MemoryRecord {
    r.iter().find(|m| m.app_name == name).unwrap()
}

#[test]
fn test_memory_collector_new() {
    let collector = MemoryCollector::new();
    assert!(collector.is_ok());
}

#[test]
fn test_aggregation_single_process() {
    let e = merge_memory_data(zero(), one_process(500_000_000, 1_000_000_000, 100_000_000));
    assert_eq!(e.rss_bytes, 500_000_000);
    assert_eq!(e.process_count, 1);

    let m = MemoryCollector::new().unwrap();
    let r = m.collect_memory(&vec![sample("firefox", 488_281, 976_562, 97_656)]);
    assert_eq!(r.len(), 1);
    assert_eq!(find(&r, "firefox").data.process_count, 1);
}

#[test]
fn test_aggregation_multiple_processes_same_app() {
    let mut e = zero();
    for _ in 0..3 {
        e = merge_memory_data(e, one_process(300_000_000, 600_000_000, 50_000_000));
    }
    assert_eq!(e.rss_bytes, 900_000_000);
    assert_eq!(e.process_count, 3);

    let m = MemoryCollector::new().unwrap();
    let r = m.collect_memory(&vec![sample("chrome", 1, 2, 3), sample("chrome", 1, 2, 3), sample("chrome", 1, 2, 3)]);
    assert_eq!(r.len(), 1);
    assert_eq!(r[0].data.rss_bytes, 3 * 1024);
    assert_eq!(r[0].data.process_count, 3);
}

#[test]
fn test_kb_to_bytes_conversion() {
    assert_eq!(kib_to_bytes(2720), 2785280);
}

#[test]
fn test_read_proc_status_valid_content() {
    let status = ProcStatus { vm_rss: Some(1024), vm_size: Some(2048), vm_swap: Some(512) };
    assert_eq!(status.vm_rss, Some(1024));
    assert_eq!(status.vm_size, Some(2048));
    assert_eq!(status.vm_swap, Some(512));
    let parsed = parse_proc_status("VmRSS:\t1024 kB\nVmSize:\t2048 kB\nVmSwap:\t512 kB\n");
    assert_eq!(parsed, status);
}

#[test]
fn test_read_proc_status_partial_fields() {
    let status = ProcStatus { vm_rss: Some(1024), vm_size: None, vm_swap: Some(512) };
    assert_eq!(status.vm_rss, Some(1024));
    assert_eq!(status.vm_size, None);
    assert_eq!(status.vm_swap, Some(512));
    let parsed = parse_proc_status("Name:\tcat\nVmRSS:\t1024 kB\nVmSwap:\t512 kB\n");
    assert_eq!(parsed, status);
}

#[test]
fn test_read_proc_status_all_missing() {
    let status = ProcStatus::default();
    assert_eq!(status.vm_rss, None);
    assert_eq!(status.vm_size, None);
    assert_eq!(status.vm_swap, None);
    assert_eq!(parse_proc_status("Name:\tkthreadd\nState:\tS (sleeping)\n"), status);
}

#[test]
fn test_aggregation_with_zero_values() {
    let m = MemoryCollector::new().unwrap();
    let r = m.collect_memory(&vec![sample("idle_proc", 0, 0, 0)]);
    assert_eq!(find(&r, "idle_proc").data.rss_bytes, 0);
    assert_eq!(find(&r, "idle_proc").data.process_count, 1);
}

#[test]
fn test_aggregation_saturation_overflow() {
    let e = merge_memory_data(zero(), MemoryData { rss_bytes: u64::MAX, ..zero() });
    let e = merge_memory_data(e, MemoryData { rss_bytes: 1000, ..zero() });
    assert_eq!(e.rss_bytes, u64::MAX);
}

#[test]
fn test_memory_data_field_sizes() {
    let data = MemoryData {
        rss_bytes: 1_000_000_000,
        vms_bytes: 2_000_000_000,
        swap_bytes: 500_000_000,
        process_count: 5,
    };
    assert_eq!(data.rss_bytes, 1_000_000_000);
    assert_eq!(data.vms_bytes, 2_000_000_000);
    assert_eq!(data.swap_bytes, 500_000_000);
    assert_eq!(data.process_count, 5);
}

#[test]
fn test_memory_data_large_process_count() {
    let data = MemoryData { rss_bytes: 100_000_000, vms_bytes: 200_000_000, swap_bytes: 0, process_count: u32::MAX };
    assert_eq!(data.process_count, u32::MAX);
}

#[test]
fn test_aggregation_preserves_app_name() {
    let names = vec!["my-app-v1.0", "/usr/bin/python3", "com.example.app"];
    let m = MemoryCollector::new().unwrap();
    let samples: Vec<MemorySample> = names.iter().map(|n| sample(n, 97_656, 0, 0)).collect();
    let r = m.collect_memory(&samples);
    for n in &names {
        assert!(r.iter().any(|x| x.app_name == *n));
    }
}

#[test]
fn test_kb_conversion_small_value() {
    assert_eq!(kib_to_bytes(1), 1024);
}

#[test]
fn test_kb_conversion_large_value() {
    assert_eq!(kib_to_bytes(1_000_000), 1_024_000_000);
}

#[test]
fn test_aggregation_mixed_zero_nonzero() {
    let e = merge_memory_data(zero(), one_process(100_000_000, 0, 50_000_000));
    assert_eq!(e.rss_bytes, 100_000_000);
    assert_eq!(e.vms_bytes, 0);
    assert_eq!(e.swap_bytes, 50_000_000);
}

#[test]
fn test_parse_status_line_valid_vmrss() {
    let s = parse_proc_status("VmRSS:      2720 kB");
    assert_eq!(s.vm_rss, Some(2720));
}

#[test]
fn test_parse_status_line_whitespace_variation() {
    let s = parse_proc_status("VmSize:  13112   kB");
    assert_eq!(s.vm_size, Some(13112));
}

#[test]
fn test_parse_status_line_with_comments() {
    let s = parse_proc_status("VmRSS:      2720 kB\nVmSize:     13112 kB\nVmSwap:         0 kB");
    assert_eq!(s.vm_rss, Some(2720));
    assert_eq!(s.vm_size, Some(13112));
    assert_eq!(s.vm_swap, Some(0));
}

#[test]
fn test_parse_status_malformed_value() {
    let s = parse_proc_status("VmRSS:      invalid kB");
    assert!(s.vm_rss.is_none());
}

#[test]
fn test_proc_status_default_none() {
    let status = ProcStatus::default();
    assert!(status.vm_rss.is_none());
    assert!(status.vm_size.is_none());
    assert!(status.vm_swap.is_none());
}

#[test]
fn test_large_memory_values() {
    let bytes = kib_to_bytes(1_000_000_000);
    assert!(bytes > 1_000_000_000_000);
    assert_eq!(bytes, 1_024_000_000_000);
}

#[test]
fn test_memory_data_zero_processes() {
    let data = MemoryData { rss_bytes: 1000, vms_bytes: 2000, swap_bytes: 0, process_count: 0 };
    assert_eq!(data.process_count, 0);
}

#[test]
fn test_aggregation_process_count_increment() {
    let mut e = zero();
    for _ in 0..100 {
        e = merge_memory_data(e, MemoryData { process_count: 1, ..zero() });
    }
    assert_eq!(e.process_count, 100);
}

#[test]
fn test_aggregation_process_count_overflow() {
    let mut e = MemoryData { process_count: u32::MAX - 5, ..zero() };
    for _ in 0..10 {
        e = merge_memory_data(e, MemoryData { process_count: 1, ..zero() });
    }
    assert_eq!(e.process_count, u32::MAX);
}

#[test]
fn test_memory_invariant_rss_greater_than_vms() {
    let rss_bytes = 2_000_000_000u64;
    let vms_bytes = 1_000_000_000u64;
    assert!(rss_exceeds_vms(rss_bytes, vms_bytes), "Test setup: RSS should be > VMS");
    let m = MemoryCollector::new().unwrap();
    let r = m.collect_memory(&vec![sample("odd", 2_000_000, 1_000_000, 0)]);
    assert_eq!(r.len(), 1);
}

#[test]
fn test_memory_invariant_rss_less_than_vms() {
    assert!(!rss_exceeds_vms(1_000_000_000, 2_000_000_000), "Normal case: RSS should be <= VMS");
}

// --- own tests --------------------------------------------------------------

#[test]
fn unnamed_or_unreadable_processes_are_skipped() {
    let m = MemoryCollector::new().unwrap();
    let r = m.collect_memory(&vec![
        MemorySample { app_name: None, status: Some(ProcStatus::default()) },
        MemorySample { app_name: Some("x".to_string()), status: None },
        sample("y", 1, 1, 1),
    ]);
    assert_eq!(r.len(), 1);
    assert_eq!(r[0].app_name, "y");
}

#[test]
fn missing_fields_count_as_zero_and_last_line_wins() {
    let s = parse_proc_status("VmRSS: 5 kB\nVmRSS: 7 kB\nVmRSS: x kB\nVmSwap:\n");
    assert_eq!(s.vm_rss, Some(7));
    assert_eq!(s.vm_swap, None);
    let m = MemoryCollector::new().unwrap();
    let r = m.collect_memory(&vec![MemorySample { app_name: Some("z".to_string()), status: Some(s) }]);
    assert_eq!(r[0].data.rss_bytes, 7 * 1024);
    assert_eq!(r[0].data.vms_bytes, 0);
}

#[test]
fn largest_convertible_size() {
    assert_eq!(kib_to_bytes(MAX_KIB), u64::MAX - 1023);
}
