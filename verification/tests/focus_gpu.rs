use heimwatch::focus::{normalize_app_id, FocusCollector, FocusEvent, FocusSource, FocusState};
use heimwatch::gpu::backend::{
    parse_pp_dpm_clock, read_device_name, sysfs_string, sysfs_u64, AmdBackend, GenericBackend, IntelBackend,
};
use heimwatch::gpu::collector::GpuProcessTracker;
use heimwatch::gpu::fdinfo::{fdinfo_sizes_fit_check, parse_drm_fdinfo, parse_memory_size};

// --- focus ------------------------------------------------------------------

#[test]
fn test_flatpak_prefix_stripped() {
    assert_eq!(normalize_app_id(Some("org.flatpak.Firefox".to_string())), "Firefox");
}

#[test]
fn test_snap_prefix_stripped() {
    assert_eq!(normalize_app_id(Some("snap.firefox.firefox".to_string())), "firefox");
}

#[test]
fn test_plain_id_unchanged() {
    assert_eq!(normalize_app_id(Some("code".to_string())), "code");
}

#[test]
fn test_empty_string_becomes_unknown() {
    assert_eq!(normalize_app_id(Some(String::new())), "Unknown");
}

#[test]
fn test_none_becomes_unknown() {
    assert_eq!(normalize_app_id(None), "Unknown");
}

#[test]
fn test_org_gnome_not_stripped() {
    assert_eq!(normalize_app_id(Some("org.gnome.Nautilus".to_string())), "org.gnome.Nautilus");
}

#[test]
fn test_try_new_does_not_panic_without_wayland() {
    let result = FocusCollector::try_new(false);
    assert!(result.is_some());
    assert_eq!(result.unwrap().source, FocusSource::GnomeDbus);
    assert_eq!(FocusCollector::try_new(true).unwrap().source, FocusSource::WlrToplevel);
}

#[test]
fn focus_time_is_flushed_on_switch_and_shutdown() {
    let mut st = FocusState::new(1_000);
    let s = st.on_event(FocusEvent::Focus { raw_id: Some("org.flatpak.Firefox".to_string()), now_ms: 2_000 });
    assert!(s.flush.is_none());
    let s = st.on_event(FocusEvent::Focus { raw_id: Some("code".to_string()), now_ms: 7_000 });
    let f = s.flush.unwrap();
    assert_eq!(f.app_name, "Firefox");
    assert_eq!(f.elapsed_ms, 5_000);
    let s = st.on_event(FocusEvent::Shutdown { now_ms: 9_500 });
    let f = s.flush.unwrap();
    assert_eq!(f.app_name, "code");
    assert_eq!(f.elapsed_ms, 2_500);
    assert!(s.stop);
}

// --- fdinfo -----------------------------------------------------------------

#[test]
fn test_parse_drm_fdinfo_amd() {
    let content = "pos:    0\nflags:  02000002\nmnt_id: 10\nino:    1234\ndrm-pdev:\t0000:03:00.0\ndrm-engine-gfx:\t5000000000 ns\ndrm-memory-vram:\t512 MiB\n";
    assert!(fdinfo_sizes_fit_check(content));
    let stats = parse_drm_fdinfo(content).unwrap();
    assert_eq!(stats.pdev, "0000:03:00.0");
    assert_eq!(stats.engine_gfx_ns, Some(5000000000));
    assert_eq!(stats.memory_vram_bytes, Some(512 * 1024 * 1024));
    assert_eq!(stats.cycles_gfx, None);
}

#[test]
fn test_parse_drm_fdinfo_intel() {
    let content = "pos:    0\nflags:  02000002\nmnt_id: 10\nino:    1234\ndrm-pdev:\t0000:00:02.0\ndrm-cycles-gfx:\t1000000\ndrm-total-cycles-gfx:\t2000000\ndrm-memory-vram:\t256 MiB\n";
    assert!(fdinfo_sizes_fit_check(content));
    let stats = parse_drm_fdinfo(content).unwrap();
    assert_eq!(stats.pdev, "0000:00:02.0");
    assert_eq!(stats.cycles_gfx, Some(1000000));
    assert_eq!(stats.total_cycles_gfx, Some(2000000));
    assert_eq!(stats.memory_vram_bytes, Some(256 * 1024 * 1024));
    assert_eq!(stats.engine_gfx_ns, None);
}

#[test]
fn test_parse_drm_fdinfo_no_pdev() {
    let content = "pos:    0\nflags:  02000002\nmnt_id: 10\nino:    1234\n";
    assert!(fdinfo_sizes_fit_check(content));
    assert!(parse_drm_fdinfo(content).is_none());
}

#[test]
fn test_parse_memory_size_kib() {
    assert_eq!(parse_memory_size("512 KiB"), Some(512 * 1024));
}

#[test]
fn test_parse_memory_size_mib() {
    assert_eq!(parse_memory_size("2 MiB"), Some(2 * 1024 * 1024));
}

#[test]
fn test_parse_memory_size_gib() {
    assert_eq!(parse_memory_size("1 GiB"), Some(1024 * 1024 * 1024));
}

#[test]
fn test_parse_memory_size_raw() {
    assert_eq!(parse_memory_size("1048576"), Some(1048576));
}

#[test]
fn oversized_vram_is_refused_by_the_check() {
    let content = "drm-pdev:\t0000:03:00.0\ndrm-memory-vram:\t99999999999999999 GiB\n";
    assert!(!fdinfo_sizes_fit_check(content));
}

// --- backends -----------------------------------------------------------------

#[test]
fn test_parse_pp_dpm_clock_simple() {
    assert_eq!(parse_pp_dpm_clock("0: 300Mhz\n1: 500Mhz *\n"), Some(500));
}

#[test]
fn test_parse_pp_dpm_clock_first_entry() {
    assert_eq!(parse_pp_dpm_clock("0: 300Mhz *\n1: 500Mhz\n"), Some(300));
}

#[test]
fn test_parse_pp_dpm_clock_no_current() {
    assert_eq!(parse_pp_dpm_clock("0: 300Mhz\n1: 500Mhz\n2: 700Mhz\n"), None);
}

#[test]
fn test_parse_pp_dpm_clock_whitespace() {
    assert_eq!(parse_pp_dpm_clock("  0: 300Mhz  \n  1: 500Mhz  *  \n"), Some(500));
}

#[test]
fn test_amd_backend_new() {
    let name = read_device_name(Some("AMD RX 7900"), None);
    let backend = AmdBackend::new(0, "/sys/class/drm/card0/device".to_string(), None, name, None).unwrap();
    assert_eq!(backend.gpu_index, 0);
    assert_eq!(backend.gpu_name(), "AMD RX 7900");
}

#[test]
fn test_read_sysfs_u64_valid() {
    assert_eq!(sysfs_u64("42"), Some(42));
}

#[test]
fn test_read_sysfs_u64_with_whitespace() {
    assert_eq!(sysfs_u64("  100  \n"), Some(100));
}

#[test]
fn test_read_sysfs_u64_invalid() {
    assert_eq!(sysfs_u64("not_a_number"), None);
}

#[test]
fn test_read_sysfs_string_valid() {
    assert_eq!(sysfs_string("AMD RX 7900"), "AMD RX 7900");
}

#[test]
fn test_read_sysfs_string_trims_whitespace() {
    assert_eq!(sysfs_string("  GPU NAME  \n"), "GPU NAME");
}

#[test]
fn test_generic_backend_new() {
    let name = read_device_name(Some("Test GPU"), None);
    let backend = GenericBackend::new(0, "/dev/null".to_string(), None, name, None);
    assert_eq!(backend.gpu_index, 0);
    assert_eq!(backend.gpu_name(), "Test GPU");
}

#[test]
fn test_generic_backend_fallback_name() {
    let backend = GenericBackend::new(5, "/dev/null".to_string(), None, read_device_name(None, None), None);
    assert_eq!(backend.gpu_name(), "GPU 5");
}

#[test]
fn test_intel_backend_new() {
    let name = read_device_name(Some("Intel UHD 630"), None);
    let backend = IntelBackend::new(0, "/dev/null".to_string(), None, name).unwrap();
    assert_eq!(backend.gpu_index, 0);
    assert_eq!(backend.gpu_name(), "Intel UHD 630");
}

#[test]
fn test_intel_backend_fallback_name() {
    let backend = IntelBackend::new(2, "/dev/null".to_string(), None, None).unwrap();
    assert_eq!(backend.gpu_name(), "Intel GPU 2");
    assert_eq!(backend.pci_address(), "");
}

#[test]
fn test_gpu_collector_new_no_gpus() {
    let tracker = GpuProcessTracker::new();
    assert!(tracker.prev.is_empty());
}

#[test]
fn device_name_prefers_product_name_and_trims() {
    assert_eq!(read_device_name(Some("  Radeon \n"), Some("amdgpu")), Some("Radeon".to_string()));
    assert_eq!(read_device_name(None, Some(" amdgpu\n")), Some("amdgpu".to_string()));
}

// --- detection and per-process usage ------------------------------------------

use heimwatch::gpu::collector::{gpu_record_name, known_pdevs, parse_pid_dir, process_gpu_entries};
use heimwatch::gpu::detect::{parse_card_index, parse_vendor_id, select_backend, sort_cards, BackendKind, CardEntry};

#[test]
fn card_names_and_vendor_ids() {
    assert_eq!(parse_card_index("card0"), Some(0));
    assert_eq!(parse_card_index("card12"), Some(12));
    assert_eq!(parse_card_index("card0-DP-1"), None);
    assert_eq!(parse_card_index("renderD128"), None);
    assert_eq!(parse_card_index("card"), None);
    assert_eq!(parse_vendor_id(Some("0x1002\n")), 0x1002);
    assert_eq!(parse_vendor_id(Some("1002")), 0xFFFF);
    assert_eq!(parse_vendor_id(Some("0xzz")), 0xFFFF);
    assert_eq!(parse_vendor_id(None), 0xFFFF);
}

#[test]
fn backend_selection() {
    assert_eq!(select_backend(0x1002, Some("amdgpu"), true), BackendKind::Amd);
    assert_eq!(select_backend(0x8086, Some("xe"), true), BackendKind::Intel);
    assert_eq!(select_backend(0x8086, Some("i915"), false), BackendKind::Intel);
    assert_eq!(select_backend(0x10de, Some("nvidia"), true), BackendKind::Nvidia);
    assert_eq!(select_backend(0x10de, Some("nvidia"), false), BackendKind::Generic);
    assert_eq!(select_backend(0x1002, Some("radeon"), true), BackendKind::Generic);
    assert_eq!(select_backend(0x1002, None, true), BackendKind::Generic);
}

#[test]
fn cards_sorted_stably_by_index() {
    let cards = vec![
        CardEntry { index: 2, path: "a".to_string() },
        CardEntry { index: 0, path: "b".to_string() },
        CardEntry { index: 2, path: "c".to_string() },
        CardEntry { index: 1, path: "d".to_string() },
    ];
    let sorted: Vec<(u32, String)> = sort_cards(cards).into_iter().map(|c| (c.index, c.path)).collect();
    assert_eq!(
        sorted,
        vec![(0, "b".to_string()), (1, "d".to_string()), (2, "a".to_string()), (2, "c".to_string())]
    );
}

#[test]
fn per_process_gpu_usage_between_polls() {
    let amd = "drm-pdev:\t0000:03:00.0\ndrm-engine-gfx:\t1000 ns\ndrm-memory-vram:\t1 MiB\n";
    let other = "drm-pdev:\t0000:09:00.0\ndrm-engine-gfx:\t5 ns\n";
    let fds = vec![parse_drm_fdinfo(amd).unwrap(), parse_drm_fdinfo(other).unwrap()];
    let backends = vec![("0000:03:00.0".to_string(), 1u32), (String::new(), 0u32)];
    let known = known_pdevs(&backends);
    assert_eq!(known, vec!["0000:03:00.0".to_string()]);
    let entries = process_gpu_entries(42, Some("game\n"), &fds, &known);
    assert_eq!(entries.len(), 1);
    assert_eq!(entries[0].app_name, "game");
    assert_eq!(entries[0].stats.engine_time, 1000);

    let mut tracker = GpuProcessTracker::new();
    let first = tracker.poll(&entries, &backends, 0);
    assert_eq!(first.len(), 1);
    assert_eq!(first[0].gpu_index, 1);
    assert_eq!(first[0].vram_bytes, 1024 * 1024);
    assert!(first[0].usages.is_empty());

    let later = "drm-pdev:\t0000:03:00.0\ndrm-engine-gfx:\t6000 ns\n";
    let entries2 = process_gpu_entries(42, Some("game"), &vec![parse_drm_fdinfo(later).unwrap()], &known);
    let second = tracker.poll(&entries2, &backends, 10_000);
    assert_eq!(second[0].usages.len(), 1);
    assert_eq!(second[0].usages[0].numerator, 5000);
    assert_eq!(second[0].usages[0].denominator, 10_000);

    let third = tracker.poll(&entries2, &backends, 10_000);
    assert!(third[0].usages.is_empty());
}

#[test]
fn unnamed_process_and_record_names() {
    let fds = vec![parse_drm_fdinfo("drm-pdev:\t0000:03:00.0\n").unwrap()];
    let known = vec!["0000:03:00.0".to_string()];
    let entries = process_gpu_entries(7, None, &fds, &known);
    assert_eq!(entries[0].app_name, "pid:7");
    assert_eq!(gpu_record_name(3), "gpu:3");
    assert_eq!(parse_pid_dir("1234"), Some(1234));
    assert_eq!(parse_pid_dir("self"), None);
    assert_eq!(parse_pid_dir("99999999999"), None);
}

#[test]
fn test_enumerate_gpus_filters_non_cards() {
    let names = ["renderD128", "controlD64", "card0"];
    let cards: Vec<u32> = names.iter().filter_map(|n| parse_card_index(n)).collect();
    assert_eq!(cards.len(), 1);
}

#[test]
fn test_detect_vendor_id_parsing() {
    assert_eq!(parse_vendor_id(Some("0x10de\n")), 0x10de);
}

#[test]
fn test_intel_backend_collect_no_clock() {
    let backend = IntelBackend::new(0, "/dev/null".to_string(), None, read_device_name(Some("Intel GPU"), None)).unwrap();
    assert_eq!(backend.gpu_name(), "Intel GPU");
    assert!(heimwatch::gpu::backend::intel_core_clock_mhz(None).is_none());
    assert_eq!(heimwatch::gpu::backend::intel_core_clock_mhz(Some(2400)), Some(2400));
}
