use heimwatch::metrics::{PidCpuStats, PidDiskStats, PidNetStats};
use heimwatch::power::{
    charging_state, default_route_interface, discover_ac_node, discover_battery_node,
    discover_rapl_energy_path, read_ac_online, supply_kind, PowerCollector, PowerError, SupplyKind,
    SupplyNode,
};
use heimwatch::probe::{
    is_comm_empty, on_block_rq_issue, on_sched_switch, on_tcp_recvmsg, on_tcp_sendmsg, ProbeMap,
    ProbeOutcome, BPF_MAP_ENTRIES,
};
use heimwatch::process::{extract_process_name, get_process_name, name_from_ps_output};

// --- process names ------------------------------------------------------------

#[test]
fn test_init_process() {
    let result = get_process_name(Some("/sbin/init\0splash\0"), Some("systemd\n"));
    assert!(result.is_ok());
    let name = result.unwrap();
    assert!(!name.is_empty());
    println!("PID 1 process name: {}", name);
}

#[test]
fn test_invalid_pid() {
    let result = get_process_name(None, None);
    assert!(result.is_err());
}

#[test]
fn process_name_sources() {
    assert_eq!(get_process_name(Some("/app/zen/zen\0--flag\0"), Some("zen-bin\n")).unwrap(), "zen");
    assert_eq!(get_process_name(Some(""), Some("kworker/0:1\n")).unwrap(), "kworker/0:1");
    assert_eq!(get_process_name(Some("/usr/bin/..\0"), Some(" x \n")).unwrap(), "x");
    assert_eq!(extract_process_name("/usr/bin/python3"), Some("python3".to_string()));
    assert_eq!(extract_process_name("/"), None);
    assert_eq!(extract_process_name("a/b/"), Some("b".to_string()));
    assert_eq!(name_from_ps_output("/Applications/Foo.app/Contents/MacOS/Foo\n"), "Foo");
}

// --- power supplies -------------------------------------------------------------

fn node(path: &str, kind: Option<&str>) -> SupplyNode {
    SupplyNode { path: path.to_string(), type_content: kind.map(|k| format!("{}\n", k)) }
}

#[test]
fn test_discover_battery_node_found() {
    let result = discover_battery_node(&vec![node("/sys/class/power_supply/BAT0", Some("Battery"))]);
    assert!(result.is_some());
    assert!(result.unwrap().contains("BAT0"));
}

#[test]
fn test_discover_battery_node_first() {
    let nodes = vec![
        node("/sys/class/power_supply/BAT0", Some("Battery")),
        node("/sys/class/power_supply/BAT1", Some("Battery")),
    ];
    let path = discover_battery_node(&nodes).unwrap();
    assert!(path.contains("BAT0") || path.contains("BAT1"));
    assert!(path.contains("BAT0"));
}

#[test]
fn test_discover_battery_node_not_found() {
    let result = discover_battery_node(&vec![node("/sys/class/power_supply/AC0", Some("AC"))]);
    assert!(result.is_none());
}

#[test]
fn test_discover_battery_node_missing_dir() {
    assert!(discover_battery_node(&vec![]).is_none());
}

#[test]
fn test_discover_ac_node_ac_type() {
    let result = discover_ac_node(&vec![node("/sys/class/power_supply/AC0", Some("AC"))]);
    assert!(result.unwrap().contains("AC0"));
}

#[test]
fn test_discover_ac_node_mains_type() {
    let result = discover_ac_node(&vec![node("/sys/class/power_supply/Mains", Some("Mains"))]);
    assert!(result.unwrap().contains("Mains"));
}

#[test]
fn test_discover_ac_node_not_found() {
    let result = discover_ac_node(&vec![node("/sys/class/power_supply/BAT0", Some("Battery"))]);
    assert!(result.is_none());
}

#[test]
fn supply_kinds_and_unreadable_types() {
    assert_eq!(supply_kind("  Battery \n"), SupplyKind::Battery);
    assert_eq!(supply_kind("battery"), SupplyKind::Other);
    assert_eq!(supply_kind("USB"), SupplyKind::Other);
    let nodes = vec![node("/x/BAT9", None), node("/x/BAT1", Some("Battery"))];
    assert_eq!(discover_battery_node(&nodes), Some("/x/BAT1".to_string()));
}

#[test]
fn ac_online_and_charging() {
    assert_eq!(read_ac_online("1\n"), Ok(true));
    assert_eq!(read_ac_online(" 0 "), Ok(false));
    assert_eq!(read_ac_online("yes"), Err(PowerError::InvalidValue));
    assert!(charging_state(Some("Charging\n"), Some(false)));
    assert!(charging_state(Some("Discharging"), Some(true)));
    assert!(!charging_state(Some("Discharging"), Some(false)));
    assert!(!charging_state(Some("Discharging"), None));
    assert!(charging_state(Some("Full"), Some(true)));
    assert!(charging_state(None, Some(true)));
    assert!(!charging_state(None, Some(false)));
    assert!(!charging_state(None, None));
}

#[test]
fn power_collector_needs_a_supply() {
    assert_eq!(PowerCollector::new(None, None, None).err(), Some(PowerError::Unavailable));
    assert!(PowerError::Unavailable.message().contains("no battery or AC adapter found"));
    let c = PowerCollector::new(None, Some("/x/AC0".to_string()), None).unwrap();
    assert!(c.prev_rapl_energy_uj.is_none());
}

#[test]
fn rapl_energy_deltas() {
    let mut c = PowerCollector::new(Some("/x/BAT0".to_string()), None, discover_rapl_energy_path(true)).unwrap();
    assert_eq!(c.rapl_energy_path.as_deref(), Some("/sys/class/powercap/intel-rapl/intel-rapl:0/energy_uj"));
    assert_eq!(c.record_rapl_energy("1000000\n"), Ok(None));
    assert_eq!(c.record_rapl_energy("1200000\n"), Ok(Some(200000)));
    assert_eq!(c.record_rapl_energy("garbage"), Err(PowerError::InvalidValue));
    assert_eq!(c.prev_rapl_energy_uj, Some(1200000));
    assert_eq!(c.record_rapl_energy("1000000"), Ok(Some(0)));
    assert_eq!(discover_rapl_energy_path(false), None);
}

const HEADER: &str = "Iface\tDestination\tGateway\tFlags\tRefCnt\tUse\tMetric\tMask\tMTU\tWindow\tIRTT\n";

#[test]
fn test_detect_default_interface_wifi() {
    let content = format!("{}wlp0s0\t00000000\t01010101\t0003\t0\t0\t64\tFFFFFF00\t0\t0\t0\n", HEADER);
    assert_eq!(default_route_interface(&content), Some("wlp0s0".to_string()));
}

#[test]
fn test_detect_default_interface_ethernet() {
    let content = format!("{}eth0\t00000000\t01010101\t0003\t0\t0\t64\tFFFFFF00\t0\t0\t0\n", HEADER);
    assert_eq!(default_route_interface(&content), Some("eth0".to_string()));
}

#[test]
fn test_detect_default_interface_lowest_metric_wins() {
    let content = format!(
        "{}wlp0s0\t00000000\t01010101\t0003\t0\t0\t258\tFFFFFF00\t0\t0\t0\neth0\t00000000\t01010102\t0003\t0\t0\t64\tFFFFFF00\t0\t0\t0\n",
        HEADER
    );
    assert_eq!(default_route_interface(&content), Some("eth0".to_string()));
}

#[test]
fn test_detect_default_interface_no_routes() {
    assert_eq!(default_route_interface(HEADER), None);
    assert_eq!(default_route_interface(""), None);
    let not_default = format!("{}eth0\t0000A8C0\t00000000\t0001\t0\t0\t100\tFFFFFF00\t0\t0\t0\n", HEADER);
    assert_eq!(default_route_interface(&not_default), None);
}

// --- kernel probes -------------------------------------------------------------

fn comm(name: &str) -> [u8; 16] {
    let mut c = [0u8; 16];
    for (i, b) in name.bytes().enumerate().take(15) {
        c[i] = b;
    }
    c
}

#[test]
fn probe_network_counters() {
    let mut m: ProbeMap<PidNetStats> = ProbeMap::new();
    assert_eq!(on_tcp_sendmsg(&mut m, comm("curl"), 100), ProbeOutcome::Inserted);
    assert_eq!(on_tcp_sendmsg(&mut m, comm("curl"), 50), ProbeOutcome::Updated);
    assert_eq!(on_tcp_recvmsg(&mut m, comm("curl"), 70), ProbeOutcome::Updated);
    assert_eq!(on_tcp_recvmsg(&mut m, comm("curl"), -4), ProbeOutcome::Ignored);
    assert_eq!(on_tcp_sendmsg(&mut m, [0u8; 16], 1), ProbeOutcome::Inserted);
    let s = m.get(&comm("curl")).unwrap();
    assert_eq!((s.tx_bytes, s.rx_bytes), (150, 70));
    assert!(is_comm_empty(&[0u8; 16]));
}

#[test]
fn probe_map_full_keeps_existing_entries() {
    let mut m: ProbeMap<PidDiskStats> = ProbeMap::new();
    m.entries = (0..BPF_MAP_ENTRIES)
        .map(|i| {
            let mut c = [0u8; 16];
            c[0] = b'a' + (i % 26) as u8;
            c[1] = b'a' + ((i / 26) % 26) as u8;
            c[2] = b'a' + ((i / 676) % 26) as u8;
            (c, PidDiskStats { read_bytes: 1, write_bytes: 0 })
        })
        .collect();
    assert_eq!(m.entries.len(), BPF_MAP_ENTRIES);
    let rwbs = *b"R\0\0\0\0\0\0\0\0\0";
    assert_eq!(on_block_rq_issue(&mut m, 512, &rwbs, comm("newcomer")), ProbeOutcome::MapFull);
    assert_eq!(m.entries.len(), BPF_MAP_ENTRIES);
    let first = m.entries[0].0;
    assert_eq!(on_block_rq_issue(&mut m, 512, &rwbs, first), ProbeOutcome::Updated);
    assert_eq!(m.get(&first).unwrap().read_bytes, 513);
}

#[test]
fn probe_disk_direction() {
    let mut m: ProbeMap<PidDiskStats> = ProbeMap::new();
    let w = *b"WS\0\0\0\0\0\0\0\0";
    let f = *b"F\0\0\0\0\0\0\0\0\0";
    on_block_rq_issue(&mut m, 4096, &w, comm("dd"));
    on_block_rq_issue(&mut m, 4096, &f, comm("dd"));
    assert_eq!(on_block_rq_issue(&mut m, 0, &w, comm("dd")), ProbeOutcome::Ignored);
    let s = m.get(&comm("dd")).unwrap();
    assert_eq!((s.read_bytes, s.write_bytes), (0, 4096));
}

#[test]
fn probe_sched_switch_charges_time_on_cpu() {
    let mut m: ProbeMap<PidCpuStats> = ProbeMap::new();
    on_sched_switch(&mut m, 1_000, comm("idle"), comm("bash"));
    on_sched_switch(&mut m, 4_000, comm("bash"), comm("vim"));
    on_sched_switch(&mut m, 5_000, comm("vim"), comm("bash"));
    let bash = m.get(&comm("bash")).unwrap();
    assert_eq!(bash.cpu_time_ns, 3_000);
    assert_eq!(bash.last_sched_in_ns, 5_000);
    let vim = m.get(&comm("vim")).unwrap();
    assert_eq!((vim.cpu_time_ns, vim.last_sched_in_ns), (1_000, 0));
    assert!(m.get(&comm("idle")).is_none());
}

#[test]
fn test_charging_state_from_battery_status() {
    assert!(charging_state(Some("Charging"), None));
}

#[test]
fn test_charging_state_from_ac_when_battery_discharging() {
    let online = read_ac_online("1").unwrap();
    assert!(online);
    assert!(charging_state(Some("Discharging"), Some(online)));
}

#[test]
fn test_charging_state_ac_offline() {
    let online = read_ac_online("0").unwrap();
    assert!(!online);
    assert!(!charging_state(None, Some(online)));
}

#[test]
fn test_rapl_power_computation() {
    let mut c = PowerCollector::new(Some("/x/BAT0".to_string()), None, discover_rapl_energy_path(true)).unwrap();
    assert_eq!(c.record_rapl_energy("1000000"), Ok(None));
    assert_eq!(c.prev_rapl_energy_uj, Some(1000000));
    assert_eq!(c.record_rapl_energy("1200000"), Ok(Some(200000)));
}

#[test]
fn test_rapl_power_first_read_returns_zero() {
    let mut c = PowerCollector::new(Some("/x/BAT0".to_string()), None, None).unwrap();
    assert_eq!(c.record_rapl_energy("1000000"), Ok(None));
}

#[test]
fn test_rapl_power_energy_decrease_saturates_to_zero() {
    let mut c = PowerCollector::new(Some("/x/BAT0".to_string()), None, None).unwrap();
    c.prev_rapl_energy_uj = Some(2000000);
    assert_eq!(c.record_rapl_energy("1000000"), Ok(Some(0)));
}

#[test]
fn test_read_sysfs_value_valid_u32() {
    assert_eq!(heimwatch::gpu::backend::sysfs_u64("1"), Some(1));
    assert_eq!(read_ac_online("1"), Ok(true));
}

#[test]
fn test_read_sysfs_value_invalid_format() {
    assert_eq!(heimwatch::gpu::backend::sysfs_u64("invalid"), None);
    assert_eq!(read_ac_online("invalid"), Err(PowerError::InvalidValue));
}
