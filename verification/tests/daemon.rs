use heimwatch::daemon::{daemon_step, sample_timestamps, DaemonPhase, LoopAction, LoopEvent};
use heimwatch::logging::{parse_level, LevelFilter, LogConfig};
use heimwatch::snapshot::{
    column_total, fmt_bytes_unit, fmt_cpu_time_ns_unit, fmt_duration_ms_unit, focus_totals, format_app_name,
    order_desc, output_format, snapshot_kind, OutputFormat, SnapshotError, SnapshotKind, TimeUnit,
};
use heimwatch::table::TableConfig;

// --- logging --------------------------------------------------------------

#[test]
fn test_parse_level() {
    assert_eq!(parse_level("debug").unwrap(), LevelFilter::Debug);
    assert_eq!(parse_level("INFO").unwrap(), LevelFilter::Info);
    assert_eq!(parse_level("trace").unwrap(), LevelFilter::Trace);
    assert!(parse_level("invalid").is_err());
}

#[test]
fn test_log_config_default() {
    let config = LogConfig::default();
    assert_eq!(config.level, LevelFilter::Info);
    assert!(!config.json_format);
}

#[test]
fn test_log_config_with_json() {
    let config = LogConfig::default().with_json(true);
    assert!(config.json_format);
}

#[test]
fn parse_level_all_names_and_message() {
    assert_eq!(parse_level("off").unwrap(), LevelFilter::Off);
    assert_eq!(parse_level("Error").unwrap(), LevelFilter::Error);
    assert_eq!(parse_level("WaRn").unwrap(), LevelFilter::Warn);
    assert!(parse_level("warning").is_err());
    assert!(parse_level("").is_err());
    let e = parse_level("loud").unwrap_err();
    assert_eq!(e.message(), "Invalid log level 'loud'. Must be one of: off, error, warn, info, debug, trace");
    let c = LogConfig::new(LevelFilter::Trace);
    assert_eq!(c.level, LevelFilter::Trace);
    assert!(!c.json_format);
}

// --- snapshot ---------------------------------------------------------------

#[test]
fn test_fmt_bytes_ranges() {
    assert!(fmt_bytes_unit(0).suffix().contains("B"), "0 bytes should format with B suffix");
    assert!(fmt_bytes_unit(512).suffix().contains("B"), "512 bytes should format with B suffix");
    assert!(fmt_bytes_unit(1024).suffix().contains("KB"), "1024 bytes should format with KB suffix");
    assert!(fmt_bytes_unit(1_048_576).suffix().contains("MB"), "1MB should format with MB suffix");
    assert!(fmt_bytes_unit(1_073_741_824).suffix().contains("GB"), "1GB should format with GB suffix");
}

#[test]
fn test_fmt_duration_ms_ranges() {
    assert!(fmt_duration_ms_unit(0).suffix().contains("ms"), "0ms should format with ms suffix");
    assert!(fmt_duration_ms_unit(500).suffix().contains("ms"), "500ms should format with ms suffix");
    assert!(fmt_duration_ms_unit(1000).suffix().contains("s"), "1000ms should format with s suffix");
    assert!(fmt_duration_ms_unit(60000).suffix().contains("m"), "60000ms should format with m suffix");
    assert!(fmt_duration_ms_unit(3600000).suffix().contains("h"), "3600000ms should format with h suffix");
}

#[test]
fn unit_boundaries() {
    assert_eq!(fmt_bytes_unit(1023).divisor(), 1);
    assert_eq!(fmt_bytes_unit(1_048_575).divisor(), 1024);
    assert_eq!(fmt_bytes_unit(1_073_741_823).divisor(), 1_048_576);
    assert_eq!(fmt_bytes_unit(u64::MAX).divisor(), 1_073_741_824);
    assert_eq!(fmt_cpu_time_ns_unit(999_999), TimeUnit::Micros);
    assert_eq!(fmt_cpu_time_ns_unit(1_000_000), TimeUnit::Millis);
    assert_eq!(fmt_cpu_time_ns_unit(59_999_999_999), TimeUnit::Seconds);
    assert_eq!(fmt_cpu_time_ns_unit(60_000_000_000), TimeUnit::Minutes);
    assert_eq!(fmt_cpu_time_ns_unit(3_600_000_000_000), TimeUnit::Hours);
    assert_eq!(fmt_duration_ms_unit(59_999), TimeUnit::Seconds);
    assert_eq!(fmt_duration_ms_unit(3_599_999), TimeUnit::Minutes);
}

#[test]
fn snapshot_requests() {
    assert_eq!(snapshot_kind(5, "cpu").unwrap(), SnapshotKind::Cpu);
    assert_eq!(snapshot_kind(3, "network").unwrap(), SnapshotKind::Network);
    assert_eq!(snapshot_kind(30, "focus").unwrap(), SnapshotKind::Focus);
    assert_eq!(snapshot_kind(0, "cpu").unwrap_err(), SnapshotError::ZeroWindow);
    assert_eq!(snapshot_kind(5, "CPU").unwrap_err(), SnapshotError::UnknownMetric);
    assert_eq!(SnapshotError::ZeroWindow.message(), "Window must be greater than 0 seconds");
    assert_eq!(
        SnapshotError::UnknownMetric.message(),
        "Please choose cpu, disk, focus, gpu, memory, or network"
    );
    assert_eq!(output_format("json"), OutputFormat::Json);
    assert_eq!(output_format("text"), OutputFormat::Table);
}

#[test]
fn app_names_are_cut_on_character_boundaries() {
    assert_eq!(format_app_name("firefox", 28), "firefox");
    assert_eq!(format_app_name("abcdefghij", 4), "abcd");
    assert_eq!(format_app_name("näme", 2), "n");
    assert_eq!(format_app_name("näme", 3), "nä");
    assert_eq!(format_app_name("日本語", 5), "日");
    assert_eq!(format_app_name("x", 0), "");
}

#[test]
fn rows_sorted_descending_and_stably() {
    let keys = vec![100, 300, 100, 200, 300];
    assert_eq!(order_desc(&keys), vec![1, 4, 3, 0, 2]);
    assert!(order_desc(&vec![]).is_empty());
}

#[test]
fn focus_table_rows_and_totals() {
    let entries = vec![
        ("code".to_string(), 1_000),
        ("firefox".to_string(), 500),
        ("code".to_string(), 250),
    ];
    let rows = focus_totals(&entries);
    assert_eq!(rows, vec![("code".to_string(), 1_250), ("firefox".to_string(), 500)]);
    assert_eq!(column_total(&vec![1_250, 500]), 1_750);
    assert_eq!(column_total(&vec![]), 0);
}

#[test]
fn test_table_config() {
    let config = TableConfig {
        title: "Test Table (5s window)".to_string(),
        columns: vec![("App", 28), ("Value", 10)],
        total_width: 50,
        header_width: 40,
    };
    assert_eq!(config.title, "Test Table (5s window)");
    assert_eq!(config.columns.len(), 2);
}

// --- main loop ----------------------------------------------------------------

#[test]
fn daemon_loop_runs_drains_and_stops() {
    let (p, a) = daemon_step(DaemonPhase::Running, LoopEvent::Received);
    assert_eq!((p, a), (DaemonPhase::Running, LoopAction::Persist));
    let (p, a) = daemon_step(p, LoopEvent::Interrupted);
    assert_eq!((p, a), (DaemonPhase::Draining, LoopAction::BroadcastShutdown));
    let (p, a) = daemon_step(p, LoopEvent::PersistFailed);
    assert_eq!((p, a), (DaemonPhase::Draining, LoopAction::WarnAndContinue));
    let (p, a) = daemon_step(p, LoopEvent::Interrupted);
    assert_eq!((p, a), (DaemonPhase::Draining, LoopAction::Wait));
    let (p, a) = daemon_step(p, LoopEvent::Closed);
    assert_eq!((p, a), (DaemonPhase::Stopped, LoopAction::Finish));
    assert_eq!(daemon_step(DaemonPhase::Running, LoopEvent::PersistFailed), (DaemonPhase::Stopped, LoopAction::Fail));
    assert_eq!(daemon_step(DaemonPhase::Running, LoopEvent::Closed), (DaemonPhase::Running, LoopAction::Wait));
}

#[test]
fn test_data_timestamps_are_spread_over_the_window() {
    let t = sample_timestamps(10_000, 1, 4);
    assert_eq!(t, vec![6_400, 7_300, 8_200, 9_100]);
    let t = sample_timestamps(7_200, 2, 1);
    assert_eq!(t, vec![0]);
}

#[test]
fn test_print_disk_table_sorting() {
    let totals = vec![100u64 + 100, 1000 + 1000];
    assert_eq!(order_desc(&totals), vec![1, 0]);
}
