use lamzuctl::cli::{
    battery_message, dpi_list_text, dpi_set_message, exit_code, firmware_pair, format_dpi,
    info_sensor_rows, no_dpi_stage_message, profile_position, resolve_dpi_stage,
    valid_profile_id, CommandOutcome, SensorRow,
};
use lamzuctl::gui::{
    active_profile_index, battery_footer_label, battery_gauge_color, dpi_stage_label, polling_rate_label, truncate, worker_step,
    worker_wait, GaugeColor, WorkerOutcome, WorkerReport, WorkerWait, WORKER_POLL_SECS,
    WORKER_RECONNECT_SECS,
};
use lamzuctl::plugin::{
    first_missing_option, inspector_request, parse_port, plugin_arg_at, plugin_args, IntError,
    InspectorRequest, PluginArg, PluginArgError, PluginOption,
};
use lamzuctl::types::{BatteryStatus, DpiStage, FirmwareVersion, PerformanceMode, SensorSettings};

fn stages(list: &[(u16, u16)]) -> Vec<DpiStage> {
    list.iter().map(|&(x, y)| DpiStage { x, y }).collect()
}

fn args(list: &[&str]) -> Vec<String> {
    list.iter().map(|s| s.to_string()).collect()
}

#[test]
fn dpi_formatting() {
    assert_eq!(format_dpi(&DpiStage { x: 800, y: 800 }), "800");
    assert_eq!(format_dpi(&DpiStage { x: 1600, y: 1200 }), "1600x1200");
    assert_eq!(dpi_list_text(&stages(&[(400, 400), (800, 800), (1600, 1200)])), "400, 800, 1600x1200");
    assert_eq!(dpi_list_text(&Vec::new()), "");
}

#[test]
fn dpi_value_or_stage_resolution() {
    let s = stages(&[(400, 400), (800, 800), (1600, 1200), (3200, 3200)]);
    // A small number is a stage.
    assert_eq!(resolve_dpi_stage(&s, 1), Some(1));
    assert_eq!(resolve_dpi_stage(&s, 4), Some(4));
    // A larger number is a DPI value on a stage.
    assert_eq!(resolve_dpi_stage(&s, 800), Some(2));
    assert_eq!(resolve_dpi_stage(&s, 3200), Some(4));
    // A value set on one axis only picks nothing.
    assert_eq!(resolve_dpi_stage(&s, 1600), None);
    assert_eq!(resolve_dpi_stage(&s, 0), None);
    assert_eq!(resolve_dpi_stage(&s, 5), None);
    assert_eq!(resolve_dpi_stage(&Vec::new(), 1), None);
}

#[test]
fn dpi_value_picks_first_stage() {
    let s = stages(&[(400, 400), (800, 800), (800, 800)]);
    assert_eq!(resolve_dpi_stage(&s, 800), Some(2));
}

#[test]
fn dpi_messages() {
    let s = stages(&[(400, 400), (1600, 1200)]);
    assert_eq!(
        no_dpi_stage_message(999, 3, &s),
        "No DPI stage set to 999 in profile 3. Valid stages are 1-2; configured DPI values are: 400, 1600x1200"
    );
    assert_eq!(dpi_set_message(&s, 1), "DPI stage set to 1 (400 DPI)");
    assert_eq!(dpi_set_message(&s, 2), "DPI stage set to 2 (1600x1200 DPI)");
    assert_eq!(dpi_set_message(&s, 5), "DPI stage set to 5");
}

#[test]
fn profile_ids() {
    assert!(!valid_profile_id(0));
    assert!(valid_profile_id(1));
    assert!(valid_profile_id(5));
    assert!(!valid_profile_id(6));
}

#[test]
fn battery_lines() {
    assert_eq!(battery_message(&BatteryStatus { percentage: 85, charging: false }), "85%");
    assert_eq!(battery_message(&BatteryStatus { percentage: 7, charging: true }), "7% (charging)");
}

#[test]
fn polling_rate_labels() {
    assert_eq!(polling_rate_label(0), "\u{2014}");
    assert_eq!(polling_rate_label(125), "125 Hz");
    assert_eq!(polling_rate_label(999), "999 Hz");
    assert_eq!(polling_rate_label(1000), "1000 Hz (1K)");
    assert_eq!(polling_rate_label(8000), "8000 Hz (8K)");
}

#[test]
fn truncation() {
    assert_eq!(truncate("Maya X", 10), "Maya X");
    assert_eq!(truncate("Maya X", 6), "Maya X");
    assert_eq!(truncate("Maya X 8K Dongle", 6), "Maya X\u{2026}");
    assert_eq!(truncate("\u{e9}t\u{e9}", 1), "\u{e9}\u{2026}");
    assert_eq!(truncate("abc", 0), "\u{2026}");
}

#[test]
fn active_profile_positions() {
    assert_eq!(active_profile_index(1, 5), Some(0));
    assert_eq!(active_profile_index(5, 5), Some(4));
    assert_eq!(active_profile_index(6, 5), None);
    assert_eq!(active_profile_index(0, 5), None);
}

#[test]
fn gauge_colours() {
    assert_eq!(battery_gauge_color(10, true), GaugeColor::Charging);
    assert_eq!(battery_gauge_color(19, false), GaugeColor::Low);
    assert_eq!(battery_gauge_color(20, false), GaugeColor::Normal);
}

#[test]
fn port_parsing() {
    assert_eq!(parse_port("28196"), Ok(28196));
    assert_eq!(parse_port("+80"), Ok(80));
    assert_eq!(parse_port("0"), Ok(0));
    assert_eq!(parse_port("65535"), Ok(65535));
    assert_eq!(parse_port("65536"), Err(IntError::TooLarge));
    assert_eq!(parse_port("99999x"), Err(IntError::TooLarge));
    assert_eq!(parse_port("12x"), Err(IntError::InvalidDigit));
    assert_eq!(parse_port(""), Err(IntError::Empty));
    assert_eq!(parse_port("+"), Err(IntError::InvalidDigit));
    assert_eq!(parse_port("-1"), Err(IntError::InvalidDigit));
}

#[test]
fn port_matches_std_parsing() {
    for text in ["1", "+1", "00042", "65535", "65536", "1a", "a1", "", "+", "++1", " 1", "4294967296"] {
        let expected = text.parse::<u16>();
        let got = parse_port(text);
        match (expected, got) {
            (Ok(a), Ok(b)) => assert_eq!(a, b),
            (Err(e), Err(g)) => assert_eq!(e.to_string(), g.to_string(), "{}", text),
            (e, g) => panic!("{}: {:?} vs {:?}", text, e, g),
        }
    }
}

#[test]
fn port_round_trip() {
    for port in [0u16, 1, 80, 443, 28196, 65535] {
        assert_eq!(parse_port(&port.to_string()), Ok(port));
    }
}

#[test]
fn plugin_arguments() {
    let a = args(&[
        "plugin",
        "-port",
        "28196",
        "-pluginUUID",
        "ABC",
        "-registerEvent",
        "registerPlugin",
        "-other",
        "-info",
        "{}",
    ]);
    match plugin_arg_at(&a, 1) {
        Ok((PluginArg::Port(p), next)) => {
            assert_eq!(p, 28196);
            assert_eq!(next, 3);
        }
        other => panic!("unexpected {:?}", other),
    }
    match plugin_arg_at(&a, 3) {
        Ok((PluginArg::PluginUuid(u), 5)) => assert_eq!(u, "ABC"),
        other => panic!("unexpected {:?}", other),
    }
    match plugin_arg_at(&a, 5) {
        Ok((PluginArg::RegisterEvent(e), 7)) => assert_eq!(e, "registerPlugin"),
        other => panic!("unexpected {:?}", other),
    }
    match plugin_arg_at(&a, 7) {
        Ok((PluginArg::Ignored, 8)) => {}
        other => panic!("unexpected {:?}", other),
    }
    match plugin_arg_at(&a, 8) {
        Ok((PluginArg::Info(i), 10)) => assert_eq!(i, "{}"),
        other => panic!("unexpected {:?}", other),
    }
}

#[test]
fn plugin_argument_errors() {
    let a = args(&["plugin", "-port"]);
    let e = plugin_arg_at(&a, 1).unwrap_err();
    assert_eq!(e, PluginArgError::MissingValue(PluginOption::Port));
    assert_eq!(e.to_string(), "Missing port value");
    let a = args(&["plugin", "-port", "x"]);
    let e = plugin_arg_at(&a, 1).unwrap_err();
    assert_eq!(e, PluginArgError::InvalidPort(IntError::InvalidDigit));
    assert_eq!(e.to_string(), "invalid digit found in string");
    let a = args(&["plugin", "-info"]);
    assert_eq!(plugin_arg_at(&a, 1).unwrap_err().to_string(), "Missing info value");
}

#[test]
fn missing_options_in_order() {
    assert_eq!(first_missing_option(false, false, false, false), Some(PluginOption::Port));
    assert_eq!(first_missing_option(true, false, true, true), Some(PluginOption::PluginUuid));
    assert_eq!(first_missing_option(true, true, false, false), Some(PluginOption::RegisterEvent));
    assert_eq!(first_missing_option(true, true, true, false), Some(PluginOption::Info));
    assert_eq!(first_missing_option(true, true, true, true), None);
    assert_eq!(
        PluginArgError::MissingArgument(PluginOption::PluginUuid).to_string(),
        "Missing -pluginUUID argument"
    );
    assert_eq!(
        PluginArgError::MissingArgument(PluginOption::RegisterEvent).to_string(),
        "Missing -registerEvent argument"
    );
}

#[test]
fn window_worker_steps() {
    assert_eq!(worker_step(false, WorkerOutcome::Opened(true)), (true, WorkerReport::Quiet));
    assert_eq!(worker_step(false, WorkerOutcome::Opened(false)), (false, WorkerReport::Disconnected));
    assert_eq!(worker_step(true, WorkerOutcome::SnapshotRead), (true, WorkerReport::Connected));
    assert_eq!(worker_step(false, WorkerOutcome::SnapshotRead), (true, WorkerReport::Snapshot));
    assert_eq!(worker_step(false, WorkerOutcome::CommandDone), (true, WorkerReport::Quiet));
    assert_eq!(worker_step(true, WorkerOutcome::Failed), (false, WorkerReport::Error));
}

#[test]
fn window_worker_schedule() {
    assert_eq!(WORKER_POLL_SECS, 5);
    assert_eq!(WORKER_RECONNECT_SECS, 2);
    assert_eq!(worker_wait(false, false), WorkerWait::Reconnect(2));
    assert_eq!(worker_wait(false, true), WorkerWait::Reconnect(2));
    assert_eq!(worker_wait(true, true), WorkerWait::PollNow);
    assert_eq!(worker_wait(true, false), WorkerWait::ForCommand(5));
}

#[test]
fn tool_exit_codes() {
    assert_eq!(exit_code(CommandOutcome::Success), 0);
    assert_eq!(exit_code(CommandOutcome::MouseNotResponding), 2);
    assert_eq!(exit_code(CommandOutcome::Failure), 1);
}

#[test]
fn whole_plugin_command_line() {
    let a = args(&[
        "plugin",
        "-port",
        "28196",
        "x",
        "-pluginUUID",
        "ABC",
        "-registerEvent",
        "registerPlugin",
        "-info",
        "{}",
    ]);
    let (read, error) = plugin_args(&a);
    assert!(error.is_none());
    assert_eq!(read.len(), 5);
    assert!(matches!(read[0], PluginArg::Port(28196)));
    assert!(matches!(read[1], PluginArg::Ignored));
    assert!(matches!(&read[2], PluginArg::PluginUuid(u) if u == "ABC"));
    assert!(matches!(&read[3], PluginArg::RegisterEvent(e) if e == "registerPlugin"));
    assert!(matches!(&read[4], PluginArg::Info(i) if i == "{}"));
}

#[test]
fn plugin_command_line_stops_at_first_error() {
    let a = args(&["plugin", "-info", "{}", "-port", "70000", "-pluginUUID", "u"]);
    let (read, error) = plugin_args(&a);
    assert_eq!(read.len(), 1);
    assert!(matches!(&read[0], PluginArg::Info(i) if i == "{}"));
    assert_eq!(error, Some(PluginArgError::InvalidPort(IntError::TooLarge)));
    let (read, error) = plugin_args(&args(&["plugin", "-registerEvent"]));
    assert!(read.is_empty());
    assert_eq!(error, Some(PluginArgError::MissingValue(PluginOption::RegisterEvent)));
    let (read, error) = plugin_args(&args(&["plugin"]));
    assert!(read.is_empty() && error.is_none());
    let (read, error) = plugin_args(&Vec::new());
    assert!(read.is_empty() && error.is_none());
}

fn sensor(angle_tune: i8, extreme: bool) -> SensorSettings {
    SensorSettings {
        motion_sync: true,
        angle_snap: false,
        angle_tune,
        ripple_control: false,
        lod_tenths_mm: 10,
        extreme_20k_fps: extreme,
        performance_mode: PerformanceMode::Competition,
        debounce_ms: 4,
    }
}

#[test]
fn info_sensor_table_rows() {
    assert_eq!(
        info_sensor_rows(&sensor(0, false)),
        vec![
            SensorRow::Lod,
            SensorRow::MotionSync,
            SensorRow::AngleSnap,
            SensorRow::Performance,
            SensorRow::Debounce,
        ]
    );
    assert_eq!(
        info_sensor_rows(&sensor(-3, true)),
        vec![
            SensorRow::Lod,
            SensorRow::MotionSync,
            SensorRow::AngleSnap,
            SensorRow::AngleTune,
            SensorRow::Performance,
            SensorRow::Extreme20kFps,
            SensorRow::Debounce,
        ]
    );
}

#[test]
fn info_summary_texts() {
    assert_eq!(profile_position(2, 3), "2 of 3");
    let mouse = FirmwareVersion { major: 1, minor: 2, patch: 3, build: 4 };
    let dongle = FirmwareVersion { major: 0, minor: 9, patch: 10, build: 255 };
    assert_eq!(firmware_pair(&mouse, &dongle), "1.2.3.4 (dongle 0.9.10.255)");
}

#[test]
fn window_footer_and_stage_labels() {
    assert_eq!(battery_footer_label(true, 85, false), "85%");
    assert_eq!(battery_footer_label(true, 40, true), "40%  \u{26A1}");
    assert_eq!(battery_footer_label(false, 40, true), "\u{2014}");
    for (x, y) in [(800u16, 800u16), (26000, 26000), (5, 5), (1600, 1200), (100000u32 as u16, 7)] {
        let expected = if x == y { format!("{:>5}", x) } else { format!("{:>5}x{}", x, y) };
        assert_eq!(dpi_stage_label(&DpiStage { x, y }), expected);
    }
    assert_eq!(dpi_stage_label(&DpiStage { x: 800, y: 800 }), "  800");
}

#[test]
fn inspector_requests() {
    assert_eq!(inspector_request("getDevices"), InspectorRequest::GetDevices);
    assert_eq!(inspector_request("getState"), InspectorRequest::GetState);
    assert_eq!(inspector_request("getstate"), InspectorRequest::Other);
    assert_eq!(inspector_request(""), InspectorRequest::Other);
}
