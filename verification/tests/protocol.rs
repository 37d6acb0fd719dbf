use lamzuctl::protocol::{
    active_dpi_stage_request, angle_snap_request, angle_tune_request, battery_request, build_command, current_dpi, debounce_time_request,
    dpi_colors_request, dpi_stages_request, feature_report, firmware_version_request,
    get_response_byte, parse_angle_tune, parse_battery, parse_dpi_colors, parse_dpi_stages,
    parse_firmware_version, parse_flag, parse_lod, parse_performance_mode, parse_polling_rate,
    parse_profile, parse_setting_byte, polling_rate_request, polling_rate_to_hz, profile_request,
    set_dpi_stage_request, set_profile_request, validate_response, DeviceError, DEVICE_ID_DONGLE,
    extreme_20k_fps_request, lod_request, motion_sync_request, performance_mode_request,
    ripple_control_request, DEVICE_ID_MOUSE,
};
use lamzuctl::types::{
    BatteryStatus, DpiStage, FirmwareVersion, MouseNotResponding, PerformanceMode, RgbColor,
};

/// A 65-byte response as read back with the report id first.
fn response(marker: u8, bytes: &[(usize, u8)]) -> Vec<u8> {
    let mut r = vec![0u8; 65];
    r[1] = marker;
    for &(i, b) in bytes {
        r[i] = b;
    }
    r
}

#[test]
fn build_command_lays_out_header_and_params() {
    let cmd = build_command(0x02, 0x0A, 0x01, 0x81, &[3, 6]);
    assert_eq!(cmd.len(), 64);
    assert_eq!(cmd[0], 0);
    assert_eq!(cmd[1], 0);
    assert_eq!(cmd[2], 0x02);
    assert_eq!(cmd[3], 0x0A);
    assert_eq!(cmd[4], 0x01);
    assert_eq!(cmd[5], 0x81);
    assert_eq!(cmd[6], 3);
    assert_eq!(cmd[7], 6);
    assert!(cmd[8..].iter().all(|&b| b == 0));
}

#[test]
fn build_command_takes_the_largest_parameter_block() {
    let params: Vec<u8> = (1..=58).collect();
    let cmd = build_command(0x02, 0x3A, 0x04, 0x03, &params);
    assert_eq!(&cmd[6..64], &params[..]);
}

#[test]
fn feature_report_prefixes_report_id() {
    let cmd = profile_request();
    let buf = feature_report(&cmd);
    assert_eq!(buf.len(), 65);
    assert_eq!(buf[0], 0);
    assert_eq!(&buf[1..], &cmd[..]);
    assert_eq!(buf[3], DEVICE_ID_MOUSE);
    assert_eq!(buf[4], 0x01);
    assert_eq!(buf[6], 0x85);
}

#[test]
fn requests_match_the_protocol() {
    let b = battery_request();
    assert_eq!((b[2], b[3], b[4], b[5]), (0x02, 0x02, 0x00, 0x83));
    let p = polling_rate_request(2);
    assert_eq!((p[2], p[3], p[4], p[5], p[6]), (0x02, 0x02, 0x01, 0x80, 2));
    let a = active_dpi_stage_request(1);
    assert_eq!((a[4], a[5], a[6]), (0x01, 0x82, 1));
    let d = dpi_stages_request(1, 6);
    assert_eq!((d[3], d[4], d[5], d[6], d[7]), (0x0A, 0x01, 0x81, 1, 6));
    let c = dpi_colors_request(4);
    assert_eq!((c[3], c[4], c[5], c[6]), (0x13, 0x02, 0x81, 4));
    let f = firmware_version_request(DEVICE_ID_DONGLE);
    assert_eq!((f[2], f[3], f[4], f[5]), (0x00, 0x10, 0x00, 0x81));
    let db = debounce_time_request(5);
    assert_eq!((db[3], db[4], db[5], db[6]), (0x02, 0x00, 0x88, 5));
    let sp = set_profile_request(3);
    assert_eq!((sp[2], sp[3], sp[4], sp[5], sp[6]), (0x02, 0x01, 0x00, 0x05, 3));
    let sd = set_dpi_stage_request(1, 4);
    assert_eq!((sd[3], sd[4], sd[5], sd[6], sd[7]), (0x02, 0x01, 0x02, 1, 4));
    assert!(sd[8..].iter().all(|&x| x == 0));
}

#[test]
fn validate_response_accepts_marker_range() {
    for m in 0xA0..=0xAFu8 {
        assert_eq!(validate_response(&[0, m]), Ok(()));
    }
    assert_eq!(validate_response(&[0, 0x9F]), Err(DeviceError::ErrorResponse { marker: 0x9F }));
    assert_eq!(validate_response(&[0, 0xB0]), Err(DeviceError::ErrorResponse { marker: 0xB0 }));
    assert_eq!(validate_response(&[0xA1]), Err(DeviceError::ErrorResponse { marker: 0 }));
    assert_eq!(validate_response(&[]), Err(DeviceError::ErrorResponse { marker: 0 }));
}

#[test]
fn error_messages() {
    assert_eq!(
        DeviceError::ErrorResponse { marker: 0x0B }.to_string(),
        "Device returned error response (expected 0xA0-0xAF, got 0x0B)"
    );
    assert_eq!(
        DeviceError::ResponseTooShort { index: 8, len: 5 }.to_string(),
        "Response too short: expected at least 9 bytes, got 5"
    );
    assert_eq!(
        DeviceError::StageNotFound { stage: 7 }.to_string(),
        "Active DPI stage 7 not found in stages list"
    );
    assert_eq!(
        DeviceError::NotResponding(MouseNotResponding).to_string(),
        "mouse is not responding (asleep, powered off, or out of range); move it to wake it"
    );
}

#[test]
fn get_response_byte_bounds() {
    assert_eq!(get_response_byte(&[1, 2, 3], 2), Ok(3));
    assert_eq!(
        get_response_byte(&[1, 2, 3], 3),
        Err(DeviceError::ResponseTooShort { index: 3, len: 3 })
    );
}

#[test]
fn polling_rate_values() {
    assert_eq!(polling_rate_to_hz(0x01), 1000);
    assert_eq!(polling_rate_to_hz(0x10), 1000);
    assert_eq!(polling_rate_to_hz(0x02), 500);
    assert_eq!(polling_rate_to_hz(0x04), 250);
    assert_eq!(polling_rate_to_hz(0x08), 125);
    assert_eq!(polling_rate_to_hz(0x20), 2000);
    assert_eq!(polling_rate_to_hz(0x40), 4000);
    assert_eq!(polling_rate_to_hz(0x80), 8000);
    assert_eq!(polling_rate_to_hz(0x03), 3);
    assert_eq!(polling_rate_to_hz(0), 0);
}

#[test]
fn profile_reading() {
    assert_eq!(parse_profile(&response(0xA1, &[(7, 3)])), Ok(3));
    assert_eq!(
        parse_profile(&response(0xA1, &[(7, 0)])),
        Err(DeviceError::NotResponding(MouseNotResponding))
    );
    assert_eq!(
        parse_profile(&response(0x00, &[(7, 3)])),
        Err(DeviceError::ErrorResponse { marker: 0 })
    );
    assert_eq!(
        parse_profile(&[0, 0xA1, 0, 0]),
        Err(DeviceError::ResponseTooShort { index: 7, len: 4 })
    );
}

#[test]
fn battery_reading() {
    assert_eq!(
        parse_battery(&response(0xA2, &[(7, 1), (8, 85)])),
        Ok(BatteryStatus { percentage: 85, charging: true })
    );
    assert_eq!(
        parse_battery(&response(0xA2, &[(7, 0), (8, 40)])),
        Ok(BatteryStatus { percentage: 40, charging: false })
    );
    assert_eq!(
        parse_battery(&response(0xA2, &[(7, 1), (8, 0)])),
        Ok(BatteryStatus { percentage: 0, charging: true })
    );
    assert_eq!(
        parse_battery(&response(0xA2, &[])),
        Err(DeviceError::NotResponding(MouseNotResponding))
    );
    assert_eq!(
        parse_battery(&[0, 0xA2, 0, 0, 0, 0, 0, 1]),
        Err(DeviceError::ResponseTooShort { index: 8, len: 8 })
    );
}

#[test]
fn one_byte_settings() {
    let r = response(0xA0, &[(8, 0x40)]);
    assert_eq!(parse_polling_rate(&r), Ok(4000));
    assert_eq!(parse_setting_byte(&response(0xA0, &[(8, 2)])), Ok(2));
    assert_eq!(parse_flag(&response(0xA0, &[(8, 1)])), Ok(true));
    assert_eq!(parse_flag(&response(0xA0, &[(8, 2)])), Ok(false));
    assert_eq!(
        parse_performance_mode(&response(0xA0, &[(8, 1)])),
        Ok(PerformanceMode::Competition)
    );
    assert_eq!(
        parse_performance_mode(&response(0xA0, &[(8, 0)])),
        Ok(PerformanceMode::HighSpeed)
    );
    assert_eq!(
        parse_flag(&response(0x55, &[(8, 1)])),
        Err(DeviceError::ErrorResponse { marker: 0x55 })
    );
}

#[test]
fn lod_encoding() {
    assert_eq!(parse_lod(&response(0xA1, &[(8, 1)])), Ok(10));
    assert_eq!(parse_lod(&response(0xA1, &[(8, 2)])), Ok(20));
    assert_eq!(parse_lod(&response(0xA1, &[(8, 0x85)])), Ok(5));
    assert_eq!(parse_lod(&response(0xA1, &[(8, 0x80 | 7)])), Ok(7));
    // The value in millimetres, as a float, is tenths / 10.
    let raw = 0x85u8;
    let mm = ((raw & 0x7F) as f32) * 0.1;
    assert_eq!(mm, 5.0f32 / 10.0);
}

#[test]
fn angle_tune_encoding() {
    assert_eq!(parse_angle_tune(&response(0xA1, &[(8, 10)])), Ok(10));
    assert_eq!(parse_angle_tune(&response(0xA1, &[(8, 255)])), Ok(-1));
    assert_eq!(parse_angle_tune(&response(0xA1, &[(8, 0x80)])), Ok(-128));
    // A non-positive angle is sent as 255 - |angle| + 1.
    let sent = (255 - 5 + 1) as u8;
    assert_eq!(parse_angle_tune(&response(0xA1, &[(8, sent)])), Ok(-5));
}

#[test]
fn dpi_stages_reading() {
    let r = response(
        0xA1,
        &[(8, 2), (9, 0x03), (10, 0x20), (11, 0x03), (12, 0x20), (13, 0x06), (14, 0x40), (15, 0x04), (16, 0xB0)],
    );
    assert_eq!(
        parse_dpi_stages(&r).unwrap(),
        vec![DpiStage { x: 800, y: 800 }, DpiStage { x: 1600, y: 1200 }]
    );
    // Stages that do not fit in the response are left out.
    let short = vec![0, 0xA1, 0, 0, 0, 0, 0, 0, 6, 0x01, 0x90, 0x01, 0x90, 0x03];
    assert_eq!(parse_dpi_stages(&short).unwrap(), vec![DpiStage { x: 400, y: 400 }]);
    let none = vec![0, 0xA1, 0, 0, 0, 0, 0, 0, 6, 1, 2, 3];
    assert_eq!(parse_dpi_stages(&none).unwrap(), vec![]);
    assert_eq!(
        parse_dpi_stages(&[0, 0xA1]),
        Err(DeviceError::ResponseTooShort { index: 8, len: 2 })
    );
}

#[test]
fn dpi_colors_reading() {
    let mut bytes = vec![];
    for i in 0..20usize {
        bytes.push((8 + i, i as u8));
    }
    let r = response(0xA1, &bytes);
    let colors = parse_dpi_colors(&r).unwrap();
    assert_eq!(colors.len(), 6);
    assert_eq!(colors[0], RgbColor::new(0, 1, 2));
    assert_eq!(colors[5], RgbColor::new(15, 16, 17));
    let short = vec![0, 0xA1, 0, 0, 0, 0, 0, 0, 9, 9, 9, 8, 8];
    assert_eq!(parse_dpi_colors(&short).unwrap(), vec![RgbColor::new(9, 9, 9)]);
}

#[test]
fn firmware_reading_layouts() {
    let new_layout = response(0xA1, &[(6, 0x81), (7, 1), (8, 2), (9, 3), (10, 4)]);
    assert_eq!(
        parse_firmware_version(&new_layout, DEVICE_ID_MOUSE),
        Ok(FirmwareVersion { major: 1, minor: 2, patch: 3, build: 4 })
    );
    let old_layout = response(0xA1, &[(5, 0x81), (6, 9), (7, 8), (8, 7), (9, 6)]);
    assert_eq!(
        parse_firmware_version(&old_layout, DEVICE_ID_MOUSE),
        Ok(FirmwareVersion { major: 9, minor: 8, patch: 7, build: 6 })
    );
    let unknown = response(0xA1, &[(7, 5), (8, 6), (9, 7), (10, 8)]);
    assert_eq!(
        parse_firmware_version(&unknown, DEVICE_ID_DONGLE),
        Ok(FirmwareVersion { major: 5, minor: 6, patch: 7, build: 8 })
    );
    let zeros = response(0xA1, &[(6, 0x81)]);
    assert_eq!(
        parse_firmware_version(&zeros, DEVICE_ID_MOUSE),
        Err(DeviceError::NotResponding(MouseNotResponding))
    );
    assert_eq!(
        parse_firmware_version(&zeros, DEVICE_ID_DONGLE),
        Ok(FirmwareVersion { major: 0, minor: 0, patch: 0, build: 0 })
    );
    let cut = vec![0, 0xA1, 0, 0, 0, 0, 0x81, 1, 2];
    assert_eq!(
        parse_firmware_version(&cut, DEVICE_ID_MOUSE),
        Err(DeviceError::ResponseTooShort { index: 9, len: 9 })
    );
    assert_eq!(
        parse_firmware_version(&[0, 0xA1, 0], DEVICE_ID_MOUSE),
        Err(DeviceError::ResponseTooShort { index: 6, len: 3 })
    );
}

#[test]
fn current_dpi_lookup() {
    let stages = vec![DpiStage { x: 400, y: 400 }, DpiStage { x: 800, y: 800 }];
    assert_eq!(current_dpi(&stages, 2), Ok(DpiStage { x: 800, y: 800 }));
    assert_eq!(current_dpi(&stages, 3), Err(DeviceError::StageNotFound { stage: 3 }));
    assert_eq!(current_dpi(&stages, 0), Err(DeviceError::StageNotFound { stage: 0 }));
}

#[test]
fn queries_and_settings_differ_in_opcode_bit_seven() {
    let reads = [
        profile_request(),
        battery_request(),
        polling_rate_request(2),
        active_dpi_stage_request(2),
        dpi_stages_request(2, 6),
        dpi_colors_request(2),
        firmware_version_request(DEVICE_ID_MOUSE),
        firmware_version_request(DEVICE_ID_DONGLE),
        debounce_time_request(2),
        lod_request(2),
        motion_sync_request(2),
        angle_snap_request(2),
        angle_tune_request(2),
        extreme_20k_fps_request(2),
        ripple_control_request(2),
        performance_mode_request(2),
    ];
    for r in reads.iter() {
        assert!(r[5] >= 0x80);
    }
    assert!(set_profile_request(2)[5] < 0x80);
    assert!(set_dpi_stage_request(2, 3)[5] < 0x80);
}
