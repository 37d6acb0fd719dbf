use lamzuctl::types::{
    configured_profiles, DpiStage, FirmwareVersion, MouseNotResponding, PerformanceMode,
    ProfileInfo, RgbColor, DEFAULT_DPI_STAGE_COUNT, DEFAULT_PROFILE_COUNT,
};

fn profile(id: u8, rate: u16, stages: usize) -> ProfileInfo {
    ProfileInfo {
        id,
        polling_rate: rate,
        active_dpi_stage: 1,
        dpi_stages: vec![DpiStage { x: 800, y: 800 }; stages],
    }
}

#[test]
fn defaults() {
    assert_eq!(DEFAULT_PROFILE_COUNT, 5);
    assert_eq!(DEFAULT_DPI_STAGE_COUNT, 6);
    assert_eq!(RgbColor::default(), RgbColor::new(0, 0, 0));
}

#[test]
fn rgb_hex() {
    assert_eq!(RgbColor::new(255, 0, 0).to_hex(), "#FF0000");
    assert_eq!(RgbColor::new(0x0a, 0xbc, 0x01).to_hex(), "#0ABC01");
    assert_eq!(RgbColor::new(1, 2, 3).to_string(), RgbColor::new(1, 2, 3).to_hex());
}

#[test]
fn firmware_text() {
    let v = FirmwareVersion { major: 1, minor: 20, patch: 0, build: 255 };
    assert_eq!(v.to_string(), "1.20.0.255");
}

#[test]
fn performance_mode_names() {
    assert_eq!(PerformanceMode::HighSpeed.to_string(), "High-Speed");
    assert_eq!(PerformanceMode::Competition.to_string(), "Competition");
}

#[test]
fn not_responding_text() {
    assert_eq!(
        MouseNotResponding.to_string(),
        "mouse is not responding (asleep, powered off, or out of range); move it to wake it"
    );
}

#[test]
fn profile_configured() {
    assert!(profile(1, 1000, 6).is_configured());
    assert!(!profile(2, 0, 6).is_configured());
    assert!(!profile(3, 1000, 0).is_configured());
}

#[test]
fn configured_profiles_keeps_order() {
    let all = vec![profile(1, 1000, 6), profile(2, 0, 6), profile(3, 500, 3), profile(4, 1000, 0)];
    let ids: Vec<u8> = configured_profiles(all).iter().map(|p| p.id).collect();
    assert_eq!(ids, vec![1, 3]);
}
