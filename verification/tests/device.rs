use lamzuctl::device::{
    extract_interface_number, interface_number_in, list_devices, probe_answered, probe_request,
    probe_step, select_device, DeviceChoice, DeviceInfo, ProbeStep, SelectError,
};
use lamzuctl::device_db::{
    is_lamzu_vendor, known_devices, lookup_device, ATLANTIS_VID, LAMZU_AURORA_VID, LAMZU_VID,
};

fn info(pid: u16, name: Option<&str>, serial: Option<&str>, iface: Option<u8>, path: &str) -> DeviceInfo {
    DeviceInfo {
        vendor_id: LAMZU_VID,
        product_id: pid,
        product_string: name.map(|s| s.to_string()),
        manufacturer_string: Some("Lamzu".to_string()),
        serial_number: serial.map(|s| s.to_string()),
        path: path.to_string(),
        interface_number: iface,
        usage_page: 0xFF00,
        usage: 1,
    }
}

#[test]
fn interface_number_from_windows_path() {
    assert_eq!(
        extract_interface_number("\\\\?\\HID#VID_373E&PID_001E&MI_02#7&1234&0&0000#{guid}"),
        Some(2)
    );
    assert_eq!(extract_interface_number("\\\\?\\HID#VID_373E&PID_001E&MI_0A#x"), Some(10));
}

#[test]
fn interface_number_is_case_insensitive() {
    // The path is upper-cased first, so a lower-case marker and digits count.
    assert_eq!(extract_interface_number("\\\\?\\hid#vid_373e&pid_001e&mi_0b#x"), Some(11));
}

#[test]
fn interface_number_absent_or_malformed() {
    assert_eq!(extract_interface_number("/dev/hidraw3"), None);
    assert_eq!(extract_interface_number("HID#MI_2"), None);
    assert_eq!(extract_interface_number("HID#MI_ZZ#"), None);
    assert_eq!(extract_interface_number(""), None);
    assert_eq!(interface_number_in("MI_"), None);
}

#[test]
fn interface_number_uses_first_marker() {
    assert_eq!(interface_number_in("X&MI_01&MI_02"), Some(1));
}

#[test]
fn list_devices_prefers_control_interface() {
    let raw = vec![
        info(0x001E, Some("Maya X 8K Dongle"), Some("AB"), Some(0), "p0"),
        info(0x001E, Some("Maya X 8K Dongle"), Some("AB"), Some(2), "p2"),
        info(0x001E, Some("Maya X 8K Dongle"), Some("AB"), Some(1), "p1"),
        info(0x001C, Some("Maya X (Wired)"), None, Some(1), "w1"),
        info(0x001C, Some("Maya X (Wired)"), None, Some(3), "w3"),
    ];
    let unique = list_devices(&raw);
    assert_eq!(unique.len(), 2);
    // The MI_02 interface of the dongle comes first.
    assert_eq!(unique[0].path, "p2");
    // The wired mouse has no MI_02: its first interface stands in.
    assert_eq!(unique[1].path, "w1");
}

#[test]
fn list_devices_distinguishes_serials() {
    let raw = vec![
        info(0x001E, Some("A"), Some("1"), Some(2), "a"),
        info(0x001E, Some("A"), Some("2"), Some(2), "b"),
        info(0x001E, Some("A"), Some("1"), Some(2), "c"),
    ];
    let unique = list_devices(&raw);
    assert_eq!(unique.len(), 2);
    assert_eq!(unique[0].path, "a");
    assert_eq!(unique[1].path, "b");
}

#[test]
fn list_devices_missing_serial_equals_empty_serial() {
    let raw = vec![
        info(0x001E, Some("A"), None, Some(1), "a"),
        info(0x001E, Some("A"), Some(""), Some(1), "b"),
    ];
    let unique = list_devices(&raw);
    assert_eq!(unique.len(), 1);
    assert_eq!(unique[0].path, "a");
}

#[test]
fn list_devices_empty() {
    assert!(list_devices(&Vec::new()).is_empty());
}

fn two_devices() -> Vec<DeviceInfo> {
    vec![
        info(0x001C, Some("Maya X (Wired)"), None, Some(2), "wired"),
        info(0x001E, Some("Maya X 8K Dongle"), None, Some(2), "dongle"),
    ]
}

#[test]
fn select_by_index() {
    let devices = two_devices();
    assert_eq!(select_device(&devices, Some("1")).unwrap(), DeviceChoice::Index(0));
    assert_eq!(select_device(&devices, Some("2")).unwrap(), DeviceChoice::Index(1));
}

#[test]
fn select_index_out_of_range() {
    let devices = two_devices();
    match select_device(&devices, Some("3")) {
        Err(e @ SelectError::IndexOutOfRange { .. }) => {
            assert_eq!(e.to_string(), "Device index 3 out of range (1-2)");
        }
        other => panic!("unexpected {:?}", other),
    }
    match select_device(&devices, Some("0")) {
        Err(e @ SelectError::IndexOutOfRange { .. }) => {
            assert_eq!(e.to_string(), "Device index 0 out of range (1-2)");
        }
        other => panic!("unexpected {:?}", other),
    }
}

#[test]
fn select_by_pid() {
    let devices = two_devices();
    assert_eq!(select_device(&devices, Some("0x001E")).unwrap(), DeviceChoice::Index(1));
    assert_eq!(select_device(&devices, Some("001c")).unwrap(), DeviceChoice::Index(0));
    assert_eq!(select_device(&devices, Some("0X001e")).unwrap(), DeviceChoice::Index(1));
}

#[test]
fn select_by_name_case_insensitive() {
    let devices = two_devices();
    assert_eq!(select_device(&devices, Some("DONGLE")).unwrap(), DeviceChoice::Index(1));
    assert_eq!(select_device(&devices, Some("wired")).unwrap(), DeviceChoice::Index(0));
    // A hex-looking selector with no such product ID falls back to names.
    assert_eq!(select_device(&devices, Some("8k")).unwrap(), DeviceChoice::Index(1));
}

#[test]
fn select_no_match() {
    let devices = two_devices();
    match select_device(&devices, Some("nothing")) {
        Err(e @ SelectError::NoMatch { .. }) => {
            assert_eq!(e.to_string(), "No device matching 'nothing' found");
        }
        other => panic!("unexpected {:?}", other),
    }
}

#[test]
fn select_without_selector() {
    let devices = two_devices();
    assert_eq!(select_device(&devices, None).unwrap(), DeviceChoice::Probe);
    let one = vec![devices[0].clone()];
    assert_eq!(select_device(&one, None).unwrap(), DeviceChoice::Index(0));
}

#[test]
fn select_from_empty_list() {
    match select_device(&Vec::new(), Some("1")) {
        Err(e @ SelectError::NoDevices) => assert_eq!(e.to_string(), "No Lamzu devices found"),
        other => panic!("unexpected {:?}", other),
    }
}

#[test]
fn probing_picks_first_answering_device_or_first() {
    assert_eq!(probe_step(0, 3, false), ProbeStep::Next(1));
    assert_eq!(probe_step(1, 3, true), ProbeStep::Select(1));
    assert_eq!(probe_step(2, 3, false), ProbeStep::Select(0));
}

#[test]
fn probe_request_is_profile_query() {
    let buf = probe_request();
    assert_eq!(buf.len(), 65);
    assert_eq!(buf[0], 0);
    assert_eq!(buf[3], 0x02);
    assert_eq!(buf[4], 0x01);
    assert_eq!(buf[5], 0x00);
    assert_eq!(buf[6], 0x85);
    assert!(buf[7..].iter().all(|&b| b == 0));
    assert_eq!(buf[1], 0);
    assert_eq!(buf[2], 0);
}

#[test]
fn probe_answer_checks() {
    let mut r = vec![0u8; 65];
    r[1] = 0xA0;
    r[7] = 1;
    assert!(probe_answered(&r));
    r[7] = 0;
    assert!(!probe_answered(&r));
    r[7] = 3;
    r[1] = 0xB0;
    assert!(!probe_answered(&r));
    assert!(!probe_answered(&r[..7]));
}

#[test]
fn vendor_ids() {
    assert!(is_lamzu_vendor(LAMZU_VID));
    assert!(is_lamzu_vendor(LAMZU_AURORA_VID));
    assert!(is_lamzu_vendor(ATLANTIS_VID));
    assert!(!is_lamzu_vendor(0x046D));
}

#[test]
fn device_lookup() {
    let d = lookup_device(0x373E, 0x001E).unwrap();
    assert_eq!(d.name, "Maya X 8K Dongle");
    let d = lookup_device(0x3554, 0xF510).unwrap();
    assert_eq!(d.name, "Atlantis 8K Dongle");
    assert!(lookup_device(0x373E, 0x9999).is_none());
    assert!(lookup_device(0x37B0, 0x001E).map(|d| d.name) == Some("Tachi Lite 8K Dongle"));
}

#[test]
fn known_devices_table() {
    let all = known_devices();
    assert_eq!(all.len(), 36);
    assert!(all.iter().all(|d| is_lamzu_vendor(d.vid)));
    assert_eq!(all[0].name, "Maya X (Wired)");
}

/// Run the probing steps over the given answers, as the programs do.
fn probe_all(answers: &[bool]) -> usize {
    let mut i = 0;
    loop {
        match probe_step(i, answers.len(), answers[i]) {
            ProbeStep::Select(k) => return k,
            ProbeStep::Next(k) => i = k,
        }
    }
}

#[test]
fn probing_chooses_first_answering_device() {
    assert_eq!(probe_all(&[false, true, true]), 1);
    assert_eq!(probe_all(&[true, false]), 0);
    assert_eq!(probe_all(&[false, false, false, true]), 3);
    assert_eq!(probe_all(&[false, false, false]), 0);
    assert_eq!(probe_all(&[false]), 0);
}

#[test]
fn ascii_selectors_and_paths_fold_case() {
    let devices = two_devices();
    assert_eq!(select_device(&devices, Some("WiReD")).unwrap(), DeviceChoice::Index(0));
    assert_eq!(select_device(&devices, Some("MAYA X 8K")).unwrap(), DeviceChoice::Index(1));
    assert_eq!(extract_interface_number("hid#vid_37b0&pid_0023&mi_0a#1"), Some(10));
}
