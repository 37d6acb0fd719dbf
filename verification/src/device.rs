//! Device discovery and selection: the interface number of a HID path, the
//! deduplication of the enumerated interfaces, and the choice of a device
//! from a user's selector.

use vstd::prelude::*;
use vstd::string::StringExecFns;

use crate::protocol::{feature_report, marker_valid, profile_request};
use crate::text::{
    chars_of, contains, contains_text, find_text, first_occurrence, lemma_first_occurrence,
    lower_text, occurs_at, parse_unsigned, parse_unsigned_chars, push_decimal, to_lowercase,
    to_uppercase, upper_text, decimal, decimal_parses_back,
};

verus! {

/// Information about a detected device
#[derive(Debug, Clone)]
pub struct DeviceInfo {
    /// Vendor ID
    pub vendor_id: u16,
    /// Product ID
    pub product_id: u16,
    /// Product string
    pub product_string: Option<String>,
    /// Manufacturer string
    pub manufacturer_string: Option<String>,
    /// Serial number
    pub serial_number: Option<String>,
    /// Device path (the control interface path for HID communication)
    pub path: String,
    /// Interface number extracted from path
    pub interface_number: Option<u8>,
    /// Usage page (if available)
    pub usage_page: u16,
    /// Usage (if available)
    pub usage: u16,
}

// ============================================================================
// Interface number
// ============================================================================

/// The interface number of an upper-cased HID path: the two hexadecimal
/// digits after the first `MI_`.
pub open spec fn interface_in(upper: Seq<char>) -> Option<u8> {
    match first_occurrence(upper, "MI_"@) {
        Some(m) => if m + 5 <= upper.len() {
            match parse_unsigned(upper.subrange(m + 3, m + 5), 16, 255) {
                Some(v) => Some(v as u8),
                None => None,
            }
        } else {
            None
        },
        None => None,
    }
}

/// Read the interface number from an already upper-cased Windows HID path,
/// e.g. `\\?\HID#VID_373E&PID_001E&MI_02#...` gives `Some(2)`.
pub fn interface_number_in(upper: &str) -> (n: Option<u8>)
    ensures
        n == interface_in(upper@),
{
    let hay = chars_of(upper);
    let needle = chars_of("MI_");
    match find_text(&hay, &needle) {
        None => {
            proof {
                assert(!contains_text(hay@, needle@));
            }
            None
        },
        Some(m) => {
            proof {
                lemma_first_occurrence(hay@, needle@, m as int);
            }
            // Extract the two hex digits after MI_
            if hay.len() - m >= 5 {
                let mut two: Vec<char> = Vec::new();
                two.push(hay[m + 3]);
                two.push(hay[m + 4]);
                proof {
                    assert(two@ =~= hay@.subrange(m + 3, m + 5));
                }
                match parse_unsigned_chars(&two, 16, 255) {
                    Some(v) => Some(v as u8),
                    None => None,
                }
            } else {
                None
            }
        },
    }
}

/// Extract interface number from Windows HID path
/// e.g., "\\?\HID#VID_373E&PID_001E&MI_02#..." -> Some(2)
pub fn extract_interface_number(path: &str) -> (n: Option<u8>)
    ensures
        n == interface_in(upper_text(path@)),
{
    // Look for MI_XX pattern in the path
    let path_upper = to_uppercase(path);
    interface_number_in(path_upper.as_str())
}

// ============================================================================
// Deduplication
// ============================================================================

/// The serial number a device is grouped by; a missing one counts as empty.
pub open spec fn serial_key(d: DeviceInfo) -> Seq<char> {
    match d.serial_number {
        Some(s) => s@,
        None => Seq::empty(),
    }
}

/// Two interfaces of one physical device: same vendor, product and serial.
pub open spec fn same_device(a: DeviceInfo, b: DeviceInfo) -> bool {
    a.vendor_id == b.vendor_id && a.product_id == b.product_id && serial_key(a) == serial_key(b)
}

/// The control interface (MI_02) carries the configuration commands.
pub open spec fn is_control_interface(d: DeviceInfo) -> bool {
    d.interface_number == Some(2u8)
}

/// `devices[i]` is the first control interface of its physical device.
pub open spec fn first_control(devices: Seq<DeviceInfo>, i: int) -> bool {
    is_control_interface(devices[i]) && forall|j: int|
        0 <= j < i ==> !(is_control_interface(#[trigger] devices[j]) && same_device(
            devices[j],
            devices[i],
        ))
}

/// The physical device of `d` shows a control interface among `devices`.
pub open spec fn has_control(devices: Seq<DeviceInfo>, d: DeviceInfo) -> bool {
    exists|j: int|
        0 <= j < devices.len() && is_control_interface(#[trigger] devices[j]) && same_device(
            devices[j],
            d,
        )
}

/// `devices[i]` is the first interface of a physical device that shows no
/// control interface.
pub open spec fn first_fallback(devices: Seq<DeviceInfo>, i: int) -> bool {
    !has_control(devices, devices[i]) && forall|j: int|
        0 <= j < i ==> !same_device(#[trigger] devices[j], devices[i])
}

/// The devices among the first `n` whose index satisfies `keep`, in order.
pub open spec fn picked(devices: Seq<DeviceInfo>, n: int, keep: spec_fn(int) -> bool) -> Seq<
    DeviceInfo,
>
    decreases n,
{
    if n <= 0 {
        Seq::empty()
    } else {
        picked(devices, n - 1, keep) + if keep(n - 1) {
            seq![devices[n - 1]]
        } else {
            Seq::empty()
        }
    }
}

/// One interface per physical device: first the control interface of each
/// device that has one, then, for the others, their first interface.
pub open spec fn unique_devices(devices: Seq<DeviceInfo>) -> Seq<DeviceInfo> {
    picked(devices, devices.len() as int, |i: int| first_control(devices, i)) + picked(
        devices,
        devices.len() as int,
        |i: int| first_fallback(devices, i),
    )
}

/// A grouping key already taken.
struct SeenKey {
    vendor_id: u16,
    product_id: u16,
    serial: String,
}

/// `seen` holds the key of `d`.
spec fn seen_has(seen: Seq<SeenKey>, d: DeviceInfo) -> bool {
    exists|t: int|
        0 <= t < seen.len() && (#[trigger] seen[t]).vendor_id == d.vendor_id && seen[t].product_id
            == d.product_id && seen[t].serial@ == serial_key(d)
}

fn serial_of(d: &DeviceInfo) -> (s: String)
    ensures
        s@ == serial_key(*d),
{
    match &d.serial_number {
        Some(s) => s.clone(),
        None => String::new(),
    }
}

fn key_of(d: &DeviceInfo) -> (k: SeenKey)
    ensures
        k.vendor_id == d.vendor_id,
        k.product_id == d.product_id,
        k.serial@ == serial_key(*d),
{
    SeenKey { vendor_id: d.vendor_id, product_id: d.product_id, serial: serial_of(d) }
}

fn seen_contains(seen: &Vec<SeenKey>, d: &DeviceInfo) -> (b: bool)
    ensures
        b == seen_has(seen@, *d),
{
    let serial = serial_of(d);
    let mut t: usize = 0;
    while t < seen.len()
        invariant
            t <= seen@.len(),
            serial@ == serial_key(*d),
            forall|u: int|
                0 <= u < t ==> !((#[trigger] seen@[u]).vendor_id == d.vendor_id
                    && seen@[u].product_id == d.product_id && seen@[u].serial@ == serial_key(*d)),
        decreases seen@.len() - t,
    {
        let k = &seen[t];
        if k.vendor_id == d.vendor_id && k.product_id == d.product_id && k.serial == serial {
            return true;
        }
        t = t + 1;
    }
    false
}

fn clone_text(o: &Option<String>) -> (r: Option<String>)
    ensures
        r == *o,
{
    match o {
        Some(s) => Some(s.clone()),
        None => None,
    }
}

fn copy_device(d: &DeviceInfo) -> (r: DeviceInfo)
    ensures
        r == *d,
{
    DeviceInfo {
        vendor_id: d.vendor_id,
        product_id: d.product_id,
        product_string: clone_text(&d.product_string),
        manufacturer_string: clone_text(&d.manufacturer_string),
        serial_number: clone_text(&d.serial_number),
        path: d.path.clone(),
        interface_number: d.interface_number,
        usage_page: d.usage_page,
        usage: d.usage,
    }
}

/// Deduplicate the enumerated Lamzu interfaces to one per physical device.
///
/// Each physical device (identified by vendor, product and serial number)
/// may expose multiple HID interfaces. For each, the control interface
/// (MI_02 / interface 2) is kept, which is used for configuration commands;
/// devices without one fall back to their first interface.
pub fn list_devices(all_devices: &Vec<DeviceInfo>) -> (unique: Vec<DeviceInfo>)
    ensures
        unique@ == unique_devices(all_devices@),
{
    let ghost s = all_devices@;
    let ghost keep1 = |i: int| first_control(s, i);
    let ghost keep2 = |i: int| first_fallback(s, i);
    let n = all_devices.len();
    let mut seen: Vec<SeenKey> = Vec::new();
    let mut unique_devices: Vec<DeviceInfo> = Vec::new();

    // First pass: collect the control interface (MI_02) for each unique device
    let mut i: usize = 0;
    while i < n
        invariant
            s == all_devices@,
            n == s.len(),
            i <= n,
            keep1 == (|i: int| first_control(s, i)),
            unique_devices@ == picked(s, i as int, keep1),
            forall|d: DeviceInfo|
                seen_has(seen@, d) <==> exists|j: int|
                    0 <= j < i && is_control_interface(#[trigger] s[j]) && same_device(s[j], d),
        decreases n - i,
    {
        let device = &all_devices[i];
        let already = seen_contains(&seen, device);
        let ghost old_seen = seen@;
        // Prefer interface 2 (MI_02) as the control interface
        if device.interface_number == Some(2u8) && !already {
            seen.push(key_of(device));
            unique_devices.push(copy_device(device));
        }
        proof {
            assert(keep1(i as int) == (device.interface_number == Some(2u8) && !already)) by {
                if is_control_interface(s[i as int]) && already {
                    let j = choose|j: int|
                        0 <= j < i && is_control_interface(#[trigger] s[j]) && same_device(
                            s[j],
                            s[i as int],
                        );
                }
            }
            assert forall|d: DeviceInfo|
                seen_has(seen@, d) <==> exists|j: int|
                    0 <= j < i + 1 && is_control_interface(#[trigger] s[j]) && same_device(s[j], d) by {
                if seen_has(seen@, d) && !seen_has(old_seen, d) {
                    let t = choose|t: int|
                        0 <= t < seen@.len() && (#[trigger] seen@[t]).vendor_id == d.vendor_id
                            && seen@[t].product_id == d.product_id && seen@[t].serial@ == serial_key(d);
                    assert(t == old_seen.len());
                    assert(same_device(s[i as int], d));
                }
                if exists|j: int|
                    0 <= j < i + 1 && is_control_interface(#[trigger] s[j]) && same_device(s[j], d) {
                    let j = choose|j: int|
                        0 <= j < i + 1 && is_control_interface(#[trigger] s[j]) && same_device(s[j], d);
                    if j == i && !seen_has(old_seen, d) {
                        assert(!already ==> seen@[old_seen.len() as int].vendor_id == d.vendor_id);
                        if already {
                            assert(seen_has(old_seen, s[i as int]));
                            let t = choose|t: int|
                                0 <= t < old_seen.len() && (#[trigger] old_seen[t]).vendor_id
                                    == s[i as int].vendor_id && old_seen[t].product_id
                                    == s[i as int].product_id && old_seen[t].serial@ == serial_key(
                                    s[i as int],
                                );
                            assert(old_seen[t].vendor_id == d.vendor_id);
                        } else {
                            assert(seen@[old_seen.len() as int].serial@ == serial_key(d));
                        }
                    } else if !seen_has(old_seen, d) {
                        assert(false);
                    }
                    if seen_has(old_seen, d) {
                        let t = choose|t: int|
                            0 <= t < old_seen.len() && (#[trigger] old_seen[t]).vendor_id == d.vendor_id
                                && old_seen[t].product_id == d.product_id && old_seen[t].serial@
                                == serial_key(d);
                        assert(seen@[t] == old_seen[t]);
                    }
                }
            }
        }
        i = i + 1;
    }

    proof {
        assert forall|d: DeviceInfo| seen_has(seen@, d) <==> has_control(s, d) by {}
    }

    // Second pass: for any devices without MI_02, fall back to any available interface
    let ghost first = unique_devices@;
    let mut i: usize = 0;
    while i < n
        invariant
            s == all_devices@,
            n == s.len(),
            i <= n,
            keep2 == (|i: int| first_fallback(s, i)),
            first == picked(s, n as int, keep1),
            keep1 == (|i: int| first_control(s, i)),
            unique_devices@ == first + picked(s, i as int, keep2),
            forall|d: DeviceInfo|
                #![trigger seen_has(seen@, d)]
                seen_has(seen@, d) <==> (has_control(s, d) || exists|j: int|
                    0 <= j < i && same_device(#[trigger] s[j], d)),
        decreases n - i,
    {
        let device = &all_devices[i];
        proof {
            assert(seen_has(seen@, s[i as int]) <==> (has_control(s, s[i as int]) || exists|j: int|
                0 <= j < i && same_device(#[trigger] s[j], s[i as int])));
        }
        let already = seen_contains(&seen, device);
        let ghost old_seen = seen@;
        if !already {
            seen.push(key_of(device));
            unique_devices.push(copy_device(device));
        }
        proof {
            assert(already == seen_has(old_seen, s[i as int]));
            assert(seen_has(old_seen, s[i as int]) <==> (has_control(s, s[i as int]) || exists|j: int|
                0 <= j < i && same_device(#[trigger] s[j], s[i as int])));
            assert(already <==> (has_control(s, s[i as int]) || exists|j: int|
                0 <= j < i && same_device(#[trigger] s[j], s[i as int])));
            assert(keep2(i as int) == !already) by {
                if exists|j: int| 0 <= j < i && same_device(#[trigger] s[j], s[i as int]) {
                    let j = choose|j: int| 0 <= j < i && same_device(#[trigger] s[j], s[i as int]);
                    assert(!first_fallback(s, i as int));
                }
            }
            assert forall|d: DeviceInfo|
                seen_has(seen@, d) <==> (has_control(s, d) || exists|j: int|
                    0 <= j < i + 1 && same_device(#[trigger] s[j], d)) by {
                if seen_has(seen@, d) && !seen_has(old_seen, d) {
                    let t = choose|t: int|
                        0 <= t < seen@.len() && (#[trigger] seen@[t]).vendor_id == d.vendor_id
                            && seen@[t].product_id == d.product_id && seen@[t].serial@ == serial_key(d);
                    assert(t == old_seen.len());
                    assert(same_device(s[i as int], d));
                }
                if seen_has(old_seen, d) {
                    let t = choose|t: int|
                        0 <= t < old_seen.len() && (#[trigger] old_seen[t]).vendor_id == d.vendor_id
                            && old_seen[t].product_id == d.product_id && old_seen[t].serial@
                            == serial_key(d);
                    assert(seen@[t] == old_seen[t]);
                }
                if same_device(s[i as int], d) && !seen_has(old_seen, d) {
                    if already {
                        let t = choose|t: int|
                            0 <= t < old_seen.len() && (#[trigger] old_seen[t]).vendor_id
                                == s[i as int].vendor_id && old_seen[t].product_id
                                == s[i as int].product_id && old_seen[t].serial@ == serial_key(
                                s[i as int],
                            );
                        assert(old_seen[t].vendor_id == d.vendor_id);
                    } else {
                        assert(seen@[old_seen.len() as int].serial@ == serial_key(d));
                    }
                }
            }
            assert(unique_devices@ =~= first + picked(s, i + 1, keep2));
        }
        i = i + 1;
    }
    unique_devices
}

// ============================================================================
// Selection
// ============================================================================

/// The outcome of choosing a device.
#[derive(Debug, Clone, Copy, PartialEq, Eq, Structural)]
pub enum DeviceChoice {
    /// Use the device at this index of the list.
    Index(usize),
    /// No selector and several devices: probe them in order, see
    /// [`probe_step`].
    Probe,
}

/// Why no device could be chosen.
#[derive(Debug, Clone)]
pub enum SelectError {
    /// The device list is empty.
    NoDevices,
    /// A 1-based index outside `1..=count`.
    IndexOutOfRange { index: usize, count: usize },
    /// The selector matched no index, product ID or product name.
    NoMatch { selector: String },
}

impl SelectError {
    /// The text shown to the user.
    pub fn to_string(&self) -> (s: String)
        ensures
            s@ == match *self {
                SelectError::NoDevices => "No Lamzu devices found"@,
                SelectError::IndexOutOfRange { index, count } => "Device index "@ + decimal(
                    index as nat,
                ) + " out of range (1-"@ + decimal(count as nat) + ")"@,
                SelectError::NoMatch { selector } => "No device matching '"@ + selector@ + "' found"@,
            },
    {
        match self {
            SelectError::NoDevices => String::from_str("No Lamzu devices found"),
            SelectError::IndexOutOfRange { index, count } => {
                let mut s = String::from_str("Device index ");
                push_decimal(&mut s, *index as u128);
                s.append(" out of range (1-");
                push_decimal(&mut s, *count as u128);
                s.append(")");
                s
            },
            SelectError::NoMatch { selector } => {
                let mut s = String::from_str("No device matching '");
                s.append(selector.as_str());
                s.append("' found");
                s
            },
        }
    }
}

/// `s` with every leading copy of `prefix` removed, as `trim_start_matches`.
pub open spec fn strip_prefixes(s: Seq<char>, prefix: Seq<char>) -> Seq<char>
    decreases s.len(),
{
    if prefix.len() > 0 && s.len() >= prefix.len() && s.take(prefix.len() as int) == prefix {
        strip_prefixes(s.skip(prefix.len() as int), prefix)
    } else {
        s
    }
}

/// A selector read as a 1-based device index.
pub open spec fn selector_index(sel: Seq<char>) -> Option<nat> {
    parse_unsigned(sel, 10, usize::MAX as nat)
}

/// A selector read as a hexadecimal product ID, with `0x` or `0X` prefixes.
pub open spec fn selector_pid(sel: Seq<char>) -> Option<nat> {
    parse_unsigned(strip_prefixes(strip_prefixes(sel, "0x"@), "0X"@), 16, 0xFFFF)
}

/// The product name of `d`, lower-cased, contains `needle`.
pub open spec fn name_matches(d: DeviceInfo, needle: Seq<char>) -> bool {
    match d.product_string {
        Some(p) => contains_text(lower_text(p@), needle),
        None => false,
    }
}

/// `devices[i]` is the first device with product ID `pid`.
pub open spec fn first_with_pid(devices: Seq<DeviceInfo>, pid: nat, i: int) -> bool {
    0 <= i < devices.len() && devices[i].product_id == pid && forall|j: int|
        0 <= j < i ==> (#[trigger] devices[j]).product_id != pid
}

/// `devices[i]` is the first device whose lower-cased name contains `needle`.
pub open spec fn first_with_name(devices: Seq<DeviceInfo>, needle: Seq<char>, i: int) -> bool {
    0 <= i < devices.len() && name_matches(devices[i], needle) && forall|j: int|
        0 <= j < i ==> !name_matches(#[trigger] devices[j], needle)
}

/// Some device has the product ID that the selector names.
pub open spec fn pid_found(devices: Seq<DeviceInfo>, sel: Seq<char>) -> bool {
    match selector_pid(sel) {
        Some(pid) => exists|i: int| 0 <= i < devices.len() && (#[trigger] devices[i]).product_id == pid,
        None => false,
    }
}

/// Some device's lower-cased name contains the lower-cased selector.
pub open spec fn name_found(devices: Seq<DeviceInfo>, sel: Seq<char>) -> bool {
    exists|i: int| 0 <= i < devices.len() && name_matches(#[trigger] devices[i], lower_text(sel))
}

/// The selector `sel` designates `devices[i]`: by 1-based index; else by
/// hexadecimal product ID (the first device with it); else by a
/// case-insensitive product-name substring (the first such device).
pub open spec fn selects(devices: Seq<DeviceInfo>, sel: Seq<char>, i: int) -> bool {
    match selector_index(sel) {
        Some(n) => 1 <= n <= devices.len() && i == n - 1,
        None => if pid_found(devices, sel) {
            first_with_pid(devices, selector_pid(sel)->0, i)
        } else {
            first_with_name(devices, lower_text(sel), i)
        },
    }
}

/// Select a device from the list based on a selector string
///
/// Selector can be:
/// - Index (1-based, e.g., "1", "2")
/// - PID in hex (e.g., "001c", "0x001E")
/// - Name substring (case-insensitive, e.g., "wired", "dongle")
///
/// If no selector is provided and multiple devices exist, the devices are to
/// be probed for one that responds with valid data ([`DeviceChoice::Probe`]).
pub fn select_device(devices: &Vec<DeviceInfo>, selector: Option<&str>) -> (r: Result<
    DeviceChoice,
    SelectError,
>)
    ensures
        devices@.len() == 0 ==> r matches Err(SelectError::NoDevices),
        devices@.len() > 0 && selector is None ==> r == Ok::<DeviceChoice, SelectError>(
            if devices@.len() > 1 {
                DeviceChoice::Probe
            } else {
                DeviceChoice::Index(0)
            },
        ),
        devices@.len() > 0 && selector is Some ==> match r {
            Ok(DeviceChoice::Index(i)) => selects(devices@, selector->0@, i as int),
            Ok(DeviceChoice::Probe) => false,
            Err(SelectError::NoDevices) => false,
            Err(SelectError::IndexOutOfRange { index, count }) => selector_index(selector->0@) == Some(
                index as nat,
            ) && count == devices@.len() && !(1 <= index <= count),
            Err(SelectError::NoMatch { selector: text }) => text@ == selector->0@ && selector_index(
                selector->0@,
            ) is None && !pid_found(devices@, selector->0@) && !name_found(devices@, selector->0@),
        },
{
    if devices.len() == 0 {
        return Err(SelectError::NoDevices);
    }
    match selector {
        Some(sel) => {
            let chars = chars_of(sel);
            // Try index (1-based)
            if let Some(idx) = parse_unsigned_chars(&chars, 10, usize::MAX as u64) {
                let idx = idx as usize;
                if idx >= 1 && idx <= devices.len() {
                    return Ok(DeviceChoice::Index(idx - 1));
                }
                return Err(SelectError::IndexOutOfRange { index: idx, count: devices.len() });
            }
            // Try PID (hex)
            let sel_clean = strip_all(&strip_all(&chars, '0', 'x'), '0', 'X');
            proof {
                reveal_strlit("0x");
                reveal_strlit("0X");
                assert(seq!['0', 'x'] =~= "0x"@);
                assert(seq!['0', 'X'] =~= "0X"@);
                assert(sel_clean@ == strip_prefixes(strip_prefixes(sel@, "0x"@), "0X"@));
            }
            if let Some(pid) = parse_unsigned_chars(&sel_clean, 16, 0xFFFF) {
                let mut i: usize = 0;
                while i < devices.len()
                    invariant
                        i <= devices@.len(),
                        selector == Some(sel),
                        selector_index(sel@) is None,
                        selector_pid(sel@) == Some(pid as nat),
                        pid <= 0xFFFF,
                        forall|j: int| 0 <= j < i ==> (#[trigger] devices@[j]).product_id != pid,
                    decreases devices@.len() - i,
                {
                    if devices[i].product_id == pid as u16 {
                        proof {
                            assert(pid_found(devices@, sel@));
                            assert(first_with_pid(devices@, pid as nat, i as int));
                        }
                        return Ok(DeviceChoice::Index(i));
                    }
                    i = i + 1;
                }
            }
            assert(!pid_found(devices@, sel@));
            // Try name substring (case-insensitive)
            let sel_lower = chars_of(to_lowercase(sel).as_str());
            let mut i: usize = 0;
            while i < devices.len()
                invariant
                    i <= devices@.len(),
                    selector == Some(sel),
                    !pid_found(devices@, sel@),
                    selector_index(sel@) is None,
                    sel_lower@ == lower_text(sel@),
                    forall|j: int| 0 <= j < i ==> !name_matches(#[trigger] devices@[j], sel_lower@),
                decreases devices@.len() - i,
            {
                let hit = match &devices[i].product_string {
                    Some(p) => contains(&chars_of(to_lowercase(p.as_str()).as_str()), &sel_lower),
                    None => false,
                };
                if hit {
                    proof {
                        assert(first_with_name(devices@, lower_text(sel@), i as int));
                    }
                    return Ok(DeviceChoice::Index(i));
                }
                i = i + 1;
            }
            Err(SelectError::NoMatch { selector: String::from_str(sel) })
        },
        None => {
            if devices.len() > 1 {
                Ok(DeviceChoice::Probe)
            } else {
                Ok(DeviceChoice::Index(0))
            }
        },
    }
}

/// Remove every leading copy of the two-character prefix `a b`.
fn strip_all(s: &Vec<char>, a: char, b: char) -> (r: Vec<char>)
    ensures
        r@ == strip_prefixes(s@, seq![a, b]),
{
    let mut start: usize = 0;
    assert(s@.skip(0) =~= s@);
    while start < s.len() && s.len() - start >= 2 && s[start] == a && s[start + 1] == b
        invariant
            start <= s@.len(),
            strip_prefixes(s@.skip(start as int), seq![a, b]) == strip_prefixes(s@, seq![a, b]),
        decreases s@.len() - start,
    {
        proof {
            let rest = s@.skip(start as int);
            assert(rest.take(2) =~= seq![a, b]);
            assert(rest.skip(2) =~= s@.skip(start + 2));
        }
        start = start + 2;
    }
    let mut r: Vec<char> = Vec::new();
    let mut k: usize = start;
    while k < s.len()
        invariant
            start <= k <= s@.len(),
            r@ == s@.subrange(start as int, k as int),
        decreases s@.len() - k,
    {
        r.push(s[k]);
        k = k + 1;
        proof {
            assert(r@ =~= s@.subrange(start as int, k as int));
        }
    }
    proof {
        let rest = s@.skip(start as int);
        assert(r@ =~= rest);
        if rest.len() >= 2 && rest.take(2) == seq![a, b] {
            assert(rest[0] == a && rest[1] == b);
            assert(s@[start as int] == a);
        }
    }
    r
}

/// The next move while probing the devices in order: `answered` tells
/// whether the device at `index` answered with a valid profile.
#[derive(Debug, Clone, Copy, PartialEq, Eq, Structural)]
pub enum ProbeStep {
    /// Stop and use the device at this index.
    Select(usize),
    /// Probe the device at this index next.
    Next(usize),
}

/// The move after probing the device at `index` of `count`.
pub open spec fn probe_next(index: usize, count: usize, answered: bool) -> ProbeStep {
    if answered {
        ProbeStep::Select(index)
    } else if index + 1 < count {
        ProbeStep::Next((index + 1) as usize)
    } else {
        ProbeStep::Select(0)
    }
}

/// The device that probing chooses, from the device at `i` on, when the
/// devices answer as `answers` says.
pub open spec fn probe_from(answers: Seq<bool>, i: int) -> int
    decreases answers.len() - i,
{
    if i < 0 || i >= answers.len() {
        0
    } else if answers[i] {
        i
    } else if i + 1 < answers.len() {
        probe_from(answers, i + 1)
    } else {
        0
    }
}

/// One step of probing: the first device that answers is used; when none
/// does, the first device is used.
pub fn probe_step(index: usize, count: usize, answered: bool) -> (step: ProbeStep)
    requires
        index < count,
    ensures
        step == probe_next(index, count, answered),
{
    if answered {
        ProbeStep::Select(index)
    } else if index + 1 < count {
        ProbeStep::Next(index + 1)
    } else {
        ProbeStep::Select(0)
    }
}

/// The feature report that probes a device: the current-profile query.
pub fn probe_request() -> (buf: [u8; 65])
    ensures
        buf@ == seq![0u8] + crate::protocol::command_packet(
            crate::protocol::DEVICE_ID_MOUSE,
            0x01,
            crate::protocol::CATEGORY_GENERAL,
            crate::protocol::OP_GET_PROFILE,
            seq![],
        ),
{
    let cmd = profile_request();
    feature_report(&cmd)
}

/// A probe answer shows an active device: at least 8 bytes, a valid marker,
/// and a non-zero profile. The dongle returns a success marker even when the
/// mouse isn't connected, but the profile will be 0; a valid profile is 1-5.
pub open spec fn probe_ok(response: Seq<u8>) -> bool {
    response.len() >= 8 && marker_valid(response[1]) && response[7] > 0
}

/// Check the answer to [`probe_request`] (the bytes received, report id
/// first).
pub fn probe_answered(response: &[u8]) -> (b: bool)
    ensures
        b == probe_ok(response@),
{
    if response.len() < 8 {
        return false;
    }
    let marker = response[1];
    let profile = response[7];
    0xA0 <= marker && marker <= 0xAF && profile > 0
}

// ============================================================================
// Laws
// ============================================================================

/// Entry `k` of `picked` is a device at an index below `n` that `keep` holds
/// for.
spec fn picked_from(devices: Seq<DeviceInfo>, n: int, keep: spec_fn(int) -> bool, k: int) -> bool {
    exists|i: int| #![trigger devices[i]] 0 <= i < n && keep(i) && picked(devices, n, keep)[k] == devices[i]
}

/// Membership in `picked`: the devices it keeps are those at indices below
/// `n` that satisfy `keep`, in index order.
proof fn lemma_picked(devices: Seq<DeviceInfo>, n: int, keep: spec_fn(int) -> bool)
    requires
        0 <= n <= devices.len(),
    ensures
        forall|k: int|
            #![trigger picked(devices, n, keep)[k]]
            #![trigger picked_from(devices, n, keep, k)]
            0 <= k < picked(devices, n, keep).len() ==> picked_from(devices, n, keep, k),
        forall|i: int|
            0 <= i < n && keep(i) ==> #[trigger] picked(devices, n, keep).contains(devices[i]),
    decreases n,
{
    if n > 0 {
        lemma_picked(devices, n - 1, keep);
        let prev = picked(devices, n - 1, keep);
        let cur = picked(devices, n, keep);
        assert(cur == prev + if keep(n - 1) {
            seq![devices[n - 1]]
        } else {
            Seq::<DeviceInfo>::empty()
        });
        assert forall|k: int|
            #![trigger picked(devices, n, keep)[k]]
            #![trigger picked_from(devices, n, keep, k)]
            0 <= k < picked(devices, n, keep).len() implies picked_from(devices, n, keep, k) by {
            if k < prev.len() {
                assert(cur[k] == prev[k]);
                assert(picked_from(devices, n - 1, keep, k));
                let i = choose|i: int| #![trigger devices[i]] 0 <= i < n - 1 && keep(i) && prev[k] == devices[i];
                assert(0 <= i < n && keep(i) && cur[k] == devices[i]);
            } else {
                assert(cur[k] == devices[n - 1]);
                assert(keep(n - 1));
            }
        }
        assert forall|i: int| 0 <= i < n && keep(i) implies #[trigger] cur.contains(devices[i]) by {
            if i < n - 1 {
                assert(prev.contains(devices[i]));
                let k = choose|k: int| 0 <= k < prev.len() && prev[k] == devices[i];
                assert(cur[k] == prev[k]);
                assert(cur.contains(devices[i]));
            } else {
                assert(cur[prev.len() as int] == devices[i]);
                assert(cur.contains(devices[i]));
            }
        }
    } else {
        assert(picked(devices, n, keep).len() == 0);
        assert forall|k: int|
            #![trigger picked(devices, n, keep)[k]]
            #![trigger picked_from(devices, n, keep, k)]
            0 <= k < picked(devices, n, keep).len() implies picked_from(devices, n, keep, k) by {}
    }
}

/// The deduplicated list holds only enumerated interfaces, and every
/// physical device that was enumerated appears in it through one interface:
/// its control interface (MI_02) when it has one.
pub proof fn unique_devices_cover(devices: Seq<DeviceInfo>)
    ensures
        forall|k: int|
            0 <= k < unique_devices(devices).len() ==> #[trigger] devices.contains(
                unique_devices(devices)[k],
            ),
        forall|i: int|
            #![trigger devices[i]]
            0 <= i < devices.len() ==> exists|k: int|
                0 <= k < unique_devices(devices).len() && same_device(
                    #[trigger] unique_devices(devices)[k],
                    devices[i],
                ) && (has_control(devices, devices[i]) ==> is_control_interface(
                    unique_devices(devices)[k],
                )),
{
    let n = devices.len() as int;
    let keep1 = |i: int| first_control(devices, i);
    let keep2 = |i: int| first_fallback(devices, i);
    let a = picked(devices, n, keep1);
    let b = picked(devices, n, keep2);
    let u = unique_devices(devices);
    assert(u == a + b);
    lemma_picked(devices, n, keep1);
    lemma_picked(devices, n, keep2);
    assert forall|k: int| 0 <= k < u.len() implies #[trigger] devices.contains(u[k]) by {
        if k < a.len() {
            assert(u[k] == a[k]);
            let i = choose|i: int| 0 <= i < n && keep1(i) && a[k] == devices[i];
            assert(devices[i] == u[k]);
        } else {
            assert(u[k] == b[k - a.len()]);
            let i = choose|i: int| 0 <= i < n && keep2(i) && b[k - a.len()] == devices[i];
            assert(devices[i] == u[k]);
        }
    }
    assert forall|i: int| #![trigger devices[i]] 0 <= i < devices.len() implies exists|k: int|
        0 <= k < u.len() && same_device(#[trigger] u[k], devices[i]) && (has_control(devices, devices[i])
            ==> is_control_interface(u[k])) by {
        if has_control(devices, devices[i]) {
            // The earliest control interface of this physical device is kept.
            let j0 = choose|j: int|
                0 <= j < devices.len() && is_control_interface(#[trigger] devices[j]) && same_device(
                    devices[j],
                    devices[i],
                );
            let j = earliest_control(devices, devices[i], j0);
            assert(keep1(j));
            assert(a.contains(devices[j]));
            let k = choose|k: int| 0 <= k < a.len() && a[k] == devices[j];
            assert(u[k] == a[k]);
        } else {
            let j = earliest_same(devices, devices[i], i);
            assert(!has_control(devices, devices[j]));
            assert(keep2(j));
            assert(b.contains(devices[j]));
            let k = choose|k: int| 0 <= k < b.len() && b[k] == devices[j];
            assert(u[k + a.len()] == b[k]);
        }
    }
}

/// The earliest control interface of the physical device of `d`, given one
/// at `j`.
proof fn earliest_control(devices: Seq<DeviceInfo>, d: DeviceInfo, j: int) -> (e: int)
    requires
        0 <= j < devices.len(),
        is_control_interface(devices[j]),
        same_device(devices[j], d),
    ensures
        0 <= e <= j,
        is_control_interface(devices[e]),
        same_device(devices[e], d),
        first_control(devices, e),
    decreases j,
{
    if exists|k: int| 0 <= k < j && is_control_interface(#[trigger] devices[k]) && same_device(devices[k], d) {
        let k = choose|k: int| 0 <= k < j && is_control_interface(#[trigger] devices[k]) && same_device(devices[k], d);
        earliest_control(devices, d, k)
    } else {
        j
    }
}

/// The earliest interface of the physical device of `d`, given one at `j`.
proof fn earliest_same(devices: Seq<DeviceInfo>, d: DeviceInfo, j: int) -> (e: int)
    requires
        0 <= j < devices.len(),
        same_device(devices[j], d),
    ensures
        0 <= e <= j,
        same_device(devices[e], d),
        forall|k: int| 0 <= k < e ==> !same_device(#[trigger] devices[k], devices[e]),
    decreases j,
{
    if exists|k: int| 0 <= k < j && same_device(#[trigger] devices[k], d) {
        let k = choose|k: int| 0 <= k < j && same_device(#[trigger] devices[k], d);
        earliest_same(devices, d, k)
    } else {
        j
    }
}

/// The indices behind `picked`, strictly increasing.
proof fn lemma_picked_indices(devices: Seq<DeviceInfo>, n: int, keep: spec_fn(int) -> bool) -> (idx: Seq<int>)
    requires
        0 <= n <= devices.len(),
    ensures
        idx.len() == picked(devices, n, keep).len(),
        forall|k: int| 0 <= k < idx.len() ==> 0 <= #[trigger] idx[k] < n && keep(idx[k]) && picked(
            devices,
            n,
            keep,
        )[k] == devices[idx[k]],
        forall|k: int, l: int| 0 <= k < l < idx.len() ==> #[trigger] idx[k] < #[trigger] idx[l],
    decreases n,
{
    if n == 0 {
        Seq::empty()
    } else {
        let prev = lemma_picked_indices(devices, n - 1, keep);
        let p = picked(devices, n - 1, keep);
        let cur = picked(devices, n, keep);
        if keep(n - 1) {
            let idx = prev.push(n - 1);
            assert forall|k: int| 0 <= k < idx.len() implies 0 <= #[trigger] idx[k] < n && keep(idx[k])
                && cur[k] == devices[idx[k]] by {
                if k < prev.len() {
                    assert(idx[k] == prev[k]);
                    assert(cur[k] == p[k]);
                }
            }
            assert forall|k: int, l: int| 0 <= k < l < idx.len() implies #[trigger] idx[k] < #[trigger] idx[l] by {
                if l < prev.len() {
                    assert(idx[k] == prev[k] && idx[l] == prev[l]);
                } else {
                    assert(idx[k] == prev[k]);
                }
            }
            idx
        } else {
            assert(cur =~= p);
            prev
        }
    }
}

/// A physical device appears in the deduplicated list only once.
pub proof fn unique_devices_distinct(devices: Seq<DeviceInfo>)
    ensures
        forall|k: int, l: int|
            0 <= k < l < unique_devices(devices).len() ==> !same_device(
                #[trigger] unique_devices(devices)[k],
                #[trigger] unique_devices(devices)[l],
            ),
{
    let n = devices.len() as int;
    let keep1 = |i: int| first_control(devices, i);
    let keep2 = |i: int| first_fallback(devices, i);
    let a = picked(devices, n, keep1);
    let b = picked(devices, n, keep2);
    let u = unique_devices(devices);
    let ia = lemma_picked_indices(devices, n, keep1);
    let ib = lemma_picked_indices(devices, n, keep2);
    assert forall|k: int, l: int| 0 <= k < l < u.len() implies !same_device(
        #[trigger] u[k],
        #[trigger] u[l],
    ) by {
        if l < a.len() {
            // Two first control interfaces, at increasing indices.
            let x = ia[k];
            let y = ia[l];
            assert(ia[k] < ia[l]);
            assert(u[k] == devices[x] && u[l] == devices[y]);
            assert(keep1(y));
            if same_device(devices[x], devices[y]) {
                assert(is_control_interface(devices[x]));
                assert(!(is_control_interface(devices[x]) && same_device(devices[x], devices[y])));
            }
        } else if k < a.len() {
            // A control interface, and a device without one.
            let x = ia[k];
            let y = ib[l - a.len()];
            assert(u[k] == devices[x]);
            assert(u[l] == b[l - a.len()]);
            assert(keep1(x) && keep2(y));
            if same_device(devices[x], devices[y]) {
                assert(same_device(devices[x], devices[y]));
                assert(has_control(devices, devices[y]));
            }
        } else {
            let x = ib[k - a.len()];
            let y = ib[l - a.len()];
            assert(ib[k - a.len()] < ib[l - a.len()]);
            assert(u[k] == b[k - a.len()] && u[l] == b[l - a.len()]);
            assert(keep2(y));
            if same_device(devices[x], devices[y]) {
                assert(!same_device(devices[x], devices[y]));
            }
        }
    }
}

/// A selector only ever designates a device of the list.
pub proof fn selection_in_range(devices: Seq<DeviceInfo>, sel: Seq<char>, i: int)
    requires
        selects(devices, sel, i),
    ensures
        0 <= i < devices.len(),
{
}

/// The device list is numbered from 1, and the number `k` of a listed device,
/// given as the selector, designates that device.
pub proof fn listed_number_selects(devices: Seq<DeviceInfo>, k: nat)
    requires
        1 <= k <= devices.len(),
        devices.len() <= usize::MAX,
    ensures
        selects(devices, decimal(k), k - 1),
{
    decimal_parses_back(k, usize::MAX as nat);
}

proof fn lemma_probe_first(answers: Seq<bool>, i: int, k: int)
    requires
        0 <= i <= k < answers.len(),
        answers[k],
        forall|j: int| i <= j < k ==> !answers[j],
    ensures
        probe_from(answers, i) == k,
    decreases k - i,
{
    if i < k {
        lemma_probe_first(answers, i + 1, k);
    }
}

proof fn lemma_probe_none(answers: Seq<bool>, i: int)
    requires
        0 <= i,
        forall|j: int| i <= j < answers.len() ==> !answers[j],
    ensures
        probe_from(answers, i) == 0,
    decreases answers.len() - i,
{
    if i < answers.len() && i + 1 < answers.len() {
        lemma_probe_none(answers, i + 1);
    }
}

/// Probing the devices in order with [`probe_step`] chooses the first device
/// that answers, or the first device when none does: each step either stops
/// at the device that [`probe_from`] names or moves to the next device,
/// which leads to the same choice.
pub proof fn probing_selects_first_answer(answers: Seq<bool>)
    requires
        1 <= answers.len() <= usize::MAX,
    ensures
        forall|i: int|
            #![trigger answers[i]]
            0 <= i < answers.len() ==> match probe_next(i as usize, answers.len() as usize, answers[i]) {
                ProbeStep::Select(k) => k == probe_from(answers, i),
                ProbeStep::Next(k) => k == i + 1 && probe_from(answers, k as int) == probe_from(
                    answers,
                    i,
                ),
            },
        forall|k: int|
            0 <= k < answers.len() && answers[k] && (forall|j: int| 0 <= j < k ==> !answers[j])
                ==> probe_from(answers, 0) == k,
        (forall|j: int| 0 <= j < answers.len() ==> !answers[j]) ==> probe_from(answers, 0) == 0,
{
    assert forall|k: int|
        0 <= k < answers.len() && answers[k] && (forall|j: int| 0 <= j < k ==> !answers[j])
            implies probe_from(answers, 0) == k by {
        lemma_probe_first(answers, 0, k);
    }
    if forall|j: int| 0 <= j < answers.len() ==> !answers[j] {
        lemma_probe_none(answers, 0);
    }
}

} // verus!
