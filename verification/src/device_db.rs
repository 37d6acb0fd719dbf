//! Known Lamzu device database

use vstd::prelude::*;

verus! {

/// Lamzu USB Vendor IDs
/// Maya X series
pub const LAMZU_VID: u16 = 0x373E;

/// Aurora series (TACHI, INCA, Maya, PARO, THORN, etc.)
pub const LAMZU_AURORA_VID: u16 = 0x37B0;

/// Atlantis series
pub const ATLANTIS_VID: u16 = 0x3554;

/// All known Lamzu vendor IDs
pub open spec fn lamzu_vids() -> Seq<u16> {
    seq![LAMZU_VID, LAMZU_AURORA_VID, ATLANTIS_VID]
}

/// Check if a vendor ID belongs to Lamzu
pub fn is_lamzu_vendor(vid: u16) -> (b: bool)
    ensures
        b == lamzu_vids().contains(vid),
{
    let vids: [u16; 3] = [LAMZU_VID, LAMZU_AURORA_VID, ATLANTIS_VID];
    let mut i: usize = 0;
    while i < 3
        invariant
            i <= 3,
            vids@ == lamzu_vids(),
            forall|j: int| 0 <= j < i ==> vids@[j] != vid,
        decreases 3 - i,
    {
        if vids[i] == vid {
            assert(lamzu_vids()[i as int] == vid);
            return true;
        }
        i = i + 1;
    }
    assert(!lamzu_vids().contains(vid));
    false
}

/// Known Lamzu device information
#[derive(Debug, Clone, Copy)]
pub struct KnownDevice {
    /// Vendor ID
    pub vid: u16,
    /// Product ID
    pub pid: u16,
    /// Device name
    pub name: &'static str,
}

/// Database of known Lamzu devices
///
/// All known Lamzu devices use the same protocol and are supported.
/// Devices not in this list may still work - please report if they do!
///
/// Note: This list is based on Lamzu Aurora software config.
pub open spec fn known_device_table() -> Seq<KnownDevice> {
    seq![
        // === Maya X series (VID 0x373E) ===
        KnownDevice { vid: 0x373E, pid: 0x001C, name: "Maya X (Wired)" },
        KnownDevice { vid: 0x373E, pid: 0x001D, name: "Maya X 1K Dongle" },
        KnownDevice { vid: 0x373E, pid: 0x001E, name: "Maya X 8K Dongle" },
        KnownDevice { vid: 0x373E, pid: 0x0016, name: "Maya X V2 8K Dongle" },
        // === Aurora series (VID 0x37B0) ===
        KnownDevice { vid: 0x37B0, pid: 0x0005, name: "TACHI (Wired)" },
        KnownDevice { vid: 0x37B0, pid: 0x000B, name: "TACHI 1K Dongle" },
        KnownDevice { vid: 0x37B0, pid: 0x000C, name: "TACHI 8K Dongle" },
        KnownDevice { vid: 0x37B0, pid: 0x0009, name: "INCA (Wired)" },
        KnownDevice { vid: 0x37B0, pid: 0x000F, name: "INCA 1K Dongle" },
        KnownDevice { vid: 0x37B0, pid: 0x0010, name: "INCA 8K Dongle" },
        KnownDevice { vid: 0x37B0, pid: 0x0011, name: "Maya (Wired)" },
        KnownDevice { vid: 0x37B0, pid: 0x0013, name: "Maya 1K Dongle" },
        KnownDevice { vid: 0x37B0, pid: 0x0015, name: "Maya 8K Dongle" },
        KnownDevice { vid: 0x37B0, pid: 0x0007, name: "PARO (Wired)" },
        KnownDevice { vid: 0x37B0, pid: 0x000D, name: "PARO 1K Dongle" },
        KnownDevice { vid: 0x37B0, pid: 0x000E, name: "PARO 8K Dongle" },
        KnownDevice { vid: 0x37B0, pid: 0x0017, name: "THORN (Wired)" },
        KnownDevice { vid: 0x37B0, pid: 0x0019, name: "THORN 1K Dongle" },
        KnownDevice { vid: 0x37B0, pid: 0x001B, name: "THORN 8K Dongle" },
        KnownDevice { vid: 0x37B0, pid: 0x0021, name: "THORN V2 (Wired)" },
        KnownDevice { vid: 0x37B0, pid: 0x0023, name: "THORN V2 8K Dongle" },
        KnownDevice { vid: 0x37B0, pid: 0x0030, name: "THORN V2 54H20 (Wired)" },
        KnownDevice { vid: 0x37B0, pid: 0x0032, name: "THORN V2 54H20 8K Dongle" },
        KnownDevice { vid: 0x37B0, pid: 0x001C, name: "Tachi Lite (Wired)" },
        KnownDevice { vid: 0x37B0, pid: 0x001E, name: "Tachi Lite 8K Dongle" },
        KnownDevice { vid: 0x37B0, pid: 0x001F, name: "Maya X V2 (Wired)" },
        KnownDevice { vid: 0x37B0, pid: 0x0025, name: "Atlantis OG Champion (Wired)" },
        KnownDevice { vid: 0x37B0, pid: 0x0027, name: "Atlantis OG Champion 8K Dongle" },
        KnownDevice { vid: 0x37B0, pid: 0x0028, name: "Atlantis Mini (Wired)" },
        KnownDevice { vid: 0x37B0, pid: 0x002A, name: "Atlantis Mini 8K Dongle" },
        KnownDevice { vid: 0x37B0, pid: 0x002B, name: "Atlantis Mini 1K Dongle" },
        KnownDevice { vid: 0x37B0, pid: 0x002C, name: "Maya M 54H20 (Wired)" },
        KnownDevice { vid: 0x37B0, pid: 0x002E, name: "Maya M 54H20 8K Dongle" },
        // === Atlantis series (VID 0x3554) ===
        KnownDevice { vid: 0x3554, pid: 0xF50F, name: "Atlantis (Wired)" },
        KnownDevice { vid: 0x3554, pid: 0xF50D, name: "Atlantis 1K Dongle" },
        KnownDevice { vid: 0x3554, pid: 0xF510, name: "Atlantis 8K Dongle" },
    ]
}

/// The database of known Lamzu devices, in the order of
/// [`known_device_table`].
pub fn known_devices() -> (v: Vec<KnownDevice>)
    ensures
        v@ == known_device_table(),
{
    let v: Vec<KnownDevice> = vec![
        // === Maya X series (VID 0x373E) ===
        KnownDevice { vid: 0x373E, pid: 0x001C, name: "Maya X (Wired)" },
        KnownDevice { vid: 0x373E, pid: 0x001D, name: "Maya X 1K Dongle" },
        KnownDevice { vid: 0x373E, pid: 0x001E, name: "Maya X 8K Dongle" },
        KnownDevice { vid: 0x373E, pid: 0x0016, name: "Maya X V2 8K Dongle" },
        // === Aurora series (VID 0x37B0) ===
        KnownDevice { vid: 0x37B0, pid: 0x0005, name: "TACHI (Wired)" },
        KnownDevice { vid: 0x37B0, pid: 0x000B, name: "TACHI 1K Dongle" },
        KnownDevice { vid: 0x37B0, pid: 0x000C, name: "TACHI 8K Dongle" },
        KnownDevice { vid: 0x37B0, pid: 0x0009, name: "INCA (Wired)" },
        KnownDevice { vid: 0x37B0, pid: 0x000F, name: "INCA 1K Dongle" },
        KnownDevice { vid: 0x37B0, pid: 0x0010, name: "INCA 8K Dongle" },
        KnownDevice { vid: 0x37B0, pid: 0x0011, name: "Maya (Wired)" },
        KnownDevice { vid: 0x37B0, pid: 0x0013, name: "Maya 1K Dongle" },
        KnownDevice { vid: 0x37B0, pid: 0x0015, name: "Maya 8K Dongle" },
        KnownDevice { vid: 0x37B0, pid: 0x0007, name: "PARO (Wired)" },
        KnownDevice { vid: 0x37B0, pid: 0x000D, name: "PARO 1K Dongle" },
        KnownDevice { vid: 0x37B0, pid: 0x000E, name: "PARO 8K Dongle" },
        KnownDevice { vid: 0x37B0, pid: 0x0017, name: "THORN (Wired)" },
        KnownDevice { vid: 0x37B0, pid: 0x0019, name: "THORN 1K Dongle" },
        KnownDevice { vid: 0x37B0, pid: 0x001B, name: "THORN 8K Dongle" },
        KnownDevice { vid: 0x37B0, pid: 0x0021, name: "THORN V2 (Wired)" },
        KnownDevice { vid: 0x37B0, pid: 0x0023, name: "THORN V2 8K Dongle" },
        KnownDevice { vid: 0x37B0, pid: 0x0030, name: "THORN V2 54H20 (Wired)" },
        KnownDevice { vid: 0x37B0, pid: 0x0032, name: "THORN V2 54H20 8K Dongle" },
        KnownDevice { vid: 0x37B0, pid: 0x001C, name: "Tachi Lite (Wired)" },
        KnownDevice { vid: 0x37B0, pid: 0x001E, name: "Tachi Lite 8K Dongle" },
        KnownDevice { vid: 0x37B0, pid: 0x001F, name: "Maya X V2 (Wired)" },
        KnownDevice { vid: 0x37B0, pid: 0x0025, name: "Atlantis OG Champion (Wired)" },
        KnownDevice { vid: 0x37B0, pid: 0x0027, name: "Atlantis OG Champion 8K Dongle" },
        KnownDevice { vid: 0x37B0, pid: 0x0028, name: "Atlantis Mini (Wired)" },
        KnownDevice { vid: 0x37B0, pid: 0x002A, name: "Atlantis Mini 8K Dongle" },
        KnownDevice { vid: 0x37B0, pid: 0x002B, name: "Atlantis Mini 1K Dongle" },
        KnownDevice { vid: 0x37B0, pid: 0x002C, name: "Maya M 54H20 (Wired)" },
        KnownDevice { vid: 0x37B0, pid: 0x002E, name: "Maya M 54H20 8K Dongle" },
        // === Atlantis series (VID 0x3554) ===
        KnownDevice { vid: 0x3554, pid: 0xF50F, name: "Atlantis (Wired)" },
        KnownDevice { vid: 0x3554, pid: 0xF50D, name: "Atlantis 1K Dongle" },
        KnownDevice { vid: 0x3554, pid: 0xF510, name: "Atlantis 8K Dongle" },
    ];
    assert(v@ =~= known_device_table());
    v
}

/// `d` is the entry for `vid`/`pid`.
pub open spec fn entry_matches(d: KnownDevice, vid: u16, pid: u16) -> bool {
    d.vid == vid && d.pid == pid
}

/// The first entry of the database for `vid`/`pid`, if any.
pub open spec fn is_first_entry(d: KnownDevice, vid: u16, pid: u16) -> bool {
    exists|i: int|
        0 <= i < known_device_table().len() && known_device_table()[i] == d && entry_matches(
            d,
            vid,
            pid,
        ) && forall|j: int| 0 <= j < i ==> !entry_matches(#[trigger] known_device_table()[j], vid, pid)
}

/// Look up a device by its vendor and product ID
pub fn lookup_device(vid: u16, pid: u16) -> (found: Option<KnownDevice>)
    ensures
        match found {
            Some(d) => is_first_entry(d, vid, pid),
            None => forall|i: int|
                0 <= i < known_device_table().len() ==> !entry_matches(
                    #[trigger] known_device_table()[i],
                    vid,
                    pid,
                ),
        },
{
    let table = known_devices();
    let mut i: usize = 0;
    while i < table.len()
        invariant
            table@ == known_device_table(),
            i <= table@.len(),
            forall|j: int| 0 <= j < i ==> !entry_matches(#[trigger] known_device_table()[j], vid, pid),
        decreases table@.len() - i,
    {
        let d = table[i];
        if d.vid == vid && d.pid == pid {
            assert(known_device_table()[i as int] == d);
            return Some(d);
        }
        i = i + 1;
    }
    None
}

/// Every device of the database has a Lamzu vendor ID, so a known device is
/// always recognised as a Lamzu device.
pub proof fn known_devices_are_lamzu(vid: u16, pid: u16, d: KnownDevice)
    requires
        is_first_entry(d, vid, pid),
    ensures
        lamzu_vids().contains(vid),
{
    let i = choose|i: int|
        0 <= i < known_device_table().len() && known_device_table()[i] == d && entry_matches(
            d,
            vid,
            pid,
        ) && forall|j: int| 0 <= j < i ==> !entry_matches(#[trigger] known_device_table()[j], vid, pid);
    assert(forall|k: int|
        0 <= k < known_device_table().len() ==> lamzu_vids().contains(
            #[trigger] known_device_table()[k].vid,
        )) by {
        assert(lamzu_vids()[0] == LAMZU_VID);
        assert(lamzu_vids()[1] == LAMZU_AURORA_VID);
        assert(lamzu_vids()[2] == ATLANTIS_VID);
    }
    assert(known_device_table()[i].vid == vid);
}

/// The name of each Lamzu device by vendor and product ID, as the Lamzu
/// software lists them.
pub open spec fn device_name(vid: u16, pid: u16) -> Option<&'static str> {
    if vid == 0x373E && pid == 0x001C {
        Some("Maya X (Wired)")
    } else if vid == 0x373E && pid == 0x001D {
        Some("Maya X 1K Dongle")
    } else if vid == 0x373E && pid == 0x001E {
        Some("Maya X 8K Dongle")
    } else if vid == 0x373E && pid == 0x0016 {
        Some("Maya X V2 8K Dongle")
    } else if vid == 0x37B0 && pid == 0x0005 {
        Some("TACHI (Wired)")
    } else if vid == 0x37B0 && pid == 0x000B {
        Some("TACHI 1K Dongle")
    } else if vid == 0x37B0 && pid == 0x000C {
        Some("TACHI 8K Dongle")
    } else if vid == 0x37B0 && pid == 0x0009 {
        Some("INCA (Wired)")
    } else if vid == 0x37B0 && pid == 0x000F {
        Some("INCA 1K Dongle")
    } else if vid == 0x37B0 && pid == 0x0010 {
        Some("INCA 8K Dongle")
    } else if vid == 0x37B0 && pid == 0x0011 {
        Some("Maya (Wired)")
    } else if vid == 0x37B0 && pid == 0x0013 {
        Some("Maya 1K Dongle")
    } else if vid == 0x37B0 && pid == 0x0015 {
        Some("Maya 8K Dongle")
    } else if vid == 0x37B0 && pid == 0x0007 {
        Some("PARO (Wired)")
    } else if vid == 0x37B0 && pid == 0x000D {
        Some("PARO 1K Dongle")
    } else if vid == 0x37B0 && pid == 0x000E {
        Some("PARO 8K Dongle")
    } else if vid == 0x37B0 && pid == 0x0017 {
        Some("THORN (Wired)")
    } else if vid == 0x37B0 && pid == 0x0019 {
        Some("THORN 1K Dongle")
    } else if vid == 0x37B0 && pid == 0x001B {
        Some("THORN 8K Dongle")
    } else if vid == 0x37B0 && pid == 0x0021 {
        Some("THORN V2 (Wired)")
    } else if vid == 0x37B0 && pid == 0x0023 {
        Some("THORN V2 8K Dongle")
    } else if vid == 0x37B0 && pid == 0x0030 {
        Some("THORN V2 54H20 (Wired)")
    } else if vid == 0x37B0 && pid == 0x0032 {
        Some("THORN V2 54H20 8K Dongle")
    } else if vid == 0x37B0 && pid == 0x001C {
        Some("Tachi Lite (Wired)")
    } else if vid == 0x37B0 && pid == 0x001E {
        Some("Tachi Lite 8K Dongle")
    } else if vid == 0x37B0 && pid == 0x001F {
        Some("Maya X V2 (Wired)")
    } else if vid == 0x37B0 && pid == 0x0025 {
        Some("Atlantis OG Champion (Wired)")
    } else if vid == 0x37B0 && pid == 0x0027 {
        Some("Atlantis OG Champion 8K Dongle")
    } else if vid == 0x37B0 && pid == 0x0028 {
        Some("Atlantis Mini (Wired)")
    } else if vid == 0x37B0 && pid == 0x002A {
        Some("Atlantis Mini 8K Dongle")
    } else if vid == 0x37B0 && pid == 0x002B {
        Some("Atlantis Mini 1K Dongle")
    } else if vid == 0x37B0 && pid == 0x002C {
        Some("Maya M 54H20 (Wired)")
    } else if vid == 0x37B0 && pid == 0x002E {
        Some("Maya M 54H20 8K Dongle")
    } else if vid == 0x3554 && pid == 0xF50F {
        Some("Atlantis (Wired)")
    } else if vid == 0x3554 && pid == 0xF50D {
        Some("Atlantis 1K Dongle")
    } else if vid == 0x3554 && pid == 0xF510 {
        Some("Atlantis 8K Dongle")
    } else {
        None
    }
}

/// A lookup finds a device exactly for the IDs of a known device, and finds
/// it under that device's name: the entry found carries the IDs asked for
/// and the name the Lamzu software gives them.
pub proof fn lookup_names_law(vid: u16, pid: u16)
    ensures
        forall|d: KnownDevice|
            is_first_entry(d, vid, pid) ==> d.vid == vid && d.pid == pid && device_name(vid, pid)
                == Some(d.name),
        device_name(vid, pid) is Some ==> exists|i: int|
            0 <= i < known_device_table().len() && entry_matches(
                #[trigger] known_device_table()[i],
                vid,
                pid,
            ),
        device_name(vid, pid) is None ==> forall|i: int|
            0 <= i < known_device_table().len() ==> !entry_matches(
                #[trigger] known_device_table()[i],
                vid,
                pid,
            ),
{
    let t = known_device_table();
    assert forall|i: int| 0 <= i < t.len() implies device_name(t[i].vid, t[i].pid) == Some(
        t[i].name,
    ) by {
        if i == 0 {
            assert(device_name(t[0].vid, t[0].pid) == Some(t[0].name));
        }
        if i == 1 {
            assert(device_name(t[1].vid, t[1].pid) == Some(t[1].name));
        }
        if i == 2 {
            assert(device_name(t[2].vid, t[2].pid) == Some(t[2].name));
        }
        if i == 3 {
            assert(device_name(t[3].vid, t[3].pid) == Some(t[3].name));
        }
        if i == 4 {
            assert(device_name(t[4].vid, t[4].pid) == Some(t[4].name));
        }
        if i == 5 {
            assert(device_name(t[5].vid, t[5].pid) == Some(t[5].name));
        }
        if i == 6 {
            assert(device_name(t[6].vid, t[6].pid) == Some(t[6].name));
        }
        if i == 7 {
            assert(device_name(t[7].vid, t[7].pid) == Some(t[7].name));
        }
        if i == 8 {
            assert(device_name(t[8].vid, t[8].pid) == Some(t[8].name));
        }
        if i == 9 {
            assert(device_name(t[9].vid, t[9].pid) == Some(t[9].name));
        }
        if i == 10 {
            assert(device_name(t[10].vid, t[10].pid) == Some(t[10].name));
        }
        if i == 11 {
            assert(device_name(t[11].vid, t[11].pid) == Some(t[11].name));
        }
        if i == 12 {
            assert(device_name(t[12].vid, t[12].pid) == Some(t[12].name));
        }
        if i == 13 {
            assert(device_name(t[13].vid, t[13].pid) == Some(t[13].name));
        }
        if i == 14 {
            assert(device_name(t[14].vid, t[14].pid) == Some(t[14].name));
        }
        if i == 15 {
            assert(device_name(t[15].vid, t[15].pid) == Some(t[15].name));
        }
        if i == 16 {
            assert(device_name(t[16].vid, t[16].pid) == Some(t[16].name));
        }
        if i == 17 {
            assert(device_name(t[17].vid, t[17].pid) == Some(t[17].name));
        }
        if i == 18 {
            assert(device_name(t[18].vid, t[18].pid) == Some(t[18].name));
        }
        if i == 19 {
            assert(device_name(t[19].vid, t[19].pid) == Some(t[19].name));
        }
        if i == 20 {
            assert(device_name(t[20].vid, t[20].pid) == Some(t[20].name));
        }
        if i == 21 {
            assert(device_name(t[21].vid, t[21].pid) == Some(t[21].name));
        }
        if i == 22 {
            assert(device_name(t[22].vid, t[22].pid) == Some(t[22].name));
        }
        if i == 23 {
            assert(device_name(t[23].vid, t[23].pid) == Some(t[23].name));
        }
        if i == 24 {
            assert(device_name(t[24].vid, t[24].pid) == Some(t[24].name));
        }
        if i == 25 {
            assert(device_name(t[25].vid, t[25].pid) == Some(t[25].name));
        }
        if i == 26 {
            assert(device_name(t[26].vid, t[26].pid) == Some(t[26].name));
        }
        if i == 27 {
            assert(device_name(t[27].vid, t[27].pid) == Some(t[27].name));
        }
        if i == 28 {
            assert(device_name(t[28].vid, t[28].pid) == Some(t[28].name));
        }
        if i == 29 {
            assert(device_name(t[29].vid, t[29].pid) == Some(t[29].name));
        }
        if i == 30 {
            assert(device_name(t[30].vid, t[30].pid) == Some(t[30].name));
        }
        if i == 31 {
            assert(device_name(t[31].vid, t[31].pid) == Some(t[31].name));
        }
        if i == 32 {
            assert(device_name(t[32].vid, t[32].pid) == Some(t[32].name));
        }
        if i == 33 {
            assert(device_name(t[33].vid, t[33].pid) == Some(t[33].name));
        }
        if i == 34 {
            assert(device_name(t[34].vid, t[34].pid) == Some(t[34].name));
        }
        if i == 35 {
            assert(device_name(t[35].vid, t[35].pid) == Some(t[35].name));
        }
    }
    if device_name(vid, pid) is Some {
        if vid == 0x373E && pid == 0x001C {
            assert(entry_matches(t[0], vid, pid));
        }
        if vid == 0x373E && pid == 0x001D {
            assert(entry_matches(t[1], vid, pid));
        }
        if vid == 0x373E && pid == 0x001E {
            assert(entry_matches(t[2], vid, pid));
        }
        if vid == 0x373E && pid == 0x0016 {
            assert(entry_matches(t[3], vid, pid));
        }
        if vid == 0x37B0 && pid == 0x0005 {
            assert(entry_matches(t[4], vid, pid));
        }
        if vid == 0x37B0 && pid == 0x000B {
            assert(entry_matches(t[5], vid, pid));
        }
        if vid == 0x37B0 && pid == 0x000C {
            assert(entry_matches(t[6], vid, pid));
        }
        if vid == 0x37B0 && pid == 0x0009 {
            assert(entry_matches(t[7], vid, pid));
        }
        if vid == 0x37B0 && pid == 0x000F {
            assert(entry_matches(t[8], vid, pid));
        }
        if vid == 0x37B0 && pid == 0x0010 {
            assert(entry_matches(t[9], vid, pid));
        }
        if vid == 0x37B0 && pid == 0x0011 {
            assert(entry_matches(t[10], vid, pid));
        }
        if vid == 0x37B0 && pid == 0x0013 {
            assert(entry_matches(t[11], vid, pid));
        }
        if vid == 0x37B0 && pid == 0x0015 {
            assert(entry_matches(t[12], vid, pid));
        }
        if vid == 0x37B0 && pid == 0x0007 {
            assert(entry_matches(t[13], vid, pid));
        }
        if vid == 0x37B0 && pid == 0x000D {
            assert(entry_matches(t[14], vid, pid));
        }
        if vid == 0x37B0 && pid == 0x000E {
            assert(entry_matches(t[15], vid, pid));
        }
        if vid == 0x37B0 && pid == 0x0017 {
            assert(entry_matches(t[16], vid, pid));
        }
        if vid == 0x37B0 && pid == 0x0019 {
            assert(entry_matches(t[17], vid, pid));
        }
        if vid == 0x37B0 && pid == 0x001B {
            assert(entry_matches(t[18], vid, pid));
        }
        if vid == 0x37B0 && pid == 0x0021 {
            assert(entry_matches(t[19], vid, pid));
        }
        if vid == 0x37B0 && pid == 0x0023 {
            assert(entry_matches(t[20], vid, pid));
        }
        if vid == 0x37B0 && pid == 0x0030 {
            assert(entry_matches(t[21], vid, pid));
        }
        if vid == 0x37B0 && pid == 0x0032 {
            assert(entry_matches(t[22], vid, pid));
        }
        if vid == 0x37B0 && pid == 0x001C {
            assert(entry_matches(t[23], vid, pid));
        }
        if vid == 0x37B0 && pid == 0x001E {
            assert(entry_matches(t[24], vid, pid));
        }
        if vid == 0x37B0 && pid == 0x001F {
            assert(entry_matches(t[25], vid, pid));
        }
        if vid == 0x37B0 && pid == 0x0025 {
            assert(entry_matches(t[26], vid, pid));
        }
        if vid == 0x37B0 && pid == 0x0027 {
            assert(entry_matches(t[27], vid, pid));
        }
        if vid == 0x37B0 && pid == 0x0028 {
            assert(entry_matches(t[28], vid, pid));
        }
        if vid == 0x37B0 && pid == 0x002A {
            assert(entry_matches(t[29], vid, pid));
        }
        if vid == 0x37B0 && pid == 0x002B {
            assert(entry_matches(t[30], vid, pid));
        }
        if vid == 0x37B0 && pid == 0x002C {
            assert(entry_matches(t[31], vid, pid));
        }
        if vid == 0x37B0 && pid == 0x002E {
            assert(entry_matches(t[32], vid, pid));
        }
        if vid == 0x3554 && pid == 0xF50F {
            assert(entry_matches(t[33], vid, pid));
        }
        if vid == 0x3554 && pid == 0xF50D {
            assert(entry_matches(t[34], vid, pid));
        }
        if vid == 0x3554 && pid == 0xF510 {
            assert(entry_matches(t[35], vid, pid));
        }
    }
}

} // verus!
