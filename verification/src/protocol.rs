//! The Lamzu HID packet protocol: request packets and response decoding.
//!
//! Every request is a 64-byte packet: `[2]` device id, `[3]` payload length,
//! `[4]` command category, `[5]` opcode, `[6..]` parameters. A response read
//! back through a feature report starts with the report id, so its marker is
//! at `[1]` and the opcode echo at `[6]`.

use vstd::prelude::*;
use vstd::string::StringExecFns;

use crate::text::{decimal, hex2, push_decimal, push_hex2};
use crate::types::{BatteryStatus, DpiStage, FirmwareVersion, MouseNotResponding, PerformanceMode, RgbColor};

verus! {

// Device IDs
pub const DEVICE_ID_DONGLE: u8 = 0x00;
pub const DEVICE_ID_MOUSE: u8 = 0x02;

// Categories
pub const CATEGORY_GENERAL: u8 = 0x00;
pub const CATEGORY_CONFIG: u8 = 0x01;
pub const CATEGORY_LIGHTING: u8 = 0x02;

// Read opcodes (bit 7 set = read)
pub const OP_GET_POLLING_RATE: u8 = 0x80;
pub const OP_GET_DPI_STAGES: u8 = 0x81;
pub const OP_GET_ACTIVE_DPI: u8 = 0x82;
pub const OP_GET_BATTERY: u8 = 0x83;
pub const OP_GET_ANGLE_SNAP: u8 = 0x84;
pub const OP_GET_PROFILE: u8 = 0x85;
/// Without a category byte; the same opcode under category 0x01 reads the LOD.
pub const OP_GET_DEBOUNCE: u8 = 0x88;
pub const OP_GET_LOD: u8 = 0x88;
pub const OP_GET_MOTION_SYNC: u8 = 0x89;
pub const OP_GET_RIPPLE_CONTROL: u8 = 0x8A;
/// High-speed mode; a set value means Competition mode.
pub const OP_GET_HYPER_MODE: u8 = 0x8B;
/// Competition (20K FPS) mode.
pub const OP_GET_TRACKING_MODE: u8 = 0x93;
pub const OP_GET_ANGLE_TUNE: u8 = 0x94;
/// Same opcode as the DPI stages, under the lighting category.
pub const OP_GET_DPI_COLORS: u8 = 0x81;
/// Without a category byte.
pub const OP_GET_FIRMWARE_VERSION: u8 = 0x81;

// Write opcodes (bit 7 clear = write)
pub const OP_SET_PROFILE: u8 = 0x05;
pub const OP_SET_ACTIVE_DPI: u8 = 0x02;

/// Errors reported while talking to a device.
#[derive(Debug, Clone, Copy, PartialEq, Eq, Structural)]
pub enum DeviceError {
    /// The response marker was outside 0xA0-0xAF.
    ErrorResponse { marker: u8 },
    /// The response ended before the byte at `index`.
    ResponseTooShort { index: usize, len: usize },
    /// The active DPI stage is not among the listed stages.
    StageNotFound { stage: u8 },
    /// The dongle answered with the all-zero values of an absent mouse.
    NotResponding(MouseNotResponding),
}

/// The text of an error, as shown to the user.
pub open spec fn device_error_text(e: DeviceError) -> Seq<char> {
    match e {
        DeviceError::ErrorResponse { marker } => "Device returned error response (expected 0xA0-0xAF, got 0x"@
            + hex2(marker) + ")"@,
        DeviceError::ResponseTooShort { index, len } => "Response too short: expected at least "@
            + decimal(index as nat + 1) + " bytes, got "@ + decimal(len as nat),
        DeviceError::StageNotFound { stage } => "Active DPI stage "@ + decimal(stage as nat)
            + " not found in stages list"@,
        DeviceError::NotResponding(_) => "mouse is not responding (asleep, powered off, or out of range); move it to wake it"@,
    }
}

impl DeviceError {
    /// The text shown to the user.
    pub fn to_string(&self) -> (s: String)
        ensures
            s@ == device_error_text(*self),
    {
        match self {
            DeviceError::ErrorResponse { marker } => {
                let mut s = String::from_str(
                    "Device returned error response (expected 0xA0-0xAF, got 0x",
                );
                push_hex2(&mut s, *marker);
                s.append(")");
                s
            },
            DeviceError::ResponseTooShort { index, len } => {
                let mut s = String::from_str("Response too short: expected at least ");
                push_decimal(&mut s, *index as u128 + 1);
                s.append(" bytes, got ");
                push_decimal(&mut s, *len as u128);
                s
            },
            DeviceError::StageNotFound { stage } => {
                let mut s = String::from_str("Active DPI stage ");
                push_decimal(&mut s, *stage as u128);
                s.append(" not found in stages list");
                s
            },
            DeviceError::NotResponding(m) => m.to_string(),
        }
    }
}

// ============================================================================
// Packets
// ============================================================================

/// The 64-byte request packet with the given header and parameters; every
/// other byte is zero.
pub open spec fn command_packet(
    device_id: u8,
    payload_len: u8,
    category: u8,
    opcode: u8,
    params: Seq<u8>,
) -> Seq<u8> {
    Seq::new(
        64,
        |i: int|
            if i == 2 {
                device_id
            } else if i == 3 {
                payload_len
            } else if i == 4 {
                category
            } else if i == 5 {
                opcode
            } else if 6 <= i < 6 + params.len() {
                params[i - 6]
            } else {
                0u8
            },
    )
}

/// Build a 64-byte command packet for the Lamzu protocol
pub fn build_command(device_id: u8, payload_len: u8, category: u8, opcode: u8, params: &[u8]) -> (cmd:
    [u8; 64])
    requires
        params@.len() <= 58,
    ensures
        cmd@ == command_packet(device_id, payload_len, category, opcode, params@),
{
    let mut cmd = [0u8; 64];
    cmd[2] = device_id;
    cmd[3] = payload_len;
    cmd[4] = category;
    cmd[5] = opcode;
    let mut i: usize = 0;
    while i < params.len()
        invariant
            params@.len() <= 58,
            i <= params@.len(),
            cmd@.len() == 64,
            forall|j: int|
                0 <= j < 64 ==> #[trigger] cmd@[j] == (if j == 2 {
                    device_id
                } else if j == 3 {
                    payload_len
                } else if j == 4 {
                    category
                } else if j == 5 {
                    opcode
                } else if 6 <= j < 6 + i {
                    params@[j - 6]
                } else {
                    0u8
                }),
        decreases params@.len() - i,
    {
        cmd[6 + i] = params[i];
        i = i + 1;
    }
    assert(cmd@ =~= command_packet(device_id, payload_len, category, opcode, params@));
    cmd
}

/// The 65-byte feature report that carries a command: the report id 0
/// followed by the packet.
pub fn feature_report(cmd: &[u8; 64]) -> (buf: [u8; 65])
    ensures
        buf@ == seq![0u8] + cmd@,
{
    let mut buf = [0u8; 65];
    let mut i: usize = 0;
    while i < 64
        invariant
            i <= 64,
            buf@.len() == 65,
            cmd@.len() == 64,
            buf@[0] == 0u8,
            forall|j: int| 1 <= j < 1 + i ==> #[trigger] buf@[j] == cmd@[j - 1],
        decreases 64 - i,
    {
        buf[i + 1] = cmd[i];
        i = i + 1;
    }
    assert(buf@ =~= seq![0u8] + cmd@);
    buf
}

// ============================================================================
// Response helpers
// ============================================================================

/// The response marker: byte 1, or 0 when the response is shorter.
pub open spec fn response_marker(r: Seq<u8>) -> u8 {
    if r.len() > 1 {
        r[1]
    } else {
        0
    }
}

/// Markers 0xA0-0xAF announce a valid response.
pub open spec fn marker_valid(marker: u8) -> bool {
    0xA0 <= marker <= 0xAF
}

/// `v` when the response carries a valid marker, the marker error otherwise.
pub open spec fn when_valid<T>(r: Seq<u8>, v: Result<T, DeviceError>) -> Result<T, DeviceError> {
    if marker_valid(response_marker(r)) {
        v
    } else {
        Err(DeviceError::ErrorResponse { marker: response_marker(r) })
    }
}

/// The byte at `index`, or the error for a response that ends before it.
pub open spec fn response_byte(r: Seq<u8>, index: int) -> Result<u8, DeviceError> {
    if 0 <= index < r.len() {
        Ok(r[index])
    } else {
        Err(DeviceError::ResponseTooShort { index: index as usize, len: r.len() as usize })
    }
}

/// Validate response has success marker
pub fn validate_response(response: &[u8]) -> (res: Result<(), DeviceError>)
    ensures
        res == when_valid(response@, Ok(())),
{
    let marker = if response.len() > 1 {
        response[1]
    } else {
        0
    };
    if 0xA0 <= marker && marker <= 0xAF {
        Ok(())
    } else {
        Err(DeviceError::ErrorResponse { marker })
    }
}

/// Get a byte from a response with bounds checking
pub fn get_response_byte(response: &[u8], index: usize) -> (res: Result<u8, DeviceError>)
    ensures
        res == response_byte(response@, index as int),
{
    if index < response.len() {
        Ok(response[index])
    } else {
        Err(DeviceError::ResponseTooShort { index, len: response.len() })
    }
}

/// The polling rate in Hz that a raw rate value stands for.
pub open spec fn polling_rate_hz(raw: u8) -> u16 {
    if raw == 0x01 || raw == 0x10 {
        1000
    } else if raw == 0x02 {
        500
    } else if raw == 0x04 {
        250
    } else if raw == 0x08 {
        125
    } else if raw == 0x20 {
        2000
    } else if raw == 0x40 {
        4000
    } else if raw == 0x80 {
        8000
    } else {
        raw as u16
    }
}

/// Convert raw polling rate value to Hz
pub fn polling_rate_to_hz(raw: u8) -> (hz: u16)
    ensures
        hz == polling_rate_hz(raw),
{
    match raw {
        0x01 | 0x10 => 1000,
        0x02 => 500,
        0x04 => 250,
        0x08 => 125,
        // Extended polling rates for 2K/4K/8K devices. 0x40 -> 4000 is
        // verified on a Maya X 8K; 0x20 -> 2000 follows the same pattern.
        0x20 => 2000,
        0x40 => 4000,
        0x80 => 8000,
        _ => raw as u16,
    }
}

// ============================================================================
// Requests
// ============================================================================

/// The current-profile query.
pub fn profile_request() -> (cmd: [u8; 64])
    ensures
        cmd@ == command_packet(DEVICE_ID_MOUSE, 0x01, CATEGORY_GENERAL, OP_GET_PROFILE, seq![]),
{
    let params: [u8; 0] = [];
    build_command(DEVICE_ID_MOUSE, 0x01, CATEGORY_GENERAL, OP_GET_PROFILE, params.as_slice())
}

/// The battery query.
pub fn battery_request() -> (cmd: [u8; 64])
    ensures
        cmd@ == command_packet(DEVICE_ID_MOUSE, 0x02, CATEGORY_GENERAL, OP_GET_BATTERY, seq![]),
{
    let params: [u8; 0] = [];
    build_command(DEVICE_ID_MOUSE, 0x02, CATEGORY_GENERAL, OP_GET_BATTERY, params.as_slice())
}

/// A per-profile query under the configuration category.
pub open spec fn config_query(opcode: u8, profile_id: u8) -> Seq<u8> {
    command_packet(DEVICE_ID_MOUSE, 0x02, CATEGORY_CONFIG, opcode, seq![profile_id])
}

fn config_request(opcode: u8, profile_id: u8) -> (cmd: [u8; 64])
    ensures
        cmd@ == config_query(opcode, profile_id),
{
    let params: [u8; 1] = [profile_id];
    proof {
        assert(params@ =~= seq![profile_id]);
    }
    build_command(DEVICE_ID_MOUSE, 0x02, CATEGORY_CONFIG, opcode, params.as_slice())
}

/// The polling-rate query for a profile.
pub fn polling_rate_request(profile_id: u8) -> (cmd: [u8; 64])
    ensures
        cmd@ == config_query(OP_GET_POLLING_RATE, profile_id),
{
    config_request(OP_GET_POLLING_RATE, profile_id)
}

/// The active-DPI-stage query for a profile.
pub fn active_dpi_stage_request(profile_id: u8) -> (cmd: [u8; 64])
    ensures
        cmd@ == config_query(OP_GET_ACTIVE_DPI, profile_id),
{
    config_request(OP_GET_ACTIVE_DPI, profile_id)
}

/// The query for the first `stage_count` DPI stages of a profile.
pub fn dpi_stages_request(profile_id: u8, stage_count: u8) -> (cmd: [u8; 64])
    ensures
        cmd@ == command_packet(
            DEVICE_ID_MOUSE,
            0x0A,
            CATEGORY_CONFIG,
            OP_GET_DPI_STAGES,
            seq![profile_id, stage_count],
        ),
{
    let params: [u8; 2] = [profile_id, stage_count];
    proof {
        assert(params@ =~= seq![profile_id, stage_count]);
    }
    build_command(DEVICE_ID_MOUSE, 0x0A, CATEGORY_CONFIG, OP_GET_DPI_STAGES, params.as_slice())
}

/// The DPI stage colour query for a profile.
pub fn dpi_colors_request(profile_id: u8) -> (cmd: [u8; 64])
    ensures
        cmd@ == command_packet(
            DEVICE_ID_MOUSE,
            0x13,
            CATEGORY_LIGHTING,
            OP_GET_DPI_COLORS,
            seq![profile_id],
        ),
{
    let params: [u8; 1] = [profile_id];
    proof {
        assert(params@ =~= seq![profile_id]);
    }
    build_command(DEVICE_ID_MOUSE, 0x13, CATEGORY_LIGHTING, OP_GET_DPI_COLORS, params.as_slice())
}

/// The firmware query for the mouse (`DEVICE_ID_MOUSE`) or the dongle
/// (`DEVICE_ID_DONGLE`); it carries no category byte.
pub fn firmware_version_request(device_id: u8) -> (cmd: [u8; 64])
    ensures
        cmd@ == command_packet(device_id, 0x10, 0, OP_GET_FIRMWARE_VERSION, seq![]),
{
    let params: [u8; 0] = [];
    build_command(device_id, 0x10, 0, OP_GET_FIRMWARE_VERSION, params.as_slice())
}

/// The debounce-time query for a profile; it carries no category byte.
pub fn debounce_time_request(profile_id: u8) -> (cmd: [u8; 64])
    ensures
        cmd@ == command_packet(DEVICE_ID_MOUSE, 0x02, 0, OP_GET_DEBOUNCE, seq![profile_id]),
{
    let params: [u8; 1] = [profile_id];
    proof {
        assert(params@ =~= seq![profile_id]);
    }
    build_command(DEVICE_ID_MOUSE, 0x02, 0, OP_GET_DEBOUNCE, params.as_slice())
}

/// The lift-off distance query for a profile.
pub fn lod_request(profile_id: u8) -> (cmd: [u8; 64])
    ensures
        cmd@ == config_query(OP_GET_LOD, profile_id),
{
    config_request(OP_GET_LOD, profile_id)
}

/// The motion-sync query for a profile.
pub fn motion_sync_request(profile_id: u8) -> (cmd: [u8; 64])
    ensures
        cmd@ == config_query(OP_GET_MOTION_SYNC, profile_id),
{
    config_request(OP_GET_MOTION_SYNC, profile_id)
}

/// The angle-snap query for a profile.
pub fn angle_snap_request(profile_id: u8) -> (cmd: [u8; 64])
    ensures
        cmd@ == config_query(OP_GET_ANGLE_SNAP, profile_id),
{
    config_request(OP_GET_ANGLE_SNAP, profile_id)
}

/// The angle-tune query for a profile.
pub fn angle_tune_request(profile_id: u8) -> (cmd: [u8; 64])
    ensures
        cmd@ == config_query(OP_GET_ANGLE_TUNE, profile_id),
{
    config_request(OP_GET_ANGLE_TUNE, profile_id)
}

/// The 20K FPS (tracking mode) query for a profile.
pub fn extreme_20k_fps_request(profile_id: u8) -> (cmd: [u8; 64])
    ensures
        cmd@ == config_query(OP_GET_TRACKING_MODE, profile_id),
{
    config_request(OP_GET_TRACKING_MODE, profile_id)
}

/// The ripple-control query for a profile.
pub fn ripple_control_request(profile_id: u8) -> (cmd: [u8; 64])
    ensures
        cmd@ == config_query(OP_GET_RIPPLE_CONTROL, profile_id),
{
    config_request(OP_GET_RIPPLE_CONTROL, profile_id)
}

/// The performance-mode (hyper mode) query for a profile.
pub fn performance_mode_request(profile_id: u8) -> (cmd: [u8; 64])
    ensures
        cmd@ == config_query(OP_GET_HYPER_MODE, profile_id),
{
    config_request(OP_GET_HYPER_MODE, profile_id)
}

/// The command that makes `profile_id` (1-based) the active profile; it
/// carries no category byte.
pub fn set_profile_request(profile_id: u8) -> (cmd: [u8; 64])
    ensures
        cmd@ == command_packet(DEVICE_ID_MOUSE, 0x01, 0, OP_SET_PROFILE, seq![profile_id]),
{
    let params: [u8; 1] = [profile_id];
    proof {
        assert(params@ =~= seq![profile_id]);
    }
    build_command(DEVICE_ID_MOUSE, 0x01, 0, OP_SET_PROFILE, params.as_slice())
}

/// The command that makes `stage` (1-based) the active DPI stage of a profile.
pub fn set_dpi_stage_request(profile_id: u8, stage: u8) -> (cmd: [u8; 64])
    ensures
        cmd@ == command_packet(
            DEVICE_ID_MOUSE,
            0x02,
            CATEGORY_CONFIG,
            OP_SET_ACTIVE_DPI,
            seq![profile_id, stage],
        ),
{
    let params: [u8; 2] = [profile_id, stage];
    proof {
        assert(params@ =~= seq![profile_id, stage]);
    }
    build_command(DEVICE_ID_MOUSE, 0x02, CATEGORY_CONFIG, OP_SET_ACTIVE_DPI, params.as_slice())
}

// ============================================================================
// Responses
// ============================================================================

/// `res` holds, as a vector, the sequence or the error of `expected`.
pub open spec fn matches_seq_result<T>(
    res: Result<Vec<T>, DeviceError>,
    expected: Result<Seq<T>, DeviceError>,
) -> bool {
    match res {
        Ok(v) => expected == Ok::<Seq<T>, DeviceError>(v@),
        Err(e) => expected == Err::<Seq<T>, DeviceError>(e),
    }
}

/// The one-byte setting at byte 8 of a valid response.
pub open spec fn setting_byte(r: Seq<u8>) -> Result<u8, DeviceError> {
    when_valid(r, response_byte(r, 8))
}

/// The current profile (1-based) of a profile response. A zero profile is
/// what the dongle reports while the mouse is not answering.
pub open spec fn profile_reading(r: Seq<u8>) -> Result<u8, DeviceError> {
    when_valid(
        r,
        match response_byte(r, 7) {
            Ok(p) => if p == 0 {
                Err(DeviceError::NotResponding(MouseNotResponding))
            } else {
                Ok(p)
            },
            Err(e) => Err(e),
        },
    )
}

/// Decode the current profile ID (1-based, typically 1-5).
pub fn parse_profile(response: &[u8]) -> (res: Result<u8, DeviceError>)
    ensures
        res == profile_reading(response@),
{
    validate_response(response)?;
    // Response: [0]=RptID, [1]=Marker, [2]=?, [3]=DevID, [4]=Len, [5]=Cat, [6]=Opcode, [7]=Profile
    let profile = get_response_byte(response, 7)?;
    if profile == 0 {
        return Err(DeviceError::NotResponding(MouseNotResponding));
    }
    Ok(profile)
}

/// The battery state of a battery response: byte 7 is the charging flag and
/// byte 8 the percentage. A flat, non-charging reading is what the dongle
/// reports while the mouse is not answering.
pub open spec fn battery_reading(r: Seq<u8>) -> Result<BatteryStatus, DeviceError> {
    when_valid(
        r,
        if r.len() <= 8 {
            Err(DeviceError::ResponseTooShort { index: 8, len: r.len() as usize })
        } else if r[8] == 0 && r[7] == 0 {
            Err(DeviceError::NotResponding(MouseNotResponding))
        } else {
            Ok(BatteryStatus { percentage: r[8], charging: r[7] != 0 })
        },
    )
}

/// Decode the battery status (percentage and charging state).
pub fn parse_battery(response: &[u8]) -> (res: Result<BatteryStatus, DeviceError>)
    ensures
        res == battery_reading(response@),
{
    validate_response(response)?;
    // Response: [0]=RptID, [1]=Marker, [2]=?, [3]=DevID, [4]=Len, [5]=Cat, [6]=Opcode, [7]=Charging, [8]=Percentage
    let percentage = get_response_byte(response, 8)?;
    let charging = get_response_byte(response, 7)?;
    if percentage == 0 && charging == 0 {
        return Err(DeviceError::NotResponding(MouseNotResponding));
    }
    Ok(BatteryStatus { percentage, charging: charging != 0 })
}

/// The polling rate in Hz of a polling-rate response (raw value at byte 8).
pub open spec fn polling_rate_reading(r: Seq<u8>) -> Result<u16, DeviceError> {
    match setting_byte(r) {
        Ok(b) => Ok(polling_rate_hz(b)),
        Err(e) => Err(e),
    }
}

/// Decode the polling rate in Hz.
pub fn parse_polling_rate(response: &[u8]) -> (res: Result<u16, DeviceError>)
    ensures
        res == polling_rate_reading(response@),
{
    validate_response(response)?;
    // Response: [0]=RptID, [1]=Marker, [2]=?, [3]=DevID, [4]=Len, [5]=Cat, [6]=Opcode, [7]=Profile, [8]=Rate
    let raw = get_response_byte(response, 8)?;
    Ok(polling_rate_to_hz(raw))
}

/// Decode a one-byte setting at byte 8: the active DPI stage (1-based) or the
/// debounce time in milliseconds.
pub fn parse_setting_byte(response: &[u8]) -> (res: Result<u8, DeviceError>)
    ensures
        res == setting_byte(response@),
{
    validate_response(response)?;
    get_response_byte(response, 8)
}

/// An on/off setting: on when byte 8 is 1.
pub open spec fn flag_reading(r: Seq<u8>) -> Result<bool, DeviceError> {
    match setting_byte(r) {
        Ok(b) => Ok(b == 1),
        Err(e) => Err(e),
    }
}

/// Decode an on/off setting (motion sync, angle snap, 20K FPS, ripple control).
pub fn parse_flag(response: &[u8]) -> (res: Result<bool, DeviceError>)
    ensures
        res == flag_reading(response@),
{
    validate_response(response)?;
    Ok(get_response_byte(response, 8)? == 1)
}

/// The lift-off distance in tenths of a millimetre encoded by a raw value:
/// with bit 7 set the low seven bits count tenths, otherwise the value counts
/// whole millimetres.
pub open spec fn lod_tenths(raw: u8) -> u16 {
    if raw >= 0x80 {
        (raw - 0x80) as u16
    } else {
        (raw * 10) as u16
    }
}

/// The lift-off distance of a LOD response (raw value at byte 8).
pub open spec fn lod_reading(r: Seq<u8>) -> Result<u16, DeviceError> {
    match setting_byte(r) {
        Ok(b) => Ok(lod_tenths(b)),
        Err(e) => Err(e),
    }
}

/// Decode the lift-off distance, in tenths of a millimetre.
pub fn parse_lod(response: &[u8]) -> (res: Result<u16, DeviceError>)
    ensures
        res == lod_reading(response@),
{
    validate_response(response)?;
    // Decode LOD value - if bit 7 is set, value is in 0.1mm units
    let raw = get_response_byte(response, 8)?;
    let tenths: u16 = if raw & 0x80 != 0 {
        assert(raw & 0x80 != 0 ==> raw >= 0x80 && raw & 0x7F == raw - 0x80) by (bit_vector);
        (raw & 0x7F) as u16
    } else {
        assert(raw & 0x80 == 0 ==> raw < 0x80) by (bit_vector);
        raw as u16 * 10
    };
    Ok(tenths)
}

/// A byte read as a two's-complement signed value.
pub open spec fn signed_byte(b: u8) -> i8 {
    if b < 128 {
        b as i8
    } else {
        (b - 256) as i8
    }
}

/// The angle tuning value of an angle-tune response (byte 8, signed).
pub open spec fn angle_tune_reading(r: Seq<u8>) -> Result<i8, DeviceError> {
    match setting_byte(r) {
        Ok(b) => Ok(signed_byte(b)),
        Err(e) => Err(e),
    }
}

/// Decode the angle tuning value (-128 to 127).
pub fn parse_angle_tune(response: &[u8]) -> (res: Result<i8, DeviceError>)
    ensures
        res == angle_tune_reading(response@),
{
    validate_response(response)?;
    // Value is stored as unsigned but represents signed
    let b = get_response_byte(response, 8)?;
    let v: i8 = if b < 128 {
        b as i8
    } else {
        (b as i16 - 256) as i8
    };
    Ok(v)
}

/// The performance mode of a hyper-mode response: Competition when byte 8
/// is 1, High-Speed otherwise.
pub open spec fn performance_mode_reading(r: Seq<u8>) -> Result<PerformanceMode, DeviceError> {
    match setting_byte(r) {
        Ok(b) => Ok(
            if b == 1 {
                PerformanceMode::Competition
            } else {
                PerformanceMode::HighSpeed
            },
        ),
        Err(e) => Err(e),
    }
}

/// Decode the performance mode.
pub fn parse_performance_mode(response: &[u8]) -> (res: Result<PerformanceMode, DeviceError>)
    ensures
        res == performance_mode_reading(response@),
{
    validate_response(response)?;
    Ok(
        if get_response_byte(response, 8)? == 1 {
            PerformanceMode::Competition
        } else {
            PerformanceMode::HighSpeed
        },
    )
}

/// A big-endian 16-bit value.
pub open spec fn be_u16(hi: u8, lo: u8) -> u16 {
    (hi * 256 + lo) as u16
}

/// The number of complete 4-byte stage records that fit in a response of
/// `len` bytes, counting from byte 9.
pub open spec fn stage_records(len: int) -> int {
    if len <= 12 {
        0
    } else {
        (len - 9) / 4
    }
}

/// The stage record `i` of a DPI stages response: X then Y, big-endian.
pub open spec fn stage_record(r: Seq<u8>, i: int) -> DpiStage {
    DpiStage {
        x: be_u16(r[9 + 4 * i], r[10 + 4 * i]),
        y: be_u16(r[11 + 4 * i], r[12 + 4 * i]),
    }
}

/// The DPI stages of a DPI stages response: byte 8 gives the number of
/// stages, and as many of them are read as fit in the response.
pub open spec fn dpi_stages_reading(r: Seq<u8>) -> Result<Seq<DpiStage>, DeviceError> {
    match setting_byte(r) {
        Ok(n) => {
            let count = if n < stage_records(r.len() as int) {
                n as int
            } else {
                stage_records(r.len() as int)
            };
            Ok(Seq::new(count as nat, |i: int| stage_record(r, i)))
        },
        Err(e) => Err(e),
    }
}

/// Decode the DPI stages of a profile.
pub fn parse_dpi_stages(response: &[u8]) -> (res: Result<Vec<DpiStage>, DeviceError>)
    ensures
        matches_seq_result(res, dpi_stages_reading(response@)),
{
    validate_response(response)?;
    // DPI data starts at [9]: X_hi, X_lo, Y_hi, Y_lo for each stage
    let num_stages = get_response_byte(response, 8)? as usize;
    let mut stages: Vec<DpiStage> = Vec::new();
    let data_start: usize = 9;
    let len = response.len();
    let ghost r = response@;
    let mut i: usize = 0;
    while i < num_stages
        invariant
            r == response@,
            len == r.len(),
            data_start == 9,
            num_stages <= 255,
            i <= num_stages,
            i <= stage_records(len as int),
            stages@ == Seq::new(i as nat, |k: int| stage_record(r, k)),
        ensures
            i == num_stages || i == stage_records(len as int),
            stages@ == Seq::new(i as nat, |k: int| stage_record(r, k)),
        decreases num_stages - i,
    {
        let offset = data_start + i * 4;
        // Ensure all 4 bytes are available for this stage
        if offset + 3 >= len {
            break;
        }
        let x = response[offset] as u16 * 256 + response[offset + 1] as u16;
        let y = response[offset + 2] as u16 * 256 + response[offset + 3] as u16;
        stages.push(DpiStage { x, y });
        i = i + 1;
        proof {
            assert(stages@ =~= Seq::new(i as nat, |k: int| stage_record(r, k)));
        }
    }
    Ok(stages)
}

/// The number of complete 3-byte colour records that fit in a response of
/// `len` bytes, counting from byte 8.
pub open spec fn color_records(len: int) -> int {
    if len <= 10 {
        0
    } else {
        (len - 8) / 3
    }
}

/// Colour record `i` of a colour response: red, green, blue.
pub open spec fn color_record(r: Seq<u8>, i: int) -> RgbColor {
    RgbColor { r: r[8 + 3 * i], g: r[9 + 3 * i], b: r[10 + 3 * i] }
}

/// The stage colours of a colour response: up to six RGB triplets from byte
/// 8, as many as fit in the response.
pub open spec fn dpi_colors_reading(r: Seq<u8>) -> Result<Seq<RgbColor>, DeviceError> {
    let count = if 6 < color_records(r.len() as int) {
        6
    } else {
        color_records(r.len() as int)
    };
    when_valid(r, Ok(Seq::new(count as nat, |i: int| color_record(r, i))))
}

/// Decode the RGB colour of each DPI stage.
pub fn parse_dpi_colors(response: &[u8]) -> (res: Result<Vec<RgbColor>, DeviceError>)
    ensures
        matches_seq_result(res, dpi_colors_reading(response@)),
{
    validate_response(response)?;
    // Colors start at [8]: R, G, B for each stage
    let mut colors: Vec<RgbColor> = Vec::new();
    let data_start: usize = 8;
    let len = response.len();
    let ghost r = response@;
    let mut i: usize = 0;
    while i < 6
        invariant
            r == response@,
            len == r.len(),
            data_start == 8,
            i <= 6,
            colors@ == Seq::new(
                (if i < color_records(len as int) {
                    i as int
                } else {
                    color_records(len as int)
                }) as nat,
                |k: int| color_record(r, k),
            ),
        decreases 6 - i,
    {
        let offset = data_start + i * 3;
        if offset + 2 < len {
            colors.push(RgbColor { r: response[offset], g: response[offset + 1], b: response[offset + 2] });
        }
        i = i + 1;
        proof {
            assert(colors@ =~= Seq::new(
                (if i < color_records(len as int) {
                    i as int
                } else {
                    color_records(len as int)
                }) as nat,
                |k: int| color_record(r, k),
            ));
        }
    }
    Ok(colors)
}

/// Four version bytes from `start`, or the error for the first byte missing.
pub open spec fn version_at(r: Seq<u8>, start: int) -> Result<FirmwareVersion, DeviceError> {
    if r.len() <= start + 3 {
        Err(
            DeviceError::ResponseTooShort {
                index: (if r.len() < start {
                    start
                } else {
                    r.len() as int
                }) as usize,
                len: r.len() as usize,
            },
        )
    } else {
        Ok(FirmwareVersion { major: r[start], minor: r[start + 1], patch: r[start + 2], build: r[start + 3] })
    }
}

/// The version fields of a firmware response. With the opcode echo at byte 6
/// the version follows at 7-10; with the echo at byte 5 (the older layout) it
/// follows at 6-9; otherwise 7-10 are read.
pub open spec fn firmware_fields(r: Seq<u8>) -> Result<FirmwareVersion, DeviceError> {
    match response_byte(r, 6) {
        Ok(b6) => if b6 == OP_GET_FIRMWARE_VERSION {
            version_at(r, 7)
        } else if r[5] == OP_GET_FIRMWARE_VERSION {
            version_at(r, 6)
        } else {
            version_at(r, 7)
        },
        Err(e) => Err(e),
    }
}

/// The firmware version of a firmware response for `device_id`. The mouse
/// reporting 0.0.0.0 is the dongle answering for an absent mouse.
pub open spec fn firmware_reading(r: Seq<u8>, device_id: u8) -> Result<FirmwareVersion, DeviceError> {
    when_valid(
        r,
        match firmware_fields(r) {
            Ok(v) => if device_id == DEVICE_ID_MOUSE && v == (FirmwareVersion {
                major: 0,
                minor: 0,
                patch: 0,
                build: 0,
            }) {
                Err(DeviceError::NotResponding(MouseNotResponding))
            } else {
                Ok(v)
            },
            Err(e) => Err(e),
        },
    )
}

fn read_version(response: &[u8], start: usize) -> (res: Result<FirmwareVersion, DeviceError>)
    requires
        start <= 7,
    ensures
        res == version_at(response@, start as int),
{
    let major = get_response_byte(response, start)?;
    let minor = get_response_byte(response, start + 1)?;
    let patch = get_response_byte(response, start + 2)?;
    let build = get_response_byte(response, start + 3)?;
    Ok(FirmwareVersion { major, minor, patch, build })
}

/// Decode the firmware version reported for `device_id`.
pub fn parse_firmware_version(response: &[u8], device_id: u8) -> (res: Result<
    FirmwareVersion,
    DeviceError,
>)
    ensures
        res == firmware_reading(response@, device_id),
{
    validate_response(response)?;
    // Protocol detection from Lamzu source:
    // - response[6] == 0x81 -> new protocol (data at byte 7+)
    // - response[5] == 0x81 -> old protocol (data at byte 6+)
    let version = if get_response_byte(response, 6)? == OP_GET_FIRMWARE_VERSION {
        read_version(response, 7)?
    } else if get_response_byte(response, 5)? == OP_GET_FIRMWARE_VERSION {
        read_version(response, 6)?
    } else {
        // Unknown format, try new protocol positions
        read_version(response, 7)?
    };
    if device_id == DEVICE_ID_MOUSE && version.major == 0 && version.minor == 0 && version.patch == 0
        && version.build == 0 {
        return Err(DeviceError::NotResponding(MouseNotResponding));
    }
    Ok(version)
}

/// The DPI stage that `active_stage` (1-based) designates.
pub open spec fn stage_lookup(stages: Seq<DpiStage>, active_stage: u8) -> Result<DpiStage, DeviceError> {
    if 1 <= active_stage <= stages.len() {
        Ok(stages[active_stage - 1])
    } else {
        Err(DeviceError::StageNotFound { stage: active_stage })
    }
}

/// The current DPI value: the active stage (1-based) among the stages of the
/// active profile.
pub fn current_dpi(stages: &Vec<DpiStage>, active_stage: u8) -> (res: Result<DpiStage, DeviceError>)
    ensures
        res == stage_lookup(stages@, active_stage),
{
    if active_stage >= 1 && (active_stage as usize) <= stages.len() {
        Ok(stages[active_stage as usize - 1])
    } else {
        Err(DeviceError::StageNotFound { stage: active_stage })
    }
}

// ============================================================================
// Laws
// ============================================================================

/// A response without a valid marker (0xA0-0xAF at byte 1) is rejected by
/// every reading with the marker error, whatever else it holds.
pub proof fn invalid_marker_rejected(r: Seq<u8>, device_id: u8)
    requires
        !marker_valid(response_marker(r)),
    ensures
        ({
            let e = DeviceError::ErrorResponse { marker: response_marker(r) };
            &&& profile_reading(r) == Err::<u8, DeviceError>(e)
            &&& battery_reading(r) == Err::<BatteryStatus, DeviceError>(e)
            &&& polling_rate_reading(r) == Err::<u16, DeviceError>(e)
            &&& setting_byte(r) == Err::<u8, DeviceError>(e)
            &&& flag_reading(r) == Err::<bool, DeviceError>(e)
            &&& lod_reading(r) == Err::<u16, DeviceError>(e)
            &&& angle_tune_reading(r) == Err::<i8, DeviceError>(e)
            &&& performance_mode_reading(r) == Err::<PerformanceMode, DeviceError>(e)
            &&& dpi_stages_reading(r) == Err::<Seq<DpiStage>, DeviceError>(e)
            &&& dpi_colors_reading(r) == Err::<Seq<RgbColor>, DeviceError>(e)
            &&& firmware_reading(r, device_id) == Err::<FirmwareVersion, DeviceError>(e)
        }),
{
}

/// The zeros that the dongle reports for an absent mouse never pass as
/// data: a profile read is at least 1, a battery read is not a flat
/// non-charging battery, and the mouse firmware is not 0.0.0.0.
pub proof fn absent_mouse_never_read(r: Seq<u8>)
    ensures
        profile_reading(r) matches Ok(p) ==> p >= 1,
        battery_reading(r) matches Ok(b) ==> b.percentage > 0 || b.charging,
        firmware_reading(r, DEVICE_ID_MOUSE) matches Ok(v) ==> v != (FirmwareVersion {
            major: 0,
            minor: 0,
            patch: 0,
            build: 0,
        }),
{
}

/// Bit 7 of the opcode tells reads from writes: every query this library
/// sends has it set, every setting command has it clear.
pub proof fn opcode_direction(profile_id: u8, stage: u8)
    ensures
        ({
            let reads = seq![
                command_packet(DEVICE_ID_MOUSE, 0x01, CATEGORY_GENERAL, OP_GET_PROFILE, seq![]),
                command_packet(DEVICE_ID_MOUSE, 0x02, CATEGORY_GENERAL, OP_GET_BATTERY, seq![]),
                config_query(OP_GET_POLLING_RATE, profile_id),
                config_query(OP_GET_ACTIVE_DPI, profile_id),
                command_packet(DEVICE_ID_MOUSE, 0x0A, CATEGORY_CONFIG, OP_GET_DPI_STAGES, seq![profile_id, stage]),
                command_packet(DEVICE_ID_MOUSE, 0x13, CATEGORY_LIGHTING, OP_GET_DPI_COLORS, seq![profile_id]),
                command_packet(DEVICE_ID_MOUSE, 0x10, 0, OP_GET_FIRMWARE_VERSION, seq![]),
                command_packet(DEVICE_ID_MOUSE, 0x02, 0, OP_GET_DEBOUNCE, seq![profile_id]),
                config_query(OP_GET_LOD, profile_id),
                config_query(OP_GET_MOTION_SYNC, profile_id),
                config_query(OP_GET_ANGLE_SNAP, profile_id),
                config_query(OP_GET_ANGLE_TUNE, profile_id),
                config_query(OP_GET_TRACKING_MODE, profile_id),
                config_query(OP_GET_RIPPLE_CONTROL, profile_id),
                config_query(OP_GET_HYPER_MODE, profile_id),
            ];
            let writes = seq![
                command_packet(DEVICE_ID_MOUSE, 0x01, 0, OP_SET_PROFILE, seq![profile_id]),
                command_packet(DEVICE_ID_MOUSE, 0x02, CATEGORY_CONFIG, OP_SET_ACTIVE_DPI, seq![profile_id, stage]),
            ];
            &&& forall|i: int| 0 <= i < reads.len() ==> (#[trigger] reads[i])[5] >= 0x80
            &&& forall|i: int| 0 <= i < writes.len() ==> (#[trigger] writes[i])[5] < 0x80
        }),
{
}

/// The lift-off distance encoding round-trips: a distance below 1 mm sent
/// as its tenths with bit 7 set reads back as those tenths; a whole number
/// of millimetres sent as is reads back as ten times as many tenths.
pub proof fn lod_encoding_round_trip(amount: u8)
    requires
        amount < 0x80,
    ensures
        lod_tenths((amount | 0x80) as u8) == amount,
        lod_tenths(amount) == amount * 10,
{
    assert(amount < 0x80 ==> (amount | 0x80) == amount + 0x80) by (bit_vector);
}

/// The angle tuning encoding round-trips: a positive angle is sent as is, a
/// non-positive one as `255 - |angle| + 1` (two's complement); both read back
/// as the angle.
pub proof fn angle_encoding_round_trip(angle: int)
    requires
        -127 <= angle <= 127,
    ensures
        angle > 0 ==> signed_byte(angle as u8) == angle,
        angle <= 0 ==> signed_byte(((255 - (-angle) + 1) % 256) as u8) == angle,
{
}

/// A valid answer (marker 0xA0-0xAF) that holds byte 8 reads as follows:
/// a setting is byte 8; a flag is on exactly when byte 8 is 1; the
/// performance mode is Competition exactly when byte 8 is 1; the lift-off
/// distance is byte 8 in tenths of a millimetre when bit 7 is set, whole
/// millimetres otherwise; the angle is byte 8 as a two's-complement number;
/// the profile is byte 7, where 0 means the mouse is not responding; the
/// battery is byte 8 percent, charging when byte 7 is not 0, where both 0
/// means the mouse is not responding; the polling rate is the rate the raw
/// byte 8 stands for.
pub proof fn valid_response_readings(r: Seq<u8>)
    requires
        r.len() > 8,
        0xA0 <= r[1] <= 0xAF,
    ensures
        setting_byte(r) == Ok::<u8, DeviceError>(r[8]),
        flag_reading(r) == Ok::<bool, DeviceError>(r[8] == 1),
        r[8] == 0 ==> flag_reading(r) == Ok::<bool, DeviceError>(false),
        performance_mode_reading(r) == Ok::<PerformanceMode, DeviceError>(
            if r[8] == 1 {
                PerformanceMode::Competition
            } else {
                PerformanceMode::HighSpeed
            },
        ),
        r[8] >= 0x80 ==> lod_reading(r) == Ok::<u16, DeviceError>((r[8] - 0x80) as u16),
        r[8] < 0x80 ==> lod_reading(r) == Ok::<u16, DeviceError>((r[8] * 10) as u16),
        angle_tune_reading(r) matches Ok(a) && a as int == if r[8] < 128 {
            r[8] as int
        } else {
            r[8] as int - 256
        },
        r[7] == 0 ==> profile_reading(r) == Err::<u8, DeviceError>(
            DeviceError::NotResponding(MouseNotResponding),
        ),
        r[7] != 0 ==> profile_reading(r) == Ok::<u8, DeviceError>(r[7]),
        r[7] == 0 && r[8] == 0 ==> battery_reading(r) == Err::<BatteryStatus, DeviceError>(
            DeviceError::NotResponding(MouseNotResponding),
        ),
        !(r[7] == 0 && r[8] == 0) ==> battery_reading(r) == Ok::<BatteryStatus, DeviceError>(
            BatteryStatus { percentage: r[8], charging: r[7] != 0 },
        ),
        (r[8] == 0x01 || r[8] == 0x10) ==> polling_rate_reading(r) == Ok::<u16, DeviceError>(1000),
        r[8] == 0x02 ==> polling_rate_reading(r) == Ok::<u16, DeviceError>(500),
        r[8] == 0x04 ==> polling_rate_reading(r) == Ok::<u16, DeviceError>(250),
        r[8] == 0x08 ==> polling_rate_reading(r) == Ok::<u16, DeviceError>(125),
        r[8] == 0x20 ==> polling_rate_reading(r) == Ok::<u16, DeviceError>(2000),
        r[8] == 0x40 ==> polling_rate_reading(r) == Ok::<u16, DeviceError>(4000),
        r[8] == 0x80 ==> polling_rate_reading(r) == Ok::<u16, DeviceError>(8000),
        !(r[8] == 0x01 || r[8] == 0x10 || r[8] == 0x02 || r[8] == 0x04 || r[8] == 0x08 || r[8]
            == 0x20 || r[8] == 0x40 || r[8] == 0x80) ==> polling_rate_reading(r) == Ok::<
            u16,
            DeviceError,
        >(r[8] as u16),
{
}

/// The DPI stages of a valid answer: byte 8 gives their number, and stage
/// `i` is the big-endian X value at bytes 9+4i, 10+4i and Y value at bytes
/// 11+4i, 12+4i. Stages are read in order while they are complete, so all of
/// them are read when the answer holds them all.
pub proof fn dpi_stage_records(r: Seq<u8>)
    requires
        r.len() > 8,
        0xA0 <= r[1] <= 0xAF,
    ensures
        dpi_stages_reading(r) matches Ok(v) && {
            &&& v.len() <= r[8]
            &&& forall|i: int|
                0 <= i < v.len() ==> 12 + 4 * i < r.len() && (#[trigger] v[i]).x as int == r[9 + 4
                    * i] as int * 256 + r[10 + 4 * i] as int && v[i].y as int == r[11 + 4 * i] as int
                    * 256 + r[12 + 4 * i] as int
            &&& v.len() == r[8] || 12 + 4 * v.len() >= r.len()
        },
        9 + 4 * r[8] <= r.len() ==> (dpi_stages_reading(r) matches Ok(v) && v.len() == r[8]),
{
    let n = r[8] as int;
    let len = r.len() as int;
    let q = stage_records(len);
    if len > 12 {
        assert(4 * q <= len - 9 < 4 * q + 4);
    }
    let count = if n < q {
        n
    } else {
        q
    };
    let v = Seq::new(count as nat, |i: int| stage_record(r, i));
    assert(dpi_stages_reading(r) == Ok::<Seq<DpiStage>, DeviceError>(v));
    assert forall|i: int| 0 <= i < v.len() implies 12 + 4 * i < r.len() && (#[trigger] v[i]).x as int
        == r[9 + 4 * i] as int * 256 + r[10 + 4 * i] as int && v[i].y as int == r[11 + 4 * i] as int
        * 256 + r[12 + 4 * i] as int by {
        assert(i < q);
        let a = r[9 + 4 * i];
        let b = r[10 + 4 * i];
        let c = r[11 + 4 * i];
        let d = r[12 + 4 * i];
        assert(a * 256 + b <= 0xFFFF);
        assert(c * 256 + d <= 0xFFFF);
    }
    if 9 + 4 * n <= len {
        if n > 0 {
            assert(len > 12);
            assert(n <= q);
        }
    }
}

/// The DPI colours of a valid answer: colour `i` is the red, green and blue
/// bytes at 8+3i, 9+3i, 10+3i, for at most six stages, read in order while
/// they are complete.
pub proof fn dpi_color_records(r: Seq<u8>)
    requires
        r.len() > 1,
        0xA0 <= r[1] <= 0xAF,
    ensures
        dpi_colors_reading(r) matches Ok(v) && {
            &&& v.len() <= 6
            &&& forall|i: int|
                0 <= i < v.len() ==> 10 + 3 * i < r.len() && #[trigger] v[i] == (RgbColor {
                    r: r[8 + 3 * i],
                    g: r[9 + 3 * i],
                    b: r[10 + 3 * i],
                })
            &&& v.len() == 6 || 10 + 3 * v.len() >= r.len()
        },
{
    let len = r.len() as int;
    let q = color_records(len);
    if len > 10 {
        assert(3 * q <= len - 8 < 3 * q + 3);
    }
}

/// The firmware version of a valid answer: with the opcode echoed at byte 6
/// the version is bytes 7-10; with it at byte 5 instead (the older layout),
/// bytes 6-9. For the mouse, an all-zero version means it is not responding.
pub proof fn firmware_layouts(r: Seq<u8>, device_id: u8)
    requires
        r.len() > 10,
        0xA0 <= r[1] <= 0xAF,
    ensures
        ({
            let v = if r[6] != 0x81 && r[5] == 0x81 {
                FirmwareVersion { major: r[6], minor: r[7], patch: r[8], build: r[9] }
            } else {
                FirmwareVersion { major: r[7], minor: r[8], patch: r[9], build: r[10] }
            };
            &&& device_id == DEVICE_ID_MOUSE && v.major == 0 && v.minor == 0 && v.patch == 0
                && v.build == 0 ==> firmware_reading(r, device_id) == Err::<
                FirmwareVersion,
                DeviceError,
            >(DeviceError::NotResponding(MouseNotResponding))
            &&& !(device_id == DEVICE_ID_MOUSE && v.major == 0 && v.minor == 0 && v.patch == 0
                && v.build == 0) ==> firmware_reading(r, device_id) == Ok::<
                FirmwareVersion,
                DeviceError,
            >(v)
        }),
{
}

/// A request packet is 64 bytes: two zero bytes, the device ID, the payload
/// length, the category and the opcode, then the parameters, then zeros.
pub proof fn packet_layout(
    device_id: u8,
    payload_len: u8,
    category: u8,
    opcode: u8,
    params: Seq<u8>,
)
    requires
        params.len() <= 58,
    ensures
        ({
            let p = command_packet(device_id, payload_len, category, opcode, params);
            &&& p.len() == 64
            &&& p[0] == 0 && p[1] == 0
            &&& p[2] == device_id && p[3] == payload_len && p[4] == category && p[5] == opcode
            &&& forall|i: int| 0 <= i < params.len() ==> p[6 + i] == #[trigger] params[i]
            &&& forall|i: int| 6 + params.len() <= i < 64 ==> #[trigger] p[i] == 0
        }),
{
    let p = command_packet(device_id, payload_len, category, opcode, params);
    assert forall|i: int| 0 <= i < params.len() implies p[6 + i] == #[trigger] params[i] by {
        assert(p[6 + i] == params[(6 + i) - 6]);
    }
}

} // verus!
