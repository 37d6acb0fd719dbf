//! Data structures exchanged with a Lamzu mouse.

use vstd::prelude::*;
use vstd::string::StringExecFns;

use crate::text::{decimal, hex2, push_char, push_decimal, push_hex2};

verus! {

/// Default number of profiles on Lamzu mice
pub const DEFAULT_PROFILE_COUNT: u8 = 5;

/// Default number of DPI stages per profile on Lamzu mice
pub const DEFAULT_DPI_STAGE_COUNT: u8 = 6;

/// Error for when the wireless mouse is not answering the dongle.
///
/// The dongle keeps acknowledging HID commands while the mouse is asleep,
/// powered off, or out of range — but every mouse-sourced value reads zero
/// (battery 0%, profile 0, firmware 0.0.0.0). Rather than passing those
/// zeros off as real data, commands fail with this error so callers can tell
/// "mouse asleep" apart from "battery genuinely empty". The CLI maps it to
/// exit code 2.
#[derive(Debug, Clone, Copy, PartialEq, Eq, Structural)]
pub struct MouseNotResponding;

impl MouseNotResponding {
    /// The text shown to the user.
    pub fn to_string(&self) -> (s: String)
        ensures
            s@ == "mouse is not responding (asleep, powered off, or out of range); move it to wake it"@,
    {
        String::from_str(
            "mouse is not responding (asleep, powered off, or out of range); move it to wake it",
        )
    }
}

/// Battery status information
#[derive(Debug, Clone, Copy, PartialEq, Eq, Structural)]
pub struct BatteryStatus {
    /// Battery percentage (0-100)
    pub percentage: u8,
    /// Whether the device is currently charging
    pub charging: bool,
}

/// DPI stage configuration
#[derive(Debug, Clone, Copy, PartialEq, Eq, Structural)]
pub struct DpiStage {
    /// X-axis DPI value
    pub x: u16,
    /// Y-axis DPI value
    pub y: u16,
}

/// RGB color value
#[derive(Debug, Clone, Copy, PartialEq, Eq, Structural)]
pub struct RgbColor {
    /// Red component (0-255)
    pub r: u8,
    /// Green component (0-255)
    pub g: u8,
    /// Blue component (0-255)
    pub b: u8,
}

impl Default for RgbColor {
    fn default() -> (c: RgbColor)
        ensures
            c == (RgbColor { r: 0, g: 0, b: 0 }),
    {
        RgbColor { r: 0, g: 0, b: 0 }
    }
}

/// `#RRGGBB` with upper-case hexadecimal digits.
pub open spec fn hex_color(c: RgbColor) -> Seq<char> {
    seq!['#'] + hex2(c.r) + hex2(c.g) + hex2(c.b)
}

impl RgbColor {
    /// Create a new RGB color
    pub fn new(r: u8, g: u8, b: u8) -> (c: Self)
        ensures
            c == (RgbColor { r, g, b }),
    {
        Self { r, g, b }
    }

    /// Convert to hex string (e.g., "#FF0000")
    pub fn to_hex(&self) -> (s: String)
        ensures
            s@ == hex_color(*self),
    {
        let mut s = String::new();
        push_char(&mut s, '#');
        push_hex2(&mut s, self.r);
        push_hex2(&mut s, self.g);
        push_hex2(&mut s, self.b);
        s
    }

    /// The display form of the color, which is its hex string.
    pub fn to_string(&self) -> (s: String)
        ensures
            s@ == hex_color(*self),
    {
        self.to_hex()
    }
}

/// Performance mode setting (High-Speed vs Competition)
#[derive(Debug, Clone, Copy, PartialEq, Eq, Structural)]
#[non_exhaustive]
pub enum PerformanceMode {
    /// High-Speed Mode - standard performance, lower power consumption
    /// Cannot be used with 2K/4K/8K polling rates
    HighSpeed,
    /// Competition Mode - maximum performance, higher power consumption
    Competition,
}

/// The display name of a performance mode.
pub open spec fn performance_mode_name(m: PerformanceMode) -> Seq<char> {
    match m {
        PerformanceMode::HighSpeed => "High-Speed"@,
        PerformanceMode::Competition => "Competition"@,
    }
}

impl PerformanceMode {
    /// The display name: "High-Speed" or "Competition".
    pub fn to_string(&self) -> (s: String)
        ensures
            s@ == performance_mode_name(*self),
    {
        match self {
            PerformanceMode::HighSpeed => String::from_str("High-Speed"),
            PerformanceMode::Competition => String::from_str("Competition"),
        }
    }
}

/// Firmware version information
#[derive(Debug, Clone, Copy, PartialEq, Eq, Structural)]
pub struct FirmwareVersion {
    pub major: u8,
    pub minor: u8,
    pub patch: u8,
    pub build: u8,
}

/// `major.minor.patch.build` in decimal.
pub open spec fn firmware_text(v: FirmwareVersion) -> Seq<char> {
    decimal(v.major as nat) + seq!['.'] + decimal(v.minor as nat) + seq!['.'] + decimal(
        v.patch as nat,
    ) + seq!['.'] + decimal(v.build as nat)
}

impl FirmwareVersion {
    /// The display form, e.g. "1.2.3.4".
    pub fn to_string(&self) -> (s: String)
        ensures
            s@ == firmware_text(*self),
    {
        let mut s = String::new();
        push_decimal(&mut s, self.major as u128);
        push_char(&mut s, '.');
        push_decimal(&mut s, self.minor as u128);
        push_char(&mut s, '.');
        push_decimal(&mut s, self.patch as u128);
        push_char(&mut s, '.');
        push_decimal(&mut s, self.build as u128);
        s
    }
}

/// Sensor settings that can be queried from the device
#[derive(Debug, Clone, Copy, PartialEq, Eq, Structural)]
pub struct SensorSettings {
    /// Motion sync enabled (synchronizes sensor polling with USB polling)
    pub motion_sync: bool,
    /// Angle snapping enabled (straightens diagonal movements)
    pub angle_snap: bool,
    /// Angle tuning value (-128 to 127, adjusts sensor angle)
    pub angle_tune: i8,
    /// Ripple control enabled (reduces jitter at low speeds)
    pub ripple_control: bool,
    /// Lift-off distance in tenths of a millimetre (how high the mouse can be
    /// lifted before tracking stops); 10 is 1 mm, 5 is 0.5 mm
    pub lod_tenths_mm: u16,
    /// 20K FPS extreme performance mode (requires Competition mode)
    pub extreme_20k_fps: bool,
    /// Performance mode (High-Speed or Competition)
    pub performance_mode: PerformanceMode,
    /// Debounce time in milliseconds
    pub debounce_ms: u8,
}

/// Profile information
#[derive(Debug, Clone)]
pub struct ProfileInfo {
    /// Profile ID (1-based)
    pub id: u8,
    /// Polling rate in Hz
    pub polling_rate: u16,
    /// Active DPI stage (1-based)
    pub active_dpi_stage: u8,
    /// DPI stages configured for this profile
    pub dpi_stages: Vec<DpiStage>,
}

/// A profile is configured when it has a non-zero polling rate and at least
/// one DPI stage.
pub open spec fn profile_configured(p: ProfileInfo) -> bool {
    p.polling_rate > 0 && p.dpi_stages@.len() > 0
}

impl ProfileInfo {
    /// Check if this profile has been configured
    ///
    /// A profile is considered unconfigured if it has 0 Hz polling rate
    /// or no DPI stages defined.
    pub fn is_configured(&self) -> (b: bool)
        ensures
            b == profile_configured(*self),
    {
        self.polling_rate > 0 && self.dpi_stages.len() != 0
    }
}

/// The configured profiles among `all`, in the order they came in.
pub fn configured_profiles(all: Vec<ProfileInfo>) -> (out: Vec<ProfileInfo>)
    ensures
        out@ == all@.filter(|p: ProfileInfo| profile_configured(p)),
{
    let ghost pred = |p: ProfileInfo| profile_configured(p);
    let ghost orig = all@;
    let mut rest = all;
    let mut out: Vec<ProfileInfo> = Vec::new();
    while rest.len() > 0
        invariant
            orig == orig.take(orig.len() - rest@.len()) + rest@,
            rest@.len() <= orig.len(),
            pred == (|p: ProfileInfo| profile_configured(p)),
            out@ == orig.take(orig.len() - rest@.len()).filter(pred),
        decreases rest@.len(),
    {
        let ghost k = orig.len() - rest@.len();
        let p = rest.remove(0);
        proof {
            assert(orig.take(k + 1).drop_last() =~= orig.take(k));
            assert(orig[k] == p);
            assert(orig.take(k + 1).last() == p);
        }
        let ghost gp = p;
        let keep = p.is_configured();
        if keep {
            out.push(p);
        }
        proof {
            reveal_with_fuel(Seq::filter, 1);
            assert(pred(orig.take(k + 1).last()) == keep);
            assert(out@ == orig.take(k + 1).filter(pred));
            assert(orig =~= orig.take(k + 1) + rest@);
        }
    }
    assert(orig.take(orig.len() as int) =~= orig);
    out
}

} // verus!
