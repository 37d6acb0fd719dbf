//! Decisions and texts of the command-line tool.

use vstd::prelude::*;
use vstd::string::StringExecFns;

use crate::text::{decimal, push_char, push_decimal};
use crate::types::{
    firmware_text, BatteryStatus, DpiStage, FirmwareVersion, SensorSettings, DEFAULT_PROFILE_COUNT,
};

verus! {

/// A DPI stage as text: the value when both axes agree, `XxY` otherwise.
pub open spec fn dpi_text(stage: DpiStage) -> Seq<char> {
    if stage.x == stage.y {
        decimal(stage.x as nat)
    } else {
        decimal(stage.x as nat) + seq!['x'] + decimal(stage.y as nat)
    }
}

/// Format DPI value as string
pub fn format_dpi(stage: &DpiStage) -> (s: String)
    ensures
        s@ == dpi_text(*stage),
{
    let mut s = String::new();
    push_decimal(&mut s, stage.x as u128);
    if stage.x != stage.y {
        push_char(&mut s, 'x');
        push_decimal(&mut s, stage.y as u128);
    }
    s
}

/// The texts of `stages`, joined by ", ".
pub open spec fn joined_dpi_texts(stages: Seq<DpiStage>) -> Seq<char>
    decreases stages.len(),
{
    if stages.len() == 0 {
        Seq::empty()
    } else if stages.len() == 1 {
        dpi_text(stages[0])
    } else {
        joined_dpi_texts(stages.drop_last()) + ", "@ + dpi_text(stages.last())
    }
}

/// The configured DPI values of a profile, e.g. "400, 800, 1600x1200".
pub fn dpi_list_text(stages: &Vec<DpiStage>) -> (s: String)
    ensures
        s@ == joined_dpi_texts(stages@),
{
    let mut s = String::new();
    let mut i: usize = 0;
    while i < stages.len()
        invariant
            i <= stages@.len(),
            s@ == joined_dpi_texts(stages@.take(i as int)),
        decreases stages@.len() - i,
    {
        if i != 0 {
            s.append(", ");
        }
        let part = format_dpi(&stages[i]);
        s.append(part.as_str());
        proof {
            assert(stages@.take(i + 1).drop_last() =~= stages@.take(i as int));
            assert(stages@.take(i + 1).last() == stages@[i as int]);
            if i == 0 {
                assert(stages@.take(1) =~= seq![stages@[0]]);
            }
        }
        i = i + 1;
    }
    assert(stages@.take(stages@.len() as int) =~= stages@);
    s
}

/// The stage (1-based) that `value` picks: a number from 1 to the stage
/// count (counted in 16 bits) is a stage number; anything else is a DPI
/// value, which picks the first stage set to it on both axes. Stage numbers
/// are kept as bytes.
pub open spec fn picked_stage(stages: Seq<DpiStage>, value: u16) -> Option<u8> {
    let max_stage = stages.len() % 0x10000;
    if 1 <= value <= max_stage {
        Some((value % 256) as u8)
    } else if exists|i: int| 0 <= i < stages.len() && (#[trigger] stages[i]).x == value && stages[i].y == value {
        let i = choose|i: int|
            0 <= i < stages.len() && (#[trigger] stages[i]).x == value && stages[i].y == value
                && forall|j: int| 0 <= j < i ==> !((#[trigger] stages[j]).x == value && stages[j].y == value);
        Some(((i + 1) % 256) as u8)
    } else {
        None
    }
}

/// Resolve a stage number or a configured DPI value to a stage (1-based).
/// The device only switches between preset stages, so a DPI value has to
/// already be on a stage.
pub fn resolve_dpi_stage(stages: &Vec<DpiStage>, value: u16) -> (stage: Option<u8>)
    ensures
        stage == picked_stage(stages@, value),
{
    let max_stage = (stages.len() % 0x10000) as u16;
    if value >= 1 && value <= max_stage {
        return Some((value % 256) as u8);
    }
    let mut i: usize = 0;
    while i < stages.len()
        invariant
            i <= stages@.len(),
            !(1 <= value <= stages@.len() % 0x10000),
            forall|j: int| 0 <= j < i ==> !((#[trigger] stages@[j]).x == value && stages@[j].y == value),
        decreases stages@.len() - i,
    {
        if stages[i].x == value && stages[i].y == value {
            proof {
                let w = choose|w: int|
                    0 <= w < stages@.len() && (#[trigger] stages@[w]).x == value && stages@[w].y == value
                        && forall|j: int|
                        0 <= j < w ==> !((#[trigger] stages@[j]).x == value && stages@[j].y == value);
                assert(stages@[i as int].x == value);
                if w < i {
                } else if w > i {
                    assert(!(stages@[i as int].x == value && stages@[i as int].y == value));
                }
            }
            return Some(((i + 1) % 256) as u8);
        }
        i = i + 1;
    }
    None
}

/// The message for a DPI value that no stage has.
pub open spec fn no_dpi_stage_text(value: u16, profile: u8, stages: Seq<DpiStage>) -> Seq<char> {
    "No DPI stage set to "@ + decimal(value as nat) + " in profile "@ + decimal(profile as nat)
        + ". Valid stages are 1-"@ + decimal((stages.len() % 0x10000) as nat)
        + "; configured DPI values are: "@ + joined_dpi_texts(stages)
}

pub fn no_dpi_stage_message(value: u16, profile: u8, stages: &Vec<DpiStage>) -> (s: String)
    ensures
        s@ == no_dpi_stage_text(value, profile, stages@),
{
    let mut s = String::from_str("No DPI stage set to ");
    push_decimal(&mut s, value as u128);
    s.append(" in profile ");
    push_decimal(&mut s, profile as u128);
    s.append(". Valid stages are 1-");
    push_decimal(&mut s, (stages.len() % 0x10000) as u128);
    s.append("; configured DPI values are: ");
    let list = dpi_list_text(stages);
    s.append(list.as_str());
    s
}

/// The confirmation after switching stage: with the stage's DPI when the
/// stage (1-based) is listed.
pub open spec fn dpi_set_text(stages: Seq<DpiStage>, stage: u8) -> Seq<char> {
    if 1 <= stage <= stages.len() {
        let dpi = stages[stage - 1];
        "DPI stage set to "@ + decimal(stage as nat) + " ("@ + dpi_text(dpi) + " DPI)"@
    } else {
        "DPI stage set to "@ + decimal(stage as nat)
    }
}

pub fn dpi_set_message(stages: &Vec<DpiStage>, stage: u8) -> (s: String)
    ensures
        s@ == dpi_set_text(stages@, stage),
{
    let mut s = String::from_str("DPI stage set to ");
    push_decimal(&mut s, stage as u128);
    if stage >= 1 && (stage as usize) <= stages.len() {
        s.append(" (");
        let dpi = format_dpi(&stages[stage as usize - 1]);
        s.append(dpi.as_str());
        s.append(" DPI)");
    }
    s
}

/// A profile number the tool accepts: 1 to the profile count.
pub fn valid_profile_id(id: u8) -> (b: bool)
    ensures
        b == (1 <= id <= DEFAULT_PROFILE_COUNT),
{
    id >= 1 && id <= DEFAULT_PROFILE_COUNT
}

/// The battery as the tool prints it: "85%" or "85% (charging)".
pub open spec fn battery_text(b: BatteryStatus) -> Seq<char> {
    decimal(b.percentage as nat) + seq!['%'] + if b.charging {
        " (charging)"@
    } else {
        Seq::empty()
    }
}

pub fn battery_message(b: &BatteryStatus) -> (s: String)
    ensures
        s@ == battery_text(*b),
{
    let mut s = String::new();
    push_decimal(&mut s, b.percentage as u128);
    push_char(&mut s, '%');
    if b.charging {
        s.append(" (charging)");
    }
    s
}

/// How a command of the tool ended.
#[derive(Debug, Clone, Copy, PartialEq, Eq, Structural)]
pub enum CommandOutcome {
    /// It succeeded.
    Success,
    /// The wireless mouse is not answering the dongle.
    MouseNotResponding,
    /// It failed otherwise.
    Failure,
}

/// The exit code of the tool: 0 on success, 2 when the mouse is not
/// responding, 1 on any other error.
pub fn exit_code(outcome: CommandOutcome) -> (code: i32)
    ensures
        code == match outcome {
            CommandOutcome::Success => 0i32,
            CommandOutcome::MouseNotResponding => 2i32,
            CommandOutcome::Failure => 1i32,
        },
{
    match outcome {
        CommandOutcome::Success => 0,
        CommandOutcome::MouseNotResponding => 2,
        CommandOutcome::Failure => 1,
    }
}

/// A row of the sensor table of the `info` command.
#[derive(Debug, Clone, Copy, PartialEq, Eq, Structural)]
pub enum SensorRow {
    Lod,
    MotionSync,
    AngleSnap,
    AngleTune,
    Performance,
    Extreme20kFps,
    Debounce,
}

/// The rows the `info` command shows: the angle tuning only when it is not
/// zero, the 20K FPS mode only when it is on.
pub open spec fn info_sensor_row_list(s: SensorSettings) -> Seq<SensorRow> {
    seq![SensorRow::Lod, SensorRow::MotionSync, SensorRow::AngleSnap] + (if s.angle_tune != 0 {
        seq![SensorRow::AngleTune]
    } else {
        Seq::empty()
    }) + seq![SensorRow::Performance] + (if s.extreme_20k_fps {
        seq![SensorRow::Extreme20kFps]
    } else {
        Seq::empty()
    }) + seq![SensorRow::Debounce]
}

/// The sensor rows of the `info` command, in order.
pub fn info_sensor_rows(s: &SensorSettings) -> (rows: Vec<SensorRow>)
    ensures
        rows@ == info_sensor_row_list(*s),
{
    let mut rows: Vec<SensorRow> = Vec::new();
    rows.push(SensorRow::Lod);
    rows.push(SensorRow::MotionSync);
    rows.push(SensorRow::AngleSnap);
    if s.angle_tune != 0 {
        rows.push(SensorRow::AngleTune);
    }
    rows.push(SensorRow::Performance);
    if s.extreme_20k_fps {
        rows.push(SensorRow::Extreme20kFps);
    }
    rows.push(SensorRow::Debounce);
    proof {
        assert(rows@ =~= info_sensor_row_list(*s));
    }
    rows
}

/// The position of the current profile among the configured ones, as the
/// `info` command shows it: "N of M".
pub open spec fn profile_position_text(profile: u8, configured: nat) -> Seq<char> {
    decimal(profile as nat) + " of "@ + decimal(configured)
}

pub fn profile_position(profile: u8, configured: usize) -> (s: String)
    ensures
        s@ == profile_position_text(profile, configured as nat),
{
    let mut s = String::new();
    push_decimal(&mut s, profile as u128);
    s.append(" of ");
    push_decimal(&mut s, configured as u128);
    s
}

/// The firmware line of the `info` command: the mouse's version, then the
/// dongle's.
pub open spec fn firmware_pair_text(mouse: FirmwareVersion, dongle: FirmwareVersion) -> Seq<char> {
    firmware_text(mouse) + " (dongle "@ + firmware_text(dongle) + ")"@
}

pub fn firmware_pair(mouse: &FirmwareVersion, dongle: &FirmwareVersion) -> (s: String)
    ensures
        s@ == firmware_pair_text(*mouse, *dongle),
{
    let mut s = mouse.to_string();
    s.append(" (dongle ");
    let d = dongle.to_string();
    s.append(d.as_str());
    s.append(")");
    s
}

/// The sensor table of `info` always starts with the lift-off distance and
/// ends with the debounce time, always shows motion sync, angle snap and the
/// performance mode, shows the angle tuning exactly when it is not zero, and
/// the 20K FPS mode exactly when it is on; each row appears at most once.
pub proof fn info_sensor_rows_law(s: SensorSettings)
    ensures
        ({
            let rows = info_sensor_row_list(s);
            &&& rows[0] == SensorRow::Lod
            &&& rows.last() == SensorRow::Debounce
            &&& rows.contains(SensorRow::MotionSync)
            &&& rows.contains(SensorRow::AngleSnap)
            &&& rows.contains(SensorRow::Performance)
            &&& rows.contains(SensorRow::AngleTune) <==> s.angle_tune != 0
            &&& rows.contains(SensorRow::Extreme20kFps) <==> s.extreme_20k_fps
            &&& rows.len() == 5 + (if s.angle_tune != 0 {
                1int
            } else {
                0int
            }) + (if s.extreme_20k_fps {
                1int
            } else {
                0int
            })
            &&& forall|i: int, j: int| 0 <= i < j < rows.len() ==> rows[i] != rows[j]
        }),
{
    let rows = info_sensor_row_list(s);
    let a = s.angle_tune != 0;
    let e = s.extreme_20k_fps;
    if a && e {
        assert(rows =~= seq![SensorRow::Lod, SensorRow::MotionSync, SensorRow::AngleSnap, SensorRow::AngleTune, SensorRow::Performance, SensorRow::Extreme20kFps, SensorRow::Debounce]);
    } else if a {
        assert(rows =~= seq![SensorRow::Lod, SensorRow::MotionSync, SensorRow::AngleSnap, SensorRow::AngleTune, SensorRow::Performance, SensorRow::Debounce]);
    } else if e {
        assert(rows =~= seq![SensorRow::Lod, SensorRow::MotionSync, SensorRow::AngleSnap, SensorRow::Performance, SensorRow::Extreme20kFps, SensorRow::Debounce]);
    } else {
        assert(rows =~= seq![SensorRow::Lod, SensorRow::MotionSync, SensorRow::AngleSnap, SensorRow::Performance, SensorRow::Debounce]);
    }
    assert(rows.contains(SensorRow::MotionSync) && rows.contains(SensorRow::AngleSnap)
        && rows.contains(SensorRow::Performance)) by {
        assert(rows[1] == SensorRow::MotionSync);
        assert(rows[2] == SensorRow::AngleSnap);
    }
    if a {
        assert(rows[3] == SensorRow::AngleTune);
    }
    if e {
        assert(rows[rows.len() - 2] == SensorRow::Extreme20kFps);
    }
    if a {
        assert(rows[4] == SensorRow::Performance);
    } else {
        assert(rows[3] == SensorRow::Performance);
    }
}

/// Stage `i` is set to `value` on both axes.
pub open spec fn stage_set_to(stages: Seq<DpiStage>, value: u16, i: int) -> bool {
    0 <= i < stages.len() && stages[i].x == value && stages[i].y == value
}

proof fn lemma_first_stage_set_to(stages: Seq<DpiStage>, value: u16, i: int)
    requires
        stage_set_to(stages, value, i),
    ensures
        exists|w: int|
            stage_set_to(stages, value, w) && forall|j: int|
                0 <= j < w ==> !((#[trigger] stages[j]).x == value && stages[j].y == value),
    decreases i,
{
    if exists|j: int| 0 <= j < i && stage_set_to(stages, value, j) {
        let j = choose|j: int| 0 <= j < i && stage_set_to(stages, value, j);
        lemma_first_stage_set_to(stages, value, j);
    } else {
        assert forall|j: int| 0 <= j < i implies !((#[trigger] stages[j]).x == value
            && stages[j].y == value) by {
            assert(!stage_set_to(stages, value, j));
        }
    }
}

/// A number from 1 to the stage count picks that stage; any other number is
/// a DPI value and picks the first stage set to it on both axes, or nothing
/// when no stage is. (Stage numbers are bytes, so the law is stated for
/// fewer than 256 stages.)
pub proof fn dpi_resolution_law(stages: Seq<DpiStage>, value: u16)
    requires
        stages.len() < 256,
    ensures
        1 <= value <= stages.len() ==> picked_stage(stages, value) == Some(value as u8),
        !(1 <= value <= stages.len()) ==> match picked_stage(stages, value) {
            Some(k) => 1 <= k <= stages.len() && stages[k - 1].x == value && stages[k - 1].y
                == value && forall|j: int|
                0 <= j < k - 1 ==> !((#[trigger] stages[j]).x == value && stages[j].y == value),
            None => forall|j: int|
                0 <= j < stages.len() ==> !((#[trigger] stages[j]).x == value && stages[j].y == value),
        },
{
    assert(stages.len() % 0x10000 == stages.len());
    if !(1 <= value <= stages.len()) && exists|i: int|
        0 <= i < stages.len() && (#[trigger] stages[i]).x == value && stages[i].y == value {
        let i = choose|i: int|
            0 <= i < stages.len() && (#[trigger] stages[i]).x == value && stages[i].y == value;
        assert(stage_set_to(stages, value, i));
        lemma_first_stage_set_to(stages, value, i);
        let w = choose|w: int|
            0 <= w < stages.len() && (#[trigger] stages[w]).x == value && stages[w].y == value
                && forall|j: int| 0 <= j < w ==> !((#[trigger] stages[j]).x == value && stages[j].y == value);
        assert(((w + 1) % 256) == w + 1);
    }
}

} // verus!
