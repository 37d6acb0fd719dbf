//! Presentation helpers of the desktop window.

use vstd::prelude::*;
use vstd::string::StringExecFns;

use crate::text::{chars_of, decimal, push_char, push_decimal};
use crate::types::DpiStage;

verus! {

/// The polling rate as the window shows it: an em dash for no reading,
/// `N Hz (kK)` from 1000 Hz up, `N Hz` below.
pub open spec fn polling_rate_text(hz: u16) -> Seq<char> {
    if hz == 0 {
        "\u{2014}"@
    } else if hz >= 1000 {
        decimal(hz as nat) + " Hz ("@ + decimal((hz / 1000) as nat) + "K)"@
    } else {
        decimal(hz as nat) + " Hz"@
    }
}

pub fn polling_rate_label(hz: u16) -> (s: String)
    ensures
        s@ == polling_rate_text(hz),
{
    if hz == 0 {
        String::from_str("\u{2014}")
    } else if hz >= 1000 {
        let mut s = String::new();
        push_decimal(&mut s, hz as u128);
        s.append(" Hz (");
        push_decimal(&mut s, (hz / 1000) as u128);
        s.append("K)");
        s
    } else {
        let mut s = String::new();
        push_decimal(&mut s, hz as u128);
        s.append(" Hz");
        s
    }
}

/// A text cut to `max` characters, with an ellipsis when it was longer.
pub open spec fn truncated(s: Seq<char>, max: nat) -> Seq<char> {
    if s.len() <= max {
        s
    } else {
        s.take(max as int).push('\u{2026}')
    }
}

pub fn truncate(s: &str, max: usize) -> (t: String)
    ensures
        t@ == truncated(s@, max as nat),
{
    let chars = chars_of(s);
    if chars.len() <= max {
        String::from_str(s)
    } else {
        let mut t = String::new();
        let mut i: usize = 0;
        while i < max
            invariant
                chars@ == s@,
                max < chars@.len(),
                i <= max,
                t@ == s@.take(i as int),
            decreases max - i,
        {
            push_char(&mut t, chars[i]);
            i = i + 1;
            proof {
                assert(t@ =~= s@.take(i as int));
            }
        }
        push_char(&mut t, '\u{2026}');
        t
    }
}

/// The index in the profile list of the current profile (1-based), if the
/// list holds it.
pub open spec fn profile_index(current_profile: u8, profile_count: nat) -> Option<usize> {
    if current_profile == 0 || current_profile - 1 >= profile_count {
        None
    } else {
        Some((current_profile - 1) as usize)
    }
}

pub fn active_profile_index(current_profile: u8, profile_count: usize) -> (idx: Option<usize>)
    ensures
        idx == profile_index(current_profile, profile_count as nat),
{
    if current_profile == 0 {
        return None;
    }
    let idx = (current_profile - 1) as usize;
    if idx < profile_count {
        Some(idx)
    } else {
        None
    }
}

/// How the battery gauge is filled.
#[derive(Debug, Clone, Copy, PartialEq, Eq, Structural)]
pub enum GaugeColor {
    /// Green, while charging.
    Charging,
    /// The accent colour, below 20%.
    Low,
    /// The text colour.
    Normal,
}

pub fn battery_gauge_color(percentage: u8, charging: bool) -> (c: GaugeColor)
    ensures
        c == (if charging {
            GaugeColor::Charging
        } else if percentage < 20 {
            GaugeColor::Low
        } else {
            GaugeColor::Normal
        }),
{
    if charging {
        GaugeColor::Charging
    } else if percentage < 20 {
        GaugeColor::Low
    } else {
        GaugeColor::Normal
    }
}

/// What the device worker of the window learned in one step.
#[derive(Debug, Clone, Copy, PartialEq, Eq, Structural)]
pub enum WorkerOutcome {
    /// Opening the device succeeded (`true`) or failed.
    Opened(bool),
    /// A snapshot of the device was read.
    SnapshotRead,
    /// A command to the device succeeded.
    CommandDone,
    /// Reading a snapshot or a command failed.
    Failed,
}

/// What the worker tells the window after a step.
#[derive(Debug, Clone, Copy, PartialEq, Eq, Structural)]
pub enum WorkerReport {
    /// The first snapshot after opening the device.
    Connected,
    /// A later snapshot.
    Snapshot,
    /// No device could be opened; the worker pauses before trying again.
    Disconnected,
    /// A read or a command failed; the worker drops the device.
    Error,
    /// Nothing to tell.
    Quiet,
}

/// One step of the worker: whether it still holds an open device afterwards,
/// and what it reports. `fresh` tells that no snapshot was read since the
/// device was opened. Any failure drops the device, to be opened again.
pub fn worker_step(fresh: bool, outcome: WorkerOutcome) -> (r: (bool, WorkerReport))
    ensures
        r == match outcome {
            WorkerOutcome::Opened(true) => (true, WorkerReport::Quiet),
            WorkerOutcome::Opened(false) => (false, WorkerReport::Disconnected),
            WorkerOutcome::SnapshotRead => (
                true,
                if fresh {
                    WorkerReport::Connected
                } else {
                    WorkerReport::Snapshot
                },
            ),
            WorkerOutcome::CommandDone => (true, WorkerReport::Quiet),
            WorkerOutcome::Failed => (false, WorkerReport::Error),
        },
{
    match outcome {
        WorkerOutcome::Opened(ok) => if ok {
            (true, WorkerReport::Quiet)
        } else {
            (false, WorkerReport::Disconnected)
        },
        WorkerOutcome::SnapshotRead => (
            true,
            if fresh {
                WorkerReport::Connected
            } else {
                WorkerReport::Snapshot
            },
        ),
        WorkerOutcome::CommandDone => (true, WorkerReport::Quiet),
        WorkerOutcome::Failed => (false, WorkerReport::Error),
    }
}

/// The window's worker reads a snapshot this often (in seconds) when no
/// command arrives.
pub const WORKER_POLL_SECS: u64 = 5;

/// The worker waits this long (in seconds) before trying again to open a
/// device.
pub const WORKER_RECONNECT_SECS: u64 = 2;

/// When the worker next reads a snapshot.
#[derive(Debug, Clone, Copy, PartialEq, Eq, Structural)]
pub enum WorkerWait {
    /// Read at once: a command just changed the device.
    PollNow,
    /// Wait up to this many seconds for a command, then read.
    ForCommand(u64),
    /// No device is open: pause this many seconds, then try to open one.
    Reconnect(u64),
}

/// The worker's schedule: without a device it pauses before reconnecting;
/// after a command it reads the device at once; otherwise it waits for a
/// command until the poll interval has passed.
pub fn worker_wait(linked: bool, command_ran: bool) -> (w: WorkerWait)
    ensures
        w == (if !linked {
            WorkerWait::Reconnect(WORKER_RECONNECT_SECS)
        } else if command_ran {
            WorkerWait::PollNow
        } else {
            WorkerWait::ForCommand(WORKER_POLL_SECS)
        }),
{
    if !linked {
        WorkerWait::Reconnect(WORKER_RECONNECT_SECS)
    } else if command_ran {
        WorkerWait::PollNow
    } else {
        WorkerWait::ForCommand(WORKER_POLL_SECS)
    }
}

/// The battery label in the window's footer: the percentage, with a
/// lightning sign while charging, or an em dash without a device.
pub open spec fn battery_footer_text(connected: bool, percentage: u8, charging: bool) -> Seq<char> {
    if !connected {
        "\u{2014}"@
    } else if charging {
        decimal(percentage as nat) + "%  \u{26A1}"@
    } else {
        decimal(percentage as nat) + "%"@
    }
}

pub fn battery_footer_label(connected: bool, percentage: u8, charging: bool) -> (s: String)
    ensures
        s@ == battery_footer_text(connected, percentage, charging),
{
    if !connected {
        return String::from_str("\u{2014}");
    }
    let mut s = String::new();
    push_decimal(&mut s, percentage as u128);
    if charging {
        s.append("%  \u{26A1}");
    } else {
        s.append("%");
    }
    s
}

/// A text right-aligned in a field of five characters.
pub open spec fn right_aligned5(t: Seq<char>) -> Seq<char> {
    if t.len() < 5 {
        Seq::new((5 - t.len()) as nat, |i: int| ' ') + t
    } else {
        t
    }
}

/// The label of a DPI stage in the window: the value right-aligned in five
/// characters, followed by `x` and the Y value when the axes differ.
pub open spec fn dpi_stage_text(stage: DpiStage) -> Seq<char> {
    if stage.x == stage.y {
        right_aligned5(decimal(stage.x as nat))
    } else {
        right_aligned5(decimal(stage.x as nat)) + seq!['x'] + decimal(stage.y as nat)
    }
}

pub fn dpi_stage_label(stage: &DpiStage) -> (s: String)
    ensures
        s@ == dpi_stage_text(*stage),
{
    let mut digits = String::new();
    push_decimal(&mut digits, stage.x as u128);
    let n = chars_of(digits.as_str()).len();
    let mut s = String::new();
    let mut k: usize = n;
    while k < 5
        invariant
            n == decimal(stage.x as nat).len(),
            n <= k <= 5 || (n > 5 && k == n),
            s@ == Seq::new((k - n) as nat, |i: int| ' '),
        decreases 5 - k,
    {
        push_char(&mut s, ' ');
        k = k + 1;
        proof {
            assert(s@ =~= Seq::new((k - n) as nat, |i: int| ' '));
        }
    }
    s.append(digits.as_str());
    proof {
        if n < 5 {
            assert(s@ =~= right_aligned5(decimal(stage.x as nat)));
        } else {
            assert(s@ =~= decimal(stage.x as nat));
        }
    }
    if stage.x != stage.y {
        push_char(&mut s, 'x');
        push_decimal(&mut s, stage.y as u128);
    }
    s
}

/// Truncation keeps a text of at most `max` characters as it is; a longer
/// text keeps its first `max` characters and gains an ellipsis.
pub proof fn truncate_law(s: Seq<char>, max: nat)
    ensures
        s.len() <= max ==> truncated(s, max) == s,
        s.len() > max ==> truncated(s, max).len() == max + 1 && truncated(s, max)[max as int]
            == '\u{2026}' && forall|i: int| 0 <= i < max ==> #[trigger] truncated(s, max)[i] == s[i],
{
}

} // verus!
