//! Stream Deck actions: what a button shows and what pressing it does.

use vstd::prelude::*;
use vstd::string::StringExecFns;

use crate::image::{battery_bar_svg, base64_standard, generate_battery_bar_image, svg_data_uri};
use crate::text::{decimal, push_char, push_decimal};
use crate::types::{BatteryStatus, DpiStage};

verus! {

/// What an action instance controls.
#[derive(Debug, Clone, Copy, PartialEq, Eq, Structural)]
pub enum ActionMode {
    Profile,
    Dpi,
    Battery,
}

impl Default for ActionMode {
    fn default() -> (m: ActionMode)
        ensures
            m == ActionMode::Battery,
    {
        ActionMode::Battery
    }
}

/// Our plugin's action settings
#[derive(Debug, Clone)]
pub struct ActionSettings {
    /// Action mode: "profile", "dpi", or "battery"
    pub mode: ActionMode,
    /// For profile mode: list of profiles to cycle through (e.g., [1, 2, 3])
    /// For dpi mode: list of DPI stages to cycle through
    pub selected_values: Vec<u8>,
    /// Device selector for multi-device setups
    pub device_selector: Option<String>,
    /// Show battery level as background bar (for profile/dpi modes)
    pub show_battery: bool,
}

impl Default for ActionSettings {
    fn default() -> (s: ActionSettings)
        ensures
            s.mode == ActionMode::Battery,
            s.selected_values@.len() == 0,
            s.device_selector is None,
            !s.show_battery,
    {
        ActionSettings {
            mode: ActionMode::Battery,
            selected_values: Vec::new(),
            device_selector: None,
            show_battery: false,
        }
    }
}

/// Cached device state
#[derive(Debug, Clone)]
pub struct DeviceState {
    pub connected: bool,
    pub device_name: String,
    pub current_profile: u8,
    pub current_dpi_stage: u8,
    pub dpi_stages: Vec<DpiStage>,
    pub battery: BatteryStatus,
    /// When the device was last read, as a clock value the caller supplies
    /// (milliseconds since the Unix epoch in the plugin).
    pub last_update: Option<u64>,
}

impl Default for DeviceState {
    fn default() -> (s: DeviceState)
        ensures
            !s.connected,
            s.device_name@.len() == 0,
            s.current_profile == 1,
            s.current_dpi_stage == 1,
            s.dpi_stages@.len() == 0,
            s.battery == (BatteryStatus { percentage: 0, charging: false }),
            s.last_update is None,
    {
        DeviceState {
            connected: false,
            device_name: String::new(),
            current_profile: 1,
            current_dpi_stage: 1,
            dpi_stages: Vec::new(),
            battery: BatteryStatus { percentage: 0, charging: false },
            last_update: None,
        }
    }
}

/// The name the plugin shows for a device: its product string, or `Unknown`.
pub open spec fn shown_device_name(product: Option<String>) -> Seq<char> {
    match product {
        Some(p) => p@,
        None => "Unknown"@,
    }
}

/// The name to show for a device with this product string.
pub fn device_name_of(product: &Option<String>) -> (s: String)
    ensures
        s@ == shown_device_name(*product),
{
    match product {
        Some(p) => p.clone(),
        None => String::from_str("Unknown"),
    }
}

impl DeviceState {
    /// Take in a full reading of the device, after connecting or polling,
    /// made at clock value `now`.
    pub fn record_reading(
        &mut self,
        device_name: String,
        profile: u8,
        dpi_stage: u8,
        dpi_stages: Vec<DpiStage>,
        battery: BatteryStatus,
        now: u64,
    )
        ensures
            *final(self) == (DeviceState {
                connected: true,
                device_name,
                current_profile: profile,
                current_dpi_stage: dpi_stage,
                dpi_stages,
                battery,
                last_update: Some(now),
            }),
    {
        self.connected = true;
        self.device_name = device_name;
        self.current_profile = profile;
        self.current_dpi_stage = dpi_stage;
        self.dpi_stages = dpi_stages;
        self.battery = battery;
        self.last_update = Some(now);
    }

    /// The device switched to `profile`.
    pub fn record_profile(&mut self, profile: u8)
        ensures
            *final(self) == (DeviceState { current_profile: profile, ..*old(self) }),
    {
        self.current_profile = profile;
    }

    /// The device switched to DPI stage `stage`, with these stages.
    pub fn record_dpi(&mut self, stage: u8, stages: Vec<DpiStage>)
        ensures
            *final(self) == (DeviceState {
                current_dpi_stage: stage,
                dpi_stages: stages,
                ..*old(self)
            }),
    {
        self.current_dpi_stage = stage;
        self.dpi_stages = stages;
    }

    /// A new battery reading, made at clock value `now`.
    pub fn record_battery(&mut self, battery: BatteryStatus, now: u64)
        ensures
            *final(self) == (DeviceState { battery, last_update: Some(now), ..*old(self) }),
    {
        self.battery = battery;
        self.last_update = Some(now);
    }
}

/// Represents a single action instance on the Stream Deck
#[derive(Debug, Clone)]
pub struct ActionInstance {
    pub context: String,
    pub action: String,
    pub device: String,
    pub settings: ActionSettings,
}

/// The battery text: the percentage, a `%`, and a `+` while charging.
pub open spec fn battery_title(b: BatteryStatus) -> Seq<char> {
    decimal(b.percentage as nat) + seq!['%'] + if b.charging {
        seq!['+']
    } else {
        Seq::empty()
    }
}

/// Render the battery text, e.g. "85%" or "85%+".
pub fn battery_title_text(b: BatteryStatus) -> (s: String)
    ensures
        s@ == battery_title(b),
{
    let mut s = String::new();
    push_decimal(&mut s, b.percentage as u128);
    push_char(&mut s, '%');
    if b.charging {
        push_char(&mut s, '+');
    }
    s
}

/// The title a button shows for a state: `P<profile>` in profile mode; in
/// DPI mode the X DPI of the current stage (1-based), or `DPI<stage>` when
/// the stage is not listed; the battery text in battery mode.
pub open spec fn title_for(mode: ActionMode, state: DeviceState) -> Seq<char> {
    match mode {
        ActionMode::Profile => seq!['P'] + decimal(state.current_profile as nat),
        ActionMode::Dpi => if 1 <= state.current_dpi_stage <= state.dpi_stages@.len() {
            decimal(state.dpi_stages@[state.current_dpi_stage - 1].x as nat)
        } else {
            "DPI"@ + decimal(state.current_dpi_stage as nat)
        },
        ActionMode::Battery => battery_title(state.battery),
    }
}

/// The next value of a profile cycle: the smallest selected value above
/// `current`, or, when there is none, the smallest selected value.
pub open spec fn is_cycle_successor(values: Seq<u8>, current: u8, next: u8) -> bool {
    values.contains(next) && if exists|i: int| 0 <= i < values.len() && values[i] > current {
        next > current && forall|i: int|
            0 <= i < values.len() && #[trigger] values[i] > current ==> next <= values[i]
    } else {
        forall|i: int| 0 <= i < values.len() ==> next <= #[trigger] values[i]
    }
}

/// The next DPI stage of a cycle through `stage_count` stages (the count is
/// taken modulo 256, as a byte): after the last stage comes stage 1.
pub open spec fn next_dpi_stage(stage_count: nat, current: u8) -> Option<u8> {
    let n = stage_count % 256;
    if n == 0 {
        None
    } else if current >= n {
        Some(1)
    } else {
        Some((current + 1) as u8)
    }
}

/// The button is highlighted: the current profile (profile mode) or DPI stage
/// (DPI mode) is one of the selected values.
pub open spec fn active_for(settings: ActionSettings, state: DeviceState) -> bool {
    match settings.mode {
        ActionMode::Profile => settings.selected_values@.contains(state.current_profile),
        ActionMode::Dpi => settings.selected_values@.contains(state.current_dpi_stage),
        ActionMode::Battery => false,
    }
}

fn contains_byte(values: &Vec<u8>, v: u8) -> (b: bool)
    ensures
        b == values@.contains(v),
{
    let mut i: usize = 0;
    while i < values.len()
        invariant
            i <= values@.len(),
            forall|j: int| 0 <= j < i ==> values@[j] != v,
        decreases values@.len() - i,
    {
        if values[i] == v {
            assert(values@[i as int] == v);
            return true;
        }
        i = i + 1;
    }
    false
}

impl ActionInstance {
    pub fn new(context: String, action: String, device: String, settings: ActionSettings) -> (a:
        Self)
        ensures
            a == (ActionInstance { context, action, device, settings }),
    {
        Self { context, action, device, settings }
    }

    /// Generate the display title for this action
    pub fn display_title(&self, state: &DeviceState) -> (s: String)
        ensures
            s@ == title_for(self.settings.mode, *state),
    {
        match self.settings.mode {
            ActionMode::Profile => {
                // Show current profile from device state
                let mut s = String::new();
                push_char(&mut s, 'P');
                push_decimal(&mut s, state.current_profile as u128);
                s
            },
            ActionMode::Dpi => {
                // Show current DPI value from device state
                let stage = state.current_dpi_stage;
                if stage >= 1 && (stage as usize) <= state.dpi_stages.len() {
                    let mut s = String::new();
                    push_decimal(&mut s, state.dpi_stages[stage as usize - 1].x as u128);
                    s
                } else {
                    let mut s = String::from_str("DPI");
                    push_decimal(&mut s, stage as u128);
                    s
                }
            },
            ActionMode::Battery => battery_title_text(state.battery),
        }
    }

    /// Determine if this action is currently "active" (highlighted)
    /// For cycling modes, active means the current value is in the selected list
    pub fn is_active(&self, state: &DeviceState) -> (b: bool)
        ensures
            b == active_for(self.settings, *state),
    {
        match self.settings.mode {
            ActionMode::Profile => contains_byte(&self.settings.selected_values, state.current_profile),
            ActionMode::Dpi => contains_byte(
                &self.settings.selected_values,
                state.current_dpi_stage,
            ),
            ActionMode::Battery => false,
        }
    }

    /// Get the next value in the cycle based on current state
    /// For Profile mode: cycles through selected_values
    /// For DPI mode: cycles through all available stages (1 to dpi_stages.len())
    /// Returns None if cycling isn't applicable
    pub fn next_cycle_value(&self, state: &DeviceState) -> (next: Option<u8>)
        ensures
            match self.settings.mode {
                ActionMode::Profile => match next {
                    Some(v) => is_cycle_successor(
                        self.settings.selected_values@,
                        state.current_profile,
                        v,
                    ),
                    None => self.settings.selected_values@.len() == 0,
                },
                ActionMode::Dpi => next == next_dpi_stage(
                    state.dpi_stages@.len(),
                    state.current_dpi_stage,
                ),
                ActionMode::Battery => next is None,
            },
    {
        match self.settings.mode {
            ActionMode::Profile => {
                let values = &self.settings.selected_values;
                if values.len() == 0 {
                    return None;
                }
                let current = state.current_profile;
                // The smallest value above the current one, and the smallest value.
                let mut above: Option<u8> = None;
                let mut least: u8 = values[0];
                let mut i: usize = 0;
                while i < values.len()
                    invariant
                        i <= values@.len(),
                        values@.len() > 0,
                        values@.contains(least),
                        forall|j: int| 0 <= j < i ==> least <= #[trigger] values@[j],
                        match above {
                            Some(a) => values@.contains(a) && a > current && forall|j: int|
                                0 <= j < i && #[trigger] values@[j] > current ==> a <= values@[j],
                            None => forall|j: int| 0 <= j < i ==> #[trigger] values@[j] <= current,
                        },
                    decreases values@.len() - i,
                {
                    let v = values[i];
                    if v < least {
                        least = v;
                    }
                    if v > current {
                        above = match above {
                            Some(a) => if v < a {
                                Some(v)
                            } else {
                                Some(a)
                            },
                            None => Some(v),
                        };
                    }
                    i = i + 1;
                }
                // Wrap around to the first value when nothing is above.
                match above {
                    Some(a) => Some(a),
                    None => Some(least),
                }
            },
            ActionMode::Dpi => {
                // Cycle through all available DPI stages for the current profile
                let num_stages = (state.dpi_stages.len() % 256) as u8;
                if num_stages == 0 {
                    return None;
                }
                let current = state.current_dpi_stage;
                let next = if current >= num_stages {
                    1
                } else {
                    current + 1
                };
                Some(next)
            },
            ActionMode::Battery => None,
        }
    }
}

// ============================================================================
// Button display
// ============================================================================

/// Set the title of a button
#[derive(Debug, Clone)]
pub struct SetTitlePayload {
    pub title: String,
    pub target: Option<u8>,
    pub state: Option<u8>,
}

/// Set the image of a button (base64 encoded)
#[derive(Debug, Clone)]
pub struct SetImagePayload {
    pub image: String,
    pub target: Option<u8>,
    pub state: Option<u8>,
}

/// Set the state of a multi-state action
#[derive(Debug, Clone, Copy, PartialEq, Eq, Structural)]
pub struct SetStatePayload {
    pub state: u8,
}

/// A command that updates the display of a button.
#[derive(Debug, Clone)]
pub enum DisplayCommand {
    SetTitle { context: String, payload: SetTitlePayload },
    SetImage { context: String, payload: SetImagePayload },
    SetState { context: String, payload: SetStatePayload },
}

/// `cmd` sets the title of the button `context` to `title`.
pub open spec fn sets_title(cmd: DisplayCommand, context: Seq<char>, title: Seq<char>) -> bool {
    match cmd {
        DisplayCommand::SetTitle { context: c, payload } => c@ == context && payload.title@ == title
            && payload.target is None && payload.state is None,
        _ => false,
    }
}

/// `cmd` sets the image of the button `context` to `image`.
pub open spec fn sets_image(cmd: DisplayCommand, context: Seq<char>, image: Seq<char>) -> bool {
    match cmd {
        DisplayCommand::SetImage { context: c, payload } => c@ == context && payload.image@ == image
            && payload.target is None && payload.state is None,
        _ => false,
    }
}

/// `cmd` sets the state of the button `context` to `state`.
pub open spec fn sets_state(cmd: DisplayCommand, context: Seq<char>, state: u8) -> bool {
    match cmd {
        DisplayCommand::SetState { context: c, payload } => c@ == context && payload.state == state,
        _ => false,
    }
}

/// A profile or DPI button that asks for it draws the battery as a bar
/// behind its title.
pub open spec fn shows_battery_bar(settings: ActionSettings) -> bool {
    settings.show_battery && settings.mode != ActionMode::Battery
}

/// The three commands that bring a button up to date: with a battery bar,
/// clear the title and draw the title into the image; otherwise clear the
/// image and set the title. Then the state: 1 when active, 0 otherwise.
pub open spec fn display_updates(
    cmds: Seq<DisplayCommand>,
    instance: ActionInstance,
    state: DeviceState,
) -> bool {
    let context = instance.context@;
    let title = title_for(instance.settings.mode, state);
    &&& cmds.len() == 3
    &&& if shows_battery_bar(instance.settings) {
        &&& sets_title(cmds[0], context, Seq::empty())
        &&& sets_image(
            cmds[1],
            context,
            svg_data_uri(
                base64_standard(
                    battery_bar_svg(title, state.battery.percentage, state.battery.charging),
                ),
            ),
        )
    } else {
        &&& sets_image(cmds[0], context, Seq::empty())
        &&& sets_title(cmds[1], context, title)
    }
    &&& sets_state(
        cmds[2],
        context,
        if active_for(instance.settings, state) {
            1
        } else {
            0
        },
    )
}

/// The commands that update the display of an action instance.
pub fn display_commands(instance: &ActionInstance, state: &DeviceState) -> (cmds: Vec<
    DisplayCommand,
>)
    ensures
        display_updates(cmds@, *instance, *state),
{
    let title = instance.display_title(state);
    let is_active = instance.is_active(state);

    // Check if we should show battery indicator (for profile/dpi modes with showBattery enabled)
    let show_battery_bar = instance.settings.show_battery && instance.settings.mode
        != ActionMode::Battery;

    let mut cmds: Vec<DisplayCommand> = Vec::new();
    if show_battery_bar {
        // Generate image with battery bar background
        let image = generate_battery_bar_image(
            title.as_str(),
            state.battery.percentage,
            state.battery.charging,
        );
        // Clear the built-in title (we render it in the image)
        cmds.push(
            DisplayCommand::SetTitle {
                context: instance.context.clone(),
                payload: SetTitlePayload { title: String::new(), target: None, state: None },
            },
        );
        // Set the custom image
        cmds.push(
            DisplayCommand::SetImage {
                context: instance.context.clone(),
                payload: SetImagePayload { image, target: None, state: None },
            },
        );
    } else {
        // Clear any custom image (reset to default)
        cmds.push(
            DisplayCommand::SetImage {
                context: instance.context.clone(),
                payload: SetImagePayload { image: String::new(), target: None, state: None },
            },
        );
        // Set the title text
        cmds.push(
            DisplayCommand::SetTitle {
                context: instance.context.clone(),
                payload: SetTitlePayload { title, target: None, state: None },
            },
        );
    }
    // Set state (0 = default, 1 = active/highlighted)
    cmds.push(
        DisplayCommand::SetState {
            context: instance.context.clone(),
            payload: SetStatePayload {
                state: if is_active {
                    1
                } else {
                    0
                },
            },
        },
    );
    cmds
}

// ============================================================================
// Key presses
// ============================================================================

/// What a key press asks of the device.
#[derive(Debug, Clone, Copy, PartialEq, Eq, Structural)]
pub enum KeyAction {
    /// Switch to this profile.
    SetProfile(u8),
    /// Switch the profile to this DPI stage.
    SetDpiStage { profile: u8, stage: u8 },
    /// Read the battery again.
    RefreshBattery,
    /// Nothing to cycle through: flash the alert sign.
    ShowAlert,
}

/// The response to a key press: a profile button moves to the next selected
/// profile, a DPI button to the next stage of the current profile, a
/// battery button refreshes; with nothing to cycle through, an alert.
pub open spec fn key_response(instance: ActionInstance, state: DeviceState, action: KeyAction) -> bool {
    match instance.settings.mode {
        ActionMode::Profile => if instance.settings.selected_values@.len() == 0 {
            action == KeyAction::ShowAlert
        } else {
            action matches KeyAction::SetProfile(p) && is_cycle_successor(
                instance.settings.selected_values@,
                state.current_profile,
                p,
            )
        },
        ActionMode::Dpi => match next_dpi_stage(state.dpi_stages@.len(), state.current_dpi_stage) {
            Some(stage) => action == KeyAction::SetDpiStage {
                profile: state.current_profile,
                stage,
            },
            None => action == KeyAction::ShowAlert,
        },
        ActionMode::Battery => action == KeyAction::RefreshBattery,
    }
}

/// Decide what a key press on an action instance does.
pub fn key_down_action(instance: &ActionInstance, state: &DeviceState) -> (action: KeyAction)
    ensures
        key_response(*instance, *state, action),
{
    match instance.settings.mode {
        ActionMode::Profile => match instance.next_cycle_value(state) {
            Some(next) => KeyAction::SetProfile(next),
            None => KeyAction::ShowAlert,
        },
        ActionMode::Dpi => match instance.next_cycle_value(state) {
            Some(next) => KeyAction::SetDpiStage { profile: state.current_profile, stage: next },
            None => KeyAction::ShowAlert,
        },
        ActionMode::Battery => KeyAction::RefreshBattery,
    }
}

// ============================================================================
// The plugin's event loop
// ============================================================================

/// The plugin refreshes the device state this often (in seconds) while
/// actions are visible.
pub const POLL_INTERVAL_SECS: u64 = 15;

/// A battery button reads the battery this often (in seconds).
pub const BATTERY_POLL_SECS: u64 = 60;

/// What woke the plugin's event loop.
#[derive(Debug, Clone, Copy, PartialEq, Eq, Structural)]
pub enum LoopEvent {
    /// The state polling interval elapsed.
    PollTick,
    /// A text message arrived from the Stream Deck.
    SocketText,
    /// The device manager reported an event.
    DeviceEvent,
    /// The Stream Deck closed the connection.
    SocketClosed,
    /// The connection failed.
    SocketError,
    /// The connection's stream ended.
    StreamEnded,
}

/// What the event loop does about it.
#[derive(Debug, Clone, Copy, PartialEq, Eq, Structural)]
pub enum LoopAction {
    /// Refresh the device state and redraw every visible action.
    RefreshAndRedrawAll,
    /// Nothing to do.
    Skip,
    /// Handle the message or event.
    Dispatch,
    /// Leave the loop.
    Stop,
}

/// One step of the plugin's event loop: the device state is polled only
/// while actions are visible; messages and device events are handled; the
/// end of the connection ends the loop.
pub fn event_loop_step(event: LoopEvent, visible_instances: usize) -> (a: LoopAction)
    ensures
        a == match event {
            LoopEvent::PollTick => if visible_instances > 0 {
                LoopAction::RefreshAndRedrawAll
            } else {
                LoopAction::Skip
            },
            LoopEvent::SocketText | LoopEvent::DeviceEvent => LoopAction::Dispatch,
            _ => LoopAction::Stop,
        },
{
    match event {
        LoopEvent::PollTick => if visible_instances > 0 {
            LoopAction::RefreshAndRedrawAll
        } else {
            LoopAction::Skip
        },
        LoopEvent::SocketText | LoopEvent::DeviceEvent => LoopAction::Dispatch,
        _ => LoopAction::Stop,
    }
}

/// A newly shown action starts polling its battery when it is a battery
/// button and no poll is registered for its context yet.
pub fn starts_battery_poll(mode: ActionMode, registered: bool) -> (b: bool)
    ensures
        b == (mode == ActionMode::Battery && !registered),
{
    mode == ActionMode::Battery && !registered
}

// ============================================================================
// Registered instances
// ============================================================================

/// The sending end of a channel of `tokio`; a battery poll stops when it
/// receives on the channel whose sender the manager keeps.
#[verifier::external_type_specification]
#[verifier::external_body]
#[verifier::reject_recursive_types(T)]
pub struct ExStopSender<T>(tokio::sync::mpsc::Sender<T>);

/// Manages all active action instances, at most one per context, and the
/// contexts whose battery is being polled, each with the sender that stops
/// its poll.
pub struct ActionManager {
    instances: Vec<ActionInstance>,
    battery_polls: Vec<String>,
    poll_stops: Vec<tokio::sync::mpsc::Sender<()>>,
}

/// The position of the instance for `context`, if any.
pub open spec fn position_of(instances: Seq<ActionInstance>, context: Seq<char>) -> Option<int> {
    if exists|i: int| 0 <= i < instances.len() && (#[trigger] instances[i]).context@ == context {
        Some(choose|i: int| 0 <= i < instances.len() && (#[trigger] instances[i]).context@ == context)
    } else {
        None
    }
}

/// No two entries share a context.
pub open spec fn distinct_contexts(instances: Seq<ActionInstance>) -> bool {
    forall|i: int, j: int|
        0 <= i < instances.len() && 0 <= j < instances.len() && i != j ==> (#[trigger] instances[i]).context@
            != (#[trigger] instances[j]).context@
}

/// No context is polled twice.
pub open spec fn distinct_texts(texts: Seq<String>) -> bool {
    forall|i: int, j: int|
        0 <= i < texts.len() && 0 <= j < texts.len() && i != j ==> (#[trigger] texts[i])@
            != (#[trigger] texts[j])@
}

/// `texts` holds `t`.
pub open spec fn has_text(texts: Seq<String>, t: Seq<char>) -> bool {
    exists|i: int| 0 <= i < texts.len() && (#[trigger] texts[i])@ == t
}

/// The position of `t` in `texts`, if it is there.
pub open spec fn text_position(texts: Seq<String>, t: Seq<char>) -> Option<int> {
    if has_text(texts, t) {
        Some(choose|i: int| 0 <= i < texts.len() && (#[trigger] texts[i])@ == t)
    } else {
        None
    }
}

/// The stop sender paired with context `c`: the sender at the position of
/// `c` among the polled contexts.
pub open spec fn stop_at(
    texts: Seq<String>,
    stops: Seq<tokio::sync::mpsc::Sender<()>>,
    c: Seq<char>,
) -> Option<tokio::sync::mpsc::Sender<()>> {
    match text_position(texts, c) {
        Some(i) => Some(stops[i]),
        None => None,
    }
}

/// In a list of distinct texts, the position of the entry at `i` is `i`.
proof fn lemma_text_position(texts: Seq<String>, i: int)
    requires
        distinct_texts(texts),
        0 <= i < texts.len(),
    ensures
        text_position(texts, texts[i]@) == Some(i),
{
    let w = choose|w: int| 0 <= w < texts.len() && (#[trigger] texts[w])@ == texts[i]@;
    if w != i {
        assert(texts[w]@ != texts[i]@);
    }
}

/// Removing the entry at `k` from both lists leaves every other context
/// paired with the same sender.
proof fn lemma_stop_after_remove(
    texts: Seq<String>,
    stops: Seq<tokio::sync::mpsc::Sender<()>>,
    k: int,
    c: Seq<char>,
)
    requires
        distinct_texts(texts),
        distinct_texts(texts.remove(k)),
        stops.len() == texts.len(),
        0 <= k < texts.len(),
        c != texts[k]@,
        has_text(texts.remove(k), c) == has_text(texts, c),
    ensures
        stop_at(texts.remove(k), stops.remove(k), c) == stop_at(texts, stops, c),
{
    let nt = texts.remove(k);
    if has_text(texts, c) {
        let p = text_position(texts, c)->0;
        assert(texts[p]@ == c);
        assert(p != k);
        let q = if p < k {
            p
        } else {
            p - 1
        };
        assert(nt[q] == texts[p]);
        lemma_text_position(nt, q);
        assert(stops.remove(k)[q] == stops[p]);
    }
}

/// Appending a new context with its sender leaves every other context
/// paired with the same sender.
proof fn lemma_stop_after_push(
    texts: Seq<String>,
    stops: Seq<tokio::sync::mpsc::Sender<()>>,
    t: String,
    stop: tokio::sync::mpsc::Sender<()>,
    c: Seq<char>,
)
    requires
        distinct_texts(texts),
        distinct_texts(texts.push(t)),
        stops.len() == texts.len(),
        c != t@,
        has_text(texts.push(t), c) == has_text(texts, c),
    ensures
        stop_at(texts.push(t), stops.push(stop), c) == stop_at(texts, stops, c),
{
    if has_text(texts, c) {
        let p = text_position(texts, c)->0;
        assert(texts.push(t)[p] == texts[p]);
        lemma_text_position(texts.push(t), p);
    }
}

impl ActionManager {
    #[verifier::type_invariant]
    spec fn well_formed(&self) -> bool {
        distinct_contexts(self.instances@) && distinct_texts(self.battery_polls@)
            && self.poll_stops@.len() == self.battery_polls@.len()
    }

    /// The registered instances, in registration order.
    pub closed spec fn entries(&self) -> Seq<ActionInstance> {
        self.instances@
    }

    /// The instance registered for `context`.
    pub open spec fn lookup(&self, context: Seq<char>) -> Option<ActionInstance> {
        match position_of(self.entries(), context) {
            Some(i) => Some(self.entries()[i]),
            None => None,
        }
    }

    /// The contexts whose battery is being polled.
    pub closed spec fn polled(&self) -> Seq<String> {
        self.battery_polls@
    }

    /// The stop senders of the polls, in the order of [`Self::polled`].
    pub closed spec fn stops(&self) -> Seq<tokio::sync::mpsc::Sender<()>> {
        self.poll_stops@
    }

    /// The sender that stops the battery poll of `context`, if one runs.
    pub open spec fn stop_for(&self, context: Seq<char>) -> Option<tokio::sync::mpsc::Sender<()>> {
        stop_at(self.polled(), self.stops(), context)
    }

    pub fn new() -> (m: Self)
        ensures
            m.entries().len() == 0,
            m.polled().len() == 0,
            forall|c: Seq<char>| m.stop_for(c) is None,
    {
        Self { instances: Vec::new(), battery_polls: Vec::new(), poll_stops: Vec::new() }
    }

    fn empty() -> (m: Self)
        ensures
            m.instances@.len() == 0,
            m.battery_polls@.len() == 0,
    {
        Self { instances: Vec::new(), battery_polls: Vec::new(), poll_stops: Vec::new() }
    }

    fn find(&self, context: &str) -> (r: Option<usize>)
        ensures
            match r {
                Some(i) => i < self.entries().len() && self.entries()[i as int].context@ == context@
                    && position_of(self.entries(), context@) == Some(i as int),
                None => position_of(self.entries(), context@) is None,
            },
    {
        proof {
            use_type_invariant(self);
        }
        let wanted = String::from_str(context);
        let mut i: usize = 0;
        while i < self.instances.len()
            invariant
                i <= self.instances@.len(),
                wanted@ == context@,
                distinct_contexts(self.instances@),
                forall|j: int| 0 <= j < i ==> (#[trigger] self.instances@[j]).context@ != context@,
            decreases self.instances@.len() - i,
        {
            if self.instances[i].context == wanted {
                proof {
                    let w = choose|w: int|
                        0 <= w < self.instances@.len() && (#[trigger] self.instances@[w]).context@
                            == context@;
                    assert(self.instances@[i as int].context@ == context@);
                    if w != i {
                        assert(self.instances@[w].context@ != self.instances@[i as int].context@);
                    }
                }
                return Some(i);
            }
            i = i + 1;
        }
        None
    }

    fn find_poll(&self, context: &str) -> (r: Option<usize>)
        ensures
            match r {
                Some(i) => i < self.polled().len() && self.polled()[i as int]@ == context@,
                None => !has_text(self.polled(), context@),
            },
    {
        let wanted = String::from_str(context);
        let mut i: usize = 0;
        while i < self.battery_polls.len()
            invariant
                i <= self.battery_polls@.len(),
                wanted@ == context@,
                forall|j: int| 0 <= j < i ==> (#[trigger] self.battery_polls@[j])@ != context@,
            decreases self.battery_polls@.len() - i,
        {
            if self.battery_polls[i] == wanted {
                return Some(i);
            }
            i = i + 1;
        }
        None
    }

    /// Register a new action instance
    pub fn add_instance(&mut self, instance: ActionInstance)
        ensures
            final(self).lookup(instance.context@) == Some(instance),
            forall|c: Seq<char>| c != instance.context@ ==> final(self).lookup(c) == old(self).lookup(c),
            final(self).polled() == old(self).polled(),
            final(self).stops() == old(self).stops(),
            final(self).entries().len() == old(self).entries().len() + if old(self).lookup(
                instance.context@,
            ) is None {
                1int
            } else {
                0int
            },
    {
        proof {
            use_type_invariant(&*self);
        }
        let ghost old_entries = self.instances@;
        match self.find(instance.context.as_str()) {
            Some(i) => {
                let ghost ctx = instance.context@;
                let mut entries: Vec<ActionInstance> = Vec::new();
                std::mem::swap(&mut entries, &mut self.instances);
                entries.set(i, instance);
                proof {
                    assert(entries@ == old_entries.update(i as int, instance));
                }
                self.instances = entries;
                proof {
                    assert(distinct_contexts(self.instances@)) by {
                        assert forall|a: int, b: int|
                            0 <= a < self.instances@.len() && 0 <= b < self.instances@.len() && a != b
                                implies (#[trigger] self.instances@[a]).context@
                            != (#[trigger] self.instances@[b]).context@ by {
                            if a == i {
                                assert(old_entries[b].context@ != old_entries[a].context@);
                            } else if b == i {
                                assert(old_entries[b].context@ != old_entries[a].context@);
                            } else {
                                assert(old_entries[a].context@ != old_entries[b].context@);
                            }
                        }
                    }
                    lemma_position(self.instances@, i as int);
                    assert forall|c: Seq<char>| c != ctx implies position_of(self.instances@, c)
                        == position_of(old_entries, c) by {
                        lemma_position_same(old_entries, self.instances@, c, i as int);
                    }
                }
            },
            None => {
                let ghost ctx = instance.context@;
                let mut entries: Vec<ActionInstance> = Vec::new();
                std::mem::swap(&mut entries, &mut self.instances);
                entries.push(instance);
                self.instances = entries;
                proof {
                    assert(distinct_contexts(self.instances@)) by {
                        assert forall|a: int, b: int|
                            0 <= a < self.instances@.len() && 0 <= b < self.instances@.len() && a != b
                                implies (#[trigger] self.instances@[a]).context@
                            != (#[trigger] self.instances@[b]).context@ by {
                            if a == old_entries.len() {
                                assert(self.instances@[b] == old_entries[b]);
                            } else if b == old_entries.len() {
                                assert(self.instances@[a] == old_entries[a]);
                            } else {
                                assert(self.instances@[a] == old_entries[a]);
                                assert(self.instances@[b] == old_entries[b]);
                            }
                        }
                    }
                    lemma_position(self.instances@, old_entries.len() as int);
                    assert forall|c: Seq<char>| c != ctx implies position_of(self.instances@, c)
                        == position_of(old_entries, c) by {
                        lemma_position_push(old_entries, instance, c);
                    }
                }
            },
        }
    }

    /// Remove an action instance and its battery poll. Gives back the
    /// instance and the sender of the poll, on which the caller sends the
    /// stop signal.
    pub fn remove_instance(&mut self, context: &str) -> (r: (
        Option<ActionInstance>,
        Option<tokio::sync::mpsc::Sender<()>>,
    ))
        ensures
            r.0 == old(self).lookup(context@),
            r.1 == old(self).stop_for(context@),
            final(self).lookup(context@) is None,
            final(self).entries().len() == old(self).entries().len() - if r.0 is Some {
                1int
            } else {
                0int
            },
            forall|c: Seq<char>| c != context@ ==> final(self).lookup(c) == old(self).lookup(c),
            !has_text(final(self).polled(), context@),
            forall|c: Seq<char>|
                c != context@ ==> has_text(final(self).polled(), c) == has_text(old(self).polled(), c),
            final(self).stop_for(context@) is None,
            forall|c: Seq<char>| c != context@ ==> final(self).stop_for(c) == old(self).stop_for(c),
    {
        proof {
            use_type_invariant(&*self);
        }
        let ghost old_polls = self.battery_polls@;
        let ghost old_stops = self.poll_stops@;
        let mut stopped: Option<tokio::sync::mpsc::Sender<()>> = None;
        // Take out any battery poll of this instance
        if let Some(k) = self.find_poll(context) {
            let mut whole = ActionManager::empty();
            std::mem::swap(&mut whole, self);
            proof {
                use_type_invariant(&whole);
            }
            let ActionManager { instances, battery_polls: mut polls, poll_stops: mut stops } = whole;
            polls.remove(k);
            let stop = stops.remove(k);
            proof {
                lemma_text_position(old_polls, k as int);
                assert(stop_at(old_polls, old_stops, context@) == Some(stop));
            }
            stopped = Some(stop);
            proof {
                assert forall|c: Seq<char>| c != context@ implies has_text(polls@, c)
                    == has_text(old_polls, c) by {
                    if has_text(old_polls, c) {
                        let t = choose|t: int| 0 <= t < old_polls.len() && (#[trigger] old_polls[t])@ == c;
                        if t < k {
                            assert(polls@[t] == old_polls[t]);
                        } else if t > k {
                            assert(polls@[t - 1] == old_polls[t]);
                        }
                    }
                    if has_text(polls@, c) {
                        let t = choose|t: int|
                            0 <= t < polls@.len() && (#[trigger] polls@[t])@ == c;
                        if t < k {
                            assert(polls@[t] == old_polls[t]);
                        } else {
                            assert(polls@[t] == old_polls[t + 1]);
                        }
                    }
                }
                assert(!has_text(polls@, context@)) by {
                    if has_text(polls@, context@) {
                        let t = choose|t: int|
                            0 <= t < polls@.len() && (#[trigger] polls@[t])@
                                == context@;
                        if t < k {
                            assert(polls@[t] == old_polls[t]);
                        } else {
                            assert(polls@[t] == old_polls[t + 1]);
                        }
                    }
                }
                assert(distinct_texts(polls@)) by {
                    assert forall|a: int, b: int|
                        0 <= a < polls@.len() && 0 <= b < polls@.len() && a
                            != b implies (#[trigger] polls@[a])@
                        != (#[trigger] polls@[b])@ by {
                        let oa = if a < k {
                            a
                        } else {
                            a + 1
                        };
                        let ob = if b < k {
                            b
                        } else {
                            b + 1
                        };
                        assert(polls@[a] == old_polls[oa]);
                        assert(polls@[b] == old_polls[ob]);
                    }
                }
            }
            proof {
                assert(polls@ == old_polls.remove(k as int));
                assert(stops@ == old_stops.remove(k as int));
                assert forall|c: Seq<char>| c != context@ implies stop_at(polls@, stops@, c)
                    == stop_at(old_polls, old_stops, c) by {
                    lemma_stop_after_remove(old_polls, old_stops, k as int, c);
                }
            }
            *self = ActionManager { instances, battery_polls: polls, poll_stops: stops };
        }
        let ghost old_entries = self.instances@;
        match self.find(context) {
            Some(i) => {
                let mut entries: Vec<ActionInstance> = Vec::new();
                std::mem::swap(&mut entries, &mut self.instances);
                let removed = entries.remove(i);
                self.instances = entries;
                proof {
                    assert(distinct_contexts(self.instances@)) by {
                        assert forall|a: int, b: int|
                            0 <= a < self.instances@.len() && 0 <= b < self.instances@.len() && a != b
                                implies (#[trigger] self.instances@[a]).context@
                            != (#[trigger] self.instances@[b]).context@ by {
                            let oa = if a < i {
                                a
                            } else {
                                a + 1
                            };
                            let ob = if b < i {
                                b
                            } else {
                                b + 1
                            };
                            assert(self.instances@[a] == old_entries[oa]);
                            assert(self.instances@[b] == old_entries[ob]);
                        }
                    }
                    lemma_position_remove(old_entries, self.instances@, context@, i as int);
                }
                (Some(removed), stopped)
            },
            None => (None, stopped),
        }
    }

    /// Get an action instance
    pub fn get_instance(&self, context: &str) -> (r: Option<&ActionInstance>)
        ensures
            match r {
                Some(inst) => self.lookup(context@) == Some(*inst),
                None => self.lookup(context@) is None,
            },
    {
        match self.find(context) {
            Some(i) => Some(&self.instances[i]),
            None => None,
        }
    }

    /// Update settings for an instance
    pub fn update_settings(&mut self, context: &str, settings: ActionSettings)
        ensures
            match old(self).lookup(context@) {
                Some(inst) => final(self).lookup(context@) == Some(
                    ActionInstance { settings, ..inst },
                ),
                None => final(self).lookup(context@) is None,
            },
            forall|c: Seq<char>| c != context@ ==> final(self).lookup(c) == old(self).lookup(c),
            final(self).polled() == old(self).polled(),
            final(self).stops() == old(self).stops(),
            final(self).entries().len() == old(self).entries().len(),
    {
        proof {
            use_type_invariant(&*self);
        }
        if let Some(i) = self.find(context) {
            let ghost old_entries = self.instances@;
            let ghost inst = old_entries[i as int];
            let mut entries: Vec<ActionInstance> = Vec::new();
            std::mem::swap(&mut entries, &mut self.instances);
            let mut instance = entries.remove(i);
            instance.settings = settings;
            let ghost updated = instance;
            entries.insert(i, instance);
            proof {
                assert(entries@ =~= old_entries.update(i as int, updated));
            }
            self.instances = entries;
            proof {
                assert(self.instances@ =~= old_entries.update(i as int, updated));
                assert(updated.context@ == inst.context@);
                assert(distinct_contexts(self.instances@)) by {
                    assert forall|a: int, b: int|
                        0 <= a < self.instances@.len() && 0 <= b < self.instances@.len() && a != b
                            implies (#[trigger] self.instances@[a]).context@
                        != (#[trigger] self.instances@[b]).context@ by {
                        assert(old_entries[a].context@ != old_entries[b].context@);
                    }
                }
                lemma_position(self.instances@, i as int);
                assert forall|c: Seq<char>| c != context@ implies position_of(self.instances@, c)
                    == position_of(old_entries, c) by {
                    lemma_position_same(old_entries, self.instances@, c, i as int);
                }
            }
        }
    }

    /// Get all instances
    pub fn instances(&self) -> (r: &Vec<ActionInstance>)
        ensures
            r@ == self.entries(),
    {
        &self.instances
    }

    /// Get the number of active instances
    pub fn instance_count(&self) -> (n: usize)
        ensures
            n == self.entries().len(),
    {
        self.instances.len()
    }

    /// Get all instances with a specific mode
    pub fn instances_with_mode(&self, mode: ActionMode) -> (r: Vec<&ActionInstance>)
        ensures
            r@.map_values(|i: &ActionInstance| *i) == self.entries().filter(
                |i: ActionInstance| i.settings.mode == mode,
            ),
    {
        let ghost pred = |i: ActionInstance| i.settings.mode == mode;
        let mut r: Vec<&ActionInstance> = Vec::new();
        let mut k: usize = 0;
        while k < self.instances.len()
            invariant
                k <= self.instances@.len(),
                pred == (|i: ActionInstance| i.settings.mode == mode),
                r@.map_values(|i: &ActionInstance| *i) == self.instances@.take(k as int).filter(pred),
            decreases self.instances@.len() - k,
        {
            let inst = &self.instances[k];
            let keep = inst.settings.mode == mode;
            if keep {
                r.push(inst);
            }
            proof {
                reveal_with_fuel(Seq::filter, 1);
                assert(self.instances@.take(k + 1).drop_last() =~= self.instances@.take(k as int));
                assert(self.instances@.take(k + 1).last() == *inst);
                assert(r@.map_values(|i: &ActionInstance| *i) =~= self.instances@.take(k + 1).filter(
                    pred,
                ));
            }
            k = k + 1;
        }
        assert(self.instances@.take(self.instances@.len() as int) =~= self.instances@);
        r
    }

    /// Check if any battery instances are active (for polling decisions)
    pub fn has_battery_instances(&self) -> (b: bool)
        ensures
            b == exists|i: int|
                0 <= i < self.entries().len() && (#[trigger] self.entries()[i]).settings.mode
                    == ActionMode::Battery,
    {
        let mut k: usize = 0;
        while k < self.instances.len()
            invariant
                k <= self.instances@.len(),
                forall|j: int| 0 <= j < k ==> (#[trigger] self.instances@[j]).settings.mode != ActionMode::Battery,
            decreases self.instances@.len() - k,
        {
            if self.instances[k].settings.mode == ActionMode::Battery {
                return true;
            }
            k = k + 1;
        }
        false
    }

    /// Register a battery poll for a context, with the sender that stops it;
    /// a poll already registered for the context keeps running until its
    /// old sender is dropped, which closes its channel.
    pub fn register_battery_poll(&mut self, context: &str, stop_tx: tokio::sync::mpsc::Sender<()>)
        ensures
            has_text(final(self).polled(), context@),
            forall|c: Seq<char>|
                c != context@ ==> has_text(final(self).polled(), c) == has_text(old(self).polled(), c),
            final(self).entries() == old(self).entries(),
            final(self).stop_for(context@) == Some(stop_tx),
            forall|c: Seq<char>| c != context@ ==> final(self).stop_for(c) == old(self).stop_for(c),
    {
        proof {
            use_type_invariant(&*self);
        }
        let ghost old_polls = self.battery_polls@;
        let ghost old_stops = self.poll_stops@;
        let ghost new_stop = stop_tx;
        if let Some(k) = self.find_poll(context) {
            let mut whole = ActionManager::empty();
            std::mem::swap(&mut whole, self);
            proof {
                use_type_invariant(&whole);
            }
            let ActionManager { instances, battery_polls, poll_stops: mut stops } = whole;
            stops.set(k, stop_tx);
            proof {
                lemma_text_position(battery_polls@, k as int);
                assert forall|c: Seq<char>| c != context@ implies stop_at(battery_polls@, stops@, c)
                    == stop_at(old_polls, old_stops, c) by {
                    if has_text(old_polls, c) {
                        let p = text_position(old_polls, c)->0;
                        assert(old_polls[p]@ == c);
                        assert(p != k);
                    }
                }
            }
            *self = ActionManager { instances, battery_polls, poll_stops: stops };
        } else {
            let mut whole = ActionManager::empty();
            std::mem::swap(&mut whole, self);
            proof {
                use_type_invariant(&whole);
            }
            let ActionManager { instances, battery_polls: mut polls, poll_stops: mut stops } = whole;
            let text = String::from_str(context);
            let ghost pushed = text;
            polls.push(text);
            stops.push(stop_tx);
            proof {
                assert(polls@[old_polls.len() as int]@ == context@);
                assert forall|c: Seq<char>| c != context@ implies has_text(polls@, c)
                    == has_text(old_polls, c) by {
                    if has_text(old_polls, c) {
                        let t = choose|t: int| 0 <= t < old_polls.len() && (#[trigger] old_polls[t])@ == c;
                        assert(polls@[t] == old_polls[t]);
                    }
                    if has_text(polls@, c) {
                        let t = choose|t: int|
                            0 <= t < polls@.len() && (#[trigger] polls@[t])@ == c;
                        assert(polls@[t] == old_polls[t]);
                    }
                }
                assert(distinct_texts(polls@)) by {
                    assert forall|a: int, b: int|
                        0 <= a < polls@.len() && 0 <= b < polls@.len() && a
                            != b implies (#[trigger] polls@[a])@
                        != (#[trigger] polls@[b])@ by {
                        if a == old_polls.len() {
                            assert(polls@[b] == old_polls[b]);
                        } else if b == old_polls.len() {
                            assert(polls@[a] == old_polls[a]);
                        } else {
                            assert(polls@[a] == old_polls[a]);
                            assert(polls@[b] == old_polls[b]);
                        }
                    }
                }
            }
            proof {
                assert(polls@ == old_polls.push(pushed));
                assert(stops@ == old_stops.push(new_stop));
                lemma_text_position(polls@, old_polls.len() as int);
                assert forall|c: Seq<char>| c != context@ implies stop_at(polls@, stops@, c)
                    == stop_at(old_polls, old_stops, c) by {
                    lemma_stop_after_push(old_polls, old_stops, pushed, new_stop, c);
                }
            }
            *self = ActionManager { instances, battery_polls: polls, poll_stops: stops };
        }
    }

    /// Check if battery polling is active for a context
    pub fn has_battery_poll(&self, context: &str) -> (b: bool)
        ensures
            b == has_text(self.polled(), context@),
            b == self.stop_for(context@) is Some,
    {
        self.find_poll(context).is_some()
    }
}

/// In a list of distinct contexts, the position of the entry at `i` is `i`.
pub proof fn lemma_position(instances: Seq<ActionInstance>, i: int)
    requires
        distinct_contexts(instances),
        0 <= i < instances.len(),
    ensures
        position_of(instances, instances[i].context@) == Some(i),
{
    let c = instances[i].context@;
    let w = choose|w: int| 0 <= w < instances.len() && (#[trigger] instances[w]).context@ == c;
    if w != i {
        assert(instances[w].context@ != instances[i].context@);
    }
}

/// Replacing the entry at `i` by one of the same context moves no other
/// context.
proof fn lemma_position_same(old: Seq<ActionInstance>, new: Seq<ActionInstance>, c: Seq<char>, i: int)
    requires
        distinct_contexts(old),
        distinct_contexts(new),
        old.len() == new.len(),
        0 <= i < old.len(),
        new[i].context@ == old[i].context@,
        forall|j: int| 0 <= j < old.len() && j != i ==> new[j] == old[j],
        c != old[i].context@,
    ensures
        position_of(new, c) == position_of(old, c),
{
    if exists|j: int| 0 <= j < old.len() && (#[trigger] old[j]).context@ == c {
        let j = choose|j: int| 0 <= j < old.len() && (#[trigger] old[j]).context@ == c;
        assert(new[j] == old[j]);
        lemma_position(old, j);
        lemma_position(new, j);
    } else {
        assert forall|j: int| 0 <= j < new.len() implies (#[trigger] new[j]).context@ != c by {
            if j != i {
                assert(new[j] == old[j]);
            }
        }
    }
}

/// Appending a new context moves no other context.
proof fn lemma_position_push(old: Seq<ActionInstance>, inst: ActionInstance, c: Seq<char>)
    requires
        distinct_contexts(old),
        distinct_contexts(old.push(inst)),
        c != inst.context@,
    ensures
        position_of(old.push(inst), c) == position_of(old, c),
{
    let new = old.push(inst);
    if exists|j: int| 0 <= j < old.len() && (#[trigger] old[j]).context@ == c {
        let j = choose|j: int| 0 <= j < old.len() && (#[trigger] old[j]).context@ == c;
        assert(new[j] == old[j]);
        lemma_position(old, j);
        lemma_position(new, j);
    } else {
        assert forall|j: int| 0 <= j < new.len() implies (#[trigger] new[j]).context@ != c by {
            if j < old.len() {
                assert(new[j] == old[j]);
            }
        }
    }
}

/// Removing the entry for `c` at `i` leaves the others in place.
proof fn lemma_position_remove(
    old: Seq<ActionInstance>,
    new: Seq<ActionInstance>,
    c: Seq<char>,
    i: int,
)
    requires
        distinct_contexts(old),
        distinct_contexts(new),
        0 <= i < old.len(),
        old[i].context@ == c,
        new == old.remove(i),
    ensures
        position_of(new, c) is None,
        forall|d: Seq<char>| #![trigger position_of(new, d)] d != c ==> match position_of(old, d) {
            Some(p) => position_of(new, d) matches Some(q) && new[q] == old[p],
            None => position_of(new, d) is None,
        },
{
    assert forall|j: int| 0 <= j < new.len() implies (#[trigger] new[j]).context@ != c by {
        if j < i {
            assert(new[j] == old[j]);
        } else {
            assert(new[j] == old[j + 1]);
        }
    }
    assert forall|d: Seq<char>| #![trigger position_of(new, d)] d != c implies match position_of(old, d) {
        Some(p) => position_of(new, d) matches Some(q) && new[q] == old[p],
        None => position_of(new, d) is None,
    } by {
        if exists|j: int| 0 <= j < old.len() && (#[trigger] old[j]).context@ == d {
            let j = choose|j: int| 0 <= j < old.len() && (#[trigger] old[j]).context@ == d;
            lemma_position(old, j);
            let q = if j < i {
                j
            } else {
                j - 1
            };
            assert(new[q] == old[j]);
            lemma_position(new, q);
        } else {
            assert forall|j: int| 0 <= j < new.len() implies (#[trigger] new[j]).context@ != d by {
                if j < i {
                    assert(new[j] == old[j]);
                } else {
                    assert(new[j] == old[j + 1]);
                }
            }
        }
    }
}

// ============================================================================
// Laws
// ============================================================================

/// A profile button moves to a profile it highlights: once the next profile
/// of its cycle is current, the button is active.
pub proof fn profile_cycle_stays_selected(settings: ActionSettings, state: DeviceState, next: u8)
    requires
        settings.mode == ActionMode::Profile,
        is_cycle_successor(settings.selected_values@, state.current_profile, next),
    ensures
        active_for(settings, DeviceState { current_profile: next, ..state }),
{
}

/// The profile cycle goes up through the selected profiles and wraps from the
/// highest to the lowest.
pub proof fn profile_cycle_order(values: Seq<u8>, current: u8, next: u8)
    requires
        is_cycle_successor(values, current, next),
    ensures
        values.contains(next),
        next > current || forall|i: int| 0 <= i < values.len() ==> #[trigger] values[i] <= current
            && next <= values[i],
        next > current ==> forall|i: int|
            0 <= i < values.len() && #[trigger] values[i] > current ==> next <= values[i],
{
}

/// The DPI cycle is the rotation 1, 2, ..., n, 1 over the stages of the
/// current profile: from stage `c` it moves to `c mod n + 1`.
pub proof fn dpi_cycle_rotates(stage_count: nat, current: u8)
    requires
        1 <= current <= stage_count,
        stage_count < 256,
    ensures
        next_dpi_stage(stage_count, current) == Some((((current as nat) % stage_count) + 1) as u8),
{
    assert(stage_count % 256 == stage_count);
    let c = current as nat;
    if c < stage_count {
        vstd::arithmetic::div_mod::lemma_small_mod(c, stage_count);
    } else {
        assert(c == stage_count);
        vstd::arithmetic::div_mod::lemma_mod_self_0(stage_count as int);
    }
}

/// A key press on a cycling button switches to a setting that the button
/// shows as current: after a DPI button's press the new stage is a stage of
/// the profile.
pub proof fn dpi_press_in_range(instance: ActionInstance, state: DeviceState, action: KeyAction)
    requires
        instance.settings.mode == ActionMode::Dpi,
        key_response(instance, state, action),
        state.dpi_stages@.len() < 256,
    ensures
        action matches KeyAction::SetDpiStage { profile, stage } ==> profile == state.current_profile
            && 1 <= stage <= state.dpi_stages@.len(),
{
}

/// A button is brought up to date by three commands for its own context.
/// A profile or DPI button whose settings ask for the battery bar clears its
/// title and shows the battery-bar image with its title and the battery in
/// it; any other button clears its image and shows its title. The last
/// command highlights the button (state 1) exactly when the current profile
/// (profile button) or DPI stage (DPI button) is one of its selected values,
/// and sets state 0 otherwise.
pub proof fn display_law(cmds: Seq<DisplayCommand>, instance: ActionInstance, state: DeviceState)
    requires
        display_updates(cmds, instance, state),
    ensures
        cmds.len() == 3,
        instance.settings.show_battery && instance.settings.mode != ActionMode::Battery ==> (
        cmds[0] matches DisplayCommand::SetTitle { context, payload } && context@ == instance.context@
            && payload.title@.len() == 0),
        instance.settings.show_battery && instance.settings.mode != ActionMode::Battery ==> (
        cmds[1] matches DisplayCommand::SetImage { context, payload } && context@ == instance.context@
            && payload.image@ == svg_data_uri(
            base64_standard(
                battery_bar_svg(
                    title_for(instance.settings.mode, state),
                    state.battery.percentage,
                    state.battery.charging,
                ),
            ),
        )),
        !(instance.settings.show_battery && instance.settings.mode != ActionMode::Battery) ==> (
        cmds[0] matches DisplayCommand::SetImage { context, payload } && context@ == instance.context@
            && payload.image@.len() == 0),
        !(instance.settings.show_battery && instance.settings.mode != ActionMode::Battery) ==> (
        cmds[1] matches DisplayCommand::SetTitle { context, payload } && context@ == instance.context@
            && payload.title@ == title_for(instance.settings.mode, state)),
        cmds[2] matches DisplayCommand::SetState { context, payload } && context@ == instance.context@
            && (payload.state == 0 || payload.state == 1) && (payload.state == 1 <==> (
        (instance.settings.mode == ActionMode::Profile && instance.settings.selected_values@.contains(
            state.current_profile,
        )) || (instance.settings.mode == ActionMode::Dpi
            && instance.settings.selected_values@.contains(state.current_dpi_stage)))),
{
}

/// The title of a button: `P` and the profile number for a profile button;
/// for a DPI button the X DPI of the current stage (counted from 1), or
/// `DPI` and the stage number when the profile has no such stage; for a
/// battery button the percentage, `%`, and `+` while charging.
pub proof fn title_law(mode: ActionMode, state: DeviceState)
    ensures
        mode == ActionMode::Profile ==> title_for(mode, state) == seq!['P'] + decimal(
            state.current_profile as nat,
        ),
        mode == ActionMode::Dpi && 1 <= state.current_dpi_stage <= state.dpi_stages@.len()
            ==> title_for(mode, state) == decimal(
            state.dpi_stages@[state.current_dpi_stage - 1].x as nat,
        ),
        mode == ActionMode::Dpi && !(1 <= state.current_dpi_stage <= state.dpi_stages@.len())
            ==> title_for(mode, state) == seq!['D', 'P', 'I'] + decimal(
            state.current_dpi_stage as nat,
        ),
        mode == ActionMode::Battery && state.battery.charging ==> title_for(mode, state) == decimal(
            state.battery.percentage as nat,
        ) + seq!['%', '+'],
        mode == ActionMode::Battery && !state.battery.charging ==> title_for(mode, state)
            == decimal(state.battery.percentage as nat) + seq!['%'],
{
    reveal_strlit("DPI");
    if mode == ActionMode::Battery {
        let d = decimal(state.battery.percentage as nat);
        assert(d + seq!['%'] + seq!['+'] =~= d + seq!['%', '+']);
        assert(d + seq!['%'] + Seq::<char>::empty() =~= d + seq!['%']);
    }
    if mode == ActionMode::Dpi {
        assert("DPI"@ =~= seq!['D', 'P', 'I']);
    }
}

} // verus!
