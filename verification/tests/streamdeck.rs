use base64::engine::general_purpose::STANDARD;
use base64::Engine;
use lamzuctl::action::{
    battery_title_text, device_name_of, display_commands, event_loop_step, key_down_action,
    starts_battery_poll, ActionInstance, ActionManager, LoopAction, LoopEvent, BATTERY_POLL_SECS,
    POLL_INTERVAL_SECS,
    ActionMode, ActionSettings, DeviceState, DisplayCommand, KeyAction,
};
use lamzuctl::image::{escape_xml, generate_battery_bar_image, generate_text_image};
use lamzuctl::types::{BatteryStatus, DpiStage};

fn settings(mode: ActionMode, values: &[u8], show_battery: bool) -> ActionSettings {
    ActionSettings {
        mode,
        selected_values: values.to_vec(),
        device_selector: None,
        show_battery,
    }
}

fn instance(context: &str, s: ActionSettings) -> ActionInstance {
    ActionInstance::new(
        context.to_string(),
        "com.lamzu.action".to_string(),
        "dev".to_string(),
        s,
    )
}

fn state(profile: u8, stage: u8, stages: &[u16], pct: u8, charging: bool) -> DeviceState {
    DeviceState {
        connected: true,
        device_name: "Maya X".to_string(),
        current_profile: profile,
        current_dpi_stage: stage,
        dpi_stages: stages.iter().map(|&x| DpiStage { x, y: x }).collect(),
        battery: BatteryStatus { percentage: pct, charging },
        last_update: None,
    }
}

fn decode_uri(uri: &str) -> String {
    let prefix = "data:image/svg+xml;base64,";
    assert!(uri.starts_with(prefix));
    String::from_utf8(STANDARD.decode(&uri[prefix.len()..]).unwrap()).unwrap()
}

#[test]
fn titles_per_mode() {
    let st = state(3, 2, &[400, 800, 1600], 85, false);
    assert_eq!(instance("a", settings(ActionMode::Profile, &[], false)).display_title(&st), "P3");
    assert_eq!(instance("a", settings(ActionMode::Dpi, &[], false)).display_title(&st), "800");
    assert_eq!(instance("a", settings(ActionMode::Battery, &[], false)).display_title(&st), "85%");
    let charging = state(3, 2, &[], 40, true);
    assert_eq!(
        instance("a", settings(ActionMode::Battery, &[], false)).display_title(&charging),
        "40%+"
    );
    // A stage that is not listed is shown by number.
    assert_eq!(instance("a", settings(ActionMode::Dpi, &[], false)).display_title(&charging), "DPI2");
    assert_eq!(battery_title_text(BatteryStatus { percentage: 100, charging: true }), "100%+");
}

#[test]
fn defaults_of_settings_and_state() {
    let s = ActionSettings::default();
    assert_eq!(s.mode, ActionMode::Battery);
    assert!(s.selected_values.is_empty());
    assert!(s.device_selector.is_none());
    assert!(!s.show_battery);
    let d = DeviceState::default();
    assert!(!d.connected);
    assert_eq!(d.current_profile, 1);
    assert_eq!(d.current_dpi_stage, 1);
    assert!(d.dpi_stages.is_empty());
    assert!(d.last_update.is_none());
    assert_eq!(d.battery, BatteryStatus { percentage: 0, charging: false });
}

#[test]
fn active_when_current_value_selected() {
    let st = state(2, 4, &[400, 800, 1600, 3200], 50, false);
    assert!(instance("a", settings(ActionMode::Profile, &[1, 2], false)).is_active(&st));
    assert!(!instance("a", settings(ActionMode::Profile, &[1, 3], false)).is_active(&st));
    assert!(instance("a", settings(ActionMode::Dpi, &[4], false)).is_active(&st));
    assert!(!instance("a", settings(ActionMode::Battery, &[2, 4], false)).is_active(&st));
}

#[test]
fn profile_cycle_goes_up_then_wraps() {
    let inst = instance("a", settings(ActionMode::Profile, &[4, 1, 3], false));
    assert_eq!(inst.next_cycle_value(&state(1, 1, &[], 0, false)), Some(3));
    assert_eq!(inst.next_cycle_value(&state(3, 1, &[], 0, false)), Some(4));
    assert_eq!(inst.next_cycle_value(&state(4, 1, &[], 0, false)), Some(1));
    // A current profile outside the list moves to the next one above it.
    assert_eq!(inst.next_cycle_value(&state(2, 1, &[], 0, false)), Some(3));
    assert_eq!(inst.next_cycle_value(&state(5, 1, &[], 0, false)), Some(1));
    let empty = instance("a", settings(ActionMode::Profile, &[], false));
    assert_eq!(empty.next_cycle_value(&state(1, 1, &[], 0, false)), None);
}

#[test]
fn dpi_cycle_rotates_through_stages() {
    let inst = instance("a", settings(ActionMode::Dpi, &[], false));
    let stages = [400, 800, 1600];
    assert_eq!(inst.next_cycle_value(&state(1, 1, &stages, 0, false)), Some(2));
    assert_eq!(inst.next_cycle_value(&state(1, 2, &stages, 0, false)), Some(3));
    assert_eq!(inst.next_cycle_value(&state(1, 3, &stages, 0, false)), Some(1));
    assert_eq!(inst.next_cycle_value(&state(1, 7, &stages, 0, false)), Some(1));
    assert_eq!(inst.next_cycle_value(&state(1, 1, &[], 0, false)), None);
    let battery = instance("a", settings(ActionMode::Battery, &[], false));
    assert_eq!(battery.next_cycle_value(&state(1, 1, &stages, 0, false)), None);
}

#[test]
fn key_presses() {
    let st = state(2, 3, &[400, 800, 1600], 60, false);
    assert_eq!(
        key_down_action(&instance("a", settings(ActionMode::Profile, &[1, 2], false)), &st),
        KeyAction::SetProfile(1)
    );
    assert_eq!(
        key_down_action(&instance("a", settings(ActionMode::Profile, &[], false)), &st),
        KeyAction::ShowAlert
    );
    assert_eq!(
        key_down_action(&instance("a", settings(ActionMode::Dpi, &[], false)), &st),
        KeyAction::SetDpiStage { profile: 2, stage: 1 }
    );
    assert_eq!(
        key_down_action(
            &instance("a", settings(ActionMode::Dpi, &[], false)),
            &state(2, 1, &[], 60, false)
        ),
        KeyAction::ShowAlert
    );
    assert_eq!(
        key_down_action(&instance("a", settings(ActionMode::Battery, &[], false)), &st),
        KeyAction::RefreshBattery
    );
}

#[test]
fn profile_press_lands_on_highlighted_profile() {
    let inst = instance("a", settings(ActionMode::Profile, &[2, 5], false));
    let st = state(2, 1, &[], 0, false);
    match key_down_action(&inst, &st) {
        KeyAction::SetProfile(p) => {
            assert_eq!(p, 5);
            assert!(inst.is_active(&state(p, 1, &[], 0, false)));
        }
        other => panic!("unexpected {:?}", other),
    }
}

#[test]
fn dpi_press_stays_within_stages() {
    let inst = instance("a", settings(ActionMode::Dpi, &[], false));
    let stages = [400, 800, 1600, 3200];
    for current in 0..=6u8 {
        match key_down_action(&inst, &state(1, current, &stages, 0, false)) {
            KeyAction::SetDpiStage { profile, stage } => {
                assert_eq!(profile, 1);
                assert!(stage >= 1 && stage as usize <= stages.len());
            }
            other => panic!("unexpected {:?}", other),
        }
    }
}

#[test]
fn display_without_battery_bar() {
    let inst = instance("ctx", settings(ActionMode::Profile, &[3], false));
    let cmds = display_commands(&inst, &state(3, 1, &[], 70, false));
    assert_eq!(cmds.len(), 3);
    match &cmds[0] {
        DisplayCommand::SetImage { context, payload } => {
            assert_eq!(context, "ctx");
            assert_eq!(payload.image, "");
            assert!(payload.target.is_none() && payload.state.is_none());
        }
        other => panic!("unexpected {:?}", other),
    }
    match &cmds[1] {
        DisplayCommand::SetTitle { context, payload } => {
            assert_eq!(context, "ctx");
            assert_eq!(payload.title, "P3");
        }
        other => panic!("unexpected {:?}", other),
    }
    match &cmds[2] {
        DisplayCommand::SetState { context, payload } => {
            assert_eq!(context, "ctx");
            assert_eq!(payload.state, 1);
        }
        other => panic!("unexpected {:?}", other),
    }
}

#[test]
fn display_with_battery_bar() {
    let inst = instance("ctx", settings(ActionMode::Dpi, &[1], true));
    let st = state(1, 2, &[400, 800], 30, false);
    let cmds = display_commands(&inst, &st);
    assert_eq!(cmds.len(), 3);
    match &cmds[0] {
        DisplayCommand::SetTitle { payload, .. } => assert_eq!(payload.title, ""),
        other => panic!("unexpected {:?}", other),
    }
    match &cmds[1] {
        DisplayCommand::SetImage { payload, .. } => {
            assert_eq!(payload.image, generate_battery_bar_image("800", 30, false));
        }
        other => panic!("unexpected {:?}", other),
    }
    match &cmds[2] {
        DisplayCommand::SetState { payload, .. } => assert_eq!(payload.state, 0),
        other => panic!("unexpected {:?}", other),
    }
}

#[test]
fn battery_mode_never_draws_a_bar() {
    let inst = instance("b", settings(ActionMode::Battery, &[], true));
    let cmds = display_commands(&inst, &state(1, 1, &[], 90, true));
    match &cmds[1] {
        DisplayCommand::SetTitle { payload, .. } => assert_eq!(payload.title, "90%+"),
        other => panic!("unexpected {:?}", other),
    }
}

#[test]
fn xml_escaping() {
    assert_eq!(escape_xml("a&b<c>\"d'"), "a&amp;b&lt;c&gt;&quot;d&apos;");
    assert_eq!(escape_xml("P1"), "P1");
    assert_eq!(escape_xml(""), "");
    let e = escape_xml("<<'\">>&");
    assert!(!e.contains('<') && !e.contains('>') && !e.contains('"') && !e.contains('\''));
}

#[test]
fn text_image_is_base64_svg() {
    let svg = decode_uri(&generate_text_image("P<2>"));
    assert!(svg.starts_with("<svg xmlns=\"http://www.w3.org/2000/svg\" width=\"144\""));
    assert!(svg.contains("font-size=\"36\""));
    assert!(svg.contains(">P&lt;2&gt;</text>"));
    assert!(svg.ends_with("</svg>"));
}

#[test]
fn battery_bar_image_content() {
    let svg = decode_uri(&generate_battery_bar_image("P1", 75, false));
    assert!(svg.contains("<rect x=\"0\" y=\"36\" width=\"144\" height=\"108\" fill=\"url(#barGrad)\"/>"));
    assert!(svg.contains("stop-color:#4CAF50;stop-opacity:0.8"));
    assert!(svg.contains("fill=\"#81C784\""));
    assert!(svg.contains(">75%</text>"));
    assert_eq!(svg.matches(">P1</text>").count(), 2);

    let charging = decode_uri(&generate_battery_bar_image("x", 200, true));
    assert!(charging.contains("y=\"0\" width=\"144\" height=\"144\""));
    assert!(charging.contains("#4FC3F7"));
    assert!(charging.contains(">100% \u{26A1}</text>"));

    let amber = decode_uri(&generate_battery_bar_image("x", 21, false));
    assert!(amber.contains("#FFC107") && amber.contains("#FFD54F"));
    let red = decode_uri(&generate_battery_bar_image("x", 20, false));
    assert!(red.contains("#F44336") && red.contains("#E57373"));
    let green = decode_uri(&generate_battery_bar_image("x", 51, false));
    assert!(green.contains("#4CAF50"));
}

#[test]
fn bar_height_matches_float_formula() {
    for p in 0..=255u8 {
        let shown = p.min(100) as f32;
        let height = (shown / 100.0 * 144.0) as i32;
        let y = 144 - height;
        let svg = decode_uri(&generate_battery_bar_image("t", p, false));
        let expected = format!(
            "<rect x=\"0\" y=\"{}\" width=\"144\" height=\"{}\" fill=\"url(#barGrad)\"/>",
            y, height
        );
        assert!(svg.contains(&expected), "percentage {}", p);
    }
}

#[test]
fn manager_add_get_remove() {
    let mut m = ActionManager::new();
    assert_eq!(m.instance_count(), 0);
    m.add_instance(instance("a", settings(ActionMode::Profile, &[1], false)));
    m.add_instance(instance("b", settings(ActionMode::Battery, &[], false)));
    assert_eq!(m.instance_count(), 2);
    assert_eq!(m.get_instance("a").unwrap().settings.mode, ActionMode::Profile);
    assert!(m.get_instance("z").is_none());

    // Adding under an existing context replaces it.
    m.add_instance(instance("a", settings(ActionMode::Dpi, &[], false)));
    assert_eq!(m.instance_count(), 2);
    assert_eq!(m.get_instance("a").unwrap().settings.mode, ActionMode::Dpi);

    let (removed, stop) = m.remove_instance("a");
    assert_eq!(removed.unwrap().context, "a");
    assert!(stop.is_none());
    assert!(m.get_instance("a").is_none());
    let (again, stop) = m.remove_instance("a");
    assert!(again.is_none() && stop.is_none());
    assert_eq!(m.instance_count(), 1);
    assert_eq!(m.instances().len(), 1);
}

#[test]
fn manager_update_settings_and_modes() {
    let mut m = ActionManager::new();
    m.add_instance(instance("a", settings(ActionMode::Profile, &[1], false)));
    m.add_instance(instance("b", settings(ActionMode::Dpi, &[], false)));
    assert!(!m.has_battery_instances());
    m.update_settings("b", settings(ActionMode::Battery, &[], true));
    assert!(m.has_battery_instances());
    assert!(m.get_instance("b").unwrap().settings.show_battery);
    // Updating an unknown context changes nothing.
    m.update_settings("z", settings(ActionMode::Battery, &[], false));
    assert_eq!(m.instance_count(), 2);
    let batteries = m.instances_with_mode(ActionMode::Battery);
    assert_eq!(batteries.len(), 1);
    assert_eq!(batteries[0].context, "b");
    assert_eq!(m.instances_with_mode(ActionMode::Profile).len(), 1);
}

#[test]
fn manager_battery_polls() {
    let mut m = ActionManager::new();
    m.add_instance(instance("a", settings(ActionMode::Battery, &[], false)));
    assert!(!m.has_battery_poll("a"));
    let (tx_a, mut rx_a) = tokio::sync::mpsc::channel::<()>(1);
    let (tx_a2, mut rx_a2) = tokio::sync::mpsc::channel::<()>(1);
    let (tx_b, mut rx_b) = tokio::sync::mpsc::channel::<()>(1);
    m.register_battery_poll("a", tx_a);
    // Registering again replaces the sender: the first channel closes.
    m.register_battery_poll("a", tx_a2);
    m.register_battery_poll("b", tx_b);
    assert!(m.has_battery_poll("a"));
    assert!(m.has_battery_poll("b"));
    assert_eq!(rx_a.try_recv(), Err(tokio::sync::mpsc::error::TryRecvError::Disconnected));
    let before = m.instance_count();
    let (removed, stop) = m.remove_instance("a");
    assert_eq!(removed.unwrap().context, "a");
    assert_eq!(m.instance_count(), before - 1);
    assert!(!m.has_battery_poll("a"));
    assert!(m.has_battery_poll("b"));
    // The sender handed back is the one registered last for "a".
    assert!(rx_a2.try_recv().is_err());
    stop.unwrap().try_send(()).unwrap();
    assert_eq!(rx_a2.try_recv(), Ok(()));
    assert!(rx_a2.try_recv().is_err());
    assert!(rx_b.try_recv().is_err());
}

#[test]
fn battery_poll_starts_once_for_battery_buttons() {
    assert!(starts_battery_poll(ActionMode::Battery, false));
    assert!(!starts_battery_poll(ActionMode::Battery, true));
    assert!(!starts_battery_poll(ActionMode::Profile, false));
    assert!(!starts_battery_poll(ActionMode::Dpi, false));
}

#[test]
fn event_loop_polls_only_with_visible_actions() {
    assert_eq!(POLL_INTERVAL_SECS, 15);
    assert_eq!(BATTERY_POLL_SECS, 60);
    assert_eq!(event_loop_step(LoopEvent::PollTick, 0), LoopAction::Skip);
    assert_eq!(event_loop_step(LoopEvent::PollTick, 2), LoopAction::RefreshAndRedrawAll);
    assert_eq!(event_loop_step(LoopEvent::SocketText, 0), LoopAction::Dispatch);
    assert_eq!(event_loop_step(LoopEvent::DeviceEvent, 3), LoopAction::Dispatch);
    assert_eq!(event_loop_step(LoopEvent::SocketClosed, 3), LoopAction::Stop);
    assert_eq!(event_loop_step(LoopEvent::SocketError, 0), LoopAction::Stop);
    assert_eq!(event_loop_step(LoopEvent::StreamEnded, 1), LoopAction::Stop);
}

#[test]
fn device_state_updates() {
    let mut st = DeviceState::default();
    st.record_reading(
        "Maya X".to_string(),
        2,
        3,
        vec![DpiStage { x: 400, y: 400 }],
        BatteryStatus { percentage: 55, charging: true },
        1_000,
    );
    assert_eq!(st.last_update, Some(1_000));
    assert!(st.connected);
    assert_eq!(st.device_name, "Maya X");
    assert_eq!((st.current_profile, st.current_dpi_stage), (2, 3));
    assert_eq!(st.dpi_stages.len(), 1);
    st.record_profile(4);
    assert_eq!(st.current_profile, 4);
    assert_eq!(st.current_dpi_stage, 3);
    st.record_dpi(1, vec![DpiStage { x: 800, y: 800 }, DpiStage { x: 1600, y: 1600 }]);
    assert_eq!(st.current_dpi_stage, 1);
    assert_eq!(st.dpi_stages.len(), 2);
    assert_eq!(st.current_profile, 4);
    st.record_battery(BatteryStatus { percentage: 10, charging: false }, 2_000);
    assert_eq!(st.battery.percentage, 10);
    assert_eq!(st.last_update, Some(2_000));
    assert_eq!(st.device_name, "Maya X");
}

#[test]
fn shown_device_names() {
    assert_eq!(device_name_of(&Some("Maya X 8K Dongle".to_string())), "Maya X 8K Dongle");
    assert_eq!(device_name_of(&None), "Unknown");
}

#[test]
fn recorded_profile_switch_highlights_button() {
    let inst = instance("a", settings(ActionMode::Profile, &[1, 3], false));
    let mut st = state(1, 1, &[], 50, false);
    if let KeyAction::SetProfile(p) = key_down_action(&inst, &st) {
        st.record_profile(p);
    }
    assert_eq!(inst.display_title(&st), "P3");
    assert!(inst.is_active(&st));
}
