use pixie::config::{Action, KeyCode, Keybind, KeybindEntry, Modifiers, MOD_SHIFT, MOD_SUPER};
use pixie::error::PixieError;
use pixie::event_tap::{route_tap_action, EventHandler, EventTapAction, EventTapState, Routed, TapEventType};
use pixie::keymap::{keycode_to_letter, keycode_to_native};
use pixie::leader_mode::{LeaderModeController, LeaderModeEvent};
use pixie::navigation::Direction;
use pixie::picker::PickerInput;
use pixie::window::{SavedWindow, WindowManager};

fn is_terminal(e: &Option<LeaderModeEvent>) -> bool {
    e.is_some()
}

#[test]
fn key_then_timeout_emits_one_event() {
    let mut c = LeaderModeController::new();
    let period = c.enter_listening_mode();
    let first = c.handle_key('a', false);
    let second = c.on_timeout(period);
    assert!(matches!(first, Some(LeaderModeEvent::FocusSlot('a'))));
    assert!(second.is_none());
    assert!(!c.is_listening());
}

#[test]
fn timeout_then_key_emits_one_event() {
    let mut c = LeaderModeController::with_timeout(3);
    let period = c.enter_listening_mode();
    let first = c.on_timeout(period);
    let second = c.handle_key('a', true);
    assert!(matches!(first, Some(LeaderModeEvent::Cancelled)));
    assert!(second.is_none());
    let emitted = [first, second].iter().filter(|e| is_terminal(e)).count();
    assert_eq!(emitted, 1);
}

#[test]
fn stale_timer_does_not_cancel_a_new_period() {
    let mut c = LeaderModeController::new();
    let old = c.enter_listening_mode();
    let _ = c.handle_key('b', false);
    let new = c.enter_listening_mode();
    assert_ne!(old, new);
    assert!(c.on_timeout(old).is_none());
    assert!(c.is_listening());
    assert!(matches!(c.on_timeout(new), Some(LeaderModeEvent::Cancelled)));
}

#[test]
fn reentering_while_listening_keeps_one_timer_live() {
    let mut c = LeaderModeController::new();
    let p1 = c.enter_listening_mode();
    let p2 = c.enter_listening_mode();
    assert!(c.on_timeout(p1).is_none());
    assert!(matches!(c.on_timeout(p2), Some(LeaderModeEvent::Cancelled)));
}

#[test]
fn idle_controller_ignores_keys() {
    let mut c = LeaderModeController::new();
    assert!(c.handle_key('a', false).is_none());
    assert!(c.handle_direction(Direction::Left).is_none());
    assert!(c.handle_action(Action::Center).is_none());
    assert!(c.cancel().is_none());
}

#[test]
fn resolving_keys_give_their_intents() {
    let mut c = LeaderModeController::new();
    c.enter_listening_mode();
    assert!(matches!(c.handle_direction(Direction::Up), Some(LeaderModeEvent::FocusDirection(Direction::Up))));
    c.enter_listening_mode();
    assert!(matches!(c.handle_action(Action::Tile), Some(LeaderModeEvent::KeybindAction(Action::Tile))));
    c.enter_listening_mode();
    assert!(matches!(c.handle_key('1', false), Some(LeaderModeEvent::Cancelled)));
    c.enter_listening_mode();
    assert!(matches!(c.cancel(), Some(LeaderModeEvent::Cancelled)));
}

#[test]
fn timeout_changes_apply_to_later_periods() {
    let mut c = LeaderModeController::new();
    assert_eq!(c.timeout_secs(), 2);
    let p = c.enter_listening_mode();
    c.set_timeout(5);
    assert_eq!(c.timeout_secs(), 5);
    assert!(c.is_listening());
    assert!(c.on_timeout(p).is_some());
}

fn saved(pid: i32, id: u32) -> SavedWindow {
    SavedWindow { pid, window_id: id, app_name: "Safari".to_string(), title: "Docs".to_string() }
}

#[test]
fn shift_register_and_plain_focus_share_the_slot() {
    let mut c = LeaderModeController::new();
    let mut m = WindowManager::new();
    c.enter_listening_mode();
    let slot = match c.handle_key('a', true) {
        Some(LeaderModeEvent::RegisterSlot(s)) => s,
        other => panic!("unexpected {:?}", other),
    };
    assert_eq!(slot, 'A');
    let (key, _) = m.register_current_window(slot, saved(10, 20));
    assert_eq!(key, 'a');
    c.enter_listening_mode();
    let focus = match c.handle_key('a', false) {
        Some(LeaderModeEvent::FocusSlot(s)) => s,
        other => panic!("unexpected {:?}", other),
    };
    let w = m.focus_saved_window(focus).unwrap();
    assert_eq!((w.pid, w.window_id), (10, 20));
    assert_eq!(m.get_all_saved_windows().len(), 1);
    assert_eq!(m.get_all_saved_windows()[0].0, 'a');
}

#[test]
fn slots_register_replace_and_clear() {
    let mut m = WindowManager::new();
    assert!(matches!(m.focus_saved_window('q'), Err(PixieError::NoWindowRegistered)));
    m.register_current_window('q', saved(1, 1));
    m.register_current_window('Q', saved(2, 2));
    m.register_current_window('w', saved(3, 3));
    assert_eq!(m.get_saved_window('q').unwrap().pid, 2);
    assert_eq!(m.get_all_saved_windows().len(), 2);
    assert!(m.clear_slot('Q'));
    assert!(!m.clear_slot('q'));
    assert!(m.get_saved_window('q').is_none());
    m.clear_all_windows();
    assert!(m.get_all_saved_windows().is_empty());
}

#[test]
fn saved_window_display() {
    let w = saved(10, 20);
    assert_eq!(w.display_string(), "Safari - \"Docs\"");
    let untitled = SavedWindow { pid: 42, window_id: 1, app_name: "Finder".to_string(), title: String::new() };
    assert_eq!(untitled.display_string(), "Finder (PID: 42)");
    let neg = SavedWindow { pid: -5, window_id: 1, app_name: "X".to_string(), title: String::new() };
    assert_eq!(neg.display_string(), "X (PID: -5)");
}

fn handler() -> EventHandler {
    EventHandler {
        leader_modifiers: Modifiers::from_bits(MOD_SUPER | MOD_SHIFT),
        leader_keycode: keycode_to_native(KeyCode::KeyA),
        keybinds: vec![KeybindEntry { keybind: Keybind::LeaderPrefixed { code: KeyCode::KeyH }, action: Action::FocusLeft }],
    }
}

fn idle() -> EventTapState {
    EventTapState { is_listening: false, leader_modifiers_active: false, picker_repeat_counter: 0 }
}

#[test]
fn tap_detects_the_leader_chord_then_resolves() {
    let h = handler();
    let mut st = idle();
    let mods = Modifiers::from_bits(MOD_SUPER | MOD_SHIFT);
    let d = h.handle_event(&mut st, TapEventType::FlagsChanged, 56, mods, false, false);
    assert!(d.action.is_none() && !d.swallow && st.leader_modifiers_active);
    let d = h.handle_event(&mut st, TapEventType::KeyDown, 0, mods, false, false);
    assert!(matches!(d.action, Some(EventTapAction::LeaderPressed)) && d.swallow && st.is_listening);
    // the leader-prefixed binding on 'h' (key code 4) wins over the letter
    let d = h.handle_event(&mut st, TapEventType::KeyDown, 4, Modifiers::from_bits(0), false, false);
    assert!(matches!(d.action, Some(EventTapAction::ActionTriggered(Action::FocusLeft))) && d.swallow);
    assert!(!st.is_listening);
    // not listening: keys pass through
    let d = h.handle_event(&mut st, TapEventType::KeyDown, 1, Modifiers::from_bits(0), false, false);
    assert!(d.action.is_none() && !d.swallow);
}

#[test]
fn tap_reports_arrows_letters_and_other_keys_while_listening() {
    let h = handler();
    let mut st = EventTapState { is_listening: true, ..idle() };
    let d = h.handle_event(&mut st, TapEventType::KeyDown, 126, Modifiers::from_bits(0), false, false);
    assert!(matches!(d.action, Some(EventTapAction::ArrowPressed(Direction::Up))));
    st.is_listening = true;
    let d = h.handle_event(&mut st, TapEventType::KeyDown, 1, Modifiers::from_bits(MOD_SHIFT), false, false);
    assert!(matches!(d.action, Some(EventTapAction::KeyPressed(1, true))));
    st.is_listening = true;
    let d = h.handle_event(&mut st, TapEventType::KeyDown, 53, Modifiers::from_bits(0), false, false);
    assert!(matches!(d.action, Some(EventTapAction::KeyPressed(53, false))) && d.swallow);
}

#[test]
fn tap_feeds_the_picker_and_thins_auto_repeat() {
    let h = handler();
    let mut st = idle();
    let none = Modifiers::from_bits(0);
    let d = h.handle_event(&mut st, TapEventType::KeyDown, 125, none, false, true);
    assert!(matches!(d.action, Some(EventTapAction::PickerInput(PickerInput::SelectDown))) && d.swallow);
    let d1 = h.handle_event(&mut st, TapEventType::KeyDown, 125, none, true, true);
    let d2 = h.handle_event(&mut st, TapEventType::KeyDown, 125, none, true, true);
    let d3 = h.handle_event(&mut st, TapEventType::KeyDown, 125, none, true, true);
    assert!(d1.action.is_some() && d2.action.is_none() && d3.action.is_some());
    let d = h.handle_event(&mut st, TapEventType::KeyDown, 0, none, true, true);
    assert!(d.action.is_none() && d.swallow);
    let d = h.handle_event(&mut st, TapEventType::KeyDown, 0, Modifiers::from_bits(MOD_SHIFT), false, true);
    assert!(matches!(d.action, Some(EventTapAction::PickerInput(PickerInput::SearchChar('A')))));
    let d = h.handle_event(&mut st, TapEventType::KeyDown, 122, none, false, true);
    assert!(d.action.is_none() && !d.swallow);
}

#[test]
fn routing_reaches_the_controller() {
    let mut c = LeaderModeController::new();
    let r = route_tap_action(&mut c, EventTapAction::LeaderPressed);
    assert!(matches!(r, Routed::Listening(_)));
    let r = route_tap_action(&mut c, EventTapAction::KeyPressed(0, true));
    assert!(matches!(r, Routed::Leader(Some(LeaderModeEvent::RegisterSlot('A')))));
    route_tap_action(&mut c, EventTapAction::LeaderPressed);
    let r = route_tap_action(&mut c, EventTapAction::KeyPressed(53, false));
    assert!(matches!(r, Routed::Leader(Some(LeaderModeEvent::Cancelled))));
    let r = route_tap_action(&mut c, EventTapAction::ArrowPressed(Direction::Left));
    assert!(matches!(r, Routed::Leader(None)));
    let r = route_tap_action(&mut c, EventTapAction::PickerInput(PickerInput::Confirm));
    assert!(matches!(r, Routed::Picker(PickerInput::Confirm)));
    assert_eq!(keycode_to_letter(0), Some('a'));
    assert_eq!(keycode_to_letter(45), Some('n'));
    assert_eq!(keycode_to_letter(10), None);
}

#[test]
fn stored_slot_keys_are_lower_case() {
    let mut m = WindowManager::new();
    m.register_current_window('A', saved(1, 1));
    m.register_current_window('Z', saved(2, 2));
    let keys: Vec<char> = m.get_all_saved_windows().iter().map(|(k, _)| *k).collect();
    assert!(keys.iter().all(|k| k.is_ascii_lowercase()));
    assert!(m.get_saved_window('a').is_some() && m.get_saved_window('z').is_some());
}
