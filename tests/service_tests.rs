use pixie::commands::{action_direction, action_monitor_direction, runtime_bindings, validate_slot};
use pixie::config::{Action, Config, KeyCode, MOD_ALT, MOD_SHIFT, MOD_SUPER};
use pixie::error::PixieError;
use pixie::navigation::Direction;
use pixie::notification::{escape_applescript_string, notification_script};
use pixie::screens::MonitorDirection;
use pixie::window_service::{
    find_window_by_id, find_window_element_by_id, frontmost_application_pid, test_api_access, WindowInfo,
};

#[test]
fn permission_check() {
    assert!(test_api_access(true).is_ok());
    assert!(matches!(test_api_access(false), Err(PixieError::Accessibility(_))));
}

#[test]
fn frontmost_owner_is_first_standard_layer_window() {
    assert_eq!(frontmost_application_pid(&vec![(25, Some(1)), (0, None), (0, Some(7)), (0, Some(8))]), Some(7));
    assert_eq!(frontmost_application_pid(&vec![(3, Some(1))]), None);
}

#[test]
fn window_lookup_by_id() {
    let ids = vec![Some(5), None, Some(9), Some(9)];
    assert_eq!(find_window_by_id(&ids, 9).unwrap(), 2);
    assert!(matches!(find_window_by_id(&ids, 4), Err(PixieError::WindowNotFound)));
    assert_eq!(find_window_element_by_id(&ids, 9).unwrap(), 2);
    assert!(matches!(find_window_element_by_id(&ids, 4), Err(PixieError::WindowNotFound)));
    assert!(matches!(find_window_element_by_id(&vec![Some(1)], 2), Err(PixieError::WindowNotFound)));
    assert!(matches!(find_window_element_by_id(&vec![], 4), Err(PixieError::WindowNotFound)));
}

#[test]
fn window_info_display() {
    let info = WindowInfo { pid: 12, title: "Notes".to_string(), role: "AXWindow".to_string() };
    assert_eq!(info.display_string("TextEdit"), "TextEdit - \"Notes\" (PID: 12)");
    let bare = WindowInfo { pid: 3, title: String::new(), role: String::new() };
    assert_eq!(bare.display_string("Finder"), "Finder (PID: 3)");
}

#[test]
fn applescript_escaping() {
    assert_eq!(escape_applescript_string("a\"b\\c"), "a\\\"b\\\\c");
    assert_eq!(
        notification_script("Pixie", "Focused [a]: \"Mail\""),
        "display notification \"Focused [a]: \\\"Mail\\\"\" with title \"Pixie\""
    );
}

#[test]
fn slot_validation() {
    assert_eq!(validate_slot('B').unwrap(), 'b');
    assert_eq!(validate_slot('z').unwrap(), 'z');
    assert!(matches!(validate_slot('1'), Err(PixieError::Config(_))));
}

#[test]
fn runtime_bindings_fall_back_on_invalid_leader() {
    let mut cfg = Config::default();
    let b = runtime_bindings(&cfg);
    assert!(b.leader_key_valid);
    assert_eq!(b.leader_modifiers.bits, MOD_SUPER | MOD_SHIFT);
    assert_eq!(b.leader_keycode, KeyCode::KeyA);
    assert_eq!(b.timeout_secs, 2);
    cfg.leader_key = "alt+space".to_string();
    cfg.keybinds = vec![("leader+x".to_string(), Action::Minimize), ("???".to_string(), Action::Center)];
    let b = runtime_bindings(&cfg);
    assert_eq!(b.leader_modifiers.bits, MOD_ALT);
    assert_eq!(b.leader_keycode, KeyCode::Space);
    assert_eq!(b.keybinds.len(), 1);
    assert!(!b.all_keybinds_valid);
    cfg.leader_key = "nonsense+".to_string();
    let b = runtime_bindings(&cfg);
    assert!(!b.leader_key_valid);
    assert_eq!(b.leader_modifiers.bits, MOD_SUPER | MOD_SHIFT);
    cfg.leader_key = "f5".to_string();
    let b = runtime_bindings(&cfg);
    assert_eq!(b.leader_modifiers.bits, MOD_SUPER | MOD_SHIFT);
    assert_eq!(b.leader_keycode, KeyCode::F5);
}

#[test]
fn action_directions() {
    assert_eq!(action_direction(&Action::FocusUp), Some(Direction::Up));
    assert_eq!(action_direction(&Action::Center), None);
    assert_eq!(action_monitor_direction(&Action::MoveMonitorLeft), Some(MonitorDirection::Left));
    assert_eq!(action_monitor_direction(&Action::Place("x".to_string())), None);
}

#[test]
fn error_messages() {
    assert_eq!(PixieError::Config("Unknown key".to_string()).message(), "Configuration error: Unknown key");
    assert_eq!(PixieError::NoWindowRegistered.message(), "No window registered");
    assert_eq!(PixieError::Accessibility("denied".to_string()).message(), "Accessibility API error: denied");
}
