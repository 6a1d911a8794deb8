use pixie::config::{
    builtin_placements, default_leader_key, find_placement, parse_key_code, parse_leader_key,
    parse_modifier, parse_percentage, special_key_to_code, function_key_to_code, Action, Config,
    KeyCode, Keybind, MOD_ALT, MOD_CONTROL, MOD_SHIFT, MOD_SUPER,
};
use pixie::error::PixieError;
use pixie::geometry::{Rect, Screen, WindowRect};
use pixie::placement::{apply_placement, parse_position_value, parse_size_value, Placement};

fn p(top: Option<&str>, left: Option<&str>, width: Option<&str>, height: Option<&str>) -> Placement {
    Placement {
        top: top.map(String::from),
        left: left.map(String::from),
        width: width.map(String::from),
        height: height.map(String::from),
    }
}

#[test]
fn scenario_left_half_on_primary_screen() {
    let primary = Screen { x: 0, y: 0, width: 2000, height: 1200, is_main: true };
    let w = WindowRect { x: 300, y: 25, width: 640, height: 480, pid: 1, window_id: Some(1) };
    let placement = p(None, Some("0%"), Some("50%"), Some("100%"));
    assert_eq!(apply_placement(&w, &vec![primary], &placement).unwrap(), Rect { x: 0, y: 25, width: 1000, height: 1175 });
}

#[test]
fn placement_resolves_size_before_position() {
    let primary = Screen { x: 0, y: 0, width: 2000, height: 1200, is_main: true };
    let w = WindowRect { x: 10, y: 40, width: 1800, height: 1000, pid: 1, window_id: Some(1) };
    let centered_half = p(Some("center"), Some("center"), Some("50%"), Some("50%"));
    // centering uses the requested size, not the window's current one
    let r = apply_placement(&w, &vec![primary], &centered_half).unwrap();
    assert_eq!(r, Rect { x: 500, y: 25 + 294, width: 1000, height: 587 });
    let keep = p(None, None, None, None);
    assert_eq!(apply_placement(&w, &vec![primary], &keep).unwrap(), Rect { x: 10, y: 40, width: 1800, height: 1000 });
}

#[test]
fn bad_placement_tokens_are_config_errors() {
    let primary = Screen { x: 0, y: 0, width: 2000, height: 1200, is_main: true };
    let w = WindowRect { x: 0, y: 0, width: 100, height: 100, pid: 1, window_id: Some(1) };
    let bad = p(None, None, Some("center"), None);
    assert!(matches!(apply_placement(&w, &vec![primary], &bad), Err(PixieError::Config(_))));
    let bad2 = p(Some("half"), None, None, None);
    assert!(matches!(apply_placement(&w, &vec![primary], &bad2), Err(PixieError::Config(_))));
    let good = p(None, None, None, None);
    assert!(matches!(apply_placement(&w, &vec![], &good), Err(PixieError::Accessibility(_))));
}

#[test]
fn percentages_parse_exactly() {
    let half = parse_percentage("50%").unwrap();
    assert_eq!((half.numerator, half.denominator), (50, 100));
    let third = parse_percentage("  33.5% ").unwrap();
    assert_eq!((third.numerator, third.denominator), (335, 1000));
    let neg = parse_percentage("-10%").unwrap();
    assert_eq!((neg.numerator, neg.denominator), (-10, 100));
    assert!(matches!(parse_percentage("50"), Err(PixieError::Config(_))));
    assert!(matches!(parse_percentage("%"), Err(PixieError::Config(_))));
    assert!(matches!(parse_percentage("1.2.3%"), Err(PixieError::Config(_))));
    assert!(matches!(parse_percentage("abc%"), Err(PixieError::Config(_))));
}

#[test]
fn size_and_position_values() {
    assert_eq!(parse_size_value("25%", 1920).unwrap(), 480);
    assert_eq!(parse_size_value(" 100% ", 1175).unwrap(), 1175);
    assert_eq!(parse_position_value("center", 1000, 400).unwrap(), 300);
    assert_eq!(parse_position_value(" center ", 1000, 401).unwrap(), 299);
    assert_eq!(parse_position_value("50%", 1000, 400).unwrap(), 500);
    assert!(matches!(parse_size_value("center", 1000), Err(PixieError::Config(_))));
}

#[test]
fn modifiers_and_keys() {
    assert_eq!(parse_modifier("cmd").unwrap().bits, MOD_SUPER);
    assert_eq!(parse_modifier("option").unwrap().bits, MOD_ALT);
    assert_eq!(parse_modifier("control").unwrap().bits, MOD_CONTROL);
    assert!(matches!(parse_modifier("hyper"), Err(PixieError::Config(_))));
    assert_eq!(parse_key_code("a").unwrap(), KeyCode::KeyA);
    assert_eq!(parse_key_code("7").unwrap(), KeyCode::Digit7);
    assert_eq!(parse_key_code("Esc").unwrap(), KeyCode::Escape);
    assert_eq!(parse_key_code("f12").unwrap(), KeyCode::F12);
    assert!(matches!(parse_key_code("f13"), Err(PixieError::Config(_))));
    assert!(matches!(parse_key_code("A"), Err(PixieError::Config(_))));
    assert!(matches!(parse_key_code("xyz"), Err(PixieError::Config(_))));
}

#[test]
fn case_conversions_reach_the_outside_functions() {
    // only a real lower-casing turns these names into known ones
    assert_eq!(special_key_to_code("PageDown"), Some(KeyCode::PageDown));
    assert_eq!(special_key_to_code("RETURN"), Some(KeyCode::Enter));
    // only a real upper-casing turns "f5" into "F5"
    assert_eq!(function_key_to_code("f5").unwrap(), KeyCode::F5);
}

#[test]
fn leader_key_combinations() {
    let (m, k) = parse_leader_key("CMD+Shift+A").unwrap();
    assert_eq!(m.unwrap().bits, MOD_SUPER | MOD_SHIFT);
    assert_eq!(k, KeyCode::KeyA);
    let (m, k) = parse_leader_key(" ctrl + alt + space ").unwrap();
    assert_eq!(m.unwrap().bits, MOD_CONTROL | MOD_ALT);
    assert_eq!(k, KeyCode::Space);
    let (m, k) = parse_leader_key("f1").unwrap();
    assert!(m.is_none());
    assert_eq!(k, KeyCode::F1);
    assert!(matches!(parse_leader_key("hyper+a"), Err(PixieError::Config(_))));
    assert!(matches!(parse_leader_key("cmd+"), Err(PixieError::Config(_))));
}

#[test]
fn keybinds_direct_and_leader_prefixed() {
    assert_eq!(Config::parse_keybind("Leader+ h").unwrap(), Keybind::LeaderPrefixed { code: KeyCode::KeyH });
    let direct = Config::parse_keybind("alt+left").unwrap();
    match direct {
        Keybind::Direct { modifiers, code } => {
            assert_eq!(modifiers.unwrap().bits, MOD_ALT);
            assert_eq!(code, KeyCode::ArrowLeft);
        }
        _ => panic!("expected a direct keybinding"),
    }
    assert!(matches!(Config::parse_keybind("leader+nope"), Err(PixieError::Config(_))));
}

#[test]
fn parsed_keybinds_drop_invalid_entries() {
    let mut cfg = Config::default();
    cfg.keybinds = vec![
        ("leader+h".to_string(), Action::FocusLeft),
        ("bogus+x".to_string(), Action::Minimize),
        ("cmd+alt+m".to_string(), Action::Place("left".to_string())),
    ];
    let parsed = cfg.parsed_keybinds();
    assert_eq!(parsed.len(), 2);
    assert_eq!(parsed[0].keybind, Keybind::LeaderPrefixed { code: KeyCode::KeyH });
    assert_eq!(parsed[0].action, Action::FocusLeft);
    assert_eq!(parsed[1].action, Action::Place("left".to_string()));
}

#[test]
fn defaults_and_builtin_placements() {
    let cfg = Config::default();
    assert_eq!(cfg.leader_key, "cmd+shift+a");
    assert_eq!(default_leader_key(), "cmd+shift+a");
    assert_eq!(cfg.timeout, 2);
    assert!(cfg.menubar_icon);
    let b = builtin_placements();
    assert_eq!(b.len(), 9);
    let left = find_placement(&b, "left").unwrap();
    assert_eq!(left.left.as_deref(), Some("0%"));
    assert_eq!(left.width.as_deref(), Some("50%"));
    assert_eq!(left.height.as_deref(), Some("100%"));
    assert!(left.top.is_none());
    let center = find_placement(&b, "center").unwrap();
    assert_eq!(center.top.as_deref(), Some("center"));
    assert!(center.width.is_none());
    assert!(find_placement(&b, "nowhere").is_none());
}

#[test]
fn user_placements_override_builtins() {
    let mut cfg = Config::default();
    cfg.placements = vec![("left".to_string(), p(None, Some("0%"), Some("30%"), Some("100%"))), ("mine".to_string(), p(Some("10%"), None, None, None))];
    let all = cfg.get_placements();
    assert_eq!(find_placement(&all, "left").unwrap().width.as_deref(), Some("30%"));
    assert_eq!(find_placement(&all, "mine").unwrap().top.as_deref(), Some("10%"));
    assert_eq!(find_placement(&all, "right").unwrap().left.as_deref(), Some("50%"));
}

#[test]
fn parsers_after_case_and_trim() {
    let (m, k) = pixie::config::parse_lowered_combination("cmd+shift+a").unwrap();
    assert_eq!(m.unwrap().bits, MOD_SUPER | MOD_SHIFT);
    assert_eq!(k, KeyCode::KeyA);
    assert!(matches!(pixie::config::parse_lowered_combination("CMD+a"), Err(PixieError::Config(_))));
    assert_eq!(pixie::config::parse_lowered_keybind("leader+ j").unwrap(), Keybind::LeaderPrefixed { code: KeyCode::KeyJ });
    let p = pixie::config::percent_from_trimmed("12.5%").unwrap();
    assert_eq!((p.numerator, p.denominator), (125, 1000));
    assert!(matches!(pixie::config::percent_from_trimmed(" 12%"), Err(PixieError::Config(_))));
    assert_eq!(pixie::placement::parse_trimmed_position("center", 1000, 200).unwrap(), 400);
    assert!(matches!(pixie::placement::parse_trimmed_position(" center", 1000, 200), Err(PixieError::Config(_))));
    // non-breaking space and ideographic space are White_Space too
    assert_eq!(parse_size_value("\u{a0}50%\u{3000}", 2000).unwrap(), 1000);
}
