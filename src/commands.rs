//! Decisions of the command line and of the dispatch loop.

use vstd::prelude::*;

use crate::config::{
    combination_of, lower_of, parse_leader_key, parsed_entries, Action, Config,
    KeyCode, KeybindEntry, Modifiers, MOD_SHIFT, MOD_SUPER,
};
use crate::error::PixieError;
use crate::leader_mode::{ascii_lower, is_ascii_lower, to_lower};
use crate::navigation::Direction;
use crate::screens::MonitorDirection;

verus! {

/// A slot given on the command line: a letter, in either case, stored in
/// lower case.
pub fn validate_slot(slot: char) -> (r: Result<char, PixieError>)
    ensures
        is_ascii_lower(to_lower(slot)) ==> r == Ok::<char, PixieError>(to_lower(slot)),
        !is_ascii_lower(to_lower(slot)) ==> (r matches Err(e) && e is Config),
{
    let s = ascii_lower(slot);
    if 'a' <= s && s <= 'z' {
        Ok(s)
    } else {
        Err(PixieError::Config(String::from_str("Slot must be a letter a-z")))
    }
}

/// Bindings in force for a configuration.
#[derive(Debug)]
pub struct RuntimeBindings {
    pub leader_modifiers: Modifiers,
    pub leader_keycode: KeyCode,
    pub keybinds: Vec<KeybindEntry>,
    pub timeout_secs: u64,
    /// The configured leader key was understood; otherwise cmd+shift+a is used.
    pub leader_key_valid: bool,
    /// Every keybinding was understood.
    pub all_keybinds_valid: bool,
}

/// The leader chord used when none is configured or the configured one is invalid.
pub open spec fn fallback_modifiers() -> u32 {
    MOD_SUPER | MOD_SHIFT
}

/// The leader chord, keybindings and timeout that a configuration sets up.
pub fn runtime_bindings(cfg: &Config) -> (r: RuntimeBindings)
    ensures
        r.timeout_secs == cfg.timeout,
        r.leader_key_valid == combination_of(lower_of(cfg.leader_key@)) is Some,
        match combination_of(lower_of(cfg.leader_key@)) {
            Some(v) => r.leader_keycode == v.1 && r.leader_modifiers.bits == match v.0 {
                Some(b) => b,
                None => fallback_modifiers(),
            },
            None => r.leader_keycode == KeyCode::KeyA && r.leader_modifiers.bits
                == fallback_modifiers(),
        },
        r.keybinds@.len() == parsed_entries(cfg.keybinds@, cfg.keybinds@.len()).len(),
        forall|k: int|
            0 <= k < r.keybinds@.len() ==> (#[trigger] r.keybinds@[k]).keybind == parsed_entries(
                cfg.keybinds@,
                cfg.keybinds@.len(),
            )[k].0 && r.keybinds@[k].action == parsed_entries(
                cfg.keybinds@,
                cfg.keybinds@.len(),
            )[k].1,
        r.all_keybinds_valid == (r.keybinds@.len() == cfg.keybinds@.len()),
{
    let fallback = Modifiers { bits: MOD_SUPER | MOD_SHIFT };
    let (modifiers, code, valid) = match parse_leader_key(cfg.leader_key.as_str()) {
        Ok((m, c)) => (
            match m {
                Some(v) => v,
                None => fallback,
            },
            c,
            true,
        ),
        Err(_) => (fallback, KeyCode::KeyA, false),
    };
    let keybinds = cfg.parsed_keybinds();
    let all_valid = keybinds.len() == cfg.keybinds.len();
    RuntimeBindings {
        leader_modifiers: modifiers,
        leader_keycode: code,
        keybinds,
        timeout_secs: cfg.timeout,
        leader_key_valid: valid,
        all_keybinds_valid: all_valid,
    }
}

/// Direction of a focus action.
pub fn action_direction(action: &Action) -> (r: Option<Direction>)
    ensures
        r == match action {
            Action::FocusLeft => Some(Direction::Left),
            Action::FocusRight => Some(Direction::Right),
            Action::FocusUp => Some(Direction::Up),
            Action::FocusDown => Some(Direction::Down),
            _ => None::<Direction>,
        },
{
    match action {
        Action::FocusLeft => Some(Direction::Left),
        Action::FocusRight => Some(Direction::Right),
        Action::FocusUp => Some(Direction::Up),
        Action::FocusDown => Some(Direction::Down),
        _ => None,
    }
}

/// Direction of a move-to-monitor action.
pub fn action_monitor_direction(action: &Action) -> (r: Option<MonitorDirection>)
    ensures
        r == match action {
            Action::MoveMonitorLeft => Some(MonitorDirection::Left),
            Action::MoveMonitorRight => Some(MonitorDirection::Right),
            Action::MoveMonitorUp => Some(MonitorDirection::Up),
            Action::MoveMonitorDown => Some(MonitorDirection::Down),
            _ => None::<MonitorDirection>,
        },
{
    match action {
        Action::MoveMonitorLeft => Some(MonitorDirection::Left),
        Action::MoveMonitorRight => Some(MonitorDirection::Right),
        Action::MoveMonitorUp => Some(MonitorDirection::Up),
        Action::MoveMonitorDown => Some(MonitorDirection::Down),
        _ => None,
    }
}

} // verus!
