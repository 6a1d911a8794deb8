//! Decisions of the keyboard event tap: spotting the leader chord, turning
//! the keys that follow it into actions, and feeding the picker while it is
//! open. The tap itself runs outside; it hands each event here and swallows
//! the event when told to.

use vstd::prelude::*;

use crate::config::{Action, Keybind, KeybindEntry, Modifiers, MOD_SHIFT};
use crate::keymap::{
    keycode_to_direction, keycode_to_letter, keycode_to_native, letter_of_native, native_code,
    picker_input_from_keycode, picker_input_of_native,
};
use crate::leader_mode::{key_fires, letter_event, LeaderModeController, LeaderModeEvent, entered, resolved};
use crate::navigation::Direction;
use crate::picker::PickerInput;

verus! {

/// What the tap reports to the rest of the program.
#[derive(Debug, Clone)]
pub enum EventTapAction {
    LeaderPressed,
    LeaderReleased,
    /// A key pressed while listening: its virtual key code and whether shift was held.
    KeyPressed(i64, bool),
    ActionTriggered(Action),
    ArrowPressed(Direction),
    PickerInput(PickerInput),
}

/// Kinds of keyboard event the tap sees.
#[derive(Debug, Clone, Copy, PartialEq, Eq, Structural)]
pub enum TapEventType {
    FlagsChanged,
    KeyDown,
    Other,
}

/// What the tap remembers between events.
#[derive(Debug, Clone, Copy, PartialEq, Eq, Structural)]
pub struct EventTapState {
    /// The leader chord was seen and no key has followed yet.
    pub is_listening: bool,
    /// The leader's modifiers are held.
    pub leader_modifiers_active: bool,
    /// Auto-repeats of a picker movement key seen so far.
    pub picker_repeat_counter: u8,
}

/// Result of one event: what to report, and whether to swallow the event.
#[derive(Debug, Clone)]
pub struct TapDecision {
    pub action: Option<EventTapAction>,
    pub swallow: bool,
}

/// The leader chord and the leader-prefixed keybindings.
#[derive(Debug)]
pub struct EventHandler {
    pub leader_modifiers: Modifiers,
    pub leader_keycode: i64,
    pub keybinds: Vec<KeybindEntry>,
}

pub open spec fn next_counter(c: u8) -> u8 {
    if c == 255 {
        0
    } else {
        (c + 1) as u8
    }
}

/// Auto-repeat of a movement key passes every other time.
pub open spec fn is_movement(input: PickerInput) -> bool {
    input == PickerInput::SelectDown || input == PickerInput::SelectUp || input
        == PickerInput::SearchChar('j') || input == PickerInput::SearchChar('k')
}

/// First leader-prefixed keybinding, among the first `n`, whose key has the code.
pub open spec fn first_leader_bind(binds: Seq<KeybindEntry>, keycode: i64, n: nat) -> Option<int>
    decreases n,
{
    if n == 0 {
        None
    } else {
        match first_leader_bind(binds, keycode, (n - 1) as nat) {
            Some(i) => Some(i),
            None => match binds[n - 1].keybind {
                Keybind::LeaderPrefixed { code } => if native_code(code) == keycode {
                    Some(n - 1)
                } else {
                    None
                },
                _ => None,
            },
        }
    }
}

proof fn lemma_first_leader_bind_stays(binds: Seq<KeybindEntry>, keycode: i64, n: nat)
    requires
        n <= binds.len(),
        first_leader_bind(binds, keycode, n) is Some,
    ensures
        first_leader_bind(binds, keycode, binds.len()) == first_leader_bind(binds, keycode, n),
    decreases binds.len() - n,
{
    if n < binds.len() {
        assert(first_leader_bind(binds, keycode, (n + 1) as nat) == first_leader_bind(
            binds,
            keycode,
            n,
        ));
        lemma_first_leader_bind_stays(binds, keycode, (n + 1) as nat);
    }
}

proof fn lemma_first_leader_bind_bounds(binds: Seq<KeybindEntry>, keycode: i64, n: nat)
    requires
        n <= binds.len(),
    ensures
        first_leader_bind(binds, keycode, n) matches Some(i) ==> 0 <= i < n,
    decreases n,
{
    if n > 0 {
        lemma_first_leader_bind_bounds(binds, keycode, (n - 1) as nat);
    }
}

impl EventHandler {
    /// Decides one keyboard event. `flags` are the modifiers held, and
    /// `picker_active` tells whether the picker is open.
    pub fn handle_event(
        &self,
        state: &mut EventTapState,
        event_type: TapEventType,
        keycode: i64,
        flags: Modifiers,
        is_autorepeat: bool,
        picker_active: bool,
    ) -> (r: TapDecision)
        ensures
            event_type == TapEventType::FlagsChanged ==> r.action is None && !r.swallow
                && *final(state) == (if picker_active {
                *old(state)
            } else {
                EventTapState {
                    leader_modifiers_active: flags.contains_spec(self.leader_modifiers),
                    ..*old(state)
                }
            }),
            event_type == TapEventType::Other ==> r.action is None && !r.swallow && *final(state)
                == *old(state),
            event_type == TapEventType::KeyDown && picker_active ==> ({
                let shift = flags.contains_spec(Modifiers { bits: MOD_SHIFT });
                match picker_input_of_native(keycode, shift) {
                    None => r.action is None && !r.swallow && *final(state) == *old(state),
                    Some(input) => r.swallow && if !is_autorepeat {
                        r.action == Some(EventTapAction::PickerInput(input)) && *final(state) == (
                        EventTapState { picker_repeat_counter: 0, ..*old(state) })
                    } else if is_movement(input) {
                        *final(state) == (EventTapState {
                            picker_repeat_counter: next_counter(old(state).picker_repeat_counter),
                            ..*old(state)
                        }) && r.action == (if old(state).picker_repeat_counter % 2 == 0 {
                            Some(EventTapAction::PickerInput(input))
                        } else {
                            None
                        })
                    } else {
                        r.action is None && *final(state) == *old(state)
                    },
                }
            }),
            event_type == TapEventType::KeyDown && !picker_active ==> ({
                let shift = flags.contains_spec(Modifiers { bits: MOD_SHIFT });
                if old(state).leader_modifiers_active && keycode == self.leader_keycode
                    && !old(state).is_listening {
                    r.action == Some(EventTapAction::LeaderPressed) && r.swallow && *final(state)
                        == (EventTapState { is_listening: true, ..*old(state) })
                } else if old(state).is_listening {
                    r.swallow && *final(state) == (EventTapState {
                        is_listening: false,
                        ..*old(state)
                    }) && r.action == Some(
                        match first_leader_bind(self.keybinds@, keycode, self.keybinds@.len()) {
                            Some(i) => EventTapAction::ActionTriggered(self.keybinds@[i].action),
                            None => if 123 <= keycode <= 126 {
                                EventTapAction::ArrowPressed(
                                    if keycode == 123 {
                                        Direction::Left
                                    } else if keycode == 124 {
                                        Direction::Right
                                    } else if keycode == 125 {
                                        Direction::Down
                                    } else {
                                        Direction::Up
                                    },
                                )
                            } else {
                                EventTapAction::KeyPressed(keycode, shift)
                            },
                        },
                    )
                } else {
                    r.action is None && !r.swallow && *final(state) == *old(state)
                }
            }),
    {
        match event_type {
            TapEventType::FlagsChanged => {
                if !picker_active {
                    state.leader_modifiers_active = flags.contains(self.leader_modifiers);
                }
                TapDecision { action: None, swallow: false }
            },
            TapEventType::Other => TapDecision { action: None, swallow: false },
            TapEventType::KeyDown => {
                let shift = flags.contains(Modifiers { bits: MOD_SHIFT });
                if picker_active {
                    let input = match picker_input_from_keycode(keycode, shift) {
                        Some(i) => i,
                        None => {
                            return TapDecision { action: None, swallow: false };
                        },
                    };
                    if is_autorepeat {
                        let movement = match input {
                            PickerInput::SelectDown | PickerInput::SelectUp => true,
                            PickerInput::SearchChar(c) => c == 'j' || c == 'k',
                            _ => false,
                        };
                        if !movement {
                            return TapDecision { action: None, swallow: true };
                        }
                        let repeat = state.picker_repeat_counter;
                        state.picker_repeat_counter = if repeat == 255 {
                            0
                        } else {
                            repeat + 1
                        };
                        if repeat % 2 != 0 {
                            return TapDecision { action: None, swallow: true };
                        }
                    } else {
                        state.picker_repeat_counter = 0;
                    }
                    return TapDecision {
                        action: Some(EventTapAction::PickerInput(input)),
                        swallow: true,
                    };
                }
                if state.leader_modifiers_active && keycode == self.leader_keycode
                    && !state.is_listening {
                    state.is_listening = true;
                    return TapDecision { action: Some(EventTapAction::LeaderPressed), swallow: true };
                }
                if !state.is_listening {
                    return TapDecision { action: None, swallow: false };
                }
                state.is_listening = false;
                let mut i: usize = 0;
                while i < self.keybinds.len()
                    invariant
                        i <= self.keybinds@.len(),
                        first_leader_bind(self.keybinds@, keycode, i as nat) is None,
                        event_type == TapEventType::KeyDown,
                        !picker_active,
                        old(state).is_listening,
                        !(old(state).leader_modifiers_active && keycode == self.leader_keycode
                            && !old(state).is_listening),
                        *state == (EventTapState { is_listening: false, ..*old(state) }),
                        shift == flags.contains_spec(Modifiers { bits: MOD_SHIFT }),
                    decreases self.keybinds@.len() - i,
                {
                    if let Keybind::LeaderPrefixed { code } = self.keybinds[i].keybind {
                        if keycode_to_native(code) == keycode {
                            proof {
                                assert(first_leader_bind(self.keybinds@, keycode, (i + 1) as nat)
                                    == Some(i as int));
                                lemma_first_leader_bind_stays(
                                    self.keybinds@,
                                    keycode,
                                    (i + 1) as nat,
                                );
                            }
                            return TapDecision {
                                action: Some(
                                    EventTapAction::ActionTriggered(self.keybinds[i].action.copy()),
                                ),
                                swallow: true,
                            };
                        }
                    }
                    i += 1;
                }
                match keycode_to_direction(keycode) {
                    Some(d) => TapDecision {
                        action: Some(EventTapAction::ArrowPressed(d)),
                        swallow: true,
                    },
                    None => TapDecision {
                        action: Some(EventTapAction::KeyPressed(keycode, shift)),
                        swallow: true,
                    },
                }
            },
        }
    }
}

/// Where an action of the tap goes.
#[derive(Debug, Clone)]
pub enum Routed {
    /// A listening period started; arm its timer with this token.
    Listening(u64),
    /// The leader controller's answer: an intent, or nothing when it was idle.
    Leader(Option<LeaderModeEvent>),
    /// Input for the picker.
    Picker(PickerInput),
    /// Nothing to do.
    Nothing,
}

/// Hands an action of the tap to the leader controller or the picker. A key
/// that is not a letter ends the listening period as a cancellation.
pub fn route_tap_action(controller: &mut LeaderModeController, action: EventTapAction) -> (r:
    Routed)
    ensures
        action is LeaderPressed ==> final(controller)@ == entered(old(controller)@) && r
            == Routed::Listening(final(controller)@.period),
        action is LeaderReleased ==> final(controller)@ == old(controller)@ && r is Nothing,
        action matches EventTapAction::PickerInput(i) ==> final(controller)@ == old(controller)@
            && r == Routed::Picker(i),
        !(action is LeaderPressed || action is LeaderReleased || action is PickerInput)
            ==> final(controller)@ == resolved(old(controller)@) && (r matches Routed::Leader(e)
            && (e is Some <==> key_fires(old(controller)@))),
        action matches EventTapAction::KeyPressed(code, shift) ==> (r matches Routed::Leader(e)
            && (e matches Some(ev) ==> ev == match letter_of_native(code) {
            Some(l) => letter_event(l, shift),
            None => LeaderModeEvent::Cancelled,
        })),
        action matches EventTapAction::ActionTriggered(a) ==> (r matches Routed::Leader(e) && (
        e matches Some(ev) ==> ev == LeaderModeEvent::KeybindAction(a))),
        action matches EventTapAction::ArrowPressed(d) ==> (r matches Routed::Leader(e) && (
        e matches Some(ev) ==> ev == LeaderModeEvent::FocusDirection(d))),
{
    match action {
        EventTapAction::LeaderPressed => Routed::Listening(controller.enter_listening_mode()),
        EventTapAction::LeaderReleased => Routed::Nothing,
        EventTapAction::KeyPressed(code, shift) => match keycode_to_letter(code) {
            Some(letter) => Routed::Leader(controller.handle_key(letter, shift)),
            None => Routed::Leader(controller.cancel()),
        },
        EventTapAction::ActionTriggered(a) => Routed::Leader(controller.handle_action(a)),
        EventTapAction::ArrowPressed(d) => Routed::Leader(controller.handle_direction(d)),
        EventTapAction::PickerInput(i) => Routed::Picker(i),
    }
}

} // verus!
