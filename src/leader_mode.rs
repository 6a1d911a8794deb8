//! The leader-key state machine: idle until the leader chord, then listening
//! for one key that resolves into an intent, or for the timeout.

use vstd::prelude::*;

use crate::config::Action;
use crate::navigation::Direction;

verus! {

/// Intents that a listening period resolves into.
#[derive(Debug, Clone)]
pub enum LeaderModeEvent {
    /// Save the focused window under this slot (the letter as shown, upper case).
    RegisterSlot(char),
    /// Focus the window saved under this slot.
    FocusSlot(char),
    /// Run a leader-prefixed keybinding.
    KeybindAction(Action),
    /// Move focus to the neighbouring window.
    FocusDirection(Direction),
    /// The period ended without an intent.
    Cancelled,
}

/// The controller's state: whether it listens, which listening period is the
/// current one, and how long a period lasts.
#[derive(Debug, Clone, Copy, PartialEq, Eq, Structural)]
pub struct LeaderState {
    pub listening: bool,
    pub period: u64,
    pub timeout_secs: u64,
}

/// Default length of a listening period, in seconds.
pub const DEFAULT_TIMEOUT_SECS: u64 = 2;

pub open spec fn next_period(p: u64) -> u64 {
    if p == u64::MAX {
        0
    } else {
        (p + 1) as u64
    }
}

/// State after the leader chord: listening, in a fresh period.
pub open spec fn entered(s: LeaderState) -> LeaderState {
    LeaderState { listening: true, period: next_period(s.period), timeout_secs: s.timeout_secs }
}

/// State after a period ends.
pub open spec fn resolved(s: LeaderState) -> LeaderState {
    LeaderState { listening: false, ..s }
}

/// A key ends the period exactly when the controller listens.
pub open spec fn key_fires(s: LeaderState) -> bool {
    s.listening
}

/// The timer of period `p` ends the period only while that period is current.
pub open spec fn timeout_fires(s: LeaderState, p: u64) -> bool {
    s.listening && s.period == p
}

pub open spec fn is_ascii_upper(c: char) -> bool {
    'A' <= c <= 'Z'
}

pub open spec fn is_ascii_lower(c: char) -> bool {
    'a' <= c <= 'z'
}

pub open spec fn to_upper(c: char) -> char {
    if is_ascii_lower(c) {
        ((c as u8) - 32) as char
    } else {
        c
    }
}

pub open spec fn to_lower(c: char) -> char {
    if is_ascii_upper(c) {
        ((c as u8) + 32) as char
    } else {
        c
    }
}

/// ASCII upper case of a character.
pub fn ascii_upper(c: char) -> (r: char)
    ensures
        r == to_upper(c),
{
    if 'a' <= c && c <= 'z' {
        ((c as u8) - 32) as char
    } else {
        c
    }
}

/// ASCII lower case of a character.
pub fn ascii_lower(c: char) -> (r: char)
    ensures
        r == to_lower(c),
{
    if 'A' <= c && c <= 'Z' {
        ((c as u8) + 32) as char
    } else {
        c
    }
}

/// The intent that a letter key gives: with shift it registers, without it
/// focuses; anything but a letter cancels.
pub open spec fn letter_event(letter: char, shift: bool) -> LeaderModeEvent {
    if is_ascii_lower(letter) || is_ascii_upper(letter) {
        if shift {
            LeaderModeEvent::RegisterSlot(to_upper(letter))
        } else {
            LeaderModeEvent::FocusSlot(to_lower(letter))
        }
    } else {
        LeaderModeEvent::Cancelled
    }
}

/// Turns the stream of leader-mode inputs into intents, one per listening period.
pub struct LeaderModeController {
    state: LeaderState,
}

impl View for LeaderModeController {
    type V = LeaderState;

    closed spec fn view(&self) -> LeaderState {
        self.state
    }
}

impl LeaderModeController {
    /// An idle controller with the default period length.
    pub fn new() -> (r: Self)
        ensures
            r@ == (LeaderState { listening: false, period: 0, timeout_secs: DEFAULT_TIMEOUT_SECS }),
    {
        LeaderModeController {
            state: LeaderState { listening: false, period: 0, timeout_secs: DEFAULT_TIMEOUT_SECS },
        }
    }

    /// An idle controller whose periods last `timeout_secs` seconds.
    pub fn with_timeout(timeout_secs: u64) -> (r: Self)
        ensures
            r@ == (LeaderState { listening: false, period: 0, timeout_secs }),
    {
        LeaderModeController { state: LeaderState { listening: false, period: 0, timeout_secs } }
    }

    pub fn is_listening(&self) -> (r: bool)
        ensures
            r == self@.listening,
    {
        self.state.listening
    }

    /// Length of the periods that start from now on, in seconds.
    pub fn timeout_secs(&self) -> (r: u64)
        ensures
            r == self@.timeout_secs,
    {
        self.state.timeout_secs
    }

    /// Changes the length of future periods; a period already running keeps
    /// its timer.
    pub fn set_timeout(&mut self, timeout_secs: u64)
        ensures
            final(self)@ == (LeaderState { timeout_secs, ..old(self)@ }),
    {
        self.state.timeout_secs = timeout_secs;
    }

    /// Starts a listening period and returns its token; the caller arms one
    /// timer that hands the token back to `on_timeout`.
    pub fn enter_listening_mode(&mut self) -> (r: u64)
        ensures
            final(self)@ == entered(old(self)@),
            r == final(self)@.period,
    {
        let p = if self.state.period == u64::MAX { 0 } else { self.state.period + 1 };
        self.state.listening = true;
        self.state.period = p;
        p
    }

    /// The timer of period `period` elapsed.
    pub fn on_timeout(&mut self, period: u64) -> (r: Option<LeaderModeEvent>)
        ensures
            r is Some <==> timeout_fires(old(self)@, period),
            r matches Some(e) ==> e is Cancelled,
            final(self)@ == (if timeout_fires(old(self)@, period) {
                resolved(old(self)@)
            } else {
                old(self)@
            }),
    {
        if self.state.listening && self.state.period == period {
            self.state.listening = false;
            Some(LeaderModeEvent::Cancelled)
        } else {
            None
        }
    }

    /// Ends the period from outside, as on reconfiguration.
    pub fn cancel(&mut self) -> (r: Option<LeaderModeEvent>)
        ensures
            r is Some <==> key_fires(old(self)@),
            r matches Some(e) ==> e is Cancelled,
            final(self)@ == resolved(old(self)@),
    {
        if self.state.listening {
            self.state.listening = false;
            Some(LeaderModeEvent::Cancelled)
        } else {
            None
        }
    }

    /// A letter key arrived.
    pub fn handle_key(&mut self, letter: char, shift: bool) -> (r: Option<LeaderModeEvent>)
        ensures
            r is Some <==> key_fires(old(self)@),
            r matches Some(e) ==> e == letter_event(letter, shift),
            final(self)@ == resolved(old(self)@),
    {
        if !self.state.listening {
            return None;
        }
        self.state.listening = false;
        let is_letter = ('a' <= letter && letter <= 'z') || ('A' <= letter && letter <= 'Z');
        if !is_letter {
            Some(LeaderModeEvent::Cancelled)
        } else if shift {
            Some(LeaderModeEvent::RegisterSlot(ascii_upper(letter)))
        } else {
            Some(LeaderModeEvent::FocusSlot(ascii_lower(letter)))
        }
    }

    /// A leader-prefixed keybinding arrived.
    pub fn handle_action(&mut self, action: Action) -> (r: Option<LeaderModeEvent>)
        ensures
            r is Some <==> key_fires(old(self)@),
            r matches Some(e) ==> e == LeaderModeEvent::KeybindAction(action),
            final(self)@ == resolved(old(self)@),
    {
        if !self.state.listening {
            return None;
        }
        self.state.listening = false;
        Some(LeaderModeEvent::KeybindAction(action))
    }

    /// An arrow key arrived.
    pub fn handle_direction(&mut self, direction: Direction) -> (r: Option<LeaderModeEvent>)
        ensures
            r is Some <==> key_fires(old(self)@),
            r matches Some(e) ==> e == LeaderModeEvent::FocusDirection(direction),
            final(self)@ == resolved(old(self)@),
    {
        if !self.state.listening {
            return None;
        }
        self.state.listening = false;
        Some(LeaderModeEvent::FocusDirection(direction))
    }
}

/// Within one listening period exactly one terminal event comes out, whichever
/// of the key and the period's timer is taken first: the first fires, the
/// second finds the period over.
pub proof fn lemma_one_terminal_event_per_period(s: LeaderState)
    ensures
        ({
            let s1 = entered(s);
            let p = s1.period;
            &&& key_fires(s1)
            &&& !timeout_fires(resolved(s1), p)
            &&& timeout_fires(s1, p)
            &&& !key_fires(resolved(s1))
        }),
{
}

/// A timer left over from an earlier period never ends a later one.
pub proof fn lemma_stale_timer_is_ignored(s: LeaderState)
    ensures
        !timeout_fires(entered(s), s.period),
        !timeout_fires(entered(entered(s)), entered(s).period),
{
}

} // verus!
