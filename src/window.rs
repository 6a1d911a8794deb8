//! Saved windows: one window per single-letter slot, slot keys compared
//! without regard to case.

use vstd::prelude::*;

use crate::error::PixieError;
use crate::leader_mode::{
    is_ascii_lower, letter_event, to_lower, to_upper, LeaderModeEvent,
};
use crate::text::{decimal_of, push_decimal, push_str};

verus! {

/// A window saved under a slot.
#[derive(Debug)]
pub struct SavedWindow {
    /// Process that owns the window.
    pub pid: i32,
    /// Window-server id of the window.
    pub window_id: u32,
    /// Application name, for display.
    pub app_name: String,
    /// Window title, for display.
    pub title: String,
}

impl SavedWindow {
    /// A copy of this window record.
    pub fn copy(&self) -> (r: SavedWindow)
        ensures
            r == *self,
    {
        SavedWindow {
            pid: self.pid,
            window_id: self.window_id,
            app_name: self.app_name.clone(),
            title: self.title.clone(),
        }
    }

    /// `App - "Title"`, or `App (PID: n)` when the title is empty.
    pub fn display_string(&self) -> (r: String)
        ensures
            r@ == (if self.title@.len() == 0 {
                self.app_name@ + " (PID: "@ + decimal_of(self.pid as int) + ")"@
            } else {
                self.app_name@ + " - \""@ + self.title@ + "\""@
            }),
    {
        let mut out = self.app_name.clone();
        if self.title.as_str().unicode_len() == 0 {
            push_str(&mut out, " (PID: ");
            push_decimal(&mut out, self.pid as i64);
            push_str(&mut out, ")");
        } else {
            push_str(&mut out, " - \"");
            push_str(&mut out, self.title.as_str());
            push_str(&mut out, "\"");
        }
        out
    }
}

/// The key a slot is stored under: its letter in lower case.
pub open spec fn slot_key(c: char) -> char {
    to_lower(c)
}

/// The slots that a list of entries describes; a later entry for a key
/// replaces an earlier one.
pub open spec fn slots_map(entries: Seq<(char, SavedWindow)>) -> Map<char, SavedWindow>
    decreases entries.len(),
{
    if entries.len() == 0 {
        Map::empty()
    } else {
        slots_map(entries.drop_last()).insert(entries.last().0, entries.last().1)
    }
}

/// The entries without those for key `k`.
pub open spec fn without_key(entries: Seq<(char, SavedWindow)>, k: char) -> Seq<(char, SavedWindow)>
    decreases entries.len(),
{
    if entries.len() == 0 {
        entries
    } else if entries.last().0 == k {
        without_key(entries.drop_last(), k)
    } else {
        without_key(entries.drop_last(), k).push(entries.last())
    }
}

proof fn lemma_without_key(entries: Seq<(char, SavedWindow)>, k: char)
    ensures
        slots_map(without_key(entries, k)) == slots_map(entries).remove(k),
    decreases entries.len(),
{
    if entries.len() > 0 {
        lemma_without_key(entries.drop_last(), k);
        let e = entries.last();
        if e.0 == k {
            assert(slots_map(entries).remove(k) =~= slots_map(entries.drop_last()).remove(k));
        } else {
            let w = without_key(entries.drop_last(), k);
            assert(w.push(e).drop_last() == w);
            assert(slots_map(entries).remove(k) =~= slots_map(entries.drop_last()).remove(k).insert(
                e.0,
                e.1,
            ));
        }
    } else {
        assert(slots_map(entries).remove(k) =~= Map::empty());
    }
}

/// Every slot key of the map is stored in lower case.
pub open spec fn keys_lower(m: Map<char, SavedWindow>) -> bool {
    forall|k: char| m.contains_key(k) ==> k == slot_key(k)
}

/// Every key of the entries is in lower case.
pub open spec fn entries_lower(entries: Seq<(char, SavedWindow)>) -> bool {
    forall|i: int| 0 <= i < entries.len() ==> (#[trigger] entries[i]).0 == slot_key(entries[i].0)
}

proof fn lemma_entries_lower(entries: Seq<(char, SavedWindow)>)
    requires
        entries_lower(entries),
    ensures
        keys_lower(slots_map(entries)),
    decreases entries.len(),
{
    if entries.len() > 0 {
        let p = entries.drop_last();
        assert forall|i: int| 0 <= i < p.len() implies (#[trigger] p[i]).0 == slot_key(p[i].0) by {
            assert(p[i] == entries[i]);
        }
        lemma_entries_lower(p);
        assert(entries[entries.len() - 1].0 == slot_key(entries[entries.len() - 1].0));
    }
}

proof fn lemma_slot_key_idempotent(c: char)
    ensures
        slot_key(slot_key(c)) == slot_key(c),
{
}

/// Slots by key.
pub struct WindowManager {
    saved_windows: Vec<(char, SavedWindow)>,
}

impl View for WindowManager {
    type V = Map<char, SavedWindow>;

    closed spec fn view(&self) -> Map<char, SavedWindow> {
        slots_map(self.saved_windows@)
    }
}

fn remove_key(entries: Vec<(char, SavedWindow)>, k: char) -> (r: (Vec<(char, SavedWindow)>, bool))
    ensures
        slots_map(r.0@) == slots_map(entries@).remove(k),
        r.1 == slots_map(entries@).contains_key(k),
        entries_lower(entries@) ==> entries_lower(r.0@),
{
    let ghost original = entries@;
    let n = entries.len();
    let mut rest = entries;
    let mut out: Vec<(char, SavedWindow)> = Vec::new();
    let mut found = false;
    while rest.len() > 0
        invariant
            n == original.len(),
            rest.len() <= n,
            rest@ == original.subrange(n - rest.len(), n as int),
            out@ == without_key(original.subrange(0, n - rest.len()), k),
            found == slots_map(original.subrange(0, n - rest.len())).contains_key(k),
            entries_lower(original) ==> entries_lower(out@),
        decreases rest.len(),
    {
        let ghost i = n - rest.len();
        let e = rest.remove(0);
        assert(e == original[i]);
        assert(rest@ =~= original.subrange(n - rest.len(), n as int));
        assert(original.subrange(0, i + 1).drop_last() == original.subrange(0, i));
        if e.0 == k {
            found = true;
        } else {
            let ghost before = out@;
            out.push(e);
            proof {
                if entries_lower(original) {
                    assert(original[i].0 == slot_key(original[i].0));
                    assert forall|j: int| 0 <= j < out@.len() implies (#[trigger] out@[j]).0
                        == slot_key(out@[j].0) by {
                        if j < before.len() {
                            assert(out@[j] == before[j]);
                        }
                    }
                }
            }
        }
    }
    assert(original.subrange(0, n as int) == original);
    proof {
        lemma_without_key(original, k);
    }
    (out, found)
}

impl WindowManager {
    #[verifier::type_invariant]
    spec fn keys_stored_lower(self) -> bool {
        entries_lower(self.saved_windows@)
    }

    /// No slots saved.
    pub fn new() -> (r: WindowManager)
        ensures
            r@ == Map::<char, SavedWindow>::empty(),
            keys_lower(r@),
    {
        let r = WindowManager { saved_windows: Vec::new() };
        assert(r@ =~= Map::<char, SavedWindow>::empty());
        r
    }

    /// The window saved under `key`, whatever its case.
    pub fn get_saved_window(&self, key: char) -> (r: Option<SavedWindow>)
        ensures
            r is Some <==> self@.contains_key(slot_key(key)),
            r matches Some(w) ==> w == self@[slot_key(key)],
            keys_lower(self@),
    {
        proof {
            use_type_invariant(self);
            lemma_entries_lower(self.saved_windows@);
        }
        let k = crate::leader_mode::ascii_lower(key);
        let mut found: Option<usize> = None;
        let mut i: usize = 0;
        while i < self.saved_windows.len()
            invariant
                i <= self.saved_windows@.len(),
                k == slot_key(key),
                match found {
                    Some(j) => j < i && slots_map(self.saved_windows@.subrange(0, i as int))
                        .contains_key(k) && slots_map(self.saved_windows@.subrange(0, i as int))[k]
                        == self.saved_windows@[j as int].1,
                    None => !slots_map(self.saved_windows@.subrange(0, i as int)).contains_key(k),
                },
            decreases self.saved_windows@.len() - i,
        {
            assert(self.saved_windows@.subrange(0, i + 1).drop_last()
                == self.saved_windows@.subrange(0, i as int));
            if self.saved_windows[i].0 == k {
                found = Some(i);
            }
            i += 1;
        }
        assert(self.saved_windows@.subrange(0, self.saved_windows@.len() as int)
            == self.saved_windows@);
        match found {
            Some(j) => Some(self.saved_windows[j].1.copy()),
            None => None,
        }
    }

    /// Every saved slot, each key once.
    pub fn get_all_saved_windows(&self) -> (r: Vec<(char, SavedWindow)>)
        ensures
            slots_map(r@) == self@,
            entries_lower(r@),
            keys_lower(self@),
    {
        proof {
            use_type_invariant(self);
            lemma_entries_lower(self.saved_windows@);
        }
        let mut out: Vec<(char, SavedWindow)> = Vec::new();
        let mut i: usize = 0;
        while i < self.saved_windows.len()
            invariant
                i <= self.saved_windows@.len(),
                out@ == self.saved_windows@.subrange(0, i as int),
                entries_lower(self.saved_windows@),
            decreases self.saved_windows@.len() - i,
        {
            let e = &self.saved_windows[i];
            out.push((e.0, e.1.copy()));
            assert(out@ =~= self.saved_windows@.subrange(0, i + 1));
            i += 1;
        }
        assert(self.saved_windows@.subrange(0, self.saved_windows@.len() as int)
            == self.saved_windows@);
        out
    }

    /// Saves `window` under `key`, replacing what the slot held. Returns the
    /// slot key used and the window.
    pub fn register_current_window(&mut self, key: char, window: SavedWindow) -> (r: (
        char,
        SavedWindow,
    ))
        ensures
            r.0 == slot_key(key),
            r.1 == window,
            final(self)@ == old(self)@.insert(slot_key(key), window),
            keys_lower(final(self)@),
    {
        proof {
            use_type_invariant(&*self);
        }
        let k = crate::leader_mode::ascii_lower(key);
        let mut entries: Vec<(char, SavedWindow)> = Vec::new();
        std::mem::swap(&mut entries, &mut self.saved_windows);
        let (mut kept, _) = remove_key(entries, k);
        let copy = window.copy();
        let ghost before = kept@;
        kept.push((k, window));
        proof {
            assert(kept@.drop_last() =~= before);
            assert(slots_map(kept@) =~= old(self)@.insert(k, copy));
            lemma_slot_key_idempotent(key);
            assert forall|j: int| 0 <= j < kept@.len() implies (#[trigger] kept@[j]).0 == slot_key(
                kept@[j].0,
            ) by {
                if j < before.len() {
                    assert(kept@[j] == before[j]);
                }
            }
            lemma_entries_lower(kept@);
        }
        self.saved_windows = kept;
        (k, copy)
    }

    /// The window to focus for `key`; fails when the slot is empty.
    pub fn focus_saved_window(&self, key: char) -> (r: Result<SavedWindow, PixieError>)
        ensures
            r is Ok <==> self@.contains_key(slot_key(key)),
            r matches Ok(w) ==> w == self@[slot_key(key)],
            r matches Err(e) ==> e is NoWindowRegistered,
            keys_lower(self@),
    {
        match self.get_saved_window(key) {
            Some(w) => Ok(w),
            None => Err(PixieError::NoWindowRegistered),
        }
    }

    /// Empties the slot for `key`; tells whether it held a window.
    pub fn clear_slot(&mut self, key: char) -> (r: bool)
        ensures
            r == old(self)@.contains_key(slot_key(key)),
            final(self)@ == old(self)@.remove(slot_key(key)),
            keys_lower(final(self)@),
    {
        proof {
            use_type_invariant(&*self);
        }
        let k = crate::leader_mode::ascii_lower(key);
        let mut entries: Vec<(char, SavedWindow)> = Vec::new();
        std::mem::swap(&mut entries, &mut self.saved_windows);
        let (kept, existed) = remove_key(entries, k);
        proof {
            lemma_entries_lower(kept@);
        }
        self.saved_windows = kept;
        existed
    }

    /// Empties every slot.
    pub fn clear_all_windows(&mut self)
        ensures
            final(self)@ == Map::<char, SavedWindow>::empty(),
            keys_lower(final(self)@),
    {
        self.saved_windows = Vec::new();
        assert(slots_map(self.saved_windows@) =~= Map::empty());
    }
}

/// Registering with Shift and a letter and focusing with the plain letter
/// reach the same slot: the lower-case letter.
pub proof fn lemma_register_and_focus_share_slot(
    slots: Map<char, SavedWindow>,
    c: char,
    w: SavedWindow,
)
    requires
        is_ascii_lower(c),
    ensures
        letter_event(c, true) == LeaderModeEvent::RegisterSlot(to_upper(c)),
        letter_event(c, false) == LeaderModeEvent::FocusSlot(c),
        slot_key(to_upper(c)) == c,
        slot_key(c) == c,
        slots.insert(slot_key(to_upper(c)), w)[slot_key(c)] == w,
        keys_lower(slots) ==> keys_lower(slots.insert(slot_key(to_upper(c)), w)),
        keys_lower(slots) ==> !slots.insert(slot_key(to_upper(c)), w).contains_key(to_upper(c)),
{
    if keys_lower(slots) {
        let m = slots.insert(slot_key(to_upper(c)), w);
        assert forall|k: char| m.contains_key(k) implies k == slot_key(k) by {
            if k != c {
                assert(slots.contains_key(k));
            }
        }
        if m.contains_key(to_upper(c)) {
            assert(to_upper(c) == slot_key(to_upper(c)));
        }
    }
}

} // verus!
