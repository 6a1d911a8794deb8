//! The window picker: a multi-select list with incremental search, whose
//! confirmation tiles the chosen windows side by side.

use vstd::prelude::*;
use vstd::string::StrSliceExecFns;

use crate::geometry::{Screen, WindowRect};
use crate::leader_mode::{ascii_lower, to_lower};
use crate::text::push_char;
use crate::screens::{get_screen_for_window, lemma_screen_index_bounds, screen_index_for_window};

verus! {

/// One window of the picker's list.
#[derive(Debug, Clone)]
pub struct WindowEntry {
    pub pid: i32,
    pub window_id: u32,
    pub x: i32,
    pub y: i32,
    pub width: i32,
    pub height: i32,
    pub title: String,
    pub app_name: String,
    pub app_icon_path: Option<String>,
}

/// A window's identity: owner process and window id.
pub type WindowIdentity = (i32, u32);

/// Picker state in mathematical form.
pub struct PickerView {
    pub windows: Seq<WindowEntry>,
    pub current_monitor_count: nat,
    pub focused_index: int,
    pub selected_indices: Seq<usize>,
    pub search_mode: bool,
    pub search_query: Seq<char>,
    pub search_matches: Seq<usize>,
    pub search_match_index: int,
    pub previously_focused_window: Option<WindowIdentity>,
}

/// The picker session: the window list (current monitor first), the focused
/// row, the selection, and the search.
#[derive(Debug)]
pub struct WindowPickerState {
    pub windows: Vec<WindowEntry>,
    pub current_monitor_count: usize,
    pub focused_index: usize,
    pub selected_indices: Vec<usize>,
    pub search_mode: bool,
    pub search_query: String,
    pub search_matches: Vec<usize>,
    pub search_match_index: usize,
    pub previously_focused_window: Option<WindowIdentity>,
}

impl View for WindowPickerState {
    type V = PickerView;

    open spec fn view(&self) -> PickerView {
        PickerView {
            windows: self.windows@,
            current_monitor_count: self.current_monitor_count as nat,
            focused_index: self.focused_index as int,
            selected_indices: self.selected_indices@,
            search_mode: self.search_mode,
            search_query: self.search_query@,
            search_matches: self.search_matches@,
            search_match_index: self.search_match_index as int,
            previously_focused_window: self.previously_focused_window,
        }
    }
}

impl PickerView {
    /// Indices stay inside the list.
    pub open spec fn wf(&self) -> bool {
        &&& self.current_monitor_count <= self.windows.len()
        &&& self.windows.len() > 0 ==> 0 <= self.focused_index < self.windows.len()
        &&& self.windows.len() == 0 ==> self.focused_index == 0
        &&& forall|k: int|
            0 <= k < self.selected_indices.len() ==> (#[trigger] self.selected_indices[k])
                < self.windows.len()
        &&& forall|k: int|
            0 <= k < self.search_matches.len() ==> (#[trigger] self.search_matches[k])
                < self.windows.len()
        &&& self.search_matches.len() > 0 ==> 0 <= self.search_match_index
            < self.search_matches.len()
        &&& self.search_matches.len() == 0 ==> self.search_match_index == 0
    }
}

/// Focus moves one row down, wrapping to the top.
pub open spec fn select_down_spec(v: PickerView) -> PickerView {
    if v.windows.len() > 0 {
        PickerView { focused_index: (v.focused_index + 1) % (v.windows.len() as int), ..v }
    } else {
        v
    }
}

/// Focus moves one row up, wrapping to the bottom.
pub open spec fn select_up_spec(v: PickerView) -> PickerView {
    if v.windows.len() > 0 {
        PickerView {
            focused_index: if v.focused_index == 0 {
                v.windows.len() - 1
            } else {
                v.focused_index - 1
            },
            ..v
        }
    } else {
        v
    }
}

/// The sequence without any occurrence of `x`.
pub open spec fn remove_all(s: Seq<usize>, x: usize) -> Seq<usize>
    decreases s.len(),
{
    if s.len() == 0 {
        s
    } else if s.last() == x {
        remove_all(s.drop_last(), x)
    } else {
        remove_all(s.drop_last(), x).push(s.last())
    }
}

/// Selection after toggling row `i`: removed when present, else appended.
pub open spec fn toggled(s: Seq<usize>, i: usize) -> Seq<usize> {
    if s.contains(i) {
        remove_all(s, i)
    } else {
        s.push(i)
    }
}

/// The focused row joins or leaves the selection; an empty list has no rows
/// to select.
pub open spec fn toggle_select_spec(v: PickerView) -> PickerView {
    if v.windows.len() > 0 {
        PickerView { selected_indices: toggled(v.selected_indices, v.focused_index as usize), ..v }
    } else {
        v
    }
}

proof fn lemma_remove_all_subset(s: Seq<usize>, x: usize)
    ensures
        forall|k: int|
            0 <= k < remove_all(s, x).len() ==> s.contains(#[trigger] remove_all(s, x)[k]),
    decreases s.len(),
{
    if s.len() > 0 {
        lemma_remove_all_subset(s.drop_last(), x);
        let r = remove_all(s, x);
        let p = remove_all(s.drop_last(), x);
        assert forall|k: int| 0 <= k < r.len() implies s.contains(#[trigger] r[k]) by {
            if k < p.len() {
                assert(s.drop_last().contains(p[k]));
                let j = choose|j: int| 0 <= j < s.drop_last().len() && s.drop_last()[j] == p[k];
                assert(s[j] == r[k]);
            } else {
                assert(s[s.len() - 1] == r[k]);
            }
        }
    }
}

fn remove_all_exec(s: &Vec<usize>, x: usize) -> (r: Vec<usize>)
    ensures
        r@ == remove_all(s@, x),
{
    let mut out: Vec<usize> = Vec::new();
    let mut i: usize = 0;
    while i < s.len()
        invariant
            i <= s@.len(),
            out@ == remove_all(s@.subrange(0, i as int), x),
        decreases s@.len() - i,
    {
        assert(s@.subrange(0, i + 1).drop_last() == s@.subrange(0, i as int));
        if s[i] != x {
            out.push(s[i]);
        }
        i += 1;
    }
    assert(s@.subrange(0, s@.len() as int) == s@);
    out
}

fn vec_contains(s: &Vec<usize>, x: usize) -> (r: bool)
    ensures
        r == s@.contains(x),
{
    let mut i: usize = 0;
    while i < s.len()
        invariant
            i <= s@.len(),
            forall|k: int| 0 <= k < i ==> s@[k] != x,
        decreases s@.len() - i,
    {
        if s[i] == x {
            return true;
        }
        i += 1;
    }
    false
}

fn toggle_in(s: &mut Vec<usize>, i: usize)
    ensures
        final(s)@ == toggled(old(s)@, i),
{
    if vec_contains(s, i) {
        *s = remove_all_exec(s, i);
    } else {
        s.push(i);
    }
}

/// How a row of the list is drawn: a window, or the separator between the
/// current monitor's windows and the others.
#[derive(Debug, Clone, Copy, PartialEq, Eq, Structural)]
pub enum ListItemMode {
    Entry,
    Separator,
}

impl ListItemMode {
    pub fn is_separator(&self) -> (r: bool)
        ensures
            r == (*self == ListItemMode::Separator),
    {
        match self {
            ListItemMode::Separator => true,
            ListItemMode::Entry => false,
        }
    }
}

/// Visual row of a window when a separator row sits after the first
/// `current_monitor_count` windows.
pub open spec fn window_to_visual(w: int, k: int, sep: bool) -> int {
    if sep && w >= k {
        w + 1
    } else {
        w
    }
}

/// Window shown on a visual row; the separator row shows none.
pub open spec fn visual_to_window(v: int, k: int, sep: bool) -> Option<int> {
    if !sep {
        Some(v)
    } else if v == k {
        None
    } else if v > k {
        Some(v - 1)
    } else {
        Some(v)
    }
}

/// Window index shown on visual row `visual_index`, or `None` for the
/// separator row.
pub fn visual_index_to_window_index(
    visual_index: usize,
    current_monitor_count: usize,
    separator_present: bool,
) -> (r: Option<usize>)
    ensures
        match r {
            Some(w) => visual_to_window(
                visual_index as int,
                current_monitor_count as int,
                separator_present,
            ) == Some(w as int),
            None => visual_to_window(
                visual_index as int,
                current_monitor_count as int,
                separator_present,
            ) is None,
        },
{
    if !separator_present {
        return Some(visual_index);
    }
    if visual_index == current_monitor_count {
        return None;
    }
    if visual_index > current_monitor_count {
        return Some(visual_index - 1);
    }
    Some(visual_index)
}

/// Visual row on which window `window_index` is shown.
pub fn window_index_to_visual_index(
    window_index: usize,
    current_monitor_count: usize,
    separator_present: bool,
) -> (r: usize)
    requires
        window_index < usize::MAX,
    ensures
        r as int == window_to_visual(
            window_index as int,
            current_monitor_count as int,
            separator_present,
        ),
{
    if separator_present && window_index >= current_monitor_count {
        window_index + 1
    } else {
        window_index
    }
}

/// Translating a window index to its visual row and back gives the window
/// index again, with or without a separator and wherever the split lies.
pub proof fn lemma_visual_index_round_trip(w: int, k: int, sep: bool)
    requires
        0 <= w,
        0 <= k,
    ensures
        visual_to_window(window_to_visual(w, k, sep), k, sep) == Some(w),
{
}

impl WindowPickerState {
    /// A separator row is shown between the current monitor's windows and
    /// the others.
    pub fn has_secondary_group(&self) -> (r: bool)
        ensures
            r == (self.current_monitor_count > 0 && self.windows@.len()
                > self.current_monitor_count),
    {
        self.current_monitor_count > 0 && self.windows.len() > self.current_monitor_count
    }

    /// Rows of the list, the separator included.
    pub fn visual_row_count(&self) -> (r: usize)
        requires
            self.windows@.len() < usize::MAX,
        ensures
            r == self.windows@.len() + (if self.current_monitor_count > 0 && self.windows@.len()
                > self.current_monitor_count {
                1int
            } else {
                0
            }),
    {
        if self.has_secondary_group() {
            self.windows.len() + 1
        } else {
            self.windows.len()
        }
    }

    pub fn select_down(&mut self)
        requires
            old(self)@.wf(),
        ensures
            final(self)@ == select_down_spec(old(self)@),
            final(self)@.wf(),
    {
        if self.windows.len() > 0 {
            self.focused_index = (self.focused_index + 1) % self.windows.len();
        }
    }

    pub fn select_up(&mut self)
        requires
            old(self)@.wf(),
        ensures
            final(self)@ == select_up_spec(old(self)@),
            final(self)@.wf(),
    {
        if self.windows.len() > 0 {
            if self.focused_index == 0 {
                self.focused_index = self.windows.len() - 1;
            } else {
                self.focused_index = self.focused_index - 1;
            }
        }
    }

    /// Adds the focused row to the selection, or takes it out.
    pub fn toggle_select(&mut self)
        requires
            old(self)@.wf(),
        ensures
            final(self)@ == toggle_select_spec(old(self)@),
            final(self)@.wf(),
    {
        if self.windows.len() == 0 {
            return;
        }
        let f = self.focused_index;
        toggle_in(&mut self.selected_indices, f);
        proof {
            lemma_remove_all_subset(old(self)@.selected_indices, f);
        }
    }
}

/// Relies on `String::pop`: the last character, if any, is taken off and returned.
#[verifier::external_body]
fn pop_char(s: &mut String) -> (r: Option<char>)
    ensures
        old(s)@.len() == 0 ==> r is None && final(s)@ == old(s)@,
        old(s)@.len() > 0 ==> r == Some(old(s)@.last()) && final(s)@ == old(s)@.drop_last(),
{
    s.pop()
}

/// `q` occurs in `t` at position `k`, ignoring ASCII case.
pub open spec fn matches_at(t: Seq<char>, q: Seq<char>, k: int) -> bool {
    &&& 0 <= k
    &&& k + q.len() <= t.len()
    &&& forall|j: int| 0 <= j < q.len() ==> to_lower(#[trigger] t[k + j]) == to_lower(q[j])
}

/// `q` occurs somewhere in `t`, ignoring ASCII case.
pub open spec fn contains_ci(t: Seq<char>, q: Seq<char>) -> bool {
    exists|k: int| matches_at(t, q, k)
}

/// A window matches a non-empty query found in its application name or title.
pub open spec fn window_matches(w: WindowEntry, q: Seq<char>) -> bool {
    q.len() > 0 && (contains_ci(w.app_name@, q) || contains_ci(w.title@, q))
}

/// Case-insensitive substring test.
fn contains_ignore_case(t: &str, q: &str) -> (r: bool)
    ensures
        r == contains_ci(t@, q@),
{
    let n = t.unicode_len();
    let m = q.unicode_len();
    if m > n {
        assert forall|k: int| !matches_at(t@, q@, k) by {}
        return false;
    }
    let mut k: usize = 0;
    while k <= n - m
        invariant
            n == t@.len(),
            m == q@.len(),
            m <= n,
            k <= n - m + 1,
            forall|kk: int| 0 <= kk < k ==> !matches_at(t@, q@, kk),
        decreases n - m + 1 - k,
    {
        let mut j: usize = 0;
        let mut ok = true;
        while j < m
            invariant
                n == t@.len(),
                m == q@.len(),
                k + m <= n,
                j <= m,
                ok ==> forall|jj: int| 0 <= jj < j ==> to_lower(#[trigger] t@[k + jj]) == to_lower(
                    q@[jj],
                ),
                !ok ==> !matches_at(t@, q@, k as int),
            decreases m - j,
        {
            if ok && ascii_lower(t.get_char(k + j)) != ascii_lower(q.get_char(j)) {
                ok = false;
                assert(to_lower(t@[k + j]) != to_lower(q@[j as int]));
            }
            j += 1;
        }
        if ok {
            assert(matches_at(t@, q@, k as int));
            return true;
        }
        k += 1;
    }
    assert forall|kk: int| !matches_at(t@, q@, kk) by {
        if 0 <= kk && kk + m <= n {
            assert(kk < k);
        }
    }
    false
}

/// Whether a window matches the search query: a non-empty query found in its
/// application name or title, ignoring ASCII case.
pub fn matches_query(window: &WindowEntry, query: &str) -> (r: bool)
    ensures
        r == window_matches(*window, query@),
{
    if query.unicode_len() == 0 {
        return false;
    }
    contains_ignore_case(window.app_name.as_str(), query) || contains_ignore_case(
        window.title.as_str(),
        query,
    )
}

/// Indices, among the first `n` windows, that match the query, ascending.
pub open spec fn match_list(windows: Seq<WindowEntry>, q: Seq<char>, n: nat) -> Seq<usize>
    decreases n,
{
    if n == 0 {
        Seq::empty()
    } else if window_matches(windows[n - 1], q) {
        match_list(windows, q, (n - 1) as nat).push((n - 1) as usize)
    } else {
        match_list(windows, q, (n - 1) as nat)
    }
}

/// Position of the first occurrence of `x` in `s`.
pub open spec fn position_of(s: Seq<usize>, x: usize) -> int {
    choose|p: int| 0 <= p < s.len() && s[p] == x && forall|j: int| 0 <= j < p ==> s[j] != x
}

/// Matches recomputed for the current query; the focus stays where it is when
/// it is a match, else it jumps to the first match.
pub open spec fn rebuild_spec(v: PickerView) -> PickerView {
    let m = match_list(v.windows, v.search_query, v.windows.len());
    if m.len() == 0 {
        PickerView { search_matches: m, search_match_index: 0, ..v }
    } else if m.contains(v.focused_index as usize) {
        PickerView {
            search_matches: m,
            search_match_index: position_of(m, v.focused_index as usize),
            ..v
        }
    } else {
        PickerView {
            search_matches: m,
            search_match_index: 0,
            focused_index: m[0] as int,
            ..v
        }
    }
}

pub open spec fn enter_search_spec(v: PickerView) -> PickerView {
    PickerView {
        search_mode: true,
        search_query: Seq::empty(),
        search_matches: Seq::empty(),
        search_match_index: 0,
        ..v
    }
}

pub open spec fn exit_search_spec(v: PickerView) -> PickerView {
    PickerView { search_mode: false, ..v }
}

pub open spec fn push_search_spec(v: PickerView, c: char) -> PickerView {
    rebuild_spec(PickerView { search_query: v.search_query.push(c), ..v })
}

pub open spec fn pop_search_spec(v: PickerView) -> PickerView {
    rebuild_spec(
        PickerView {
            search_query: if v.search_query.len() > 0 {
                v.search_query.drop_last()
            } else {
                v.search_query
            },
            ..v
        },
    )
}

/// Matches to step through: the current ones, or freshly computed when there
/// are none yet.
pub open spec fn step_base(v: PickerView) -> PickerView {
    if v.search_matches.len() == 0 {
        rebuild_spec(v)
    } else {
        v
    }
}

/// Position in the match list that a step starts from.
pub open spec fn step_start(v: PickerView) -> int {
    if v.search_matches.contains(v.focused_index as usize) {
        position_of(v.search_matches, v.focused_index as usize)
    } else {
        v.search_match_index
    }
}

/// Focus moves to the next match, wrapping around; nothing happens without a
/// query or without matches.
pub open spec fn search_next_spec(v: PickerView) -> PickerView {
    if v.search_query.len() == 0 {
        v
    } else {
        let b = step_base(v);
        if b.search_matches.len() == 0 {
            b
        } else {
            let i = (step_start(b) + 1) % (b.search_matches.len() as int);
            PickerView { search_match_index: i, focused_index: b.search_matches[i] as int, ..b }
        }
    }
}

/// Focus moves to the previous match, wrapping around.
pub open spec fn search_previous_spec(v: PickerView) -> PickerView {
    if v.search_query.len() == 0 {
        v
    } else {
        let b = step_base(v);
        if b.search_matches.len() == 0 {
            b
        } else {
            let s = step_start(b);
            let i = if s == 0 {
                b.search_matches.len() - 1
            } else {
                s - 1
            };
            PickerView { search_match_index: i, focused_index: b.search_matches[i] as int, ..b }
        }
    }
}

proof fn lemma_match_list_props(windows: Seq<WindowEntry>, q: Seq<char>, n: nat)
    requires
        n <= windows.len(),
    ensures
        forall|k: int|
            0 <= k < match_list(windows, q, n).len() ==> (#[trigger] match_list(windows, q, n)[k])
                < n,
        match_list(windows, q, n).len() <= n,
    decreases n,
{
    if n > 0 {
        lemma_match_list_props(windows, q, (n - 1) as nat);
    }
}

/// Finds the first position of `x` in `s`.
fn find_position(s: &Vec<usize>, x: usize) -> (r: Option<usize>)
    ensures
        r is Some <==> s@.contains(x),
        r matches Some(p) ==> p == position_of(s@, x) && p < s@.len(),
{
    let mut i: usize = 0;
    while i < s.len()
        invariant
            i <= s@.len(),
            forall|k: int| 0 <= k < i ==> s@[k] != x,
        decreases s@.len() - i,
    {
        if s[i] == x {
            proof {
                let p = position_of(s@, x);
                assert(0 <= i < s@.len() && s@[i as int] == x && forall|j: int|
                    0 <= j < i ==> s@[j] != x);
                if p != i {
                    if p < i {
                    } else {
                        assert(s@[i as int] != x);
                    }
                }
            }
            return Some(i);
        }
        i += 1;
    }
    None
}

impl WindowPickerState {
    /// Focuses a clicked row and toggles its selection.
    pub fn click_select(&mut self, index: usize)
        requires
            old(self)@.wf(),
        ensures
            index >= old(self)@.windows.len() ==> final(self)@ == old(self)@,
            index < old(self)@.windows.len() ==> final(self)@ == toggle_select_spec(
                (PickerView { focused_index: index as int, ..old(self)@ }),
            ),
            final(self)@.wf(),
    {
        if index >= self.windows.len() {
            return;
        }
        self.focused_index = index;
        self.toggle_select();
    }

    /// Moves the focus to a row the pointer entered.
    pub fn hover_focus(&mut self, index: usize)
        requires
            old(self)@.wf(),
        ensures
            index < old(self)@.windows.len() ==> final(self)@ == (PickerView {
                focused_index: index as int,
                ..old(self)@
            }),
            index >= old(self)@.windows.len() ==> final(self)@ == old(self)@,
            final(self)@.wf(),
    {
        if index >= self.windows.len() || self.focused_index == index {
            return;
        }
        self.focused_index = index;
    }

    /// Recomputes the matches for the current query.
    pub fn rebuild_search_matches(&mut self)
        requires
            old(self)@.wf(),
        ensures
            final(self)@ == rebuild_spec(old(self)@),
            final(self)@.wf(),
    {
        let mut matches: Vec<usize> = Vec::new();
        let mut i: usize = 0;
        while i < self.windows.len()
            invariant
                i <= self.windows@.len(),
                matches@ == match_list(self.windows@, self.search_query@, i as nat),
            decreases self.windows@.len() - i,
        {
            if matches_query(&self.windows[i], self.search_query.as_str()) {
                matches.push(i);
            }
            i += 1;
        }
        proof {
            lemma_match_list_props(self.windows@, self.search_query@, self.windows@.len());
        }
        self.search_matches = matches;
        if self.search_matches.len() == 0 {
            self.search_match_index = 0;
            return;
        }
        match find_position(&self.search_matches, self.focused_index) {
            Some(p) => {
                self.search_match_index = p;
            },
            None => {
                self.search_match_index = 0;
                self.focused_index = self.search_matches[0];
            },
        }
    }

    pub fn enter_search_mode(&mut self)
        requires
            old(self)@.wf(),
        ensures
            final(self)@ == enter_search_spec(old(self)@),
            final(self)@.wf(),
    {
        self.search_mode = true;
        self.search_query = String::new();
        self.search_matches = Vec::new();
        self.search_match_index = 0;
    }

    /// Leaves search mode; the query and its matches stay.
    pub fn exit_search_mode(&mut self)
        requires
            old(self)@.wf(),
        ensures
            final(self)@ == exit_search_spec(old(self)@),
            final(self)@.wf(),
    {
        self.search_mode = false;
    }

    pub fn push_search_char(&mut self, c: char)
        requires
            old(self)@.wf(),
        ensures
            final(self)@ == push_search_spec(old(self)@, c),
            final(self)@.wf(),
    {
        push_char(&mut self.search_query, c);
        self.rebuild_search_matches();
    }

    pub fn pop_search_char(&mut self)
        requires
            old(self)@.wf(),
        ensures
            final(self)@ == pop_search_spec(old(self)@),
            final(self)@.wf(),
    {
        let _ = pop_char(&mut self.search_query);
        self.rebuild_search_matches();
    }

    fn prepare_step(&mut self)
        requires
            old(self)@.wf(),
        ensures
            final(self)@ == step_base(old(self)@),
            final(self)@.wf(),
    {
        if self.search_matches.len() == 0 {
            self.rebuild_search_matches();
        }
    }

    pub fn search_next(&mut self)
        requires
            old(self)@.wf(),
        ensures
            final(self)@ == search_next_spec(old(self)@),
            final(self)@.wf(),
    {
        if self.search_query.unicode_len() == 0 {
            return;
        }
        self.prepare_step();
        if self.search_matches.len() == 0 {
            return;
        }
        if let Some(p) = find_position(&self.search_matches, self.focused_index) {
            self.search_match_index = p;
        }
        self.search_match_index = (self.search_match_index + 1) % self.search_matches.len();
        self.focused_index = self.search_matches[self.search_match_index];
    }

    pub fn search_previous(&mut self)
        requires
            old(self)@.wf(),
        ensures
            final(self)@ == search_previous_spec(old(self)@),
            final(self)@.wf(),
    {
        if self.search_query.unicode_len() == 0 {
            return;
        }
        self.prepare_step();
        if self.search_matches.len() == 0 {
            return;
        }
        if let Some(p) = find_position(&self.search_matches, self.focused_index) {
            self.search_match_index = p;
        }
        if self.search_match_index == 0 {
            self.search_match_index = self.search_matches.len() - 1;
        } else {
            self.search_match_index = self.search_match_index - 1;
        }
        self.focused_index = self.search_matches[self.search_match_index];
    }
}

/// Keyboard input the picker understands.
#[derive(Debug, Clone, Copy, PartialEq, Eq, Structural)]
pub enum PickerInput {
    SelectDown,
    SelectUp,
    ToggleSelect,
    Confirm,
    Cancel,
    SearchBackspace,
    SearchChar(char),
}

/// What confirming asks of the window service: tile these windows in order,
/// focus each of them in that order, then focus `focus`.
#[derive(Debug, Clone)]
pub struct ConfirmPlan {
    pub tile: Vec<WindowIdentity>,
    pub focus: Option<WindowIdentity>,
}

/// What an input leads to, besides the change of state.
#[derive(Debug, Clone)]
pub enum PickerOutcome {
    /// The state may have changed; redraw.
    Updated,
    /// The picker closes and the plan is carried out.
    Confirm(ConfirmPlan),
    /// The picker closes and focus returns to this window.
    Cancel(Option<WindowIdentity>),
}

/// Rows that confirming acts on: the selection, or else the focused row.
pub open spec fn operand_indices(v: PickerView) -> Seq<usize> {
    if v.selected_indices.len() == 0 {
        seq![v.focused_index as usize]
    } else {
        v.selected_indices
    }
}

/// Identities of the windows on the given rows, skipping rows past the end.
pub open spec fn identities(windows: Seq<WindowEntry>, rows: Seq<usize>) -> Seq<WindowIdentity>
    decreases rows.len(),
{
    if rows.len() == 0 {
        Seq::empty()
    } else {
        let prev = identities(windows, rows.drop_last());
        let i = rows.last();
        if i < windows.len() {
            prev.push((windows[i as int].pid, windows[i as int].window_id))
        } else {
            prev
        }
    }
}

/// Window focused last: the one focused before the picker opened when it is
/// among the tiled ones, else the first tiled one; with nothing to tile, the
/// one focused before.
pub open spec fn final_focus(tile: Seq<WindowIdentity>, prev: Option<WindowIdentity>) -> Option<
    WindowIdentity,
> {
    if tile.len() == 0 {
        prev
    } else if prev is Some && tile.contains(prev->0) {
        prev
    } else {
        Some(tile[0])
    }
}

pub open spec fn confirm_tile(v: PickerView) -> Seq<WindowIdentity> {
    identities(v.windows, operand_indices(v))
}

/// State after an input; confirming and cancelling leave it as it is, since
/// the picker closes.
pub open spec fn input_spec(v: PickerView, input: PickerInput) -> PickerView {
    if v.search_mode {
        match input {
            PickerInput::Confirm | PickerInput::Cancel => exit_search_spec(v),
            PickerInput::SearchBackspace => pop_search_spec(v),
            PickerInput::SearchChar(c) => push_search_spec(v, c),
            _ => v,
        }
    } else {
        match input {
            PickerInput::SelectDown => select_down_spec(v),
            PickerInput::SelectUp => select_up_spec(v),
            PickerInput::ToggleSelect => toggle_select_spec(v),
            PickerInput::SearchChar(c) => if c == '/' {
                enter_search_spec(v)
            } else if c == 'j' {
                select_down_spec(v)
            } else if c == 'k' {
                select_up_spec(v)
            } else if c == ' ' {
                toggle_select_spec(v)
            } else if c == 'n' {
                search_next_spec(v)
            } else if c == 'N' {
                search_previous_spec(v)
            } else {
                v
            },
            _ => v,
        }
    }
}

/// The input confirms the picker.
pub open spec fn input_confirms(v: PickerView, input: PickerInput) -> bool {
    !v.search_mode && input == PickerInput::Confirm
}

/// The input cancels the picker.
pub open spec fn input_cancels(v: PickerView, input: PickerInput) -> bool {
    !v.search_mode && (input == PickerInput::Cancel || input == PickerInput::SearchChar('q'))
}

fn identities_exec(windows: &Vec<WindowEntry>, rows: &Vec<usize>) -> (r: Vec<WindowIdentity>)
    ensures
        r@ == identities(windows@, rows@),
{
    let mut out: Vec<WindowIdentity> = Vec::new();
    let mut k: usize = 0;
    while k < rows.len()
        invariant
            k <= rows@.len(),
            out@ == identities(windows@, rows@.subrange(0, k as int)),
        decreases rows@.len() - k,
    {
        assert(rows@.subrange(0, k + 1).drop_last() == rows@.subrange(0, k as int));
        let i = rows[k];
        if i < windows.len() {
            out.push((windows[i].pid, windows[i].window_id));
        }
        k += 1;
    }
    assert(rows@.subrange(0, rows@.len() as int) == rows@);
    out
}

fn identity_in(s: &Vec<WindowIdentity>, x: WindowIdentity) -> (r: bool)
    ensures
        r == s@.contains(x),
{
    let mut i: usize = 0;
    while i < s.len()
        invariant
            i <= s@.len(),
            forall|k: int| 0 <= k < i ==> s@[k] != x,
        decreases s@.len() - i,
    {
        if s[i].0 == x.0 && s[i].1 == x.1 {
            assert(s@[i as int] == x);
            return true;
        }
        i += 1;
    }
    false
}

impl WindowPickerState {
    /// The plan that confirming carries out.
    pub fn confirm_plan(&self) -> (r: ConfirmPlan)
        ensures
            r.tile@ == confirm_tile(self@),
            r.focus == final_focus(confirm_tile(self@), self.previously_focused_window),
    {
        let tile = if self.selected_indices.len() == 0 {
            let mut rows: Vec<usize> = Vec::new();
            rows.push(self.focused_index);
            assert(rows@ == seq![self.focused_index]);
            identities_exec(&self.windows, &rows)
        } else {
            identities_exec(&self.windows, &self.selected_indices)
        };
        let focus = if tile.len() == 0 {
            self.previously_focused_window
        } else {
            match self.previously_focused_window {
                Some(p) => if identity_in(&tile, p) {
                    Some(p)
                } else {
                    Some(tile[0])
                },
                None => Some(tile[0]),
            }
        };
        ConfirmPlan { tile, focus }
    }

    /// Applies one input.
    pub fn handle_picker_input(&mut self, input: PickerInput) -> (r: PickerOutcome)
        requires
            old(self)@.wf(),
        ensures
            final(self)@ == input_spec(old(self)@, input),
            final(self)@.wf(),
            input_confirms(old(self)@, input) <==> r is Confirm,
            input_cancels(old(self)@, input) <==> r is Cancel,
            r matches PickerOutcome::Confirm(plan) ==> plan.tile@ == confirm_tile(old(self)@)
                && plan.focus == final_focus(
                confirm_tile(old(self)@),
                old(self)@.previously_focused_window,
            ),
            r matches PickerOutcome::Cancel(p) ==> p == old(self)@.previously_focused_window,
    {
        if self.search_mode {
            match input {
                PickerInput::Confirm | PickerInput::Cancel => self.exit_search_mode(),
                PickerInput::SearchBackspace => self.pop_search_char(),
                PickerInput::SearchChar(c) => self.push_search_char(c),
                _ => {},
            }
            return PickerOutcome::Updated;
        }
        match input {
            PickerInput::SelectDown => self.select_down(),
            PickerInput::SelectUp => self.select_up(),
            PickerInput::ToggleSelect => self.toggle_select(),
            PickerInput::Confirm => {
                return PickerOutcome::Confirm(self.confirm_plan());
            },
            PickerInput::Cancel => {
                return PickerOutcome::Cancel(self.previously_focused_window);
            },
            PickerInput::SearchBackspace => {},
            PickerInput::SearchChar(c) => {
                if c == '/' {
                    self.enter_search_mode();
                } else if c == 'j' {
                    self.select_down();
                } else if c == 'k' {
                    self.select_up();
                } else if c == ' ' {
                    self.toggle_select();
                } else if c == 'q' {
                    return PickerOutcome::Cancel(self.previously_focused_window);
                } else if c == 'n' {
                    self.search_next();
                } else if c == 'N' {
                    self.search_previous();
                }
            },
        }
        PickerOutcome::Updated
    }
}

/// The window's center lies on the screen.
pub open spec fn entry_on_screen(w: WindowEntry, s: Screen) -> bool {
    let cx = 2 * w.x + w.width;
    let cy = 2 * w.y + w.height;
    &&& 2 * s.x <= cx < 2 * s.x + 2 * s.width
    &&& 2 * s.y <= cy < 2 * s.y + 2 * s.height
}

/// The windows, among the first `n`, whose center lies on (or, with
/// `on == false`, off) the screen, in their order.
pub open spec fn windows_by_screen(all: Seq<WindowEntry>, s: Screen, on: bool, n: nat) -> Seq<
    WindowEntry,
>
    decreases n,
{
    if n == 0 {
        Seq::empty()
    } else if entry_on_screen(all[n - 1], s) == on {
        windows_by_screen(all, s, on, (n - 1) as nat).push(all[n - 1])
    } else {
        windows_by_screen(all, s, on, (n - 1) as nat)
    }
}

/// First row, among the first `n`, that shows window `id`.
pub open spec fn first_with_id(ws: Seq<WindowEntry>, id: u32, n: nat) -> Option<int>
    decreases n,
{
    if n == 0 {
        None
    } else {
        match first_with_id(ws, id, (n - 1) as nat) {
            Some(i) => Some(i),
            None => if ws[n - 1].window_id == id {
                Some(n - 1)
            } else {
                None
            },
        }
    }
}

/// The picker's list: the windows of the current screen, then the others.
pub open spec fn picker_windows(all: Seq<WindowEntry>, s: Screen) -> Seq<WindowEntry> {
    windows_by_screen(all, s, true, all.len()) + windows_by_screen(all, s, false, all.len())
}

/// The row preselected when the picker opens: the window focused before.
pub open spec fn preselected(ws: Seq<WindowEntry>, prev: Option<WindowIdentity>) -> Option<int> {
    match prev {
        Some(p) => first_with_id(ws, p.1, ws.len()),
        None => None,
    }
}

/// Index of the first primary screen.
pub open spec fn first_main(screens: Seq<Screen>, n: nat) -> Option<int>
    decreases n,
{
    if n == 0 {
        None
    } else {
        match first_main(screens, (n - 1) as nat) {
            Some(i) => Some(i),
            None => if screens[n - 1].is_main {
                Some(n - 1)
            } else {
                None
            },
        }
    }
}

/// The screen the picker belongs to: that of the focused window, else the
/// primary screen, else the first one.
pub open spec fn picker_screen_index(focused: Option<WindowRect>, screens: Seq<Screen>) -> Option<
    int,
> {
    if screens.len() == 0 {
        None
    } else {
        match focused {
            Some(w) => screen_index_for_window(w, screens),
            None => match first_main(screens, screens.len()) {
                Some(i) => Some(i),
                None => Some(0),
            },
        }
    }
}

proof fn lemma_first_with_id_bounds(ws: Seq<WindowEntry>, id: u32, n: nat)
    requires
        n <= ws.len(),
    ensures
        first_with_id(ws, id, n) matches Some(i) ==> 0 <= i < n,
    decreases n,
{
    if n > 0 {
        lemma_first_with_id_bounds(ws, id, (n - 1) as nat);
    }
}

proof fn lemma_first_main_bounds(screens: Seq<Screen>, n: nat)
    requires
        n <= screens.len(),
    ensures
        first_main(screens, n) matches Some(i) ==> 0 <= i < n,
    decreases n,
{
    if n > 0 {
        lemma_first_main_bounds(screens, (n - 1) as nat);
    }
}

proof fn lemma_windows_by_screen_len(all: Seq<WindowEntry>, s: Screen, n: nat)
    requires
        n <= all.len(),
    ensures
        windows_by_screen(all, s, true, n).len() + windows_by_screen(all, s, false, n).len() == n,
    decreases n,
{
    if n > 0 {
        lemma_windows_by_screen_len(all, s, (n - 1) as nat);
    }
}

/// Chooses the screen the picker belongs to.
pub fn picker_screen(focused: Option<WindowRect>, screens: &Vec<Screen>) -> (r: Option<Screen>)
    ensures
        match r {
            Some(sc) => picker_screen_index(focused, screens@) matches Some(i) && 0 <= i
                < screens@.len() && sc == screens@[i],
            None => screens@.len() == 0,
        },
{
    if screens.len() == 0 {
        return None;
    }
    if let Some(w) = focused {
        proof {
            lemma_screen_index_bounds(w, screens@);
        }
        return match get_screen_for_window(&w, screens) {
            Ok(sc) => Some(sc),
            Err(_) => {
                assert(false);
                None
            },
        };
    }
    let mut i: usize = 0;
    while i < screens.len()
        invariant
            i <= screens@.len(),
            first_main(screens@, i as nat) is None,
            focused is None,
        decreases screens@.len() - i,
    {
        if screens[i].is_main {
            assert(first_main(screens@, (i + 1) as nat) == Some(i as int));
            proof {
                lemma_first_main_stays(screens@, (i + 1) as nat);
            }
            return Some(screens[i]);
        }
        i += 1;
    }
    Some(screens[0])
}

proof fn lemma_first_main_stays(screens: Seq<Screen>, n: nat)
    requires
        n <= screens.len(),
        first_main(screens, n) is Some,
    ensures
        first_main(screens, screens.len()) == first_main(screens, n),
    decreases screens.len() - n,
{
    if n < screens.len() {
        assert(first_main(screens, (n + 1) as nat) == first_main(screens, n));
        lemma_first_main_stays(screens, (n + 1) as nat);
    }
}

proof fn lemma_first_with_id_stays(ws: Seq<WindowEntry>, id: u32, n: nat)
    requires
        n <= ws.len(),
        first_with_id(ws, id, n) is Some,
    ensures
        first_with_id(ws, id, ws.len()) == first_with_id(ws, id, n),
    decreases ws.len() - n,
{
    if n < ws.len() {
        assert(first_with_id(ws, id, (n + 1) as nat) == first_with_id(ws, id, n));
        lemma_first_with_id_stays(ws, id, (n + 1) as nat);
    }
}

fn find_window_row(ws: &Vec<WindowEntry>, id: u32) -> (r: Option<usize>)
    ensures
        match r {
            Some(i) => first_with_id(ws@, id, ws@.len()) == Some(i as int) && i < ws@.len(),
            None => first_with_id(ws@, id, ws@.len()) is None,
        },
{
    let mut i: usize = 0;
    while i < ws.len()
        invariant
            i <= ws@.len(),
            first_with_id(ws@, id, i as nat) is None,
        decreases ws@.len() - i,
    {
        if ws[i].window_id == id {
            assert(first_with_id(ws@, id, (i + 1) as nat) == Some(i as int));
            proof {
                lemma_first_with_id_stays(ws@, id, (i + 1) as nat);
            }
            return Some(i);
        }
        i += 1;
    }
    None
}

impl WindowPickerState {
    /// Opens a picker over `all` windows: those whose center lies on `screen`
    /// first, then the rest, with the previously focused window preselected
    /// and focused.
    pub fn open(all: Vec<WindowEntry>, screen: &Screen, previously_focused_window: Option<
        WindowIdentity,
    >) -> (r: WindowPickerState)
        ensures
            r@.windows == picker_windows(all@, *screen),
            r@.current_monitor_count == windows_by_screen(all@, *screen, true, all@.len()).len(),
            match preselected(r@.windows, previously_focused_window) {
                Some(i) => r@.selected_indices == seq![i as usize] && r@.focused_index == i,
                None => r@.selected_indices.len() == 0 && r@.focused_index == 0,
            },
            !r@.search_mode,
            r@.search_query.len() == 0,
            r@.search_matches.len() == 0,
            r@.search_match_index == 0,
            r@.previously_focused_window == previously_focused_window,
            r@.wf(),
    {
        let ghost original = all@;
        let n = all.len();
        let mut rest = all;
        let mut current: Vec<WindowEntry> = Vec::new();
        let mut others: Vec<WindowEntry> = Vec::new();
        while rest.len() > 0
            invariant
                n == original.len(),
                rest.len() <= n,
                rest@ == original.subrange(n - rest.len(), n as int),
                current@ == windows_by_screen(original, *screen, true, (n - rest.len()) as nat),
                others@ == windows_by_screen(original, *screen, false, (n - rest.len()) as nat),
            decreases rest.len(),
        {
            let ghost k = n - rest.len();
            let w = rest.remove(0);
            assert(w == original[k]);
            assert(rest@ =~= original.subrange(n - rest.len(), n as int));
            let cx: i64 = 2 * (w.x as i64) + w.width as i64;
            let cy: i64 = 2 * (w.y as i64) + w.height as i64;
            let sx: i64 = 2 * (screen.x as i64);
            let sy: i64 = 2 * (screen.y as i64);
            if sx <= cx && cx < sx + 2 * (screen.width as i64) && sy <= cy && cy < sy + 2
                * (screen.height as i64) {
                current.push(w);
            } else {
                others.push(w);
            }
        }
        proof {
            lemma_windows_by_screen_len(original, *screen, n as nat);
        }
        let count = current.len();
        let mut windows = current;
        windows.append(&mut others);
        let mut selected: Vec<usize> = Vec::new();
        let mut focused: usize = 0;
        if let Some(p) = previously_focused_window {
            if let Some(i) = find_window_row(&windows, p.1) {
                selected.push(i);
                focused = i;
                assert(selected@ == seq![i]);
            }
        }
        WindowPickerState {
            windows,
            current_monitor_count: count,
            focused_index: focused,
            selected_indices: selected,
            search_mode: false,
            search_query: String::new(),
            search_matches: Vec::new(),
            search_match_index: 0,
            previously_focused_window,
        }
    }
}

} // verus!
