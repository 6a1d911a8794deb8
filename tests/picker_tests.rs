use pixie::geometry::{Screen, WindowRect};
use pixie::keymap::{picker_input_from_key, picker_input_from_keycode, printable_char_from_keycode};
use pixie::picker::{
    ListItemMode, matches_query, picker_screen, visual_index_to_window_index, window_index_to_visual_index,
    PickerInput, PickerOutcome, WindowEntry, WindowPickerState,
};

fn entry(pid: i32, id: u32, x: i32, app: &str, title: &str) -> WindowEntry {
    WindowEntry {
        pid,
        window_id: id,
        x,
        y: 100,
        width: 400,
        height: 300,
        title: title.to_string(),
        app_name: app.to_string(),
        app_icon_path: None,
    }
}

fn main_screen() -> Screen {
    Screen { x: 0, y: 0, width: 1920, height: 1080, is_main: true }
}

fn sample() -> WindowPickerState {
    let all = vec![
        entry(1, 11, 3000, "Terminal", "zsh"),
        entry(2, 22, 100, "Safari", "Rust docs"),
        entry(3, 33, 200, "Mail", "Inbox"),
        entry(4, 44, 2500, "Notes", "Groceries"),
    ];
    WindowPickerState::open(all, &main_screen(), Some((3, 33)))
}

#[test]
fn open_puts_current_screen_first_and_preselects() {
    let s = sample();
    let ids: Vec<u32> = s.windows.iter().map(|w| w.window_id).collect();
    assert_eq!(ids, vec![22, 33, 11, 44]);
    assert_eq!(s.current_monitor_count, 2);
    assert_eq!(s.selected_indices, vec![1]);
    assert_eq!(s.focused_index, 1);
    assert!(s.has_secondary_group());
    assert_eq!(s.visual_row_count(), 5);
    let none = WindowPickerState::open(vec![entry(1, 1, 0, "A", "a")], &main_screen(), None);
    assert!(none.selected_indices.is_empty());
    assert_eq!(none.focused_index, 0);
}

#[test]
fn visual_index_round_trip() {
    for n in 0..6usize {
        for k in 0..=n {
            for sep in [false, true] {
                for w in 0..n {
                    let v = window_index_to_visual_index(w, k, sep);
                    assert_eq!(visual_index_to_window_index(v, k, sep), Some(w));
                }
            }
        }
    }
    assert_eq!(visual_index_to_window_index(2, 2, true), None);
    assert_eq!(window_index_to_visual_index(2, 2, true), 3);
}

#[test]
fn movement_wraps_around() {
    let mut s = sample();
    s.handle_picker_input(PickerInput::SelectDown);
    s.handle_picker_input(PickerInput::SelectDown);
    s.handle_picker_input(PickerInput::SelectDown);
    assert_eq!(s.focused_index, 0);
    s.handle_picker_input(PickerInput::SelectUp);
    assert_eq!(s.focused_index, 3);
    s.handle_picker_input(PickerInput::SearchChar('k'));
    assert_eq!(s.focused_index, 2);
    s.handle_picker_input(PickerInput::SearchChar('j'));
    assert_eq!(s.focused_index, 3);
}

#[test]
fn toggling_selection() {
    let mut s = sample();
    s.handle_picker_input(PickerInput::ToggleSelect);
    assert!(s.selected_indices.is_empty());
    s.handle_picker_input(PickerInput::SearchChar(' '));
    assert_eq!(s.selected_indices, vec![1]);
    s.click_select(3);
    assert_eq!(s.focused_index, 3);
    assert_eq!(s.selected_indices, vec![1, 3]);
    s.click_select(9);
    assert_eq!(s.selected_indices, vec![1, 3]);
    s.hover_focus(0);
    assert_eq!(s.focused_index, 0);
}

#[test]
fn search_matches_name_or_title_ignoring_case() {
    assert!(matches_query(&entry(1, 1, 0, "Safari", "Rust docs"), "RUST"));
    assert!(matches_query(&entry(1, 1, 0, "Safari", "Rust docs"), "fari"));
    assert!(!matches_query(&entry(1, 1, 0, "Safari", "Rust docs"), "mail"));
    assert!(!matches_query(&entry(1, 1, 0, "Safari", "Rust docs"), ""));
}

#[test]
fn search_typing_jumps_to_first_match_and_cycles() {
    let mut s = sample();
    s.handle_picker_input(PickerInput::SearchChar('/'));
    assert!(s.search_mode);
    s.handle_picker_input(PickerInput::SearchChar('o'));
    // "o" occurs in "Rust docs", "Inbox" and "Notes"/"Groceries"
    assert_eq!(s.search_query, "o");
    assert_eq!(s.search_matches, vec![0, 1, 3]);
    assert_eq!(s.focused_index, 1);
    assert_eq!(s.search_match_index, 1);
    s.handle_picker_input(PickerInput::SearchChar('T'));
    assert_eq!(s.search_matches, vec![3]);
    assert_eq!(s.focused_index, 3);
    s.handle_picker_input(PickerInput::SearchBackspace);
    assert_eq!(s.search_query, "o");
    assert_eq!(s.search_matches, vec![0, 1, 3]);
    assert_eq!(s.search_match_index, 2);
    s.handle_picker_input(PickerInput::Confirm);
    assert!(!s.search_mode);
    assert_eq!(s.search_query, "o");
    s.handle_picker_input(PickerInput::SearchChar('n'));
    assert_eq!(s.focused_index, 0);
    s.handle_picker_input(PickerInput::SearchChar('n'));
    assert_eq!(s.focused_index, 1);
    s.handle_picker_input(PickerInput::SearchChar('N'));
    assert_eq!(s.focused_index, 0);
    s.handle_picker_input(PickerInput::SearchChar('N'));
    assert_eq!(s.focused_index, 3);
}

#[test]
fn next_without_query_does_nothing() {
    let mut s = sample();
    s.search_next();
    s.search_previous();
    assert_eq!(s.focused_index, 1);
}

#[test]
fn confirm_tiles_selection_and_refocuses() {
    let mut s = sample();
    s.click_select(0);
    match s.handle_picker_input(PickerInput::Confirm) {
        PickerOutcome::Confirm(plan) => {
            assert_eq!(plan.tile, vec![(3, 33), (2, 22)]);
            assert_eq!(plan.focus, Some((3, 33)));
        }
        _ => panic!("expected a confirmation"),
    }
    let mut t = sample();
    t.handle_picker_input(PickerInput::ToggleSelect);
    t.handle_picker_input(PickerInput::SelectDown);
    match t.handle_picker_input(PickerInput::Confirm) {
        PickerOutcome::Confirm(plan) => {
            assert_eq!(plan.tile, vec![(1, 11)]);
            assert_eq!(plan.focus, Some((1, 11)));
        }
        _ => panic!("expected a confirmation"),
    }
    let mut empty = WindowPickerState::open(vec![], &main_screen(), Some((9, 99)));
    match empty.handle_picker_input(PickerInput::Confirm) {
        PickerOutcome::Confirm(plan) => {
            assert!(plan.tile.is_empty());
            assert_eq!(plan.focus, Some((9, 99)));
        }
        _ => panic!("expected a confirmation"),
    }
}

#[test]
fn cancel_restores_previous_focus() {
    let mut s = sample();
    s.click_select(2);
    assert!(matches!(s.handle_picker_input(PickerInput::Cancel), PickerOutcome::Cancel(Some((3, 33)))));
    assert!(matches!(s.handle_picker_input(PickerInput::SearchChar('q')), PickerOutcome::Cancel(Some((3, 33)))));
}

#[test]
fn picker_screen_choice() {
    let main = main_screen();
    let other = Screen { x: 1920, y: 0, width: 1280, height: 1024, is_main: false };
    let w = WindowRect { x: 2000, y: 10, width: 100, height: 100, pid: 1, window_id: Some(1) };
    assert_eq!(picker_screen(Some(w), &vec![main, other]), Some(other));
    assert_eq!(picker_screen(None, &vec![other, main]), Some(main));
    assert_eq!(picker_screen(None, &vec![other]), Some(other));
    assert_eq!(picker_screen(None, &vec![]), None);
}

#[test]
fn picker_key_translation() {
    assert_eq!(picker_input_from_keycode(125, false), Some(PickerInput::SelectDown));
    assert_eq!(picker_input_from_keycode(117, false), Some(PickerInput::SearchBackspace));
    assert_eq!(picker_input_from_keycode(18, true), Some(PickerInput::SearchChar('!')));
    assert_eq!(picker_input_from_keycode(49, true), Some(PickerInput::SearchChar(' ')));
    assert_eq!(printable_char_from_keycode(39, false), Some('\''));
    assert_eq!(printable_char_from_keycode(42, true), Some('|'));
    assert_eq!(printable_char_from_keycode(10, false), None);
    assert_eq!(picker_input_from_key("return", false), Some(PickerInput::Confirm));
    assert_eq!(picker_input_from_key("x", true), Some(PickerInput::SearchChar('X')));
    assert_eq!(picker_input_from_key("é", false), Some(PickerInput::SearchChar('é')));
    assert_eq!(picker_input_from_key("f4", false), None);
}

#[test]
fn separator_rows() {
    assert!(ListItemMode::Separator.is_separator());
    assert!(!ListItemMode::Entry.is_separator());
}
