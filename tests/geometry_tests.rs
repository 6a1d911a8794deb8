use pixie::error::PixieError;
use pixie::geometry::{overlap_amount_1d, Rect, Screen, WindowRect};
use pixie::navigation::{calculate_direction_score, find_window_in_direction, score_candidates, Direction};
use pixie::screens::{
    center_window, dock_height, find_adjacent_screen, get_screen_for_frame, get_screen_for_window,
    maximize_window, move_window_to_monitor, rescale_frame, tile_windows_in_columns, Frame,
    MonitorDirection,
};

fn win(x: i32, y: i32, w: i32, h: i32, pid: i32, id: u32) -> WindowRect {
    WindowRect { x, y, width: w, height: h, pid, window_id: Some(id) }
}

fn screen(x: i32, y: i32, w: i32, h: i32, is_main: bool) -> Screen {
    Screen { x, y, width: w, height: h, is_main }
}

#[test]
fn scenario_right_neighbour_with_gap() {
    let source = win(0, 0, 800, 600, 1, 1);
    let a = win(850, 0, 800, 600, 2, 2);
    let cands = vec![a];
    assert_eq!(find_window_in_direction(&source, Direction::Right, &cands).unwrap(), 0);
    // gap of 50 points, and the two windows share their full 600-point height
    assert_eq!(calculate_direction_score(&source, &a, Direction::Right), Some(50 - 600 * 100));
}

#[test]
fn scenario_aligned_window_beats_nearer_one() {
    let source = win(0, 0, 800, 600, 1, 1);
    let near = win(850, 590, 800, 600, 2, 2);
    let far_aligned = win(2000, 0, 800, 600, 3, 3);
    let cands = vec![near, far_aligned];
    assert_eq!(find_window_in_direction(&source, Direction::Right, &cands).unwrap(), 1);
    assert_eq!(calculate_direction_score(&source, &near, Direction::Right), Some(50 - 10 * 100));
    assert_eq!(calculate_direction_score(&source, &far_aligned, Direction::Right), Some(1200 - 60000));
}

#[test]
fn ties_go_to_the_first_enumerated() {
    let source = win(0, 0, 100, 100, 1, 1);
    let a = win(200, 0, 100, 100, 2, 2);
    let b = win(200, 0, 100, 100, 3, 3);
    assert_eq!(find_window_in_direction(&source, Direction::Right, &vec![a, b]).unwrap(), 0);
}

#[test]
fn source_window_and_its_duplicates_are_skipped() {
    let source = win(0, 0, 100, 100, 1, 7);
    let dup = win(500, 0, 100, 100, 1, 7);
    let other = win(900, 0, 100, 100, 2, 8);
    assert_eq!(find_window_in_direction(&source, Direction::Right, &vec![dup, dup, other]).unwrap(), 2);
}

#[test]
fn no_candidate_is_window_not_found() {
    let source = win(0, 0, 100, 100, 1, 1);
    let left_only = win(-300, 0, 100, 100, 2, 2);
    let r = find_window_in_direction(&source, Direction::Right, &vec![left_only]);
    assert!(matches!(r, Err(PixieError::WindowNotFound)));
    let r = find_window_in_direction(&source, Direction::Up, &vec![]);
    assert!(matches!(r, Err(PixieError::WindowNotFound)));
}

#[test]
fn overlapping_window_counts_as_gap_zero() {
    let source = win(0, 0, 400, 400, 1, 1);
    let overlapping = win(300, 100, 400, 100, 2, 2);
    assert_eq!(calculate_direction_score(&source, &overlapping, Direction::Right), Some(0 - 100 * 100));
    assert_eq!(calculate_direction_score(&source, &overlapping, Direction::Left), None);
}

#[test]
fn overlap_of_contained_and_disjoint_spans() {
    assert_eq!(overlap_amount_1d(10, 20, 0, 100), 10);
    assert_eq!(overlap_amount_1d(0, 100, 10, 20), 10);
    assert_eq!(overlap_amount_1d(0, 10, 20, 30), 0);
    assert_eq!(overlap_amount_1d(0, 10, 10, 30), 0);
    assert_eq!(overlap_amount_1d(0, 15, 10, 30), 5);
}

#[test]
fn scored_candidates_all_extend_past_the_source() {
    let source = win(100, 100, 200, 200, 1, 1);
    let cands = vec![
        win(0, 0, 50, 50, 2, 2),
        win(350, 0, 50, 50, 3, 3),
        win(150, 150, 100, 100, 4, 4),
        win(250, 120, 100, 50, 5, 5),
    ];
    for d in [Direction::Left, Direction::Right, Direction::Up, Direction::Down] {
        for s in score_candidates(&source, d, &cands) {
            let c = cands[s.index];
            let past = match d {
                Direction::Left => c.x < source.x,
                Direction::Right => c.x + c.width > source.x + source.width,
                Direction::Up => c.y < source.y,
                Direction::Down => c.y + c.height > source.y + source.height,
            };
            assert!(past);
        }
    }
    let right: Vec<usize> = score_candidates(&source, Direction::Right, &cands).iter().map(|s| s.index).collect();
    assert_eq!(right, vec![1, 3]);
}

fn l_layout() -> (Screen, Screen, Screen) {
    (screen(0, 0, 1920, 1080, true), screen(0, -1080, 1920, 1080, false), screen(1920, 0, 1920, 1080, false))
}

#[test]
fn scenario_l_shaped_screens() {
    let (main, secondary, tertiary) = l_layout();
    let all = vec![main, secondary, tertiary];
    assert_eq!(find_adjacent_screen(&main, &all, MonitorDirection::Up).unwrap(), secondary);
    assert_eq!(find_adjacent_screen(&main, &all, MonitorDirection::Right).unwrap(), tertiary);
    assert_eq!(find_adjacent_screen(&secondary, &all, MonitorDirection::Down).unwrap(), main);
}

#[test]
fn adjacent_search_falls_back_to_nearest_other_screen() {
    let (main, secondary, tertiary) = l_layout();
    let all = vec![main, tertiary, secondary];
    // nothing lies to the left of the main screen: the nearest other screen is taken
    let r = find_adjacent_screen(&main, &all, MonitorDirection::Left).unwrap();
    assert_eq!(r, secondary);
    let only = vec![main];
    assert!(matches!(find_adjacent_screen(&main, &only, MonitorDirection::Left), Err(PixieError::Accessibility(_))));
}

#[test]
fn adjacent_search_is_repeatable() {
    let (main, secondary, tertiary) = l_layout();
    let all = vec![main, secondary, tertiary];
    for d in [MonitorDirection::Left, MonitorDirection::Right, MonitorDirection::Up, MonitorDirection::Down] {
        let a = find_adjacent_screen(&main, &all, d).unwrap();
        let b = find_adjacent_screen(&main, &all, d).unwrap();
        assert_eq!(a, b);
    }
}

#[test]
fn diagonal_screen_is_not_claimed_by_the_wrong_direction() {
    let main = screen(0, 0, 1000, 1000, true);
    let diag = screen(1000, -900, 1000, 1000, false);
    let below = screen(0, 1000, 1000, 1000, false);
    let all = vec![main, diag, below];
    // diag is more to the right than above it
    assert_eq!(find_adjacent_screen(&main, &all, MonitorDirection::Right).unwrap(), diag);
    assert_eq!(find_adjacent_screen(&main, &all, MonitorDirection::Down).unwrap(), below);
}

#[test]
fn screen_for_window_by_center_then_nearest() {
    let (main, secondary, tertiary) = l_layout();
    let all = vec![main, secondary, tertiary];
    assert_eq!(get_screen_for_window(&win(2000, 100, 400, 300, 1, 1), &all).unwrap(), tertiary);
    assert_eq!(get_screen_for_window(&win(100, -500, 400, 300, 1, 1), &all).unwrap(), secondary);
    // center far below everything: nearest center wins
    assert_eq!(get_screen_for_window(&win(3000, 5000, 100, 100, 1, 1), &all).unwrap(), tertiary);
    assert!(matches!(get_screen_for_window(&win(0, 0, 1, 1, 1, 1), &vec![]), Err(PixieError::Accessibility(_))));
}

fn same_bounds(f: &Frame, x: i128, y: i128, w: i128, h: i128) -> bool {
    f.x == x * f.den_x && f.width == w * f.den_x && f.y == y * f.den_y && f.height == h * f.den_y
}

#[test]
fn move_to_monitor_keeps_relative_place() {
    let left = screen(0, 0, 1000, 1000, true);
    let right = screen(1000, 0, 2000, 2000, false);
    let f = Frame::from_window(&win(500, 250, 500, 500, 1, 1));
    let r = move_window_to_monitor(&f, &vec![left, right], MonitorDirection::Right).unwrap();
    assert!(same_bounds(&r, 2000, 500, 1000, 1000));
}

#[test]
fn move_there_and_back_restores_bounds() {
    // the window keeps its exact bounds, also through a smaller screen
    let a = screen(0, 0, 1920, 1080, true);
    let b = screen(1920, 0, 1280, 720, false);
    let all = vec![a, b];
    let orig = Frame::from_window(&win(1, 0, 100, 100, 1, 1));
    let there = move_window_to_monitor(&orig, &all, MonitorDirection::Right).unwrap();
    assert_eq!(get_screen_for_frame(&there, &all).unwrap(), b);
    // x = 1920 + 1 * 1280 / 1920, width = 100 * 1280 / 1920
    assert_eq!(there.x * 3, (1920 * 3 + 2) * there.den_x);
    assert_eq!(there.width * 3, 200 * there.den_x);
    let back = move_window_to_monitor(&there, &all, MonitorDirection::Left).unwrap();
    assert!(same_bounds(&back, 1, 0, 100, 100));
    for (x, y, w, h) in [(0, 25, 720, 875), (37, 101, 333, 417), (1000, 800, 440, 100), (-50, -20, 1500, 950)] {
        let f = Frame::from_window(&win(x, y, w, h, 1, 1));
        let t = rescale_frame(&f, &a, &b).unwrap();
        let r = rescale_frame(&t, &b, &a).unwrap();
        assert!(same_bounds(&r, x as i128, y as i128, w as i128, h as i128));
    }
}

#[test]
fn frame_screen_follows_the_exact_center() {
    let a = screen(0, 0, 100, 100, true);
    let b = screen(100, 0, 100, 100, false);
    // center at x = 99.75: still on the left screen
    let f = Frame { x: 399, y: 0, width: 0, height: 40, den_x: 4, den_y: 1 };
    assert_eq!(get_screen_for_frame(&f, &vec![a, b]).unwrap(), a);
    let g = Frame { x: 400, y: 0, width: 0, height: 40, den_x: 4, den_y: 1 };
    assert_eq!(get_screen_for_frame(&g, &vec![a, b]).unwrap(), b);
}

#[test]
fn maximize_and_center_use_the_usable_area() {
    let main = screen(0, 0, 1920, 1080, true);
    let w = win(100, 100, 800, 600, 1, 1);
    assert_eq!(maximize_window(&w, &vec![main], 80).unwrap(), Rect { x: 0, y: 25, width: 1920, height: 975 });
    assert_eq!(center_window(&w, &vec![main]).unwrap(), Rect { x: 560, y: 25 + 227, width: 800, height: 600 });
    let other = screen(1920, 0, 1280, 1024, false);
    let w2 = win(2000, 100, 1280, 1100, 1, 1);
    assert_eq!(center_window(&w2, &vec![main, other]).unwrap(), Rect { x: 1920, y: -38, width: 1280, height: 1100 });
}

#[test]
fn dock_height_by_orientation() {
    assert_eq!(dock_height("bottom", false), 80);
    assert_eq!(dock_height("left", false), 0);
    assert_eq!(dock_height("right", false), 0);
    assert_eq!(dock_height("", false), 80);
    assert_eq!(dock_height("bottom", true), 0);
}

#[test]
fn columns_split_the_usable_width() {
    let main = screen(0, 0, 2000, 1200, true);
    let cols = tile_windows_in_columns(3, &main);
    assert_eq!(cols, vec![
        Rect { x: 0, y: 25, width: 666, height: 1175 },
        Rect { x: 666, y: 25, width: 666, height: 1175 },
        Rect { x: 1332, y: 25, width: 666, height: 1175 },
    ]);
    assert!(tile_windows_in_columns(0, &main).is_empty());
}
