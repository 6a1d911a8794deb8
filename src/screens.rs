//! Screen selection and cross-monitor geometry.

use vstd::arithmetic::div_mod::{
    lemma_fundamental_div_mod, lemma_fundamental_div_mod_converse, lemma_mod_bound,
};
use vstd::prelude::*;

use crate::error::PixieError;
use crate::geometry::{floor_div, screens_wf, Rect, Screen, WindowRect};
use crate::text::str_eq;

verus! {

/// Screen-to-screen navigation axis.
#[derive(Debug, Clone, Copy, PartialEq, Eq)]
pub enum MonitorDirection {
    Left,
    Right,
    Up,
    Down,
}

/// Height of the menu bar on the primary screen.
pub const MENU_BAR_HEIGHT: i32 = 25;

/// Height that a visible dock at the bottom takes from the screen.
pub const DOCK_HEIGHT: i32 = 80;

pub open spec fn abs(v: int) -> int {
    if v < 0 { -v } else { v }
}

/// Twice the horizontal center of a span, which keeps centers integral.
pub open spec fn center2(origin: int, len: int) -> int {
    2 * origin + len
}

/// The point `(cx, cy)`, in doubled coordinates, lies on the screen.
pub open spec fn screen_contains_center(s: Screen, cx: int, cy: int) -> bool {
    &&& 2 * s.x <= cx < 2 * s.x + 2 * s.width
    &&& 2 * s.y <= cy < 2 * s.y + 2 * s.height
}

/// Squared distance, in doubled coordinates, from `(cx, cy)` to the screen's center.
pub open spec fn center_screen_dist2(s: Screen, cx: int, cy: int) -> int {
    let dx = cx - center2(s.x as int, s.width as int);
    let dy = cy - center2(s.y as int, s.height as int);
    dx * dx + dy * dy
}

/// The first of the first `n` screens that holds the point.
pub open spec fn first_containing(cx: int, cy: int, screens: Seq<Screen>, n: nat) -> Option<int>
    decreases n,
{
    if n == 0 {
        None
    } else {
        match first_containing(cx, cy, screens, (n - 1) as nat) {
            Some(i) => Some(i),
            None => if screen_contains_center(screens[n - 1], cx, cy) {
                Some(n - 1)
            } else {
                None
            },
        }
    }
}

/// The first of the first `n` screens whose center is nearest the point.
pub open spec fn nearest_to_center(cx: int, cy: int, screens: Seq<Screen>, n: nat) -> Option<int>
    decreases n,
{
    if n == 0 {
        None
    } else {
        match nearest_to_center(cx, cy, screens, (n - 1) as nat) {
            Some(b) => if center_screen_dist2(screens[n - 1], cx, cy) < center_screen_dist2(
                screens[b],
                cx,
                cy,
            ) {
                Some(n - 1)
            } else {
                Some(b)
            },
            None => Some(n - 1),
        }
    }
}

/// The screen a point belongs to: the first that holds it, else the one whose
/// center is nearest.
pub open spec fn screen_index_for_center(cx: int, cy: int, screens: Seq<Screen>) -> Option<int> {
    match first_containing(cx, cy, screens, screens.len()) {
        Some(i) => Some(i),
        None => nearest_to_center(cx, cy, screens, screens.len()),
    }
}

/// The screen a window belongs to: the one of its center.
pub open spec fn screen_index_for_window(w: WindowRect, screens: Seq<Screen>) -> Option<int> {
    screen_index_for_center(
        center2(w.x as int, w.width as int),
        center2(w.y as int, w.height as int),
        screens,
    )
}

proof fn lemma_first_containing_bounds(cx: int, cy: int, screens: Seq<Screen>, n: nat)
    requires
        n <= screens.len(),
    ensures
        first_containing(cx, cy, screens, n) matches Some(i) ==> 0 <= i < n,
    decreases n,
{
    if n > 0 {
        lemma_first_containing_bounds(cx, cy, screens, (n - 1) as nat);
    }
}

proof fn lemma_nearest_bounds(cx: int, cy: int, screens: Seq<Screen>, n: nat)
    requires
        n <= screens.len(),
    ensures
        nearest_to_center(cx, cy, screens, n) is Some <==> n > 0,
        nearest_to_center(cx, cy, screens, n) matches Some(i) ==> 0 <= i < n,
    decreases n,
{
    if n > 0 {
        lemma_nearest_bounds(cx, cy, screens, (n - 1) as nat);
    }
}

/// The screen chosen for a point is one of the list, and there is one
/// whenever the list is not empty.
pub proof fn lemma_center_index_bounds(cx: int, cy: int, screens: Seq<Screen>)
    ensures
        screen_index_for_center(cx, cy, screens) is Some <==> screens.len() > 0,
        screen_index_for_center(cx, cy, screens) matches Some(i) ==> 0 <= i < screens.len(),
{
    lemma_first_containing_bounds(cx, cy, screens, screens.len());
    lemma_nearest_bounds(cx, cy, screens, screens.len());
}

/// The screen chosen for a window is one of the list, and there is one
/// whenever the list is not empty.
pub proof fn lemma_screen_index_bounds(w: WindowRect, screens: Seq<Screen>)
    ensures
        screen_index_for_window(w, screens) is Some <==> screens.len() > 0,
        screen_index_for_window(w, screens) matches Some(i) ==> 0 <= i < screens.len(),
{
    lemma_center_index_bounds(
        center2(w.x as int, w.width as int),
        center2(w.y as int, w.height as int),
        screens,
    );
}

/// Largest doubled coordinate a center point may have.
pub const CENTER_LIMIT: i64 = 0x4000_0000_0000_0000;

/// Finds the screen of the point `(cx, cy)`, in doubled coordinates.
fn screen_for_center(cx: i64, cy: i64, screens: &Vec<Screen>) -> (r: Option<usize>)
    requires
        -CENTER_LIMIT <= cx <= CENTER_LIMIT,
        -CENTER_LIMIT <= cy <= CENTER_LIMIT,
    ensures
        match r {
            Some(i) => screen_index_for_center(cx as int, cy as int, screens@) == Some(i as int)
                && i < screens@.len(),
            None => screens@.len() == 0,
        },
{
    proof {
        lemma_center_index_bounds(cx as int, cy as int, screens@);
    }
    let mut i: usize = 0;
    while i < screens.len()
        invariant
            i <= screens@.len(),
            first_containing(cx as int, cy as int, screens@, i as nat) is None,
        decreases screens@.len() - i,
    {
        let s = &screens[i];
        let sx: i64 = 2 * (s.x as i64);
        let sy: i64 = 2 * (s.y as i64);
        if sx <= cx && cx < sx + 2 * (s.width as i64) && sy <= cy && cy < sy + 2
            * (s.height as i64) {
            proof {
                assert(screen_contains_center(screens@[i as int], cx as int, cy as int));
                assert(first_containing(cx as int, cy as int, screens@, (i + 1) as nat) == Some(
                    i as int,
                ));
                lemma_first_containing_stays(cx as int, cy as int, screens@, (i + 1) as nat);
            }
            return Some(i);
        }
        i += 1;
    }
    if screens.len() == 0 {
        return None;
    }
    let mut best: usize = 0;
    let mut best_d: i128 = dist2_center(cx, cy, &screens[0]);
    assert(nearest_to_center(cx as int, cy as int, screens@, 0) is None);
    assert(nearest_to_center(cx as int, cy as int, screens@, 1) == Some(0int));
    let mut k: usize = 1;
    while k < screens.len()
        invariant
            1 <= k <= screens@.len(),
            -CENTER_LIMIT <= cx <= CENTER_LIMIT,
            -CENTER_LIMIT <= cy <= CENTER_LIMIT,
            nearest_to_center(cx as int, cy as int, screens@, k as nat) == Some(best as int),
            best < k,
            best_d as int == center_screen_dist2(screens@[best as int], cx as int, cy as int),
        decreases screens@.len() - k,
    {
        let d = dist2_center(cx, cy, &screens[k]);
        if d < best_d {
            best = k;
            best_d = d;
        }
        k += 1;
    }
    assert(screen_index_for_center(cx as int, cy as int, screens@) == Some(best as int));
    Some(best)
}

/// Finds the screen that a window is on.
pub fn get_screen_for_window(window: &WindowRect, screens: &Vec<Screen>) -> (r: Result<
    Screen,
    PixieError,
>)
    ensures
        r is Ok <==> screens@.len() > 0,
        r is Ok ==> (screen_index_for_window(*window, screens@) matches Some(i) && r->Ok_0
            == screens@[i]),
        r is Err ==> r->Err_0 is Accessibility,
{
    let cx: i64 = 2 * (window.x as i64) + window.width as i64;
    let cy: i64 = 2 * (window.y as i64) + window.height as i64;
    match screen_for_center(cx, cy, screens) {
        Some(i) => Ok(screens[i]),
        None => Err(PixieError::Accessibility(String::from_str("No active displays found"))),
    }
}

proof fn lemma_first_containing_stays(cx: int, cy: int, screens: Seq<Screen>, n: nat)
    requires
        n <= screens.len(),
        first_containing(cx, cy, screens, n) is Some,
    ensures
        first_containing(cx, cy, screens, screens.len()) == first_containing(cx, cy, screens, n),
    decreases screens.len() - n,
{
    if n < screens.len() {
        assert(first_containing(cx, cy, screens, (n + 1) as nat) == first_containing(
            cx,
            cy,
            screens,
            n,
        ));
        lemma_first_containing_stays(cx, cy, screens, (n + 1) as nat);
    }
}

fn dist2_center(cx: i64, cy: i64, s: &Screen) -> (r: i128)
    requires
        -CENTER_LIMIT <= cx <= CENTER_LIMIT,
        -CENTER_LIMIT <= cy <= CENTER_LIMIT,
    ensures
        r as int == center_screen_dist2(*s, cx as int, cy as int),
{
    let dx: i128 = cx as i128 - (2 * (s.x as i128) + s.width as i128);
    let dy: i128 = cy as i128 - (2 * (s.y as i128) + s.height as i128);
    proof {
        assert(dx * dx <= 0x4000_0002_0000_0000 * 0x4000_0002_0000_0000) by (nonlinear_arith)
            requires
                -0x4000_0002_0000_0000 <= dx <= 0x4000_0002_0000_0000,
        ;
        assert(dy * dy <= 0x4000_0002_0000_0000 * 0x4000_0002_0000_0000) by (nonlinear_arith)
            requires
                -0x4000_0002_0000_0000 <= dy <= 0x4000_0002_0000_0000,
        ;
        assert(dx * dx >= 0) by (nonlinear_arith);
        assert(dy * dy >= 0) by (nonlinear_arith);
    }
    dx * dx + dy * dy
}

/// The screen's origin differs from the current one's by more than a point.
pub open spec fn is_different_screen(current: Screen, s: Screen) -> bool {
    abs(s.x - current.x) > 1 || abs(s.y - current.y) > 1
}

/// Center-to-center offset, in doubled coordinates, from `current` to `s`.
pub open spec fn center_dx(current: Screen, s: Screen) -> int {
    center2(s.x as int, s.width as int) - center2(current.x as int, current.width as int)
}

pub open spec fn center_dy(current: Screen, s: Screen) -> int {
    center2(s.y as int, s.height as int) - center2(current.y as int, current.height as int)
}

/// The screen lies in the direction: the offset points that way along the
/// dominant axis, and that axis dominates strictly.
pub open spec fn is_in_direction(current: Screen, s: Screen, d: MonitorDirection) -> bool {
    let dx = center_dx(current, s);
    let dy = center_dy(current, s);
    match d {
        MonitorDirection::Left => dx < 0 && abs(dx) > abs(dy),
        MonitorDirection::Right => dx > 0 && abs(dx) > abs(dy),
        MonitorDirection::Up => dy < 0 && abs(dy) > abs(dx),
        MonitorDirection::Down => dy > 0 && abs(dy) > abs(dx),
    }
}

/// Squared center-to-center distance, in doubled coordinates.
pub open spec fn screen_dist2(current: Screen, s: Screen) -> int {
    center_dx(current, s) * center_dx(current, s) + center_dy(current, s) * center_dy(current, s)
}

/// The screen may be chosen: it differs from the current one and, when
/// `directional` holds, lies in the direction.
pub open spec fn is_screen_candidate(
    current: Screen,
    s: Screen,
    d: MonitorDirection,
    directional: bool,
) -> bool {
    is_different_screen(current, s) && (directional ==> is_in_direction(current, s, d))
}

/// Of the first `n` screens, the first candidate nearest the current screen.
pub open spec fn nearest_candidate(
    current: Screen,
    screens: Seq<Screen>,
    d: MonitorDirection,
    directional: bool,
    n: nat,
) -> Option<int>
    decreases n,
{
    if n == 0 {
        None
    } else {
        let prev = nearest_candidate(current, screens, d, directional, (n - 1) as nat);
        if is_screen_candidate(current, screens[n - 1], d, directional) {
            match prev {
                Some(b) => if screen_dist2(current, screens[n - 1]) < screen_dist2(
                    current,
                    screens[b],
                ) {
                    Some(n - 1)
                } else {
                    Some(b)
                },
                None => Some(n - 1),
            }
        } else {
            prev
        }
    }
}

/// The adjacent screen in a direction: the nearest screen that lies in the
/// direction, else the nearest screen that differs from the current one.
pub open spec fn adjacent_screen_index(
    current: Screen,
    screens: Seq<Screen>,
    d: MonitorDirection,
) -> Option<int> {
    match nearest_candidate(current, screens, d, true, screens.len()) {
        Some(i) => Some(i),
        None => nearest_candidate(current, screens, d, false, screens.len()),
    }
}

proof fn lemma_nearest_candidate_props(
    current: Screen,
    screens: Seq<Screen>,
    d: MonitorDirection,
    directional: bool,
    n: nat,
)
    requires
        n <= screens.len(),
    ensures
        nearest_candidate(current, screens, d, directional, n) matches Some(i) ==> 0 <= i < n
            && is_screen_candidate(current, screens[i], d, directional),
        nearest_candidate(current, screens, d, directional, n) is None <==> forall|j: int|
            0 <= j < n ==> !is_screen_candidate(current, #[trigger] screens[j], d, directional),
    decreases n,
{
    if n > 0 {
        lemma_nearest_candidate_props(current, screens, d, directional, (n - 1) as nat);
        if nearest_candidate(current, screens, d, directional, n) is None {
            assert forall|j: int|
                0 <= j < n implies !is_screen_candidate(
                    current,
                    #[trigger] screens[j],
                    d,
                    directional,
                ) by {
                if j < n - 1 {
                }
            }
        }
    }
}

/// An executable index and a spec index name the same position.
pub open spec fn same_index(a: Option<usize>, b: Option<int>) -> bool {
    match a {
        Some(i) => b == Some(i as int),
        None => b is None,
    }
}

/// The adjacent screen, when there is one, is one of the list.
pub proof fn lemma_adjacent_index_bounds(current: Screen, screens: Seq<Screen>, d: MonitorDirection)
    ensures
        adjacent_screen_index(current, screens, d) matches Some(i) ==> 0 <= i < screens.len(),
{
    lemma_nearest_candidate_props(current, screens, d, true, screens.len());
    lemma_nearest_candidate_props(current, screens, d, false, screens.len());
}

/// Offset and distance of one screen from the current one, as computed.
fn screen_offsets(current: &Screen, s: &Screen) -> (r: (i64, i64, i128))
    ensures
        r.0 as int == center_dx(*current, *s),
        r.1 as int == center_dy(*current, *s),
        r.2 as int == screen_dist2(*current, *s),
{
    let dx: i64 = (2 * (s.x as i64) + s.width as i64) - (2 * (current.x as i64)
        + current.width as i64);
    let dy: i64 = (2 * (s.y as i64) + s.height as i64) - (2 * (current.y as i64)
        + current.height as i64);
    let dx2: i128 = dx as i128;
    let dy2: i128 = dy as i128;
    proof {
        assert(dx2 * dx2 <= 0x10_0000_0000 * 0x10_0000_0000) by (nonlinear_arith)
            requires
                -0x10_0000_0000 <= dx2 <= 0x10_0000_0000,
        ;
        assert(dy2 * dy2 <= 0x10_0000_0000 * 0x10_0000_0000) by (nonlinear_arith)
            requires
                -0x10_0000_0000 <= dy2 <= 0x10_0000_0000,
        ;
        assert(dx2 * dx2 >= 0) by (nonlinear_arith);
        assert(dy2 * dy2 >= 0) by (nonlinear_arith);
    }
    (dx, dy, dx2 * dx2 + dy2 * dy2)
}

/// Finds the index of the screen adjacent to `current` in `direction`.
pub fn find_adjacent_screen_index(
    current: &Screen,
    screens: &Vec<Screen>,
    direction: MonitorDirection,
) -> (r: Option<usize>)
    ensures
        r matches Some(i) ==> adjacent_screen_index(*current, screens@, direction) == Some(
            i as int,
        ) && i < screens@.len(),
        r is None ==> adjacent_screen_index(*current, screens@, direction) is None,
        r is None <==> forall|j: int|
            0 <= j < screens@.len() ==> !is_different_screen(*current, #[trigger] screens@[j]),
{
    let mut best_dir: Option<usize> = None;
    let mut best_dir_d: i128 = 0;
    let mut best_any: Option<usize> = None;
    let mut best_any_d: i128 = 0;
    let mut i: usize = 0;
    while i < screens.len()
        invariant
            i <= screens@.len(),
            same_index(best_dir, nearest_candidate(*current, screens@, direction, true, i as nat)),
            same_index(
                best_any,
                nearest_candidate(*current, screens@, direction, false, i as nat),
            ),
            best_dir matches Some(b) ==> b < i && best_dir_d as int == screen_dist2(
                *current,
                screens@[b as int],
            ),
            best_any matches Some(b) ==> b < i && best_any_d as int == screen_dist2(
                *current,
                screens@[b as int],
            ),
        decreases screens@.len() - i,
    {
        proof {
            lemma_nearest_candidate_props(*current, screens@, direction, true, i as nat);
            lemma_nearest_candidate_props(*current, screens@, direction, false, i as nat);
        }
        let s = &screens[i];
        let ox: i64 = s.x as i64 - current.x as i64;
        let oy: i64 = s.y as i64 - current.y as i64;
        let different = ox > 1 || ox < -1 || oy > 1 || oy < -1;
        if different {
            let (dx, dy, dist) = screen_offsets(current, s);
            let adx: i64 = if dx < 0 { -dx } else { dx };
            let ady: i64 = if dy < 0 { -dy } else { dy };
            let in_dir = match direction {
                MonitorDirection::Left => dx < 0 && adx > ady,
                MonitorDirection::Right => dx > 0 && adx > ady,
                MonitorDirection::Up => dy < 0 && ady > adx,
                MonitorDirection::Down => dy > 0 && ady > adx,
            };
            match best_any {
                Some(b) => {
                    if dist < best_any_d {
                        best_any = Some(i);
                        best_any_d = dist;
                    }
                },
                None => {
                    best_any = Some(i);
                    best_any_d = dist;
                },
            }
            if in_dir {
                match best_dir {
                    Some(b) => {
                        if dist < best_dir_d {
                            best_dir = Some(i);
                            best_dir_d = dist;
                        }
                    },
                    None => {
                        best_dir = Some(i);
                        best_dir_d = dist;
                    },
                }
            }
        }
        i += 1;
    }
    proof {
        lemma_nearest_candidate_props(*current, screens@, direction, true, i as nat);
        lemma_nearest_candidate_props(*current, screens@, direction, false, i as nat);
    }
    match best_dir {
        Some(b) => Some(b),
        None => best_any,
    }
}

/// Finds the screen adjacent to `current` in `direction`, falling back to
/// the nearest other screen when none lies in that direction.
pub fn find_adjacent_screen(
    current: &Screen,
    screens: &Vec<Screen>,
    direction: MonitorDirection,
) -> (r: Result<Screen, PixieError>)
    ensures
        r is Ok <==> exists|j: int|
            0 <= j < screens@.len() && is_different_screen(*current, #[trigger] screens@[j]),
        r is Ok ==> (adjacent_screen_index(*current, screens@, direction) matches Some(i)
            && r->Ok_0 == screens@[i]),
        r is Err ==> r->Err_0 is Accessibility && adjacent_screen_index(
            *current,
            screens@,
            direction,
        ) is None,
{
    match find_adjacent_screen_index(current, screens, direction) {
        Some(i) => Ok(screens[i]),
        None => Err(PixieError::Accessibility(String::from_str("No adjacent monitor found"))),
    }
}

/// Adjacent-screen search is a function of its inputs alone: equal screens,
/// screen lists and directions give the same answer.
pub proof fn lemma_adjacent_screen_deterministic(
    current1: Screen,
    current2: Screen,
    screens1: Seq<Screen>,
    screens2: Seq<Screen>,
    d1: MonitorDirection,
    d2: MonitorDirection,
)
    requires
        current1 == current2,
        screens1 =~= screens2,
        d1 == d2,
    ensures
        adjacent_screen_index(current1, screens1, d1) == adjacent_screen_index(
            current2,
            screens2,
            d2,
        ),
{
}

/// A screen's usable area: the menu bar comes off the top of the primary
/// screen, and `bottom_inset` off its bottom.
pub open spec fn available_area(s: Screen, bottom_inset: int) -> (int, int, int, int) {
    let menu = if s.is_main { MENU_BAR_HEIGHT as int } else { 0 };
    (s.x as int, s.y + menu, s.width as int, s.height - menu - bottom_inset)
}

pub open spec fn rect_is(r: Rect, x: int, y: int, w: int, h: int) -> bool {
    r.x == x && r.y == y && r.width == w && r.height == h
}

/// Window bounds held exactly: `x` and `width` are numerators over `den_x`,
/// `y` and `height` over `den_y`.
#[derive(Debug, Clone, Copy, PartialEq, Eq)]
pub struct Frame {
    pub x: i128,
    pub y: i128,
    pub width: i128,
    pub height: i128,
    pub den_x: i128,
    pub den_y: i128,
}

/// Largest numerator or denominator a frame holds.
pub const FRAME_LIMIT: i128 = 0x1000_0000_0000_0000;

pub open spec fn within(v: int) -> bool {
    -FRAME_LIMIT <= v <= FRAME_LIMIT
}

impl Frame {
    /// Denominators are positive and every part stays within the limit.
    pub open spec fn wf(&self) -> bool {
        &&& 1 <= self.den_x <= FRAME_LIMIT
        &&& 1 <= self.den_y <= FRAME_LIMIT
        &&& within(self.x as int)
        &&& within(self.y as int)
        &&& within(self.width as int)
        &&& within(self.height as int)
    }

    /// The frame of a window's whole-point bounds.
    pub fn from_window(w: &WindowRect) -> (r: Frame)
        ensures
            r == (Frame {
                x: w.x as i128,
                y: w.y as i128,
                width: w.width as i128,
                height: w.height as i128,
                den_x: 1,
                den_y: 1,
            }),
            r.wf(),
    {
        Frame {
            x: w.x as i128,
            y: w.y as i128,
            width: w.width as i128,
            height: w.height as i128,
            den_x: 1,
            den_y: 1,
        }
    }
}

/// Twice the frame's center, rounded down to whole numbers; screen edges are
/// whole, so a screen holds the rounded point exactly when it holds the center.
pub open spec fn frame_center2(f: Frame) -> (int, int) {
    ((2 * f.x + f.width) / (f.den_x as int), (2 * f.y + f.height) / (f.den_y as int))
}

/// The screen a frame belongs to.
pub open spec fn screen_index_for_frame(f: Frame, screens: Seq<Screen>) -> Option<int> {
    screen_index_for_center(frame_center2(f).0, frame_center2(f).1, screens)
}

/// A frame carried from screen `a` to screen `b`, keeping its position and
/// size as the same fractions of the screen, before any check of size.
pub open spec fn rescaled(f: Frame, a: Screen, b: Screen) -> (int, int, int, int, int, int) {
    let dx = f.den_x * a.width;
    let dy = f.den_y * a.height;
    (
        b.x * dx + (f.x - a.x * f.den_x) * b.width,
        b.y * dy + (f.y - a.y * f.den_y) * b.height,
        f.width * b.width,
        f.height * b.height,
        dx,
        dy,
    )
}

/// The parts of a rescaled frame all stay within the limit.
pub open spec fn rescale_fits(f: Frame, a: Screen, b: Screen) -> bool {
    let r = rescaled(f, a, b);
    within(r.0) && within(r.1) && within(r.2) && within(r.3) && 1 <= r.4 <= FRAME_LIMIT && 1
        <= r.5 <= FRAME_LIMIT
}

pub open spec fn frame_is(f: Frame, r: (int, int, int, int, int, int)) -> bool {
    f.x == r.0 && f.y == r.1 && f.width == r.2 && f.height == r.3 && f.den_x == r.4 && f.den_y
        == r.5
}

/// `p / q` and `r / s` are the same number.
pub open spec fn same_fraction(p: int, q: int, r: int, s: int) -> bool {
    p * s == r * q
}

/// Moving a window to another screen and back to the screen it came from
/// gives back the same bounds, for any two screens.
pub proof fn lemma_move_round_trip(f: Frame, a: Screen, b: Screen)
    requires
        f.wf(),
        a.wf(),
        b.wf(),
    ensures
        ({
            let there = rescaled(f, a, b);
            let g = Frame {
                x: there.0 as i128,
                y: there.1 as i128,
                width: there.2 as i128,
                height: there.3 as i128,
                den_x: there.4 as i128,
                den_y: there.5 as i128,
            };
            rescale_fits(f, a, b) ==> {
                let back = rescaled(g, b, a);
                &&& same_fraction(back.0, back.4, f.x as int, f.den_x as int)
                &&& same_fraction(back.1, back.5, f.y as int, f.den_y as int)
                &&& same_fraction(back.2, back.4, f.width as int, f.den_x as int)
                &&& same_fraction(back.3, back.5, f.height as int, f.den_y as int)
            }
        }),
{
    let there = rescaled(f, a, b);
    if rescale_fits(f, a, b) {
        let (x, y, w, h, dx, dy) = (f.x as int, f.y as int, f.width as int, f.height as int,
            f.den_x as int, f.den_y as int);
        let (ax, ay, aw, ah) = (a.x as int, a.y as int, a.width as int, a.height as int);
        let (bx, by, bw, bh) = (b.x as int, b.y as int, b.width as int, b.height as int);
        assert((ax * (dx * aw * bw) + ((bx * (dx * aw) + (x - ax * dx) * bw) - bx * (dx * aw))
            * aw) * dx == x * (dx * aw * bw)) by (nonlinear_arith);
        assert((ay * (dy * ah * bh) + ((by * (dy * ah) + (y - ay * dy) * bh) - by * (dy * ah))
            * ah) * dy == y * (dy * ah * bh)) by (nonlinear_arith);
        assert((w * bw * aw) * dx == w * (dx * aw * bw)) by (nonlinear_arith);
        assert((h * bh * ah) * dy == h * (dy * ah * bh)) by (nonlinear_arith);
    }
}

proof fn lemma_product_bound(p: int, q: int, bp: int, bq: int)
    requires
        -bp <= p <= bp,
        -bq <= q <= bq,
    ensures
        -(bp * bq) <= p * q <= bp * bq,
{
    assert(-(bp * bq) <= p * q <= bp * bq) by (nonlinear_arith)
        requires
            -bp <= p <= bp,
            -bq <= q <= bq,
    ;
}

/// Carries a frame from screen `from` to screen `to` exactly; fails when the
/// result would not fit the limit.
pub fn rescale_frame(f: &Frame, from: &Screen, to: &Screen) -> (r: Result<Frame, PixieError>)
    requires
        f.wf(),
        from.wf(),
        to.wf(),
    ensures
        r is Ok <==> rescale_fits(*f, *from, *to),
        r matches Ok(g) ==> frame_is(g, rescaled(*f, *from, *to)) && g.wf(),
        r matches Err(e) ==> e is Accessibility,
{
    let ax = from.x as i128;
    let ay = from.y as i128;
    let aw = from.width as i128;
    let ah = from.height as i128;
    let bx = to.x as i128;
    let by = to.y as i128;
    let bw = to.width as i128;
    let bh = to.height as i128;
    proof {
        lemma_product_bound(f.den_x as int, aw as int, FRAME_LIMIT as int, 0x8000_0000);
        lemma_product_bound(f.den_y as int, ah as int, FRAME_LIMIT as int, 0x8000_0000);
        lemma_product_bound(ax as int, f.den_x as int, 0x8000_0000, FRAME_LIMIT as int);
        lemma_product_bound(ay as int, f.den_y as int, 0x8000_0000, FRAME_LIMIT as int);
        lemma_product_bound(f.width as int, bw as int, FRAME_LIMIT as int, 0x8000_0000);
        lemma_product_bound(f.height as int, bh as int, FRAME_LIMIT as int, 0x8000_0000);
    }
    let dx = f.den_x * aw;
    let dy = f.den_y * ah;
    let ox = f.x - ax * f.den_x;
    let oy = f.y - ay * f.den_y;
    proof {
        lemma_product_bound(bx as int, dx as int, 0x8000_0000, FRAME_LIMIT * 0x8000_0000);
        lemma_product_bound(by as int, dy as int, 0x8000_0000, FRAME_LIMIT * 0x8000_0000);
        lemma_product_bound(ox as int, bw as int, 2 * FRAME_LIMIT * 0x8000_0000, 0x8000_0000);
        lemma_product_bound(oy as int, bh as int, 2 * FRAME_LIMIT * 0x8000_0000, 0x8000_0000);
    }
    let x = bx * dx + ox * bw;
    let y = by * dy + oy * bh;
    let w = f.width * bw;
    let h = f.height * bh;
    if x < -FRAME_LIMIT || x > FRAME_LIMIT || y < -FRAME_LIMIT || y > FRAME_LIMIT || w
        < -FRAME_LIMIT || w > FRAME_LIMIT || h < -FRAME_LIMIT || h > FRAME_LIMIT || dx
        > FRAME_LIMIT || dy > FRAME_LIMIT {
        return Err(PixieError::Accessibility(String::from_str("Window bounds out of range")));
    }
    proof {
        assert(dx >= 1) by (nonlinear_arith)
            requires
                dx == f.den_x * aw,
                f.den_x >= 1,
                aw >= 1,
        ;
        assert(dy >= 1) by (nonlinear_arith)
            requires
                dy == f.den_y * ah,
                f.den_y >= 1,
                ah >= 1,
        ;
    }
    Ok(Frame { x, y, width: w, height: h, den_x: dx, den_y: dy })
}

/// Finds the screen that a frame is on.
pub fn get_screen_for_frame(f: &Frame, screens: &Vec<Screen>) -> (r: Result<Screen, PixieError>)
    requires
        f.wf(),
    ensures
        r is Ok <==> screens@.len() > 0,
        r is Ok ==> (screen_index_for_frame(*f, screens@) matches Some(i) && r->Ok_0
            == screens@[i]),
        r is Err ==> r->Err_0 is Accessibility,
{
    let nx = 2 * f.x + f.width;
    let ny = 2 * f.y + f.height;
    let cx = floor_div(nx, f.den_x);
    let cy = floor_div(ny, f.den_y);
    proof {
        crate::geometry::lemma_div_within(nx as int, f.den_x as int);
        crate::geometry::lemma_div_within(ny as int, f.den_y as int);
    }
    match screen_for_center(cx as i64, cy as i64, screens) {
        Some(i) => Ok(screens[i]),
        None => Err(PixieError::Accessibility(String::from_str("No active displays found"))),
    }
}

/// New bounds for a window moved to the adjacent screen in `direction`,
/// carried exactly.
pub fn move_window_to_monitor(frame: &Frame, screens: &Vec<Screen>, direction: MonitorDirection) -> (r:
    Result<Frame, PixieError>)
    requires
        frame.wf(),
        screens_wf(screens@),
    ensures
        r is Ok <==> (screen_index_for_frame(*frame, screens@) matches Some(c)
            && adjacent_screen_index(screens@[c], screens@, direction) matches Some(t)
            && rescale_fits(*frame, screens@[c], screens@[t])),
        r matches Ok(g) ==> ({
            let c = screen_index_for_frame(*frame, screens@)->0;
            let t = adjacent_screen_index(screens@[c], screens@, direction)->0;
            frame_is(g, rescaled(*frame, screens@[c], screens@[t])) && g.wf()
        }),
        r matches Err(e) ==> e is Accessibility,
{
    proof {
        lemma_center_index_bounds(frame_center2(*frame).0, frame_center2(*frame).1, screens@);
    }
    let current = get_screen_for_frame(frame, screens)?;
    proof {
        let c = screen_index_for_frame(*frame, screens@)->0;
        assert(screens@[c].wf());
        lemma_adjacent_index_bounds(screens@[c], screens@, direction);
    }
    let target = find_adjacent_screen(&current, screens, direction)?;
    proof {
        let c = screen_index_for_frame(*frame, screens@)->0;
        let t = adjacent_screen_index(screens@[c], screens@, direction)->0;
        assert(screens@[t].wf());
    }
    rescale_frame(frame, &current, &target)
}

/// Height the dock takes from the bottom of the screen: none when it hides
/// itself or stands at the left or right edge.
pub fn dock_height(orientation: &str, autohide: bool) -> (r: i32)
    ensures
        r == (if autohide || orientation@ == "left"@ || orientation@ == "right"@ {
            0
        } else {
            DOCK_HEIGHT
        }),
{
    if autohide {
        return 0;
    }
    if str_eq(orientation, "left") || str_eq(orientation, "right") {
        0
    } else {
        DOCK_HEIGHT
    }
}

/// Bounds that fill the usable area of the window's screen.
pub fn maximize_window(window: &WindowRect, screens: &Vec<Screen>, dock: i32) -> (r: Result<
    Rect,
    PixieError,
>)
    requires
        0 <= dock <= DOCK_HEIGHT,
    ensures
        r is Ok <==> screens@.len() > 0,
        r is Ok ==> ({
            let s = screens@[screen_index_for_window(*window, screens@)->0];
            let a = available_area(s, dock as int);
            rect_is(r->Ok_0, a.0, a.1, a.2, a.3)
        }),
        r is Err ==> r->Err_0 is Accessibility,
{
    let screen = get_screen_for_window(window, screens)?;
    let menu: i64 = if screen.is_main { MENU_BAR_HEIGHT as i64 } else { 0 };
    Ok(Rect {
        x: screen.x as i64,
        y: screen.y as i64 + menu,
        width: screen.width as i64,
        height: screen.height as i64 - menu - dock as i64,
    })
}

/// Bounds that center the window, at its size, in the usable area of its screen.
pub fn center_window(window: &WindowRect, screens: &Vec<Screen>) -> (r: Result<Rect, PixieError>)
    ensures
        r is Ok <==> screens@.len() > 0,
        r is Ok ==> ({
            let s = screens@[screen_index_for_window(*window, screens@)->0];
            let a = available_area(s, 0);
            rect_is(
                r->Ok_0,
                a.0 + (a.2 - window.width) / 2,
                a.1 + (a.3 - window.height) / 2,
                window.width as int,
                window.height as int,
            )
        }),
        r is Err ==> r->Err_0 is Accessibility,
{
    let screen = get_screen_for_window(window, screens)?;
    let menu: i64 = if screen.is_main { MENU_BAR_HEIGHT as i64 } else { 0 };
    let ax = screen.x as i64;
    let ay = screen.y as i64 + menu;
    let aw = screen.width as i64;
    let ah = screen.height as i64 - menu;
    let dx = floor_div((aw - window.width as i64) as i128, 2) as i64;
    let dy = floor_div((ah - window.height as i64) as i128, 2) as i64;
    Ok(Rect { x: ax + dx, y: ay + dy, width: window.width as i64, height: window.height as i64 })
}

/// Equal-width columns across the usable area of `screen`, one per window,
/// left to right.
pub fn tile_windows_in_columns(count: usize, screen: &Screen) -> (r: Vec<Rect>)
    requires
        screen.wf(),
        count <= 0x7FFF_FFFF,
    ensures
        r@.len() == count,
        forall|k: int|
            0 <= k < count ==> {
                let a = available_area(*screen, 0);
                let w = a.2 / (count as int);
                rect_is(#[trigger] r@[k], a.0 + k * w, a.1, w, a.3)
            },
{
    let mut out: Vec<Rect> = Vec::new();
    if count == 0 {
        return out;
    }
    let menu: i64 = if screen.is_main { MENU_BAR_HEIGHT as i64 } else { 0 };
    let ax = screen.x as i64;
    let ay = screen.y as i64 + menu;
    let aw = screen.width as i64;
    let ah = screen.height as i64 - menu;
    let w: i64 = aw / (count as i64);
    assert(0 <= w <= aw) by {
        vstd::arithmetic::div_mod::lemma_div_pos_is_pos(aw as int, count as int);
        vstd::arithmetic::div_mod::lemma_div_is_ordered_by_denominator(aw as int, 1, count as int);
    }
    let mut k: usize = 0;
    while k < count
        invariant
            k <= count,
            count >= 1,
            count <= 0x7FFF_FFFF,
            out@.len() == k,
            ax == screen.x,
            ay == available_area(*screen, 0).1,
            ah == available_area(*screen, 0).3,
            w == available_area(*screen, 0).2 / (count as int),
            0 <= w <= 0x7FFF_FFFF,
            forall|m: int|
                0 <= m < k ==> rect_is(#[trigger] out@[m], ax + m * w, ay as int, w as int, ah as int),
        decreases count - k,
    {
        assert((k as int) * (w as int) <= 0x7FFF_FFFF * 0x7FFF_FFFF) by (nonlinear_arith)
            requires
                0 <= k <= 0x7FFF_FFFF,
                0 <= w <= 0x7FFF_FFFF,
        ;
        assert((k as int) * (w as int) >= 0) by (nonlinear_arith)
            requires
                0 <= k,
                0 <= w,
        ;
        out.push(Rect { x: ax + (k as i64) * w, y: ay, width: w, height: ah });
        k += 1;
    }
    out
}

} // verus!
