//! Declarative placements: each of top, left, width and height is either
//! left alone, a percentage of the usable screen area, or `center`.

use vstd::prelude::*;

use crate::config::{
    scan_decimal, trim_start, lemma_percent_fraction_bounds, parse_percentage, percent_fraction, percent_from_trimmed,
    trim_str, trimmed,
};
use crate::error::PixieError;
use crate::geometry::{floor_div, lemma_div_within, Rect, Screen, WindowRect};
use crate::screens::{
    available_area, get_screen_for_window, lemma_screen_index_bounds, screen_index_for_window,
    MENU_BAR_HEIGHT,
};
use crate::text::str_eq;

verus! {

/// A placement; an unset field leaves that dimension of the window as it is.
#[derive(Debug, Clone)]
pub struct Placement {
    pub top: Option<String>,
    pub left: Option<String>,
    pub width: Option<String>,
    pub height: Option<String>,
}

pub open spec fn opt_view(o: Option<String>) -> Option<Seq<char>> {
    match o {
        Some(s) => Some(s@),
        None => None,
    }
}

impl View for Placement {
    /// The four tokens: top, left, width, height.
    type V = (Option<Seq<char>>, Option<Seq<char>>, Option<Seq<char>>, Option<Seq<char>>);

    open spec fn view(&self) -> Self::V {
        (opt_view(self.top), opt_view(self.left), opt_view(self.width), opt_view(self.height))
    }
}

/// A size token (already trimmed) resolved against a screen dimension.
pub open spec fn size_value(t: Seq<char>, dim: int) -> Option<int> {
    match percent_fraction(t) {
        Some(f) => Some(f.0 * dim / f.1),
        None => None,
    }
}

/// A position token (already trimmed) resolved against a screen dimension and
/// the window's resolved size along it.
pub open spec fn position_value(t: Seq<char>, dim: int, win: int) -> Option<int> {
    if t == "center"@ {
        Some((dim - win) / 2)
    } else {
        size_value(t, dim)
    }
}

/// Bounds that a placement gives a window on screen `s`, or `None` when a
/// token cannot be read.
pub open spec fn placement_bounds(w: WindowRect, s: Screen, p: Placement) -> Option<
    (int, int, int, int),
> {
    let a = available_area(s, 0);
    let nw = match p@.2 {
        Some(t) => size_value(trimmed(t), a.2),
        None => Some(w.width as int),
    };
    let nh = match p@.3 {
        Some(t) => size_value(trimmed(t), a.3),
        None => Some(w.height as int),
    };
    if nw is None || nh is None {
        None
    } else {
        let nx = match p@.1 {
            Some(t) => match position_value(trimmed(t), a.2, nw->0) {
                Some(v) => Some(a.0 + v),
                None => None,
            },
            None => Some(w.x as int),
        };
        let ny = match p@.0 {
            Some(t) => match position_value(trimmed(t), a.3, nh->0) {
                Some(v) => Some(a.1 + v),
                None => None,
            },
            None => Some(w.y as int),
        };
        if nx is None || ny is None {
            None
        } else {
            Some((nx->0, ny->0, nw->0, nh->0))
        }
    }
}

/// The size that a percentage token gives along a screen dimension.
pub fn parse_size_value(s: &str, screen_size: i64) -> (r: Result<i64, PixieError>)
    requires
        -0x1_0000_0000 <= screen_size <= 0x1_0000_0000,
    ensures
        match r {
            Ok(v) => size_value(trimmed(s@), screen_size as int) == Some(v as int),
            Err(e) => size_value(trimmed(s@), screen_size as int) is None && e is Config,
        },
{
    let p = parse_percentage(s)?;
    proof {
        lemma_percent_fraction_bounds(trimmed(s@));
    }
    Ok(apply_fraction(p.numerator, p.denominator, screen_size))
}

fn apply_fraction(num: i64, den: i64, dim: i64) -> (r: i64)
    requires
        -1_000_000_000 < num < 1_000_000_000,
        den >= 1,
        -0x1_0000_0000 <= dim <= 0x1_0000_0000,
    ensures
        r as int == (num as int) * (dim as int) / (den as int),
        -0x4000_0000_0000_0000 < r < 0x4000_0000_0000_0000,
{
    proof {
        assert(-0x1_0000_0000 * 1_000_000_000 <= (num as int) * (dim as int) <= 0x1_0000_0000
            * 1_000_000_000) by (nonlinear_arith)
            requires
                -1_000_000_000 < num < 1_000_000_000,
                -0x1_0000_0000 <= dim <= 0x1_0000_0000,
        ;
        lemma_div_within(num * dim, den as int);
    }
    floor_div((num as i128) * (dim as i128), den as i128) as i64
}

/// The offset that a position token gives along a screen dimension, for a
/// window of the given size.
pub fn parse_position_value(s: &str, screen_size: i64, window_size: i64) -> (r: Result<
    i64,
    PixieError,
>)
    requires
        -0x1_0000_0000 <= screen_size <= 0x1_0000_0000,
        -0x4000_0000_0000_0000 < window_size < 0x4000_0000_0000_0000,
    ensures
        match r {
            Ok(v) => position_value(trimmed(s@), screen_size as int, window_size as int) == Some(
                v as int,
            ),
            Err(e) => position_value(trimmed(s@), screen_size as int, window_size as int) is None
                && e is Config,
        },
        r matches Ok(v) ==> -0x4000_0000_0000_0000 < v < 0x4000_0000_0000_0000,
{
    parse_trimmed_position(trim_str(s), screen_size, window_size)
}

/// The offset that a position token, already trimmed, gives along a screen
/// dimension for a window of the given size.
pub fn parse_trimmed_position(t: &str, screen_size: i64, window_size: i64) -> (r: Result<
    i64,
    PixieError,
>)
    requires
        -0x1_0000_0000 <= screen_size <= 0x1_0000_0000,
        -0x4000_0000_0000_0000 < window_size < 0x4000_0000_0000_0000,
    ensures
        match r {
            Ok(v) => position_value(t@, screen_size as int, window_size as int) == Some(v as int),
            Err(e) => position_value(t@, screen_size as int, window_size as int) is None
                && e is Config,
        },
        r matches Ok(v) ==> -0x4000_0000_0000_0000 < v < 0x4000_0000_0000_0000,
{
    if str_eq(t, "center") {
        proof {
            lemma_div_within(screen_size - window_size, 2);
        }
        return Ok(floor_div((screen_size - window_size) as i128, 2) as i64);
    }
    let p = percent_from_trimmed(t)?;
    proof {
        lemma_percent_fraction_bounds(t@);
    }
    Ok(apply_fraction(p.numerator, p.denominator, screen_size))
}

/// New bounds for a window under a placement, on the screen the window is on.
pub fn apply_placement(window: &WindowRect, screens: &Vec<Screen>, placement: &Placement) -> (r:
    Result<Rect, PixieError>)
    ensures
        screens@.len() == 0 ==> r is Err && r->Err_0 is Accessibility,
        screens@.len() > 0 ==> ({
            let s = screens@[screen_index_for_window(*window, screens@)->0];
            match placement_bounds(*window, s, *placement) {
                Some(b) => r is Ok && r->Ok_0.x == b.0 && r->Ok_0.y == b.1 && r->Ok_0.width == b.2
                    && r->Ok_0.height == b.3,
                None => r is Err && r->Err_0 is Config,
            }
        }),
{
    proof {
        lemma_screen_index_bounds(*window, screens@);
    }
    let screen = get_screen_for_window(window, screens)?;
    let menu: i64 = if screen.is_main { MENU_BAR_HEIGHT as i64 } else { 0 };
    let ax = screen.x as i64;
    let ay = screen.y as i64 + menu;
    let aw = screen.width as i64;
    let ah = screen.height as i64 - menu;
    let new_width = match &placement.width {
        Some(w) => parse_size_value(w.as_str(), aw)?,
        None => window.width as i64,
    };
    let new_height = match &placement.height {
        Some(h) => parse_size_value(h.as_str(), ah)?,
        None => window.height as i64,
    };
    proof {
        lemma_resolved_size_bound(placement@.2, aw as int, window.width as int);
        lemma_resolved_size_bound(placement@.3, ah as int, window.height as int);
    }
    let new_x = match &placement.left {
        Some(l) => ax + parse_position_value(l.as_str(), aw, new_width)?,
        None => window.x as i64,
    };
    let new_y = match &placement.top {
        Some(t) => ay + parse_position_value(t.as_str(), ah, new_height)?,
        None => window.y as i64,
    };
    Ok(Rect { x: new_x, y: new_y, width: new_width, height: new_height })
}

proof fn lemma_resolved_size_bound(tok: Option<Seq<char>>, dim: int, keep: int)
    requires
        -0x1_0000_0000 <= dim <= 0x1_0000_0000,
    ensures
        match tok {
            Some(t) => size_value(trimmed(t), dim) matches Some(v) ==> -0x4000_0000_0000_0000
                < v < 0x4000_0000_0000_0000,
            None => true,
        },
{
    if let Some(t) = tok {
        lemma_percent_fraction_bounds(trimmed(t));
        if let Some(f) = percent_fraction(trimmed(t)) {
            assert(-0x1_0000_0000 * 1_000_000_000 <= f.0 * dim <= 0x1_0000_0000 * 1_000_000_000)
                by (nonlinear_arith)
                requires
                    -1_000_000_000 < f.0 < 1_000_000_000,
                    -0x1_0000_0000 <= dim <= 0x1_0000_0000,
            ;
            lemma_div_within(f.0 * dim, f.1);
        }
    }
}

/// The left-half placement on a 2000 by 1200 primary screen, whose menu bar
/// takes 25 points, gives a window already below the menu bar the bounds
/// (0, 25, 1000, 1175).
pub proof fn lemma_left_half_on_primary(w: WindowRect, p: Placement)
    requires
        w.y == 25,
        p@ == (None::<Seq<char>>, Some("0%"@), Some("50%"@), Some("100%"@)),
    ensures
        placement_bounds(w, (Screen { x: 0, y: 0, width: 2000, height: 1200, is_main: true }), p)
            == Some((0int, 25int, 1000int, 1175int)),
{
    reveal_strlit("0%");
    reveal_strlit("50%");
    reveal_strlit("100%");
    let s = Screen { x: 0, y: 0, width: 2000, height: 1200, is_main: true };
    assert(trim_start("50%"@) == "50%"@);
    assert(trimmed("50%"@) == "50%"@);
    assert(trim_start("0%"@) == "0%"@);
    assert(trimmed("0%"@) == "0%"@);
    assert(trim_start("100%"@) == "100%"@);
    assert(trimmed("100%"@) == "100%"@);
    assert("50%"@.drop_last() =~= seq!['5', '0']);
    assert(seq!['5', '0'].drop_last() =~= seq!['5']);
    assert(seq!['5'].drop_last() =~= Seq::<char>::empty());
    assert(scan_decimal(Seq::<char>::empty()) == Some((0int, 0int, false, 0int)));
    assert(scan_decimal(seq!['5']) == Some((5int, 0int, false, 1int)));
    assert(scan_decimal(seq!['5', '0']) == Some((50int, 0int, false, 2int)));
    assert(percent_fraction("50%"@) == Some((50int, 100int)));
    assert("0%"@.drop_last() =~= seq!['0']);
    assert(seq!['0'].drop_last() =~= Seq::<char>::empty());
    assert(scan_decimal(seq!['0']) == Some((0int, 0int, false, 1int)));
    assert(percent_fraction("0%"@) == Some((0int, 100int)));
    assert("100%"@.drop_last() =~= seq!['1', '0', '0']);
    assert(seq!['1', '0', '0'].drop_last() =~= seq!['1', '0']);
    assert(seq!['1', '0'].drop_last() =~= seq!['1']);
    assert(seq!['1'].drop_last() =~= Seq::<char>::empty());
    assert(scan_decimal(seq!['1']) == Some((1int, 0int, false, 1int)));
    assert(scan_decimal(seq!['1', '0']) == Some((10int, 0int, false, 2int)));
    assert(scan_decimal(seq!['1', '0', '0']) == Some((100int, 0int, false, 3int)));
    assert(percent_fraction("100%"@) == Some((100int, 100int)));
    reveal_strlit("center");
    assert("0%"@.len() != "center"@.len());
    assert(size_value("50%"@, 2000) == Some(1000int));
    assert(size_value("100%"@, 1175) == Some(1175int));
    assert(position_value("0%"@, 2000, 1000) == Some(0int));
}


} // verus!
