//! Integer screen geometry shared by the navigation and placement engines.

use vstd::arithmetic::div_mod::{
    lemma_fundamental_div_mod, lemma_fundamental_div_mod_converse,
};
use vstd::prelude::*;

verus! {

/// A rectangle in global screen points, as handed back to the window service.
#[derive(Clone, Copy, Debug, PartialEq, Eq)]
pub struct Rect {
    pub x: i64,
    pub y: i64,
    pub width: i64,
    pub height: i64,
}

/// A snapshot of one window's bounds together with its identity.
#[derive(Clone, Copy, Debug, PartialEq, Eq)]
pub struct WindowRect {
    pub x: i32,
    pub y: i32,
    pub width: i32,
    pub height: i32,
    pub pid: i32,
    pub window_id: Option<u32>,
}

/// One display's bounds in global screen points.
#[derive(Clone, Copy, Debug, PartialEq, Eq)]
pub struct Screen {
    pub x: i32,
    pub y: i32,
    pub width: i32,
    pub height: i32,
    pub is_main: bool,
}

impl Screen {
    /// A display always has a positive extent.
    pub open spec fn wf(&self) -> bool {
        self.width > 0 && self.height > 0
    }
}

/// Every screen of the list is well formed.
pub open spec fn screens_wf(screens: Seq<Screen>) -> bool {
    forall|i: int| 0 <= i < screens.len() ==> (#[trigger] screens[i]).wf()
}

/// Length of the intersection of the intervals `[a1, a2]` and `[b1, b2]`,
/// or zero when they do not meet.
pub open spec fn overlap_1d(a1: int, a2: int, b1: int, b2: int) -> int {
    let lo = if a1 >= b1 { a1 } else { b1 };
    let hi = if a2 <= b2 { a2 } else { b2 };
    if hi - lo > 0 { hi - lo } else { 0 }
}

/// Exec counterpart of `overlap_1d`.
pub fn overlap_amount_1d(a1: i64, a2: i64, b1: i64, b2: i64) -> (r: i64)
    requires
        -0x1_0000_0000 <= a1 <= 0x1_0000_0000,
        -0x1_0000_0000 <= a2 <= 0x1_0000_0000,
        -0x1_0000_0000 <= b1 <= 0x1_0000_0000,
        -0x1_0000_0000 <= b2 <= 0x1_0000_0000,
    ensures
        r as int == overlap_1d(a1 as int, a2 as int, b1 as int, b2 as int),
        a1 <= a2 && b1 <= b2 && ((b1 <= a1 && a2 <= b2) || (a1 <= b1 && b2 <= a2)) ==> r == (
        if a2 - a1 <= b2 - b1 {
            a2 - a1
        } else {
            b2 - b1
        }),
        a1 <= a2 && b1 <= b2 && (a2 <= b1 || b2 <= a1) ==> r == 0,
{
    let lo = if a1 >= b1 { a1 } else { b1 };
    let hi = if a2 <= b2 { a2 } else { b2 };
    if hi - lo > 0 { hi - lo } else { 0 }
}

/// When the interval `[a1, a2]` lies inside `[b1, b2]`, the overlap is the
/// whole of the inner interval.
pub proof fn lemma_overlap_of_contained(a1: int, a2: int, b1: int, b2: int)
    requires
        b1 <= a1 <= a2 <= b2,
    ensures
        overlap_1d(a1, a2, b1, b2) == a2 - a1,
        overlap_1d(b1, b2, a1, a2) == a2 - a1,
{
}

/// Intervals that do not meet have no overlap.
pub proof fn lemma_overlap_of_disjoint(a1: int, a2: int, b1: int, b2: int)
    requires
        a2 <= b1 || b2 <= a1,
    ensures
        overlap_1d(a1, a2, b1, b2) == 0,
{
}

/// Floor division by a positive number moves a value towards zero without
/// crossing it.
pub proof fn lemma_div_within(n: int, d: int)
    requires
        d >= 1,
    ensures
        n >= 0 ==> 0 <= n / d <= n,
        n < 0 ==> n <= n / d < 0,
{
    lemma_fundamental_div_mod(n, d);
    let q = n / d;
    let r = n % d;
    assert(n >= 0 ==> 0 <= q <= n) by (nonlinear_arith)
        requires
            n == d * q + r,
            0 <= r < d,
            d >= 1,
    ;
    assert(n < 0 ==> n <= q < 0) by (nonlinear_arith)
        requires
            n == d * q + r,
            0 <= r < d,
            d >= 1,
    ;
}

/// Floor of `a / b` for a positive divisor.
pub fn floor_div(a: i128, b: i128) -> (r: i128)
    requires
        b > 0,
        a > i128::MIN,
    ensures
        r as int == (a as int) / (b as int),
{
    if a >= 0 {
        a / b
    } else {
        let m: i128 = -a - 1;
        let q: i128 = m / b;
        proof {
            lemma_fundamental_div_mod(m as int, b as int);
            let r = (m as int) % (b as int);
            assert(a as int == (-(q as int) - 1) * (b as int) + (b as int - 1 - r))
                by (nonlinear_arith)
                requires
                    m as int == (b as int) * (q as int) + r,
                    m as int == -(a as int) - 1,
            ;
            lemma_fundamental_div_mod_converse(a as int, b as int, -(q as int) - 1, b as int - 1 - r);
        }
        -q - 1
    }
}

} // verus!
