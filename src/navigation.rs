//! Directional navigation: choosing the window that lies next to the focused
//! one in a compass direction.

use vstd::prelude::*;

use crate::error::PixieError;
use crate::geometry::{overlap_1d, overlap_amount_1d, WindowRect};

verus! {

/// Window-to-window navigation axis.
#[derive(Debug, Clone, Copy, PartialEq, Eq)]
pub enum Direction {
    Left,
    Right,
    Up,
    Down,
}

/// Weight of one point of cross-axis overlap against one point of gap.
pub const OVERLAP_WEIGHT: i64 = 100;

/// The candidate is the source window itself: same owner and same window id.
pub open spec fn is_same_window(from: WindowRect, c: WindowRect) -> bool {
    c.pid == from.pid && from.window_id is Some && c.window_id == from.window_id
}

/// The candidate's edge reaches past the source's edge in the direction.
pub open spec fn extends_past(from: WindowRect, c: WindowRect, d: Direction) -> bool {
    match d {
        Direction::Left => c.x < from.x,
        Direction::Right => c.x + c.width > from.x + from.width,
        Direction::Up => c.y < from.y,
        Direction::Down => c.y + c.height > from.y + from.height,
    }
}

/// Signed distance from the source's near edge to the candidate's facing edge.
pub open spec fn gap_distance(from: WindowRect, c: WindowRect, d: Direction) -> int {
    match d {
        Direction::Left => from.x - (c.x + c.width),
        Direction::Right => c.x - (from.x + from.width),
        Direction::Up => from.y - (c.y + c.height),
        Direction::Down => c.y - (from.y + from.height),
    }
}

/// Overlap of the two windows on the axis across the direction.
pub open spec fn cross_overlap(from: WindowRect, c: WindowRect, d: Direction) -> int {
    match d {
        Direction::Left | Direction::Right => overlap_1d(
            from.y as int,
            from.y + from.height,
            c.y as int,
            c.y + c.height,
        ),
        Direction::Up | Direction::Down => overlap_1d(
            from.x as int,
            from.x + from.width,
            c.x as int,
            c.x + c.width,
        ),
    }
}

/// Ranking score of a candidate: lower is better.
pub open spec fn direction_score(from: WindowRect, c: WindowRect, d: Direction) -> int {
    let gap = gap_distance(from, c, d);
    (if gap > 0 { gap } else { 0 }) - cross_overlap(from, c, d) * OVERLAP_WEIGHT
}

/// The candidate takes part in the ranking.
/// The candidate takes part in the ranking: it has a window id to focus it
/// by, it is not the source, and it extends past the source.
pub open spec fn is_eligible(from: WindowRect, c: WindowRect, d: Direction) -> bool {
    c.window_id is Some && !is_same_window(from, c) && extends_past(from, c, d)
}

/// Index `i` is the first eligible candidate with the lowest score.
pub open spec fn is_best_candidate(
    from: WindowRect,
    d: Direction,
    cands: Seq<WindowRect>,
    i: int,
) -> bool {
    &&& 0 <= i < cands.len()
    &&& is_eligible(from, cands[i], d)
    &&& forall|j: int|
        0 <= j < cands.len() && is_eligible(from, cands[j], d) ==> direction_score(
            from,
            cands[i],
            d,
        ) <= direction_score(from, cands[j], d)
    &&& forall|j: int|
        0 <= j < i && is_eligible(from, cands[j], d) ==> direction_score(from, cands[i], d)
            < direction_score(from, cands[j], d)
}

/// One ranked candidate: its score and its position in the candidate list.
#[derive(Debug, Clone, Copy, PartialEq, Eq)]
pub struct ScoredCandidate {
    pub score: i64,
    pub index: usize,
}

/// Scores one candidate, or `None` when it does not extend past the source
/// in the direction.
pub fn calculate_direction_score(from: &WindowRect, other: &WindowRect, direction: Direction) -> (r:
    Option<i64>)
    ensures
        r is Some <==> extends_past(*from, *other, direction),
        r is Some ==> r->0 as int == direction_score(*from, *other, direction),
{
    let fx = from.x as i64;
    let fy = from.y as i64;
    let fw = from.width as i64;
    let fh = from.height as i64;
    let ox = other.x as i64;
    let oy = other.y as i64;
    let ow = other.width as i64;
    let oh = other.height as i64;
    let extends = match direction {
        Direction::Left => ox < fx,
        Direction::Right => ox + ow > fx + fw,
        Direction::Up => oy < fy,
        Direction::Down => oy + oh > fy + fh,
    };
    if !extends {
        return None;
    }
    let (dist, overlap) = match direction {
        Direction::Left => (fx - (ox + ow), overlap_amount_1d(fy, fy + fh, oy, oy + oh)),
        Direction::Right => (ox - (fx + fw), overlap_amount_1d(fy, fy + fh, oy, oy + oh)),
        Direction::Up => (fy - (oy + oh), overlap_amount_1d(fx, fx + fw, ox, ox + ow)),
        Direction::Down => (oy - (fy + fh), overlap_amount_1d(fx, fx + fw, ox, ox + ow)),
    };
    let dist = if dist > 0 { dist } else { 0 };
    Some(dist - overlap * OVERLAP_WEIGHT)
}

/// Scores every eligible candidate, in enumeration order; candidates without
/// a window id cannot be focused and are left out.
pub fn score_candidates(from: &WindowRect, direction: Direction, candidates: &Vec<WindowRect>) -> (r:
    Vec<ScoredCandidate>)
    ensures
        forall|k: int|
            0 <= k < r@.len() ==> {
                let e = #[trigger] r@[k];
                &&& e.index < candidates@.len()
                &&& extends_past(*from, candidates@[e.index as int], direction)
                &&& !is_same_window(*from, candidates@[e.index as int])
                &&& candidates@[e.index as int].window_id is Some
                &&& e.score as int == direction_score(
                    *from,
                    candidates@[e.index as int],
                    direction,
                )
            },
        forall|k1: int, k2: int|
            0 <= k1 < k2 < r@.len() ==> (#[trigger] r@[k1]).index < (#[trigger] r@[k2]).index,
        forall|j: int|
            0 <= j < candidates@.len() && is_eligible(*from, #[trigger] candidates@[j], direction)
                ==> exists|k: int| 0 <= k < r@.len() && (#[trigger] r@[k]).index == j,
{
    let mut out: Vec<ScoredCandidate> = Vec::new();
    let mut i: usize = 0;
    while i < candidates.len()
        invariant
            i <= candidates@.len(),
            forall|k: int|
                0 <= k < out@.len() ==> {
                    let e = #[trigger] out@[k];
                    &&& e.index < i
                    &&& extends_past(*from, candidates@[e.index as int], direction)
                    &&& !is_same_window(*from, candidates@[e.index as int])
                    &&& candidates@[e.index as int].window_id is Some
                    &&& e.score as int == direction_score(
                        *from,
                        candidates@[e.index as int],
                        direction,
                    )
                },
            forall|k1: int, k2: int|
                0 <= k1 < k2 < out@.len() ==> (#[trigger] out@[k1]).index
                    < (#[trigger] out@[k2]).index,
            forall|j: int|
                0 <= j < i && is_eligible(*from, #[trigger] candidates@[j], direction)
                    ==> exists|k: int| 0 <= k < out@.len() && (#[trigger] out@[k]).index == j,
        decreases candidates@.len() - i,
    {
        let c = &candidates[i];
        let same = c.pid == from.pid && from.window_id.is_some() && c.window_id == from.window_id;
        if !same && c.window_id.is_some() {
            match calculate_direction_score(from, c, direction) {
                Some(score) => {
                    let ghost old_out = out@;
                    out.push(ScoredCandidate { score, index: i });
                    assert forall|j: int|
                        0 <= j < i + 1 && is_eligible(
                            *from,
                            #[trigger] candidates@[j],
                            direction,
                        ) implies exists|k: int|
                        0 <= k < out@.len() && (#[trigger] out@[k]).index == j by {
                        if j < i {
                            let k = choose|k: int| 0 <= k < old_out.len() && old_out[k].index == j;
                            assert(out@[k] == old_out[k]);
                        } else {
                            assert(out@[out@.len() - 1].index == j);
                        }
                    }
                },
                None => {},
            }
        }
        i += 1;
    }
    out
}

/// Picks the best-ranked window in `direction` from `candidates`: the lowest
/// score, and of equal scores the one enumerated first. Returns its index.
pub fn find_window_in_direction(
    from: &WindowRect,
    direction: Direction,
    candidates: &Vec<WindowRect>,
) -> (r: Result<usize, PixieError>)
    ensures
        r is Ok <==> exists|j: int|
            0 <= j < candidates@.len() && is_eligible(*from, #[trigger] candidates@[j], direction),
        r is Ok ==> is_best_candidate(*from, direction, candidates@, r->Ok_0 as int),
        r is Err ==> r->Err_0 is WindowNotFound,
{
    let scored = score_candidates(from, direction, candidates);
    if scored.len() == 0 {
        assert forall|j: int|
            0 <= j < candidates@.len() implies !is_eligible(
                *from,
                #[trigger] candidates@[j],
                direction,
            ) by {
            if is_eligible(*from, candidates@[j], direction) {
                let k = choose|k: int| 0 <= k < scored@.len() && (#[trigger] scored@[k]).index == j;
            }
        }
        return Err(PixieError::WindowNotFound);
    }
    let mut best: usize = 0;
    let mut k: usize = 1;
    while k < scored.len()
        invariant
            1 <= k <= scored@.len(),
            best < k,
            forall|m: int| 0 <= m < k ==> scored@[best as int].score <= (#[trigger] scored@[m]).score,
            forall|m: int| 0 <= m < best ==> scored@[best as int].score < (#[trigger] scored@[m]).score,
        decreases scored@.len() - k,
    {
        if scored[k].score < scored[best].score {
            best = k;
        }
        k += 1;
    }
    let winner = scored[best].index;
    assert(is_best_candidate(*from, direction, candidates@, winner as int)) by {
        assert forall|j: int|
            0 <= j < candidates@.len() && is_eligible(
                *from,
                #[trigger] candidates@[j],
                direction,
            ) implies direction_score(*from, candidates@[winner as int], direction)
            <= direction_score(*from, candidates@[j], direction) by {
            let m = choose|m: int| 0 <= m < scored@.len() && (#[trigger] scored@[m]).index == j;
            assert(scored@[best as int].score <= scored@[m].score);
        }
        assert forall|j: int|
            0 <= j < winner && is_eligible(
                *from,
                #[trigger] candidates@[j],
                direction,
            ) implies direction_score(*from, candidates@[winner as int], direction)
            < direction_score(*from, candidates@[j], direction) by {
            let m = choose|m: int| 0 <= m < scored@.len() && (#[trigger] scored@[m]).index == j;
            if m >= best {
                if m > best {
                    assert(scored@[best as int].index < scored@[m].index);
                }
            }
            assert(m < best);
        }
    }
    Ok(winner)
}

/// When the candidate spans the source's whole side across the direction,
/// the overlap is that side's full length; when the spans across the
/// direction do not meet, there is none.
pub proof fn lemma_cross_overlap_bounds(from: WindowRect, c: WindowRect, d: Direction)
    requires
        from.width >= 0,
        from.height >= 0,
    ensures
        (d is Left || d is Right) && c.y <= from.y && from.y + from.height <= c.y + c.height
            ==> cross_overlap(from, c, d) == from.height,
        (d is Up || d is Down) && c.x <= from.x && from.x + from.width <= c.x + c.width
            ==> cross_overlap(from, c, d) == from.width,
        (d is Left || d is Right) && (from.y + from.height <= c.y || c.y + c.height <= from.y)
            ==> cross_overlap(from, c, d) == 0,
        (d is Up || d is Down) && (from.x + from.width <= c.x || c.x + c.width <= from.x)
            ==> cross_overlap(from, c, d) == 0,
{
}

} // verus!
