//! Arrows: unresolved references, resolved waypoints, routing and glyphs.
use vstd::prelude::*;

use crate::object::rect::Side;
use crate::object::{opt_legend_view, Legend, LegendView};

verus! {

/// Direction of travel along an arrow segment.
#[derive(Debug, Clone, Copy, PartialEq, Eq, Structural)]
pub enum Dir {
    Right,
    Left,
    Up,
    Down,
}

/// Unresolved arrow parsed from DSL (references object IDs).
#[derive(Debug, Clone)]
pub struct Arrow {
    pub src_id: String,
    pub src_side: Side,
    pub dst_id: String,
    pub dst_side: Side,
}

/// Resolved arrow with computed waypoints (ready for rendering).
#[derive(Debug, Clone)]
pub struct ResolvedArrow {
    /// Waypoints from source to destination (2..=5 points).
    pub waypoints: Vec<(usize, usize)>,
    /// Custom arrowhead character (overrides global/default).
    pub head: Option<char>,
    /// Bidirectional mode: arrowhead on both ends.
    pub both: bool,
    /// Legend text displayed near the arrow.
    pub legend: Option<Legend>,
}

/// The value of a [`ResolvedArrow`].
pub struct ArrowView {
    pub waypoints: Seq<(usize, usize)>,
    pub head: Option<char>,
    pub both: bool,
    pub legend: Option<LegendView>,
}

impl View for ResolvedArrow {
    type V = ArrowView;

    open spec fn view(&self) -> ArrowView {
        ArrowView {
            waypoints: self.waypoints@,
            head: self.head,
            both: self.both,
            legend: opt_legend_view(self.legend),
        }
    }
}

/// The direction in which an arrow leaves a side.
pub open spec fn outgoing_spec(side: Side) -> Dir {
    match side {
        Side::Top => Dir::Up,
        Side::Right => Dir::Right,
        Side::Bottom => Dir::Down,
        Side::Left => Dir::Left,
    }
}

/// The direction in which an arrow enters a side.
pub open spec fn incoming_spec(side: Side) -> Dir {
    match side {
        Side::Top => Dir::Down,
        Side::Right => Dir::Left,
        Side::Bottom => Dir::Up,
        Side::Left => Dir::Right,
    }
}

/// Whether `d` runs along a row.
pub open spec fn is_horizontal(d: Dir) -> bool {
    d == Dir::Right || d == Dir::Left
}

/// Converts a Side to the outgoing direction from that side.
fn side_to_outgoing_dir(side: Side) -> (d: Dir)
    ensures
        d == outgoing_spec(side),
{
    match side {
        Side::Top => Dir::Up,
        Side::Right => Dir::Right,
        Side::Bottom => Dir::Down,
        Side::Left => Dir::Left,
    }
}

/// Converts a Side to the incoming direction toward that side.
fn side_to_incoming_dir(side: Side) -> (d: Dir)
    ensures
        d == incoming_spec(side),
{
    match side {
        Side::Top => Dir::Down,
        Side::Right => Dir::Left,
        Side::Bottom => Dir::Up,
        Side::Left => Dir::Right,
    }
}

/// Default gap for self-loop and short-distance routing.
pub const ROUTING_GAP: usize = 2;

/// |a - b|.
pub open spec fn abs_diff(a: usize, b: usize) -> nat {
    if a >= b { (a - b) as nat } else { (b - a) as nat }
}

/// The detour gap for a route: 2 up to Manhattan distance 10, 3 up to 25, then 4.
pub open spec fn gap_spec(sx: usize, sy: usize, ex: usize, ey: usize) -> usize {
    let dist = abs_diff(sx, ex) + abs_diff(sy, ey);
    if dist <= 10 {
        2
    } else if dist <= 25 {
        3
    } else {
        4
    }
}

/// Computes adaptive gap based on Manhattan distance between endpoints.
fn adaptive_gap(sx: usize, sy: usize, ex: usize, ey: usize) -> (g: usize)
    ensures
        g == gap_spec(sx, sy, ex, ey),
{
    let dx = if sx >= ex { sx - ex } else { ex - sx };
    let dy = if sy >= ey { sy - ey } else { ey - sy };
    if dx <= 10 && dy <= 10 - dx {
        2
    } else if dx <= 25 && dy <= 25 - dx {
        3
    } else {
        4
    }
}

/// The floor of the mean of `a` and `b`.
pub open spec fn mid(a: usize, b: usize) -> usize {
    ((a + b) / 2) as usize
}

/// Simple midpoint calculation.
fn midpoint(a: usize, b: usize) -> (m: usize)
    requires
        a + b <= usize::MAX,
    ensures
        m == mid(a, b),
{
    (a + b) / 2
}

/// Whether travelling from (fx, fy) in direction `dir` can reach (tx, ty).
pub open spec fn favorable(fx: usize, fy: usize, dir: Dir, tx: usize, ty: usize) -> bool {
    match dir {
        Dir::Right => tx >= fx,
        Dir::Left => tx <= fx,
        Dir::Down => ty >= fy,
        Dir::Up => ty <= fy,
    }
}

/// Checks if traveling from (fx,fy) in direction `dir` can reach (tx,ty).
fn is_favorable_bend(fx: usize, fy: usize, dir: Dir, tx: usize, ty: usize) -> (b: bool)
    ensures
        b == favorable(fx, fy, dir, tx, ty),
{
    match dir {
        Dir::Right => tx >= fx,
        Dir::Left => tx <= fx,
        Dir::Down => ty >= fy,
        Dir::Up => ty <= fy,
    }
}

/// The coordinate sums a route computes stay within `usize`.
pub open spec fn route_fits(sx: usize, sy: usize, ex: usize, ey: usize) -> bool {
    sx + ex + 4 <= usize::MAX && sy + ey + 4 <= usize::MAX
}

/// A three-segment route that turns at the midpoint of the first axis.
pub open spec fn three_bend_spec(sx: usize, sy: usize, src_dir: Dir, ex: usize, ey: usize) -> Seq<
    (usize, usize),
> {
    if is_horizontal(src_dir) {
        let m = mid(sx, ex);
        seq![(sx, sy), (m, sy), (m, ey), (ex, ey)]
    } else {
        let m = mid(sy, ey);
        seq![(sx, sy), (sx, m), (ex, m), (ex, ey)]
    }
}

/// The route for perpendicular travel directions: an L if both legs run
/// forward, else a three-segment detour.
pub open spec fn perpendicular_spec(
    sx: usize,
    sy: usize,
    src_dir: Dir,
    ex: usize,
    ey: usize,
    dst_dir: Dir,
) -> Seq<(usize, usize)> {
    let bend = if is_horizontal(src_dir) {
        (ex, sy)
    } else {
        (sx, ey)
    };
    if favorable(sx, sy, src_dir, bend.0, bend.1) && favorable(bend.0, bend.1, dst_dir, ex, ey) {
        seq![(sx, sy), bend, (ex, ey)]
    } else {
        three_bend_spec(sx, sy, src_dir, ex, ey)
    }
}

/// Two-bend route for parallel travel directions: a Z through the midpoint
/// when both run the same way, else a detour `gap` cells past both ends.
pub open spec fn two_bend_spec(
    sx: usize,
    sy: usize,
    src_dir: Dir,
    ex: usize,
    ey: usize,
    same_direction: bool,
) -> Seq<(usize, usize)> {
    if is_horizontal(src_dir) {
        let m: usize = if same_direction {
            mid(sx, ex)
        } else if src_dir == Dir::Right {
            (if sx >= ex { sx } else { ex } + gap_spec(sx, sy, ex, ey)) as usize
        } else {
            let lo = if sx <= ex { sx } else { ex };
            if lo >= gap_spec(sx, sy, ex, ey) { (lo - gap_spec(sx, sy, ex, ey)) as usize } else { 0 }
        };
        seq![(sx, sy), (m, sy), (m, ey), (ex, ey)]
    } else {
        let m: usize = if same_direction {
            mid(sy, ey)
        } else if src_dir == Dir::Down {
            (if sy >= ey { sy } else { ey } + gap_spec(sx, sy, ex, ey)) as usize
        } else {
            let lo = if sy <= ey { sy } else { ey };
            if lo >= gap_spec(sx, sy, ex, ey) { (lo - gap_spec(sx, sy, ex, ey)) as usize } else { 0 }
        };
        seq![(sx, sy), (sx, m), (ex, m), (ex, ey)]
    }
}

/// The route for parallel travel directions: straight when both run the same
/// way along one line toward the end, else two bends.
pub open spec fn parallel_spec(
    sx: usize,
    sy: usize,
    src_dir: Dir,
    ex: usize,
    ey: usize,
    dst_dir: Dir,
) -> Seq<(usize, usize)> {
    let same = src_dir == dst_dir;
    let straight = if is_horizontal(src_dir) {
        sy == ey && ((src_dir == Dir::Right && ex >= sx) || (src_dir == Dir::Left && ex <= sx))
    } else {
        sx == ex && ((src_dir == Dir::Down && ey >= sy) || (src_dir == Dir::Up && ey <= sy))
    };
    if same && straight {
        seq![(sx, sy), (ex, ey)]
    } else {
        two_bend_spec(sx, sy, src_dir, ex, ey, same)
    }
}

/// The waypoints of the route from anchor (sx, sy) on `src_side` to anchor
/// (ex, ey) on `dst_side`.
pub open spec fn route_spec(
    sx: usize,
    sy: usize,
    src_side: Side,
    ex: usize,
    ey: usize,
    dst_side: Side,
) -> Seq<(usize, usize)> {
    let src_dir = outgoing_spec(src_side);
    let dst_dir = incoming_spec(dst_side);
    if is_horizontal(src_dir) != is_horizontal(dst_dir) {
        perpendicular_spec(sx, sy, src_dir, ex, ey, dst_dir)
    } else {
        parallel_spec(sx, sy, src_dir, ex, ey, dst_dir)
    }
}

/// Computes the route waypoints between two anchor points.
pub fn compute_route(
    sx: usize,
    sy: usize,
    src_side: Side,
    ex: usize,
    ey: usize,
    dst_side: Side,
) -> (wp: Vec<(usize, usize)>)
    requires
        route_fits(sx, sy, ex, ey),
    ensures
        wp@ == route_spec(sx, sy, src_side, ex, ey, dst_side),
{
    let src_dir = side_to_outgoing_dir(src_side);
    let dst_dir = side_to_incoming_dir(dst_side);
    let src_horizontal = matches!(src_dir, Dir::Left | Dir::Right);
    let dst_horizontal = matches!(dst_dir, Dir::Left | Dir::Right);
    let perpendicular = src_horizontal != dst_horizontal;
    if perpendicular {
        route_perpendicular(sx, sy, src_dir, ex, ey, dst_dir)
    } else {
        route_parallel(sx, sy, src_dir, ex, ey, dst_dir)
    }
}

/// Routes when src and dst directions are perpendicular (1 or 3 bends).
fn route_perpendicular(
    sx: usize,
    sy: usize,
    src_dir: Dir,
    ex: usize,
    ey: usize,
    dst_dir: Dir,
) -> (wp: Vec<(usize, usize)>)
    requires
        route_fits(sx, sy, ex, ey),
        is_horizontal(src_dir) != is_horizontal(dst_dir),
    ensures
        wp@ == perpendicular_spec(sx, sy, src_dir, ex, ey, dst_dir),
{
    let bend = match src_dir {
        Dir::Right | Dir::Left => (ex, sy),
        Dir::Down | Dir::Up => (sx, ey),
    };
    if is_favorable_bend(sx, sy, src_dir, bend.0, bend.1) && is_favorable_bend(
        bend.0,
        bend.1,
        dst_dir,
        ex,
        ey,
    ) {
        let v = vec![(sx, sy), bend, (ex, ey)];
        assert(v@ == seq![(sx, sy), bend, (ex, ey)]);
        return v;
    }
    route_3bend(sx, sy, src_dir, ex, ey, dst_dir)
}

/// Routes when src and dst directions are parallel (0 or 2 bends).
fn route_parallel(
    sx: usize,
    sy: usize,
    src_dir: Dir,
    ex: usize,
    ey: usize,
    dst_dir: Dir,
) -> (wp: Vec<(usize, usize)>)
    requires
        route_fits(sx, sy, ex, ey),
    ensures
        wp@ == parallel_spec(sx, sy, src_dir, ex, ey, dst_dir),
{
    let horizontal = matches!(src_dir, Dir::Left | Dir::Right);
    let same_direction = src_dir == dst_dir;
    if same_direction {
        let is_straight = if horizontal {
            sy == ey && ((src_dir == Dir::Right && ex >= sx) || (src_dir == Dir::Left && ex <= sx))
        } else {
            sx == ex && ((src_dir == Dir::Down && ey >= sy) || (src_dir == Dir::Up && ey <= sy))
        };
        if is_straight {
            let v = vec![(sx, sy), (ex, ey)];
            assert(v@ == seq![(sx, sy), (ex, ey)]);
            return v;
        }
    }
    route_2bend(sx, sy, src_dir, ex, ey, dst_dir, horizontal, same_direction)
}

/// 2-bend routing for parallel directions.
fn route_2bend(
    sx: usize,
    sy: usize,
    src_dir: Dir,
    ex: usize,
    ey: usize,
    _dst_dir: Dir,
    horizontal: bool,
    same_direction: bool,
) -> (wp: Vec<(usize, usize)>)
    requires
        route_fits(sx, sy, ex, ey),
        horizontal == is_horizontal(src_dir),
    ensures
        wp@ == two_bend_spec(sx, sy, src_dir, ex, ey, same_direction),
{
    if horizontal {
        let mid_x = if same_direction {
            midpoint(sx, ex)
        } else {
            let gap = adaptive_gap(sx, sy, ex, ey);
            match src_dir {
                Dir::Right => (if sx >= ex { sx } else { ex }) + gap,
                _ => {
                    let lo = if sx <= ex { sx } else { ex };
                    lo.saturating_sub(gap)
                },
            }
        };
        let v = vec![(sx, sy), (mid_x, sy), (mid_x, ey), (ex, ey)];
        assert(v@ == seq![(sx, sy), (mid_x, sy), (mid_x, ey), (ex, ey)]);
        v
    } else {
        let mid_y = if same_direction {
            midpoint(sy, ey)
        } else {
            let gap = adaptive_gap(sx, sy, ex, ey);
            match src_dir {
                Dir::Down => (if sy >= ey { sy } else { ey }) + gap,
                _ => {
                    let lo = if sy <= ey { sy } else { ey };
                    lo.saturating_sub(gap)
                },
            }
        };
        let v = vec![(sx, sy), (sx, mid_y), (ex, mid_y), (ex, ey)];
        assert(v@ == seq![(sx, sy), (sx, mid_y), (ex, mid_y), (ex, ey)]);
        v
    }
}

/// 3-bend routing for perpendicular directions that can't form a simple L.
fn route_3bend(
    sx: usize,
    sy: usize,
    src_dir: Dir,
    ex: usize,
    ey: usize,
    _dst_dir: Dir,
) -> (wp: Vec<(usize, usize)>)
    requires
        route_fits(sx, sy, ex, ey),
    ensures
        wp@ == three_bend_spec(sx, sy, src_dir, ex, ey),
{
    let horizontal_src = matches!(src_dir, Dir::Left | Dir::Right);
    if horizontal_src {
        let mid_x = midpoint(sx, ex);
        let v = vec![(sx, sy), (mid_x, sy), (mid_x, ey), (ex, ey)];
        assert(v@ == seq![(sx, sy), (mid_x, sy), (mid_x, ey), (ex, ey)]);
        v
    } else {
        let mid_y = midpoint(sy, ey);
        let v = vec![(sx, sy), (sx, mid_y), (ex, mid_y), (ex, ey)];
        assert(v@ == seq![(sx, sy), (sx, mid_y), (ex, mid_y), (ex, ey)]);
        v
    }
}

/// The point `distance` cells from (c, r) in direction `dir`, clamped at 0.
pub open spec fn extend_spec(c: usize, r: usize, dir: Dir, distance: usize) -> (usize, usize) {
    match dir {
        Dir::Right => ((c + distance) as usize, r),
        Dir::Left => (if c >= distance { (c - distance) as usize } else { 0 }, r),
        Dir::Down => (c, (r + distance) as usize),
        Dir::Up => (c, if r >= distance { (r - distance) as usize } else { 0 }),
    }
}

/// Extends a point in the given direction by `distance`.
fn extend_point(c: usize, r: usize, dir: Dir, distance: usize) -> (p: (usize, usize))
    requires
        c + distance <= usize::MAX,
        r + distance <= usize::MAX,
    ensures
        p == extend_spec(c, r, dir, distance),
{
    match dir {
        Dir::Right => (c + distance, r),
        Dir::Left => (c.saturating_sub(distance), r),
        Dir::Down => (c, r + distance),
        Dir::Up => (c, r.saturating_sub(distance)),
    }
}

/// The route of an arrow from an object to itself: out of the source side by
/// the routing gap, to the point the gap away from the destination side, and
/// in; with one more corner when those two points share no row or column.
pub open spec fn self_loop_spec(
    sx: usize,
    sy: usize,
    src_side: Side,
    ex: usize,
    ey: usize,
    dst_side: Side,
) -> Seq<(usize, usize)> {
    let src_dir = outgoing_spec(src_side);
    let p1 = extend_spec(sx, sy, src_dir, ROUTING_GAP);
    let p2 = extend_spec(ex, ey, outgoing_spec(dst_side), ROUTING_GAP);
    if p1.0 == p2.0 || p1.1 == p2.1 {
        seq![(sx, sy), p1, p2, (ex, ey)]
    } else if is_horizontal(src_dir) {
        seq![(sx, sy), p1, (p1.0, p2.1), p2, (ex, ey)]
    } else {
        seq![(sx, sy), p1, (p2.0, p1.1), p2, (ex, ey)]
    }
}

/// Computes a self-loop route (src and dst on the same object).
pub fn compute_self_loop(
    sx: usize,
    sy: usize,
    src_side: Side,
    ex: usize,
    ey: usize,
    dst_side: Side,
) -> (wp: Vec<(usize, usize)>)
    requires
        sx + 2 <= usize::MAX,
        sy + 2 <= usize::MAX,
        ex + 2 <= usize::MAX,
        ey + 2 <= usize::MAX,
    ensures
        wp@ == self_loop_spec(sx, sy, src_side, ex, ey, dst_side),
{
    let gap = ROUTING_GAP;
    let src_dir = side_to_outgoing_dir(src_side);
    let dst_away = side_to_outgoing_dir(dst_side);
    let (p1c, p1r) = extend_point(sx, sy, src_dir, gap);
    let (p2c, p2r) = extend_point(ex, ey, dst_away, gap);
    if p1c == p2c || p1r == p2r {
        let v = vec![(sx, sy), (p1c, p1r), (p2c, p2r), (ex, ey)];
        assert(v@ == seq![(sx, sy), (p1c, p1r), (p2c, p2r), (ex, ey)]);
        v
    } else {
        let src_horizontal = matches!(src_dir, Dir::Left | Dir::Right);
        if src_horizontal {
            let v = vec![(sx, sy), (p1c, p1r), (p1c, p2r), (p2c, p2r), (ex, ey)];
            assert(v@ == seq![(sx, sy), (p1c, p1r), (p1c, p2r), (p2c, p2r), (ex, ey)]);
            v
        } else {
            let v = vec![(sx, sy), (p1c, p1r), (p2c, p1r), (p2c, p2r), (ex, ey)];
            assert(v@ == seq![(sx, sy), (p1c, p1r), (p2c, p1r), (p2c, p2r), (ex, ey)]);
            v
        }
    }
}

/// Two points on one row or one column.
pub open spec fn aligned(a: (usize, usize), b: (usize, usize)) -> bool {
    a.0 == b.0 || a.1 == b.1
}

/// Every two consecutive points share a row or a column: the path between
/// them is a straight horizontal or vertical segment.
pub open spec fn rectilinear(p: Seq<(usize, usize)>) -> bool
    decreases p.len(),
{
    if p.len() <= 1 {
        true
    } else {
        aligned(p[0], p[1]) && rectilinear(p.drop_first())
    }
}

/// Every point lies at most `slack` cells right of column `c` and below row `r`.
pub open spec fn within(p: Seq<(usize, usize)>, c: int, r: int, slack: int) -> bool {
    forall|i: int| 0 <= i < p.len() ==> #[trigger] p[i].0 <= c + slack && p[i].1 <= r + slack
}

proof fn lemma_rectilinear_small(p: Seq<(usize, usize)>)
    requires
        2 <= p.len() <= 5,
        aligned(p[0], p[1]),
        p.len() > 2 ==> aligned(p[1], p[2]),
        p.len() > 3 ==> aligned(p[2], p[3]),
        p.len() > 4 ==> aligned(p[3], p[4]),
    ensures
        rectilinear(p),
{
    let p1 = p.drop_first();
    if p.len() > 2 {
        let p2 = p1.drop_first();
        if p.len() > 3 {
            let p3 = p2.drop_first();
            if p.len() > 4 {
                let p4 = p3.drop_first();
                assert(rectilinear(p4));
            }
            assert(rectilinear(p3));
        }
        assert(rectilinear(p2));
    }
    assert(rectilinear(p1));
}

/// A route runs from the source anchor to the destination anchor through 2
/// to 4 waypoints, in straight horizontal or vertical segments, and stays
/// within 4 cells right of and below the farther anchor.
pub proof fn law_route_shape(sx: usize, sy: usize, src_side: Side, ex: usize, ey: usize, dst_side: Side)
    requires
        route_fits(sx, sy, ex, ey),
    ensures
        ({
            let r = route_spec(sx, sy, src_side, ex, ey, dst_side);
            &&& 2 <= r.len() <= 4
            &&& r[0] == (sx, sy)
            &&& r.last() == (ex, ey)
            &&& rectilinear(r)
            &&& within(r, if sx >= ex { sx as int } else { ex as int }, if sy >= ey { sy as int } else { ey as int }, 4)
        }),
{
    let r = route_spec(sx, sy, src_side, ex, ey, dst_side);
    lemma_rectilinear_small(r);
}

/// A self-loop runs from the source anchor to the destination anchor through
/// 4 or 5 waypoints, in straight horizontal or vertical segments, and stays
/// within the routing gap right of and below the farther anchor.
pub proof fn law_self_loop_shape(sx: usize, sy: usize, src_side: Side, ex: usize, ey: usize, dst_side: Side)
    requires
        sx + 2 <= usize::MAX,
        sy + 2 <= usize::MAX,
        ex + 2 <= usize::MAX,
        ey + 2 <= usize::MAX,
    ensures
        ({
            let r = self_loop_spec(sx, sy, src_side, ex, ey, dst_side);
            &&& 4 <= r.len() <= 5
            &&& r[0] == (sx, sy)
            &&& r.last() == (ex, ey)
            &&& rectilinear(r)
            &&& within(r, if sx >= ex { sx as int } else { ex as int }, if sy >= ey { sy as int } else { ey as int }, 2)
        }),
{
    let r = self_loop_spec(sx, sy, src_side, ex, ey, dst_side);
    lemma_rectilinear_small(r);
}

/// The glyph drawn where travel in direction `incoming` turns to `outgoing`.
pub open spec fn corner_spec(incoming: Dir, outgoing: Dir) -> char {
    match (incoming, outgoing) {
        (Dir::Right, Dir::Down) => '┐',
        (Dir::Right, Dir::Up) => '┘',
        (Dir::Left, Dir::Down) => '┌',
        (Dir::Left, Dir::Up) => '└',
        (Dir::Down, Dir::Right) => '└',
        (Dir::Down, Dir::Left) => '┘',
        (Dir::Up, Dir::Right) => '┌',
        (Dir::Up, Dir::Left) => '┐',
        (Dir::Left, Dir::Left) => '─',
        (Dir::Right, Dir::Right) => '─',
        (Dir::Up, Dir::Up) => '│',
        (Dir::Down, Dir::Down) => '│',
        _ => '┼',
    }
}

/// Returns the corner character for a waypoint where incoming direction meets outgoing direction.
pub fn corner_char(incoming: Dir, outgoing: Dir) -> (c: char)
    ensures
        c == corner_spec(incoming, outgoing),
{
    match (incoming, outgoing) {
        (Dir::Right, Dir::Down) => '┐',
        (Dir::Right, Dir::Up) => '┘',
        (Dir::Left, Dir::Down) => '┌',
        (Dir::Left, Dir::Up) => '└',
        (Dir::Down, Dir::Right) => '└',
        (Dir::Down, Dir::Left) => '┘',
        (Dir::Up, Dir::Right) => '┌',
        (Dir::Up, Dir::Left) => '┐',
        (Dir::Left, Dir::Left) | (Dir::Right, Dir::Right) => '─',
        (Dir::Up, Dir::Up) | (Dir::Down, Dir::Down) => '│',
        _ => '┼',
    }
}

/// The direction from (fx, fy) to (tx, ty): along the row when the rows are
/// equal (Right only when tx > fx), else Down or Up.
pub open spec fn segment_dir_spec(fx: usize, fy: usize, tx: usize, ty: usize) -> Dir {
    if fy == ty {
        if tx > fx { Dir::Right } else { Dir::Left }
    } else if ty > fy {
        Dir::Down
    } else {
        Dir::Up
    }
}

/// Computes the direction from point (fx,fy) to point (tx,ty).
pub fn segment_dir(fx: usize, fy: usize, tx: usize, ty: usize) -> (d: Dir)
    ensures
        d == segment_dir_spec(fx, fy, tx, ty),
{
    if fy == ty {
        if tx > fx { Dir::Right } else { Dir::Left }
    } else if ty > fy {
        Dir::Down
    } else {
        Dir::Up
    }
}

/// The arrowhead glyph of family `f` (0: →←↑↓, 1: ▶◀▲▼, 2: ▷◁△▽, 3: ⇒⇐⇑⇓) for `dir`.
pub open spec fn family_head(f: nat, dir: Dir) -> char {
    if f == 0 {
        match dir { Dir::Right => '→', Dir::Left => '←', Dir::Up => '↑', Dir::Down => '↓' }
    } else if f == 1 {
        match dir { Dir::Right => '▶', Dir::Left => '◀', Dir::Up => '▲', Dir::Down => '▼' }
    } else if f == 2 {
        match dir { Dir::Right => '▷', Dir::Left => '◁', Dir::Up => '△', Dir::Down => '▽' }
    } else {
        match dir { Dir::Right => '⇒', Dir::Left => '⇐', Dir::Up => '⇑', Dir::Down => '⇓' }
    }
}

/// The arrowhead family that `ch` belongs to, if any.
pub open spec fn head_family(ch: char) -> Option<nat> {
    if ch == '→' || ch == '←' || ch == '↑' || ch == '↓' {
        Some(0)
    } else if ch == '▶' || ch == '◀' || ch == '▲' || ch == '▼' {
        Some(1)
    } else if ch == '▷' || ch == '◁' || ch == '△' || ch == '▽' {
        Some(2)
    } else if ch == '⇒' || ch == '⇐' || ch == '⇑' || ch == '⇓' {
        Some(3)
    } else {
        None
    }
}

/// The head drawn for a requested `ch` in direction `dir`: the member of
/// `ch`'s family for `dir`, or `ch` itself when it belongs to no family.
pub open spec fn resolve_head_spec(ch: char, dir: Dir) -> char {
    match head_family(ch) {
        Some(f) => family_head(f, dir),
        None => ch,
    }
}

fn family_glyph(f: usize, dir: Dir) -> (c: char)
    requires
        f <= 3,
    ensures
        c == family_head(f as nat, dir),
{
    if f == 0 {
        match dir { Dir::Right => '→', Dir::Left => '←', Dir::Up => '↑', Dir::Down => '↓' }
    } else if f == 1 {
        match dir { Dir::Right => '▶', Dir::Left => '◀', Dir::Up => '▲', Dir::Down => '▼' }
    } else if f == 2 {
        match dir { Dir::Right => '▷', Dir::Left => '◁', Dir::Up => '△', Dir::Down => '▽' }
    } else {
        match dir { Dir::Right => '⇒', Dir::Left => '⇐', Dir::Up => '⇑', Dir::Down => '⇓' }
    }
}

/// The default arrowhead (→←↑↓) pointing in `dir`.
pub fn default_arrowhead(dir: Dir) -> (c: char)
    ensures
        c == family_head(0, dir),
{
    family_glyph(0, dir)
}

/// The arrowhead of `ch`'s family pointing in `dir` (`ch` itself outside the families).
pub fn resolve_arrowhead(ch: char, dir: Dir) -> (c: char)
    ensures
        c == resolve_head_spec(ch, dir),
{
    if ch == '→' || ch == '←' || ch == '↑' || ch == '↓' {
        family_glyph(0, dir)
    } else if ch == '▶' || ch == '◀' || ch == '▲' || ch == '▼' {
        family_glyph(1, dir)
    } else if ch == '▷' || ch == '◁' || ch == '△' || ch == '▽' {
        family_glyph(2, dir)
    } else if ch == '⇒' || ch == '⇐' || ch == '⇑' || ch == '⇓' {
        family_glyph(3, dir)
    } else {
        ch
    }
}

} // verus!
