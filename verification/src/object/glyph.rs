//! How the box-drawing glyphs of arrow bends connect to their neighbours.
use vstd::prelude::*;

use crate::object::arrow::{corner_spec, segment_dir_spec, Dir};
use crate::renderer::layout::put;
use crate::renderer::shapes::corners_steps;

verus! {

/// Whether the light box-drawing glyph `c` has an arm reaching the side of
/// its cell that lies in direction `d` (`─`: left and right; `│`: up and
/// down; `┌`: right and down; `┐`: left and down; `└`: right and up; `┘`:
/// left and up; `┼`: all four). Other characters have no arms.
pub open spec fn glyph_arm(c: char, d: Dir) -> bool {
    if c == '─' {
        d == Dir::Left || d == Dir::Right
    } else if c == '│' {
        d == Dir::Up || d == Dir::Down
    } else if c == '┌' {
        d == Dir::Right || d == Dir::Down
    } else if c == '┐' {
        d == Dir::Left || d == Dir::Down
    } else if c == '└' {
        d == Dir::Right || d == Dir::Up
    } else if c == '┘' {
        d == Dir::Left || d == Dir::Up
    } else if c == '┼' {
        true
    } else {
        false
    }
}

/// The direction pointing the other way.
pub open spec fn opposite_dir(d: Dir) -> Dir {
    match d {
        Dir::Right => Dir::Left,
        Dir::Left => Dir::Right,
        Dir::Up => Dir::Down,
        Dir::Down => Dir::Up,
    }
}

/// A bend glyph joins exactly the two cell sides the path uses: a path
/// that arrives travelling `incoming` enters from the side opposite to it and
/// leaves towards `outgoing`, so the glyph has arms there and nowhere else
/// (travelling left then down needs arms to the right and down: `┌`).
/// A path that turns back on itself gets a crossing with arms on all sides.
pub proof fn law_corner_joins_path(incoming: Dir, outgoing: Dir, d: Dir)
    ensures
        outgoing != opposite_dir(incoming) ==> (glyph_arm(corner_spec(incoming, outgoing), d) <==> (d
            == opposite_dir(incoming) || d == outgoing)),
        outgoing == opposite_dir(incoming) ==> glyph_arm(corner_spec(incoming, outgoing), d),
{
}


/// The direction from waypoint `a` towards waypoint `b` on the same row or column.
pub open spec fn toward(a: (usize, usize), b: (usize, usize)) -> Dir {
    if a.1 == b.1 {
        if b.0 > a.0 {
            Dir::Right
        } else {
            Dir::Left
        }
    } else if b.1 > a.1 {
        Dir::Down
    } else {
        Dir::Up
    }
}

/// The corner steps of the first `k` waypoints: one per bend 1..k-1.
proof fn lemma_corners_count(wp: Seq<(usize, usize)>, k: nat)
    requires
        1 <= k < wp.len(),
    ensures
        corners_steps(wp, k).len() == k - 1,
    decreases k,
{
    if k > 1 {
        lemma_corners_count(wp, (k - 1) as nat);
    }
}

/// The step of bend `j` does not change as more waypoints are taken.
proof fn lemma_corners_len(wp: Seq<(usize, usize)>, k: nat, j: int)
    requires
        1 <= j < k < wp.len(),
    ensures
        corners_steps(wp, k).len() == k - 1,
        corners_steps(wp, k)[j - 1] == corners_steps(wp, (j + 1) as nat)[j - 1],
    decreases k,
{
    lemma_corners_count(wp, k);
    lemma_corners_count(wp, (j + 1) as nat);
    if j < k - 1 {
        lemma_corners_len(wp, (k - 1) as nat, j);
        lemma_corners_count(wp, (k - 1) as nat);
        assert(corners_steps(wp, k)[j - 1] == corners_steps(wp, (k - 1) as nat)[j - 1]);
    }
}

/// Every bend of an arrow joins its two neighbours: on a route whose
/// consecutive waypoints are distinct and share a row or a column, and that
/// does not turn back at waypoint `j`, the glyph drawn at waypoint `j` has
/// arms exactly towards the waypoint before it and the one after it.
pub proof fn law_bends_join_neighbours(wp: Seq<(usize, usize)>, k: nat, j: int, d: Dir)
    requires
        1 <= j < k < wp.len(),
        wp[j - 1] != wp[j] && (wp[j - 1].0 == wp[j].0 || wp[j - 1].1 == wp[j].1),
        wp[j] != wp[j + 1] && (wp[j].0 == wp[j + 1].0 || wp[j].1 == wp[j + 1].1),
        toward(wp[j], wp[j - 1]) != toward(wp[j], wp[j + 1]),
    ensures
        ({
            let st = corners_steps(wp, k)[j - 1];
            &&& st is Put
            &&& st->Put_0.0 == wp[j].0 && st->Put_0.1 == wp[j].1
            &&& glyph_arm(st->Put_0.2, d) <==> (d == toward(wp[j], wp[j - 1]) || d == toward(wp[j], wp[j + 1]))
        }),
{
    lemma_corners_len(wp, k, j);
    lemma_corners_len(wp, (j + 1) as nat, j);
    let p = wp[j - 1];
    let c = wp[j];
    let n = wp[j + 1];
    let din = segment_dir_spec(p.0, p.1, c.0, c.1);
    let dout = segment_dir_spec(c.0, c.1, n.0, n.1);
    assert(corners_steps(wp, (j + 1) as nat)[j - 1] == put(c.0 as int, c.1 as int, corner_spec(din, dout), false));
    assert(opposite_dir(din) == toward(c, p));
    assert(dout == toward(c, n));
    law_corner_joins_path(din, dout, d);
}

} // verus!
