//! Drawing without collision checks never reports a collision: with
//! collision off, objects may overlap freely.
use vstd::prelude::*;

use crate::canvas::grid::{apply_steps, str_steps, CanvasView, DrawStep};
use crate::object::{ArrowView, DrawObjectView, LineView, RectView};
use crate::renderer::engine::{
    border_sides, border_steps, content_steps, draw_steps, enrich_spec, pass_result,
    structure_steps,
};
use crate::renderer::layout::{hrun, lines_steps, put, vrun};
use crate::renderer::shapes::{
    arrow_content_steps, arrow_structure_steps, content_line_steps, content_lines_steps,
    corners_steps, hline_content_steps, rect_content_steps, rect_structure_steps, segment_steps,
    segments_steps, side_pairs, vline_content_steps,
};

verus! {

/// A step that checks for collisions, or that fails with one.
pub open spec fn may_collide(s: DrawStep) -> bool {
    match s {
        DrawStep::Put(op) => op.3,
        DrawStep::Fail(e) => e is Collision,
    }
}

/// No step checks for collisions or fails with one.
pub open spec fn unchecked(steps: Seq<DrawStep>) -> bool {
    forall|i: int| 0 <= i < steps.len() ==> !may_collide(#[trigger] steps[i])
}

proof fn lemma_unchecked_add(a: Seq<DrawStep>, b: Seq<DrawStep>)
    requires
        unchecked(a),
        unchecked(b),
    ensures
        unchecked(a + b),
{
    assert forall|i: int| 0 <= i < (a + b).len() implies !may_collide(#[trigger] (a + b)[i]) by {
        if i < a.len() {
            assert((a + b)[i] == a[i]);
        } else {
            assert((a + b)[i] == b[i - a.len()]);
        }
    }
}

proof fn lemma_hrun(c0: int, r: int, n: nat, ch: char)
    ensures
        unchecked(hrun(c0, r, n, ch, false)),
    decreases n,
{
    if n > 0 {
        lemma_hrun(c0, r, (n - 1) as nat, ch);
        lemma_unchecked_add(hrun(c0, r, (n - 1) as nat, ch, false), seq![put(c0 + n - 1, r, ch, false)]);
        assert(hrun(c0, r, n, ch, false) == hrun(c0, r, (n - 1) as nat, ch, false) + seq![
            put(c0 + n - 1, r, ch, false),
        ]);
    }
}

proof fn lemma_vrun(c: int, r0: int, n: nat, ch: char)
    ensures
        unchecked(vrun(c, r0, n, ch, false)),
    decreases n,
{
    if n > 0 {
        lemma_vrun(c, r0, (n - 1) as nat, ch);
        lemma_unchecked_add(vrun(c, r0, (n - 1) as nat, ch, false), seq![put(c, r0 + n - 1, ch, false)]);
        assert(vrun(c, r0, n, ch, false) == vrun(c, r0, (n - 1) as nat, ch, false) + seq![
            put(c, r0 + n - 1, ch, false),
        ]);
    }
}

proof fn lemma_str(col: int, row: int, s: Seq<char>)
    ensures
        unchecked(str_steps(col, row, s, false)),
    decreases s.len(),
{
    if s.len() > 0 {
        lemma_str(col, row, s.drop_last());
        let prev = str_steps(col, row, s.drop_last(), false);
        let last = DrawStep::Put((col + crate::width::spec_str_width(s.drop_last()), row, s.last(), false));
        lemma_unchecked_add(prev, seq![last]);
        assert(str_steps(col, row, s, false) == prev + seq![last]);
    }
}

proof fn lemma_lines(c: int, r: int, ls: Seq<Seq<char>>)
    ensures
        unchecked(lines_steps(c, r, ls, false)),
    decreases ls.len(),
{
    if ls.len() > 0 {
        lemma_lines(c, r, ls.drop_last());
        lemma_str(c, r + ls.len() - 1, ls.last());
        lemma_unchecked_add(lines_steps(c, r, ls.drop_last(), false), str_steps(c, r + ls.len() - 1, ls.last(), false));
    }
}

proof fn lemma_side_pairs(c: int, row: int, w: int, n: nat, v: char)
    ensures
        unchecked(side_pairs(c, row, w, n, v, false)),
    decreases n,
{
    if n > 0 {
        lemma_side_pairs(c, row, w, (n - 1) as nat, v);
        lemma_unchecked_add(
            side_pairs(c, row, w, (n - 1) as nat, v, false),
            seq![put(c, row + n, v, false), put(c + w + 1, row + n, v, false)],
        );
    }
}

proof fn lemma_one(s: DrawStep)
    requires
        !may_collide(s),
    ensures
        unchecked(seq![s]),
{
}

proof fn lemma_rect_structure(r: RectView)
    ensures
        unchecked(rect_structure_steps(r, false)),
{
    let (tl, tr, bl, br, h, v) = crate::renderer::shapes::border_chars_spec(r.style);
    let c = r.col as int;
    let row = r.row as int;
    let w = r.width as int;
    let ht = r.height as int;
    let a1 = seq![put(c, row, tl, false)];
    let a2 = hrun(c + 1, row, r.width as nat, h, false);
    let a3 = seq![put(c + w + 1, row, tr, false)];
    let a4 = side_pairs(c, row, w, r.height as nat, v, false);
    let a5 = seq![put(c, row + ht + 1, bl, false)];
    let a6 = hrun(c + 1, row + ht + 1, r.width as nat, h, false);
    let a7 = seq![put(c + w + 1, row + ht + 1, br, false)];
    lemma_one(put(c, row, tl, false));
    lemma_one(put(c + w + 1, row, tr, false));
    lemma_one(put(c, row + ht + 1, bl, false));
    lemma_one(put(c + w + 1, row + ht + 1, br, false));
    lemma_hrun(c + 1, row, r.width as nat, h);
    lemma_hrun(c + 1, row + ht + 1, r.width as nat, h);
    lemma_side_pairs(c, row, w, r.height as nat, v);
    lemma_unchecked_add(a1, a2);
    lemma_unchecked_add(a1 + a2, a3);
    lemma_unchecked_add(a1 + a2 + a3, a4);
    lemma_unchecked_add(a1 + a2 + a3 + a4, a5);
    lemma_unchecked_add(a1 + a2 + a3 + a4 + a5, a6);
    lemma_unchecked_add(a1 + a2 + a3 + a4 + a5 + a6, a7);
}

proof fn lemma_segment(f: (usize, usize), t: (usize, usize), with_tip: bool, head: Option<char>)
    ensures
        unchecked(segment_steps(f, t, with_tip, head, false)),
{
    if f.1 == t.1 {
        let lo = if f.0 < t.0 { f.0 } else { t.0 };
        let hi = if f.0 < t.0 { t.0 } else { f.0 };
        lemma_hrun(lo as int, f.1 as int, (hi - lo + 1) as nat, '─');
        let tip: Seq<DrawStep> = if with_tip {
            seq![put(t.0 as int, f.1 as int, crate::renderer::shapes::tip_spec(head, if t.0 > f.0 { crate::object::Dir::Right } else { crate::object::Dir::Left }), false)]
        } else {
            Seq::empty()
        };
        lemma_unchecked_add(hrun(lo as int, f.1 as int, (hi - lo + 1) as nat, '─', false), tip);
    } else if f.0 == t.0 {
        let lo = if f.1 < t.1 { f.1 } else { t.1 };
        let hi = if f.1 < t.1 { t.1 } else { f.1 };
        lemma_vrun(f.0 as int, lo as int, (hi - lo + 1) as nat, '│');
        let tip: Seq<DrawStep> = if with_tip {
            seq![put(f.0 as int, t.1 as int, crate::renderer::shapes::tip_spec(head, if t.1 > f.1 { crate::object::Dir::Down } else { crate::object::Dir::Up }), false)]
        } else {
            Seq::empty()
        };
        lemma_unchecked_add(vrun(f.0 as int, lo as int, (hi - lo + 1) as nat, '│', false), tip);
    }
}

proof fn lemma_segments(wp: Seq<(usize, usize)>, head: Option<char>, k: nat)
    ensures
        unchecked(segments_steps(wp, head, false, k)),
    decreases k,
{
    if k > 0 {
        lemma_segments(wp, head, (k - 1) as nat);
        lemma_segment(wp[k - 1], wp[k as int], k - 1 == wp.len() - 2, head);
        lemma_unchecked_add(
            segments_steps(wp, head, false, (k - 1) as nat),
            segment_steps(wp[k - 1], wp[k as int], k - 1 == wp.len() - 2, head, false),
        );
    }
}

proof fn lemma_corners(wp: Seq<(usize, usize)>, k: nat)
    ensures
        unchecked(corners_steps(wp, k)),
    decreases k,
{
    if k > 1 {
        lemma_corners(wp, (k - 1) as nat);
        let prev = corners_steps(wp, (k - 1) as nat);
        let rest = corners_steps(wp, k).subrange(prev.len() as int, corners_steps(wp, k).len() as int);
        assert(corners_steps(wp, k) == prev + rest);
        assert(unchecked(rest));
        lemma_unchecked_add(prev, rest);
    }
}

proof fn lemma_arrow_structure(a: ArrowView)
    ensures
        unchecked(arrow_structure_steps(a, false)),
{
    let wp = a.waypoints;
    if wp.len() >= 2 {
        let k = (wp.len() - 1) as nat;
        lemma_segments(wp, a.head, k);
        lemma_corners(wp, k);
        let tail = arrow_structure_steps(a, false).subrange(
            (segments_steps(wp, a.head, false, k) + corners_steps(wp, k)).len() as int,
            arrow_structure_steps(a, false).len() as int,
        );
        lemma_unchecked_add(segments_steps(wp, a.head, false, k), corners_steps(wp, k));
        assert(arrow_structure_steps(a, false) == segments_steps(wp, a.head, false, k) + corners_steps(wp, k) + tail);
        assert(unchecked(tail));
        lemma_unchecked_add(segments_steps(wp, a.head, false, k) + corners_steps(wp, k), tail);
    }
}

proof fn lemma_content_lines(
    col: int,
    start: int,
    ls: Seq<Seq<char>>,
    k: nat,
    inner_w: usize,
    overflow: crate::object::ContentOverflow,
    align: crate::object::ContentAlign,
)
    ensures
        unchecked(content_lines_steps(col, start, ls, k, inner_w, overflow, align)),
    decreases k,
{
    if k > 0 {
        lemma_content_lines(col, start, ls, (k - 1) as nat, inner_w, overflow, align);
        let line = ls[k - 1];
        let r = start + k - 1;
        let cw = crate::width::spec_str_width(line);
        if !(cw > inner_w && overflow == crate::object::ContentOverflow::Error) {
            let d = crate::renderer::shapes::display_spec(line, inner_w, overflow, align);
            lemma_str(
                crate::renderer::shapes::line_start(col, inner_w as int, crate::width::spec_str_width(d) as int, align),
                r,
                d,
            );
        }
        lemma_unchecked_add(
            content_lines_steps(col, start, ls, (k - 1) as nat, inner_w, overflow, align),
            content_line_steps(col, r, line, inner_w, overflow, align),
        );
    }
}

proof fn lemma_rect_content(r: RectView)
    ensures
        unchecked(rect_content_steps(r)),
{
    let content = match r.content {
        Some(c) => {
            let ls = crate::textops::lines_spec(c);
            lemma_content_lines(
                r.col as int,
                crate::renderer::shapes::content_start(r, ls.len()),
                ls,
                crate::renderer::shapes::content_count(r, ls.len()),
                r.width,
                r.content_overflow,
                r.content_align,
            );
            content_lines_steps(
                r.col as int,
                crate::renderer::shapes::content_start(r, ls.len()),
                ls,
                crate::renderer::shapes::content_count(r, ls.len()),
                r.width,
                r.content_overflow,
                r.content_align,
            )
        },
        None => Seq::empty(),
    };
    let legend = match r.legend {
        Some(l) => {
            let lr = match l.pos {
                crate::object::LegendPos::Bottom => r.row + r.height + 2,
                _ => crate::renderer::shapes::sat_sub(r.row as int, 1),
            };
            lemma_lines(r.col as int, lr, crate::textops::lines_spec(l.text));
            lines_steps(r.col as int, lr, crate::textops::lines_spec(l.text), false)
        },
        None => Seq::empty(),
    };
    lemma_unchecked_add(content, legend);
    assert(rect_content_steps(r) == content + legend);
}

proof fn lemma_hline_content(h: LineView)
    ensures
        unchecked(hline_content_steps(h)),
{
    if let Some(l) = h.legend {
        let tw = crate::width::spec_str_width(l.text) as int;
        let (c, r) = match l.pos {
            crate::object::LegendPos::Bottom => (h.col as int, h.row + 1),
            crate::object::LegendPos::Left => (crate::renderer::shapes::sat_sub(h.col as int, tw + 1), h.row as int),
            crate::object::LegendPos::Right => (h.col + h.length + 1, h.row as int),
            _ => (h.col as int, crate::renderer::shapes::sat_sub(h.row as int, 1)),
        };
        lemma_lines(c, r, crate::textops::lines_spec(l.text));
    }
}

proof fn lemma_vline_content(v: LineView)
    ensures
        unchecked(vline_content_steps(v)),
{
    if let Some(l) = v.legend {
        let tw = crate::width::spec_str_width(l.text) as int;
        let mid = v.row + v.length / 2;
        let (c, r) = match l.pos {
            crate::object::LegendPos::Top => (v.col as int, crate::renderer::shapes::sat_sub(v.row as int, 1)),
            crate::object::LegendPos::Bottom => (v.col as int, v.row + v.length),
            crate::object::LegendPos::Left => (crate::renderer::shapes::sat_sub(v.col as int, tw + 1), mid),
            _ => (v.col + 2, mid),
        };
        lemma_lines(c, r, crate::textops::lines_spec(l.text));
    }
}

proof fn lemma_arrow_content(a: ArrowView)
    ensures
        unchecked(arrow_content_steps(a)),
{
    let steps = arrow_content_steps(a);
    if steps.len() > 0 {
        let wp = a.waypoints;
        let l = a.legend->Some_0;
        let i = crate::renderer::shapes::legend_seg(wp);
        let f = wp[i];
        let t = wp[i + 1];
        let mid_c = (f.0 + t.0) / 2;
        let mid_r = (f.1 + t.1) / 2;
        let dir = crate::object::arrow::segment_dir_spec(f.0, f.1, t.0, t.1);
        let horizontal = dir == crate::object::Dir::Left || dir == crate::object::Dir::Right;
        let pos = match l.pos {
            crate::object::LegendPos::Auto => if horizontal {
                crate::object::LegendPos::Top
            } else {
                crate::object::LegendPos::Right
            },
            p => p,
        };
        let tw = crate::width::spec_str_width(l.text) as int;
        let (c, r) = match pos {
            crate::object::LegendPos::Top => (crate::renderer::shapes::sat_sub(mid_c, tw / 2), crate::renderer::shapes::sat_sub(mid_r, 1)),
            crate::object::LegendPos::Bottom => (crate::renderer::shapes::sat_sub(mid_c, tw / 2), mid_r + 1),
            crate::object::LegendPos::Left => (crate::renderer::shapes::sat_sub(mid_c, tw + 1), mid_r),
            _ => (mid_c + 1, mid_r),
        };
        lemma_lines(c, r, crate::textops::lines_spec(l.text));
    }
}

proof fn lemma_border_sides(w: int, n: nat, v: char)
    ensures
        unchecked(border_sides(w, n, v)),
    decreases n,
{
    if n > 0 {
        lemma_border_sides(w, (n - 1) as nat, v);
        lemma_unchecked_add(
            border_sides(w, (n - 1) as nat, v),
            seq![put(0, n as int, v, false), put(w - 1, n as int, v, false)],
        );
    }
}

/// The canvas border is drawn without collision checks.
pub proof fn lemma_border_unchecked(style: crate::object::BorderStyle, w: int, h: int)
    ensures
        unchecked(border_steps(style, w, h)),
{
    let (tl, tr, bl, br, hc, vc) = crate::renderer::shapes::border_chars_spec(style);
    let inner: nat = if w >= 2 { (w - 2) as nat } else { 0 };
    let sides: nat = if h >= 2 { (h - 2) as nat } else { 0 };
    let a1 = seq![put(0, 0, tl, false)];
    let a2 = hrun(1, 0, inner, hc, false);
    let a3 = seq![put(w - 1, 0, tr, false)];
    let a4 = border_sides(w, sides, vc);
    let a5 = seq![put(0, h - 1, bl, false)];
    let a6 = hrun(1, h - 1, inner, hc, false);
    let a7 = seq![put(w - 1, h - 1, br, false)];
    lemma_one(put(0, 0, tl, false));
    lemma_one(put(w - 1, 0, tr, false));
    lemma_one(put(0, h - 1, bl, false));
    lemma_one(put(w - 1, h - 1, br, false));
    lemma_hrun(1, 0, inner, hc);
    lemma_hrun(1, h - 1, inner, hc);
    lemma_border_sides(w, sides, vc);
    lemma_unchecked_add(a1, a2);
    lemma_unchecked_add(a1 + a2, a3);
    lemma_unchecked_add(a1 + a2 + a3, a4);
    lemma_unchecked_add(a1 + a2 + a3 + a4, a5);
    lemma_unchecked_add(a1 + a2 + a3 + a4 + a5, a6);
    lemma_unchecked_add(a1 + a2 + a3 + a4 + a5 + a6, a7);
}

/// Everything an object draws with collision checks off is unchecked.
pub proof fn lemma_object_unchecked(o: DrawObjectView)
    ensures
        unchecked(structure_steps(o, false)),
        unchecked(content_steps(o, false)),
        unchecked(draw_steps(o, false)),
{
    match o {
        DrawObjectView::Rect(r) => {
            lemma_rect_structure(r);
            lemma_rect_content(r);
        },
        DrawObjectView::Text(t) => {
            lemma_lines(t.col as int, t.row as int, crate::textops::lines_spec(t.content));
        },
        DrawObjectView::HLine(h) => {
            lemma_hrun(h.col as int, h.row as int, h.length as nat, crate::renderer::shapes::hline_char_spec(h.style));
            lemma_hline_content(h);
        },
        DrawObjectView::VLine(v) => {
            lemma_vrun(v.col as int, v.row as int, v.length as nat, crate::renderer::shapes::vline_char_spec(v.style));
            lemma_vline_content(v);
        },
        DrawObjectView::Arrow(a) => {
            lemma_arrow_structure(a);
            lemma_arrow_content(a);
        },
    }
    lemma_unchecked_add(structure_steps(o, false), content_steps(o, false));
}

/// Unchecked steps never fail with a collision.
pub proof fn lemma_apply_unchecked(m: CanvasView, steps: Seq<DrawStep>, idx: usize)
    requires
        unchecked(steps),
    ensures
        apply_steps(m, steps, idx).1 matches Some(e) ==> !(e is Collision),
    decreases steps.len(),
{
    if steps.len() > 0 {
        let d = steps.drop_last();
        assert forall|i: int| 0 <= i < d.len() implies !may_collide(#[trigger] d[i]) by {
            assert(d[i] == steps[i]);
        }
        lemma_apply_unchecked(m, d, idx);
        assert(!may_collide(steps[steps.len() - 1]));
    }
}

/// A pass with collision checks off never fails with a collision.
pub proof fn lemma_pass_unchecked(m: CanvasView, objs: Seq<DrawObjectView>, k: nat, structure: bool)
    ensures
        pass_result(m, objs, k, structure, false).1 matches Some(p) ==> !(p.0 is Collision),
    decreases k,
{
    if k > 0 {
        lemma_pass_unchecked(m, objs, (k - 1) as nat, structure);
        let (m1, e) = pass_result(m, objs, (k - 1) as nat, structure, false);
        lemma_object_unchecked(objs[k - 1]);
        let steps = if structure {
            structure_steps(objs[k - 1], false)
        } else {
            content_steps(objs[k - 1], false)
        };
        lemma_apply_unchecked(m1, steps, (k - 1) as usize);
    }
}

/// With collision off, drawing an object never reports a collision.
pub proof fn law_draw_collision_off(m: CanvasView, o: DrawObjectView, idx: usize)
    ensures
        apply_steps(m, draw_steps(o, false), idx).1 matches Some(e) ==> !(e is Collision),
{
    lemma_object_unchecked(o);
    lemma_apply_unchecked(m, draw_steps(o, false), idx);
}

/// With collision off, neither pass over the objects (structure, then text)
/// reports a collision, before or after the error is described.
pub proof fn law_pass_collision_off(m: CanvasView, objs: Seq<DrawObjectView>, structure: bool)
    ensures
        pass_result(m, objs, objs.len(), structure, false).1 matches Some(p) ==> !(p.0 is Collision)
            && !(enrich_spec(objs, p.0, p.1) is Collision),
{
    lemma_pass_unchecked(m, objs, objs.len(), structure);
}

} // verus!
