//! Renders DrawObjects onto a Canvas.
use vstd::prelude::*;

use crate::canvas::grid::{
    apply_steps, lemma_apply_prefix_failed, ops_view, put_spec, render_spec, Canvas, CanvasView, DrawOp,
    DrawStep,
};
use crate::error::{ErrorView, UnidError};
use crate::object::{
    bounds_spec, collision_desc_spec, fits, position_spec, BorderStyle, ContentAlign,
    ContentOverflow, DrawObject, DrawObjectView,
};
use crate::renderer::layout::{hrun, push_hrun, push_put, put};
use crate::renderer::shapes::{
    arrow_content_ops, arrow_content_steps, arrow_structure_ops, arrow_structure_steps,
    border_chars, border_chars_spec, hline_char_spec, hline_content_ops, hline_content_steps,
    hline_structure_ops, lemma_push_add, rect_content_ops, rect_content_steps, rect_structure_ops,
    rect_structure_steps, text_ops, text_steps, vline_char_spec, vline_content_ops,
    vline_content_steps, vline_structure_ops,
};
use crate::renderer::layout::vrun;

verus! {

/// The structural part of an object (borders and lines), checked for
/// collisions when `coll` holds.
pub open spec fn structure_steps(o: DrawObjectView, coll: bool) -> Seq<DrawStep> {
    match o {
        DrawObjectView::Rect(r) => rect_structure_steps(r, coll),
        DrawObjectView::Text(_) => Seq::empty(),
        DrawObjectView::HLine(h) => hrun(h.col as int, h.row as int, h.length as nat, hline_char_spec(h.style), coll),
        DrawObjectView::VLine(v) => vrun(v.col as int, v.row as int, v.length as nat, vline_char_spec(v.style), coll),
        DrawObjectView::Arrow(a) => arrow_structure_steps(a, coll),
    }
}

/// The text part of an object (content, legends, text objects).
pub open spec fn content_steps(o: DrawObjectView, coll: bool) -> Seq<DrawStep> {
    match o {
        DrawObjectView::Rect(r) => rect_content_steps(r),
        DrawObjectView::Text(t) => text_steps(t, coll),
        DrawObjectView::HLine(h) => hline_content_steps(h),
        DrawObjectView::VLine(v) => vline_content_steps(v),
        DrawObjectView::Arrow(a) => arrow_content_steps(a),
    }
}

/// Everything an object draws: its structure, then its text.
pub open spec fn draw_steps(o: DrawObjectView, coll: bool) -> Seq<DrawStep> {
    structure_steps(o, coll) + content_steps(o, coll)
}

/// The overlap of two objects' boxes as (col, row, end col, end row, width,
/// height); a single cell at the later top-left corner when they do not overlap.
pub open spec fn overlap_spec(a: DrawObjectView, b: DrawObjectView) -> (usize, usize, usize, usize, usize, usize) {
    let ap = position_spec(a);
    let bp = position_spec(b);
    let ab = bounds_spec(a);
    let bb = bounds_spec(b);
    let sc = if ap.0 >= bp.0 { ap.0 } else { bp.0 };
    let sr = if ap.1 >= bp.1 { ap.1 } else { bp.1 };
    let ec = if ab.0 <= bb.0 { ab.0 } else { bb.0 };
    let er = if ab.1 <= bb.1 { ab.1 } else { bb.1 };
    if ec > sc && er > sr {
        (sc, sr, (ec - 1) as usize, (er - 1) as usize, (ec - sc) as usize, (er - sr) as usize)
    } else {
        (sc, sr, sc, sr, 1, 1)
    }
}

/// A collision error as reported to the user: numbered from 1, with both
/// objects described and their overlap ("border" for a cell of the canvas
/// border); other errors unchanged.
pub open spec fn enrich_spec(objects: Seq<DrawObjectView>, err: ErrorView, idx: int) -> ErrorView {
    match err {
        ErrorView::Collision { existing_idx, overlap_col, overlap_row, .. } => {
            let n = objects.len();
            let incoming_desc = if idx < n {
                collision_desc_spec(objects[idx])
            } else {
                "unknown"@
            };
            let existing_desc = if existing_idx < n {
                collision_desc_spec(objects[existing_idx as int])
            } else {
                "border"@
            };
            let o = if idx < n && existing_idx < n {
                overlap_spec(objects[idx], objects[existing_idx as int])
            } else {
                (overlap_col, overlap_row, overlap_col, overlap_row, 1usize, 1usize)
            };
            ErrorView::Collision {
                incoming_idx: (idx + 1) as usize,
                incoming_desc,
                existing_idx: if existing_idx == usize::MAX { 0 } else { (existing_idx + 1) as usize },
                existing_desc,
                overlap_col: o.0,
                overlap_row: o.1,
                overlap_end_col: o.2,
                overlap_end_row: o.3,
                overlap_w: o.4,
                overlap_h: o.5,
            }
        },
        other => other,
    }
}

/// The canvas after one pass over the first `k` objects, each drawn as
/// object number = its position; the error of the first object that failed,
/// with that position. The structure pass checks collisions when `coll`
/// holds; the text pass never does, so text lands on top of structure.
pub open spec fn pass_result(
    m: CanvasView,
    objs: Seq<DrawObjectView>,
    k: nat,
    structure: bool,
    coll: bool,
) -> (CanvasView, Option<(ErrorView, int)>)
    decreases k,
{
    if k == 0 {
        (m, None)
    } else {
        let (m1, e) = pass_result(m, objs, (k - 1) as nat, structure, coll);
        if e is Some {
            (m1, e)
        } else {
            let steps = if structure {
                structure_steps(objs[k - 1], coll)
            } else {
                content_steps(objs[k - 1], false)
            };
            let (m2, e2) = apply_steps(m1, steps, (k - 1) as usize);
            match e2 {
                Some(err) => (m2, Some((err, k - 1))),
                None => (m2, None),
            }
        }
    }
}

/// The border around the whole canvas.
pub open spec fn border_steps(style: BorderStyle, w: int, h: int) -> Seq<DrawStep> {
    let (tl, tr, bl, br, hc, vc) = border_chars_spec(style);
    let inner = if w >= 2 { (w - 2) as nat } else { 0 };
    seq![put(0, 0, tl, false)] + hrun(1, 0, inner, hc, false) + seq![put(w - 1, 0, tr, false)]
        + border_sides(w, if h >= 2 { (h - 2) as nat } else { 0 }, vc) + seq![
        put(0, h - 1, bl, false),
    ] + hrun(1, h - 1, inner, hc, false) + seq![put(w - 1, h - 1, br, false)]
}

/// The left and right border cells of rows 1..=n.
pub open spec fn border_sides(w: int, n: nat, v: char) -> Seq<DrawStep>
    decreases n,
{
    if n == 0 {
        Seq::empty()
    } else {
        border_sides(w, (n - 1) as nat, v) + seq![put(0, n as int, v, false), put(w - 1, n as int, v, false)]
    }
}

/// Renders DrawObjects onto a Canvas.
pub struct Renderer {
    pub canvas: Canvas,
    pub collision: bool,
    /// Objects tracked for collision reporting.
    objects: Vec<DrawObject>,
    /// Global content overflow default from canvas settings.
    pub global_overflow: ContentOverflow,
    /// Global content align default from canvas settings.
    pub global_align: ContentAlign,
}

/// The objects' values.
pub open spec fn objects_view(v: Seq<DrawObject>) -> Seq<DrawObjectView> {
    v.map_values(|o: DrawObject| o@)
}

/// Every object is within the layout limits.
pub open spec fn all_fit(objs: Seq<DrawObjectView>) -> bool {
    forall|i: int| 0 <= i < objs.len() ==> fits(#[trigger] objs[i])
}

impl Renderer {
    /// The objects registered so far, in order.
    pub closed spec fn registered(&self) -> Seq<DrawObjectView> {
        objects_view(self.objects@)
    }

    /// The canvas drawn so far.
    pub closed spec fn drawing(&self) -> CanvasView {
        self.canvas@
    }

    /// Whether drawing checks for collisions.
    pub closed spec fn checks_collision(&self) -> bool {
        self.collision
    }

    /// The canvas-wide content defaults (overflow, alignment).
    pub closed spec fn defaults(&self) -> (ContentOverflow, ContentAlign) {
        (self.global_overflow, self.global_align)
    }

    /// The canvas is well formed and every registered object fits the layout limits.
    pub closed spec fn wf(&self) -> bool {
        &&& self.canvas.wf()
        &&& all_fit(self.registered())
    }

    pub fn new(canvas: Canvas, collision: bool) -> (r: Self)
        requires
            canvas.wf(),
        ensures
            r.wf(),
            r.drawing() == canvas@,
            r.checks_collision() == collision,
            r.registered() == Seq::<DrawObjectView>::empty(),
            r.defaults() == (ContentOverflow::Ellipsis, ContentAlign::Left),
    {
        let r = Renderer {
            canvas,
            collision,
            objects: Vec::new(),
            global_overflow: ContentOverflow::Ellipsis,
            global_align: ContentAlign::Left,
        };
        assert(r.registered() =~= Seq::<DrawObjectView>::empty());
        r
    }

    /// Registers a copy of `object`.
    fn register(&mut self, object: &DrawObject)
        requires
            old(self).wf(),
            fits(object@),
        ensures
            final(self).wf(),
            final(self).registered() == old(self).registered().push(object@),
            final(self).canvas == old(self).canvas,
            final(self).checks_collision() == old(self).checks_collision(),
            final(self).defaults() == old(self).defaults(),
    {
        let ghost before = self.objects@;
        self.objects.push(object.duplicate());
        assert(objects_view(self.objects@) =~= objects_view(before).push(object@));
    }

    /// Draws a single object onto the canvas (single-pass, used for lint/collision).
    pub fn draw(&mut self, object: &DrawObject) -> (res: Result<(), UnidError>)
        requires
            old(self).wf(),
            fits(object@),
            old(self).registered().len() < usize::MAX,
        ensures
            final(self).wf(),
            final(self).checks_collision() == old(self).checks_collision(),
            final(self).defaults() == old(self).defaults(),
            final(self).registered() == old(self).registered().push(object@),
            ({
                let idx = old(self).registered().len();
                let (m, e) = apply_steps(old(self).drawing(), draw_steps(object@, old(self).checks_collision()), idx as usize);
                &&& final(self).drawing() == m
                &&& match e {
                    Some(err) => (res matches Err(x) && x@ == enrich_spec(final(self).registered(), err, idx as int)),
                    None => res is Ok,
                }
            }),
    {
        let idx = self.objects.len();
        self.register(object);
        let mut ops = structure_ops(object, self.collision);
        let content = content_ops(object, self.collision);
        let ghost sv = ops_view(ops@);
        let mut content = content;
        let ghost cv = ops_view(content@);
        ops.append(&mut content);
        assert(ops_view(ops@) =~= sv + cv);
        let result = self.canvas.apply_ops(ops, idx);
        match result {
            Ok(()) => Ok(()),
            Err(e) => Err(self.enrich_error(e, object, idx)),
        }
    }

    /// Draws all objects with 2-pass rendering:
    /// Pass 1: Structure (borders, lines, arrow lines/corners)
    /// Pass 2: Text content (c=, lg=, text objects) — overwrites structure,
    /// without collision check
    pub fn draw_all(&mut self, objects: &[DrawObject]) -> (res: Result<(), UnidError>)
        requires
            old(self).wf(),
            all_fit(objects_view(objects@)),
            old(self).registered().len() + objects@.len() < usize::MAX,
        ensures
            final(self).wf(),
            final(self).checks_collision() == old(self).checks_collision(),
            final(self).defaults() == old(self).defaults(),
            final(self).registered() == old(self).registered() + objects_view(objects@),
            ({
                let objs = objects_view(objects@);
                let coll = old(self).checks_collision();
                let (m1, e1) = pass_result(old(self).drawing(), objs, objs.len(), true, coll);
                match e1 {
                    Some((err, i)) => {
                        &&& final(self).drawing() == m1
                        &&& (res matches Err(x) && x@ == enrich_spec(final(self).registered(), err, i))
                    },
                    None => {
                        let (m2, e2) = pass_result(m1, objs, objs.len(), false, coll);
                        &&& final(self).drawing() == m2
                        &&& match e2 {
                            Some((err, i)) => (res matches Err(x) && x@ == enrich_spec(
                                final(self).registered(),
                                err,
                                i,
                            )),
                            None => res is Ok,
                        }
                    },
                }
            }),
    {
        let ghost objs = objects_view(objects@);
        let ghost start = self.registered();
        let n = objects.len();
        let mut i: usize = 0;
        while i < n
            invariant
                self.wf(),
                n == objects@.len(),
                objs == objects_view(objects@),
                all_fit(objs),
                i <= n,
                self.registered() == start + objs.take(i as int),
                self.canvas == old(self).canvas,
                self.collision == old(self).collision,
                start == old(self).registered(),
                self.defaults() == old(self).defaults(),
            decreases n - i,
        {
            assert(fits(objs[i as int]));
            self.register(&objects[i]);
            i = i + 1;
            assert(start + objs.take(i as int) == (start + objs.take(i - 1)).push(objs[i - 1]));
        }
        assert(objs.take(n as int) == objs);
        let coll = self.collision;
        let ghost m0 = self.canvas@;
        let mut idx: usize = 0;
        while idx < n
            invariant
                self.wf(),
                n == objects@.len(),
                objs == objects_view(objects@),
                all_fit(objs),
                idx <= n,
                coll == self.collision,
                coll == old(self).collision,
                start == old(self).registered(),
                m0 == old(self).canvas@,
                self.defaults() == old(self).defaults(),
                self.registered() == start + objs,
                pass_result(m0, objs, idx as nat, true, coll) == (self.canvas@, None::<(ErrorView, int)>),
            decreases n - idx,
        {
            assert(fits(objs[idx as int]));
            let ops = structure_ops(&objects[idx], coll);
            let result = self.canvas.apply_ops(ops, idx);
            match result {
                Ok(()) => {},
                Err(e) => {
                    proof {
                        lemma_pass_failed(m0, objs, (idx + 1) as nat, n as nat, true, coll);
                    }
                    return Err(self.enrich_error(e, &objects[idx], idx));
                },
            }
            idx = idx + 1;
        }
        let ghost m1 = self.canvas@;
        let mut idx: usize = 0;
        while idx < n
            invariant
                self.wf(),
                n == objects@.len(),
                objs == objects_view(objects@),
                all_fit(objs),
                idx <= n,
                coll == self.collision,
                coll == old(self).collision,
                start == old(self).registered(),
                m0 == old(self).canvas@,
                self.defaults() == old(self).defaults(),
                self.registered() == start + objs,
                pass_result(m0, objs, n as nat, true, coll) == (m1, None::<(ErrorView, int)>),
                pass_result(m1, objs, idx as nat, false, coll) == (self.canvas@, None::<(ErrorView, int)>),
            decreases n - idx,
        {
            assert(fits(objs[idx as int]));
            let ops = content_ops(&objects[idx], false);
            let result = self.canvas.apply_ops(ops, idx);
            match result {
                Ok(()) => {},
                Err(e) => {
                    proof {
                        lemma_pass_failed(m1, objs, (idx + 1) as nat, n as nat, false, coll);
                    }
                    return Err(self.enrich_error(e, &objects[idx], idx));
                },
            }
            idx = idx + 1;
        }
        Ok(())
    }

    /// Renders the canvas to string output.
    pub fn render(&self) -> (s: String)
        requires
            self.wf(),
        ensures
            s@ == render_spec(self.drawing()),
    {
        self.canvas.render()
    }

    /// Draws canvas border if specified. On a canvas without cells the first
    /// corner is already out of bounds, and that is the error returned.
    pub fn draw_border(&mut self, style: BorderStyle) -> (res: Result<(), UnidError>)
        requires
            old(self).wf(),
        ensures
            final(self).wf(),
            final(self).checks_collision() == old(self).checks_collision(),
            final(self).defaults() == old(self).defaults(),
            final(self).registered() == old(self).registered(),
            ({
                let (m, e) = apply_steps(
                    old(self).drawing(),
                    border_steps(style, old(self).drawing().width as int, old(self).drawing().height as int),
                    usize::MAX,
                );
                &&& final(self).drawing() == m
                &&& match e {
                    Some(err) => (res matches Err(x) && x@ == err),
                    None => res is Ok,
                }
            }),
    {
        let w = self.canvas.width();
        let ht = self.canvas.height();
        proof {
            self.canvas.lemma_wf_shaped();
        }
        if w == 0 || ht == 0 {
            let (tl, _tr, _bl, _br, _h, _v) = border_chars(style);
            proof {
                let steps = border_steps(style, w as int, ht as int);
                let m = self.canvas@;
                assert(steps.take(1) == seq![put(0, 0, tl, false)]);
                assert(seq![put(0, 0, tl, false)].drop_last() == Seq::<DrawStep>::empty());
                assert(put_spec(m, 0, 0, tl, false, usize::MAX) is Err);
                assert(apply_steps(m, Seq::<DrawStep>::empty(), usize::MAX) == (m, None::<ErrorView>));
                assert(steps.take(1).drop_last() == Seq::<DrawStep>::empty());
                assert(steps.take(1).last() == put(0, 0, tl, false));
                assert(apply_steps(m, steps.take(1), usize::MAX) == (
                    m,
                    Some(put_spec(m, 0, 0, tl, false, usize::MAX)->Err_0),
                ));
                lemma_apply_prefix_failed(m, steps, 1, usize::MAX);
            }
            return self.canvas.put_char(0, 0, tl, false, usize::MAX);
        }
        let ops = border_ops(style, w, ht);
        self.canvas.apply_ops(ops, usize::MAX)
    }

    fn enrich_error(&self, err: UnidError, _object: &DrawObject, idx: usize) -> (e: UnidError)
        requires
            self.wf(),
            idx < usize::MAX,
        ensures
            e@ == enrich_spec(self.registered(), err@, idx as int),
    {
        match err {
            UnidError::Collision { existing_idx, overlap_col, overlap_row, .. } => {
                let n = self.objects.len();
                assert(self.registered().len() == n);
                let incoming_desc = if idx < n {
                    assert(self.registered()[idx as int] == self.objects@[idx as int]@);
                    self.objects[idx].collision_desc()
                } else {
                    String::from_str("unknown")
                };
                let existing_desc = if existing_idx < n {
                    assert(self.registered()[existing_idx as int] == self.objects@[existing_idx as int]@);
                    self.objects[existing_idx].collision_desc()
                } else {
                    String::from_str("border")
                };
                let (oc, or, oec, oer, ow, oh) = if idx < n && existing_idx < n {
                    self.compute_overlap(idx, existing_idx)
                } else {
                    (overlap_col, overlap_row, overlap_col, overlap_row, 1, 1)
                };
                UnidError::Collision {
                    incoming_idx: idx + 1,
                    incoming_desc,
                    existing_idx: existing_idx.wrapping_add(1),
                    existing_desc,
                    overlap_col: oc,
                    overlap_row: or,
                    overlap_end_col: oec,
                    overlap_end_row: oer,
                    overlap_w: ow,
                    overlap_h: oh,
                }
            },
            other => other,
        }
    }

    fn compute_overlap(&self, idx_a: usize, idx_b: usize) -> (o: (usize, usize, usize, usize, usize, usize))
        requires
            self.wf(),
            idx_a < self.registered().len(),
            idx_b < self.registered().len(),
        ensures
            o == overlap_spec(self.registered()[idx_a as int], self.registered()[idx_b as int]),
    {
        assert(self.registered()[idx_a as int] == self.objects@[idx_a as int]@);
        assert(self.registered()[idx_b as int] == self.objects@[idx_b as int]@);
        let (a_pos, a_bounds) = (self.objects[idx_a].position(), self.objects[idx_a].bounds());
        let (b_pos, b_bounds) = (self.objects[idx_b].position(), self.objects[idx_b].bounds());
        let start_col = if a_pos.0 >= b_pos.0 { a_pos.0 } else { b_pos.0 };
        let start_row = if a_pos.1 >= b_pos.1 { a_pos.1 } else { b_pos.1 };
        let end_col = if a_bounds.0 <= b_bounds.0 { a_bounds.0 } else { b_bounds.0 };
        let end_row = if a_bounds.1 <= b_bounds.1 { a_bounds.1 } else { b_bounds.1 };
        if end_col > start_col && end_row > start_row {
            (start_col, start_row, end_col - 1, end_row - 1, end_col - start_col, end_row - start_row)
        } else {
            (start_col, start_row, start_col, start_row, 1, 1)
        }
    }
}

/// Once a pass has failed at some object, the later objects change nothing.
proof fn lemma_pass_failed(m: CanvasView, objs: Seq<DrawObjectView>, k: nat, n: nat, structure: bool, coll: bool)
    requires
        k <= n,
        pass_result(m, objs, k, structure, coll).1 is Some,
    ensures
        pass_result(m, objs, n, structure, coll) == pass_result(m, objs, k, structure, coll),
    decreases n - k,
{
    if k < n {
        lemma_pass_failed(m, objs, k, (n - 1) as nat, structure, coll);
    }
}

/// The steps of the canvas border, in drawing order.
fn border_ops(style: BorderStyle, w: usize, ht: usize) -> (ops: Vec<DrawOp>)
    requires
        w >= 1,
        ht >= 1,
    ensures
        ops_view(ops@) == border_steps(style, w as int, ht as int),
{
    let (tl, tr, bl, br, h, v) = border_chars(style);
    let inner = if w >= 2 { w - 2 } else { 0 };
    let sides = if ht >= 2 { ht - 2 } else { 0 };
    let ghost p1 = seq![put(0, 0, tl, false)];
    let ghost p2 = p1 + hrun(1, 0, inner as nat, h, false);
    let ghost p3 = p2 + seq![put(w - 1, 0, tr, false)];
    let mut ops: Vec<DrawOp> = Vec::new();
    push_put(&mut ops, 0, 0, tl, false);
    assert(ops_view(ops@) == p1);
    push_hrun(&mut ops, 1, 0, inner, h, false);
    push_put(&mut ops, w - 1, 0, tr, false);
    proof {
        lemma_push_add(p2, put(w - 1, 0, tr, false));
    }
    let mut r: usize = 0;
    assert(p3 + border_sides(w as int, 0, v) == p3);
    while r < sides
        invariant
            r <= sides,
            sides < usize::MAX,
            w >= 1,
            ops_view(ops@) == p3 + border_sides(w as int, r as nat, v),
        decreases sides - r,
    {
        let ghost before = ops_view(ops@);
        push_put(&mut ops, 0, r + 1, v, false);
        push_put(&mut ops, w - 1, r + 1, v, false);
        r = r + 1;
        assert(ops_view(ops@) == before + seq![put(0, r as int, v, false), put(w - 1, r as int, v, false)]);
    }
    let ghost p4 = p3 + border_sides(w as int, sides as nat, v);
    let ghost p5 = p4 + seq![put(0, ht - 1, bl, false)];
    let ghost p6 = p5 + hrun(1, ht - 1, inner as nat, h, false);
    push_put(&mut ops, 0, ht - 1, bl, false);
    proof {
        lemma_push_add(p4, put(0, ht - 1, bl, false));
    }
    push_hrun(&mut ops, 1, ht - 1, inner, h, false);
    push_put(&mut ops, w - 1, ht - 1, br, false);
    proof {
        lemma_push_add(p6, put(w - 1, ht - 1, br, false));
    }
    ops
}

/// The structural steps of an object.
fn structure_ops(o: &DrawObject, coll: bool) -> (ops: Vec<DrawOp>)
    requires
        fits(o@),
    ensures
        ops_view(ops@) == structure_steps(o@, coll),
{
    match o {
        DrawObject::Rect(r) => rect_structure_ops(r, coll),
        DrawObject::Text(_) => {
            let v: Vec<DrawOp> = Vec::new();
            assert(ops_view(v@) =~= Seq::<DrawStep>::empty());
            v
        },
        DrawObject::HLine(h) => hline_structure_ops(h, coll),
        DrawObject::VLine(v) => vline_structure_ops(v, coll),
        DrawObject::Arrow(a) => arrow_structure_ops(a, coll),
    }
}

/// The text steps of an object.
fn content_ops(o: &DrawObject, coll: bool) -> (ops: Vec<DrawOp>)
    requires
        fits(o@),
    ensures
        ops_view(ops@) == content_steps(o@, coll),
{
    match o {
        DrawObject::Rect(r) => rect_content_ops(r),
        DrawObject::Text(t) => text_ops(t, coll),
        DrawObject::HLine(h) => hline_content_ops(h),
        DrawObject::VLine(v) => vline_content_ops(v),
        DrawObject::Arrow(a) => arrow_content_ops(a),
    }
}

} // verus!
