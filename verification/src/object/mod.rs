//! Drawable objects and their geometry.
pub mod arrow;
pub mod glyph;
pub mod line;
pub mod rect;
pub mod text;

pub use arrow::{Arrow, ArrowView, Dir, ResolvedArrow};
pub use line::{HLine, LineStyle, LineView, VLine};
pub use rect::{BorderStyle, ContentAlign, ContentOverflow, Rect, RectView, Side};
pub use text::{Text, TextView};

use vstd::prelude::*;

use crate::textops::{
    chars_of, decimal, join, join_spec, lines_of, lines_spec, lines_state, push_all, push_decimal,
    push_str, seqs_of, string_from_chars,
};
use crate::width::{lemma_str_width_bounds, spec_str_width, str_width};

verus! {

/// Legend position (absolute direction relative to the object).
#[derive(Debug, Clone, Copy, PartialEq, Eq, Structural)]
pub enum LegendPos {
    Top,
    Bottom,
    Left,
    Right,
    Auto,
}

impl Default for LegendPos {
    fn default() -> (r: Self)
        ensures
            r == LegendPos::Auto,
    {
        LegendPos::Auto
    }
}

/// Legend (external label) for rect, hline, vline, arrow.
#[derive(Debug, Clone)]
pub struct Legend {
    pub text: String,
    pub pos: LegendPos,
    pub overflow: ContentOverflow,
    pub align: ContentAlign,
}

/// The value of a [`Legend`].
pub struct LegendView {
    pub text: Seq<char>,
    pub pos: LegendPos,
    pub overflow: ContentOverflow,
    pub align: ContentAlign,
}

impl View for Legend {
    type V = LegendView;

    open spec fn view(&self) -> LegendView {
        LegendView { text: self.text@, pos: self.pos, overflow: self.overflow, align: self.align }
    }
}

/// The view of an optional string.
pub open spec fn opt_str_view(o: Option<String>) -> Option<Seq<char>> {
    match o {
        Some(s) => Some(s@),
        None => None,
    }
}

/// The view of an optional legend.
pub open spec fn opt_legend_view(o: Option<Legend>) -> Option<LegendView> {
    match o {
        Some(l) => Some(l@),
        None => None,
    }
}

/// Unified enum for all drawable objects.
#[derive(Debug, Clone)]
pub enum DrawObject {
    Rect(Rect),
    Text(Text),
    HLine(HLine),
    VLine(VLine),
    Arrow(ResolvedArrow),
}

/// The value of a [`DrawObject`].
pub enum DrawObjectView {
    Rect(RectView),
    Text(TextView),
    HLine(LineView),
    VLine(LineView),
    Arrow(ArrowView),
}

impl View for DrawObject {
    type V = DrawObjectView;

    open spec fn view(&self) -> DrawObjectView {
        match self {
            DrawObject::Rect(r) => DrawObjectView::Rect(r@),
            DrawObject::Text(t) => DrawObjectView::Text(t@),
            DrawObject::HLine(h) => DrawObjectView::HLine(h@),
            DrawObject::VLine(v) => DrawObjectView::VLine(v@),
            DrawObject::Arrow(a) => DrawObjectView::Arrow(a@),
        }
    }
}

/// The bound under which coordinates, lengths and text lengths of objects keep
/// all layout arithmetic within `usize`.
pub const COORD_LIMIT: usize = usize::MAX / 16;

/// The text is short enough for layout arithmetic.
pub open spec fn text_fits(s: Seq<char>) -> bool {
    s.len() <= COORD_LIMIT
}

/// The legend, if any, is short enough for layout arithmetic.
pub open spec fn legend_fits(l: Option<LegendView>) -> bool {
    match l {
        Some(l) => text_fits(l.text),
        None => true,
    }
}

/// All numbers and texts of the object are within the layout limits.
pub open spec fn fits(o: DrawObjectView) -> bool {
    match o {
        DrawObjectView::Rect(r) => r.col <= COORD_LIMIT && r.row <= COORD_LIMIT && r.width
            <= COORD_LIMIT && r.height <= COORD_LIMIT && (r.content matches Some(c) ==> text_fits(c))
            && legend_fits(r.legend),
        DrawObjectView::Text(t) => t.col <= COORD_LIMIT && t.row <= COORD_LIMIT && text_fits(
            t.content,
        ),
        DrawObjectView::HLine(h) => h.col <= COORD_LIMIT && h.row <= COORD_LIMIT && h.length
            <= COORD_LIMIT && legend_fits(h.legend),
        DrawObjectView::VLine(v) => v.col <= COORD_LIMIT && v.row <= COORD_LIMIT && v.length
            <= COORD_LIMIT && legend_fits(v.legend),
        DrawObjectView::Arrow(a) => (forall|i: int|
            0 <= i < a.waypoints.len() ==> #[trigger] a.waypoints[i].0 <= 4 * COORD_LIMIT
                && a.waypoints[i].1 <= 4 * COORD_LIMIT) && legend_fits(a.legend),
    }
}

/// The widest of the lines.
pub open spec fn max_width(ls: Seq<Seq<char>>) -> nat
    decreases ls.len(),
{
    if ls.len() == 0 {
        0
    } else {
        let m = max_width(ls.drop_last());
        let w = spec_str_width(ls.last());
        if w > m {
            w
        } else {
            m
        }
    }
}

/// Columns and rows a text occupies: its widest line, and its line count (at least 1).
pub open spec fn text_extent(content: Seq<char>) -> (nat, nat) {
    let ls = lines_spec(content);
    (max_width(ls), if ls.len() > 1 { ls.len() } else { 1 })
}

/// The largest first coordinate of the points (0 for none).
pub open spec fn max_col(p: Seq<(usize, usize)>) -> nat
    decreases p.len(),
{
    if p.len() == 0 {
        0
    } else if p.last().0 > max_col(p.drop_last()) {
        p.last().0 as nat
    } else {
        max_col(p.drop_last())
    }
}

/// The largest second coordinate of the points (0 for none).
pub open spec fn max_row(p: Seq<(usize, usize)>) -> nat
    decreases p.len(),
{
    if p.len() == 0 {
        0
    } else if p.last().1 > max_row(p.drop_last()) {
        p.last().1 as nat
    } else {
        max_row(p.drop_last())
    }
}

/// The smallest first coordinate of the points (`usize::MAX` for none).
pub open spec fn min_col(p: Seq<(usize, usize)>) -> usize
    decreases p.len(),
{
    if p.len() == 0 {
        usize::MAX
    } else if p.last().0 < min_col(p.drop_last()) {
        p.last().0
    } else {
        min_col(p.drop_last())
    }
}

/// The smallest second coordinate of the points (`usize::MAX` for none).
pub open spec fn min_row(p: Seq<(usize, usize)>) -> usize
    decreases p.len(),
{
    if p.len() == 0 {
        usize::MAX
    } else if p.last().1 < min_row(p.drop_last()) {
        p.last().1
    } else {
        min_row(p.drop_last())
    }
}

/// One past the last column and row the object covers: the smallest canvas
/// size that contains it.
pub open spec fn bounds_spec(o: DrawObjectView) -> (int, int) {
    match o {
        DrawObjectView::Rect(r) => (r.col + r.width + 2, r.row + r.height + 2),
        DrawObjectView::Text(t) => (t.col + text_extent(t.content).0, t.row + text_extent(
            t.content,
        ).1),
        DrawObjectView::HLine(h) => (h.col + h.length, h.row + 1),
        DrawObjectView::VLine(v) => (v.col + 1, v.row + v.length),
        DrawObjectView::Arrow(a) => (max_col(a.waypoints) as int + 1, max_row(a.waypoints) as int + 1),
    }
}

/// The top-left (column, row) of the object; for an arrow the smallest
/// column and row among its waypoints.
pub open spec fn position_spec(o: DrawObjectView) -> (usize, usize) {
    match o {
        DrawObjectView::Rect(r) => (r.col, r.row),
        DrawObjectView::Text(t) => (t.col, t.row),
        DrawObjectView::HLine(h) => (h.col, h.row),
        DrawObjectView::VLine(v) => (v.col, v.row),
        DrawObjectView::Arrow(a) => (min_col(a.waypoints), min_row(a.waypoints)),
    }
}

/// The name of the object's kind.
pub open spec fn kind_name_spec(o: DrawObjectView) -> Seq<char> {
    match o {
        DrawObjectView::Rect(_) => "rect"@,
        DrawObjectView::Text(_) => "text"@,
        DrawObjectView::HLine(_) => "hline"@,
        DrawObjectView::VLine(_) => "vline"@,
        DrawObjectView::Arrow(_) => "arrow"@,
    }
}

/// "(c,r)" for a point.
pub open spec fn point_text(p: (usize, usize)) -> Seq<char> {
    "("@ + decimal(p.0 as nat) + ","@ + decimal(p.1 as nat) + ")"@
}

/// The points as text.
pub open spec fn points_text(p: Seq<(usize, usize)>) -> Seq<Seq<char>> {
    p.map_values(|q: (usize, usize)| point_text(q))
}

/// The short description of an object used in collision messages.
pub open spec fn collision_desc_spec(o: DrawObjectView) -> Seq<char> {
    match o {
        DrawObjectView::Rect(r) => "rect at ("@ + decimal(r.col as nat) + ","@ + decimal(
            r.row as nat,
        ) + ") "@ + decimal((r.width + 2) as nat) + "x"@ + decimal((r.height + 2) as nat),
        DrawObjectView::Text(t) => "text at ("@ + decimal(t.col as nat) + ","@ + decimal(
            t.row as nat,
        ) + ") w="@ + decimal(spec_str_width(t.content)),
        DrawObjectView::HLine(h) => "hline at ("@ + decimal(h.col as nat) + ","@ + decimal(
            h.row as nat,
        ) + ") len="@ + decimal(h.length as nat),
        DrawObjectView::VLine(v) => "vline at ("@ + decimal(v.col as nat) + ","@ + decimal(
            v.row as nat,
        ) + ") len="@ + decimal(v.length as nat),
        DrawObjectView::Arrow(a) => "arrow "@ + join_spec(points_text(a.waypoints), "->"@),
    }
}

/// The name of a border style.
pub open spec fn border_style_name(s: BorderStyle) -> Seq<char> {
    match s {
        BorderStyle::Light => "Light"@,
        BorderStyle::Heavy => "Heavy"@,
        BorderStyle::Double => "Double"@,
        BorderStyle::Rounded => "Rounded"@,
    }
}

/// The name of a line style.
pub open spec fn line_style_name(s: LineStyle) -> Seq<char> {
    match s {
        LineStyle::Light => "Light"@,
        LineStyle::Heavy => "Heavy"@,
        LineStyle::Double => "Double"@,
        LineStyle::Dash => "Dash"@,
    }
}

/// The one-line summary of an object used in listings.
pub open spec fn summary_spec(o: DrawObjectView) -> Seq<char> {
    match o {
        DrawObjectView::Rect(r) => {
            let content = match r.content {
                Some(c) => c,
                None => Seq::empty(),
            };
            "rect ("@ + decimal(r.col as nat) + ","@ + decimal(r.row as nat) + ") "@ + decimal(
                r.width as nat,
            ) + "x"@ + decimal(r.height as nat) + " "@ + border_style_name(r.style) + if content.len()
                == 0 {
                Seq::empty()
            } else {
                " \""@ + content + "\""@
            }
        },
        DrawObjectView::Text(t) => "text ("@ + decimal(t.col as nat) + ","@ + decimal(t.row as nat)
            + ") \""@ + t.content + "\""@,
        DrawObjectView::HLine(h) => "hline ("@ + decimal(h.col as nat) + ","@ + decimal(
            h.row as nat,
        ) + ") len="@ + decimal(h.length as nat) + " "@ + line_style_name(h.style),
        DrawObjectView::VLine(v) => "vline ("@ + decimal(v.col as nat) + ","@ + decimal(
            v.row as nat,
        ) + ") len="@ + decimal(v.length as nat) + " "@ + line_style_name(v.style),
        DrawObjectView::Arrow(a) => "arrow "@ + join_spec(points_text(a.waypoints), " -> "@),
    }
}

/// A line count is at most the text length, and so is each line's length.
pub proof fn lemma_lines_bounds(s: Seq<char>)
    ensures
        lines_spec(s).len() <= s.len(),
        forall|i: int| 0 <= i < lines_spec(s).len() ==> #[trigger] lines_spec(s)[i].len() <= s.len(),
{
    lemma_lines_state_bounds(s);
}

proof fn lemma_lines_state_bounds(s: Seq<char>)
    ensures
        lines_state(s).0.len() + lines_state(s).1.len() <= s.len(),
        forall|i: int|
            0 <= i < lines_state(s).0.len() ==> #[trigger] lines_state(s).0[i].len() <= s.len(),
    decreases s.len(),
{
    if s.len() > 0 {
        lemma_lines_state_bounds(s.drop_last());
        let (d, c) = lines_state(s.drop_last());
        if s.last() == '\n' {
            let d2 = d.push(crate::textops::strip_cr(c));
            assert forall|i: int| 0 <= i < d2.len() implies #[trigger] d2[i].len() <= s.len() by {
                if i < d.len() {
                    assert(d2[i] == d[i]);
                }
            }
        }
    }
}

/// The widest line is at most as wide as twice the longest allowed line.
proof fn lemma_max_width_bound(ls: Seq<Seq<char>>, n: nat)
    requires
        forall|i: int| 0 <= i < ls.len() ==> #[trigger] ls[i].len() <= n,
    ensures
        max_width(ls) <= 2 * n,
    decreases ls.len(),
{
    if ls.len() > 0 {
        lemma_max_width_bound(ls.drop_last(), n);
        lemma_str_width_bounds(ls.last());
    }
}

/// A text within the layout limits spans at most twice its length in columns
/// and its length (at least one) in rows.
pub proof fn lemma_text_extent_bound(s: Seq<char>)
    requires
        text_fits(s),
    ensures
        text_extent(s).0 <= 2 * COORD_LIMIT,
        1 <= text_extent(s).1 <= COORD_LIMIT + 1,
{
    lemma_lines_bounds(s);
    lemma_max_width_bound(lines_spec(s), s.len());
}

proof fn lemma_max_col_bound(p: Seq<(usize, usize)>, n: nat)
    requires
        forall|i: int| 0 <= i < p.len() ==> #[trigger] p[i].0 <= n && p[i].1 <= n,
    ensures
        max_col(p) <= n,
        max_row(p) <= n,
    decreases p.len(),
{
    if p.len() > 0 {
        let q = p.drop_last();
        assert forall|i: int| 0 <= i < q.len() implies #[trigger] q[i].0 <= n && q[i].1 <= n by {
            assert(q[i] == p[i]);
        }
        lemma_max_col_bound(q, n);
        assert(p[p.len() - 1] == p.last());
    }
}

/// An object within the layout limits ends within `4 * COORD_LIMIT + 1`
/// columns and rows.
pub proof fn lemma_bounds_limit(o: DrawObjectView)
    requires
        fits(o),
    ensures
        0 <= bounds_spec(o).0 <= 4 * COORD_LIMIT + 1,
        0 <= bounds_spec(o).1 <= 4 * COORD_LIMIT + 1,
{
    match o {
        DrawObjectView::Text(t) => {
            lemma_text_extent_bound(t.content);
        },
        DrawObjectView::Arrow(a) => {
            lemma_max_col_bound(a.waypoints, 4 * COORD_LIMIT as nat);
        },
        _ => {},
    }
}

/// Where arrows attach to an object within the layout limits lies within
/// `3 * COORD_LIMIT + 2` columns and rows.
pub proof fn lemma_anchor_limit(o: DrawObjectView, side: Side)
    requires
        fits(o),
        anchor_spec(o, side) is Some,
    ensures
        anchor_spec(o, side).unwrap().0 <= 3 * COORD_LIMIT + 2,
        anchor_spec(o, side).unwrap().1 <= 3 * COORD_LIMIT + 2,
{
    if let DrawObjectView::Text(t) = o {
        lemma_text_extent_bound(t.content);
    }
}

/// Columns and rows a text occupies.
pub fn text_extent_of(content: &str) -> (r: (usize, usize))
    requires
        text_fits(content@),
    ensures
        r.0 == text_extent(content@).0,
        r.1 == text_extent(content@).1,
        r.0 <= 2 * COORD_LIMIT,
        r.1 <= COORD_LIMIT + 1,
{
    let chars = chars_of(content);
    let ls = lines_of(chars.as_slice());
    proof {
        lemma_lines_bounds(content@);
    }
    let ghost lv = seqs_of(ls@);
    let mut m: usize = 0;
    let mut i: usize = 0;
    while i < ls.len()
        invariant
            i <= ls@.len(),
            lv == seqs_of(ls@),
            lv == lines_spec(content@),
            forall|k: int| 0 <= k < lv.len() ==> #[trigger] lv[k].len() <= content@.len(),
            content@.len() <= COORD_LIMIT,
            m == max_width(lv.take(i as int)),
            m <= 2 * COORD_LIMIT,
        decreases ls.len() - i,
    {
        assert(lv.take(i + 1).drop_last() == lv.take(i as int));
        assert(lv.take(i + 1).last() == ls@[i as int]@);
        assert(lv[i as int].len() <= content@.len());
        let w = str_width(ls[i].as_slice());
        proof {
            lemma_str_width_bounds(ls@[i as int]@);
        }
        if w > m {
            m = w;
        }
        i = i + 1;
    }
    assert(lv.take(ls@.len() as int) == lv);
    let n = ls.len();
    let count = if n > 1 { n } else { 1 };
    (m, count)
}

/// The point of a box at (x, y) of `w` columns and `h` rows where arrows attach
/// on `side`: one cell outside the box, centred on that side (clamped at 0).
pub open spec fn box_anchor(x: usize, y: usize, w: usize, h: usize, side: Side) -> (usize, usize) {
    match side {
        Side::Top => ((x + w / 2) as usize, if y >= 1 { (y - 1) as usize } else { 0 }),
        Side::Bottom => ((x + w / 2) as usize, (y + h) as usize),
        Side::Left => (if x >= 1 { (x - 1) as usize } else { 0 }, (y + h / 2) as usize),
        Side::Right => ((x + w) as usize, (y + h / 2) as usize),
    }
}

/// Arrows attach one cell outside a box, in the middle of the side: right of
/// the right edge, below the bottom edge, and (when there is room) left of
/// the left edge or above the top edge; so an arrowhead there never covers
/// the box's border.
pub proof fn law_anchor_outside(x: usize, y: usize, w: usize, h: usize, side: Side)
    requires
        w >= 1,
        h >= 1,
        x + w <= usize::MAX,
        y + h <= usize::MAX,
    ensures
        ({
            let p = box_anchor(x, y, w, h, side);
            match side {
                Side::Right => p.0 == x + w && y <= p.1 < y + h,
                Side::Bottom => p.1 == y + h && x <= p.0 < x + w,
                Side::Left => x >= 1 ==> p.0 == x - 1 && y <= p.1 < y + h,
                Side::Top => y >= 1 ==> p.1 == y - 1 && x <= p.0 < x + w,
            }
        }),
{
}

/// The attachment point of a box.
pub fn anchor_of(x: usize, y: usize, w: usize, h: usize, side: Side) -> (p: (usize, usize))
    requires
        x + w <= usize::MAX,
        y + h <= usize::MAX,
    ensures
        p == box_anchor(x, y, w, h, side),
{
    match side {
        Side::Top => (x + w / 2, y.saturating_sub(1)),
        Side::Bottom => (x + w / 2, y + h),
        Side::Left => (x.saturating_sub(1), y + h / 2),
        Side::Right => (x + w, y + h / 2),
    }
}

/// Where arrows attach to an object on `side`; `None` for arrows, which
/// cannot be endpoints.
pub open spec fn anchor_spec(o: DrawObjectView, side: Side) -> Option<(usize, usize)> {
    match o {
        DrawObjectView::Rect(r) => Some(
            box_anchor(r.col, r.row, (r.width + 2) as usize, (r.height + 2) as usize, side),
        ),
        DrawObjectView::Text(t) => Some(
            box_anchor(
                t.col,
                t.row,
                text_extent(t.content).0 as usize,
                text_extent(t.content).1 as usize,
                side,
            ),
        ),
        DrawObjectView::HLine(h) => Some(box_anchor(h.col, h.row, h.length, 1, side)),
        DrawObjectView::VLine(v) => Some(box_anchor(v.col, v.row, 1, v.length, side)),
        DrawObjectView::Arrow(_) => None,
    }
}

impl Rect {
    /// Where an arrow leaving this rect on `side` starts.
    pub fn src_anchor(&self, side: Side) -> (p: (usize, usize))
        requires
            fits(DrawObjectView::Rect(self@)),
        ensures
            Some(p) == anchor_spec(DrawObjectView::Rect(self@), side),
    {
        anchor_of(self.col, self.row, self.width + 2, self.height + 2, side)
    }

    /// Where an arrow entering this rect on `side` ends.
    pub fn dst_anchor(&self, side: Side) -> (p: (usize, usize))
        requires
            fits(DrawObjectView::Rect(self@)),
        ensures
            Some(p) == anchor_spec(DrawObjectView::Rect(self@), side),
    {
        self.src_anchor(side)
    }
}

impl Text {
    /// Where an arrow leaving this text on `side` starts.
    pub fn src_anchor(&self, side: Side) -> (p: (usize, usize))
        requires
            fits(DrawObjectView::Text(self@)),
        ensures
            Some(p) == anchor_spec(DrawObjectView::Text(self@), side),
    {
        let (w, h) = text_extent_of(self.content.as_str());
        anchor_of(self.col, self.row, w, h, side)
    }

    /// Where an arrow entering this text on `side` ends.
    pub fn dst_anchor(&self, side: Side) -> (p: (usize, usize))
        requires
            fits(DrawObjectView::Text(self@)),
        ensures
            Some(p) == anchor_spec(DrawObjectView::Text(self@), side),
    {
        self.src_anchor(side)
    }
}

impl HLine {
    /// Where an arrow leaving this line on `side` starts.
    pub fn src_anchor(&self, side: Side) -> (p: (usize, usize))
        requires
            fits(DrawObjectView::HLine(self@)),
        ensures
            Some(p) == anchor_spec(DrawObjectView::HLine(self@), side),
    {
        anchor_of(self.col, self.row, self.length, 1, side)
    }

    /// Where an arrow entering this line on `side` ends.
    pub fn dst_anchor(&self, side: Side) -> (p: (usize, usize))
        requires
            fits(DrawObjectView::HLine(self@)),
        ensures
            Some(p) == anchor_spec(DrawObjectView::HLine(self@), side),
    {
        self.src_anchor(side)
    }
}

impl VLine {
    /// Where an arrow leaving this line on `side` starts.
    pub fn src_anchor(&self, side: Side) -> (p: (usize, usize))
        requires
            fits(DrawObjectView::VLine(self@)),
        ensures
            Some(p) == anchor_spec(DrawObjectView::VLine(self@), side),
    {
        anchor_of(self.col, self.row, 1, self.length, side)
    }

    /// Where an arrow entering this line on `side` ends.
    pub fn dst_anchor(&self, side: Side) -> (p: (usize, usize))
        requires
            fits(DrawObjectView::VLine(self@)),
        ensures
            Some(p) == anchor_spec(DrawObjectView::VLine(self@), side),
    {
        self.src_anchor(side)
    }
}

/// Whether a text is within the layout limits.
fn text_within(s: &String) -> (b: bool)
    ensures
        b == text_fits(s@),
{
    chars_of(s.as_str()).len() <= COORD_LIMIT
}

/// Whether an optional legend is within the layout limits.
fn legend_within(l: &Option<Legend>) -> (b: bool)
    ensures
        b == legend_fits(opt_legend_view(*l)),
{
    match l {
        Some(x) => text_within(&x.text),
        None => true,
    }
}

impl DrawObject {
    /// Whether the object is within the layout limits that drawing assumes.
    pub fn within_limits(&self) -> (b: bool)
        ensures
            b == fits(self@),
    {
        match self {
            DrawObject::Rect(r) => r.col <= COORD_LIMIT && r.row <= COORD_LIMIT && r.width <= COORD_LIMIT
                && r.height <= COORD_LIMIT && match &r.content {
                Some(c) => text_within(c),
                None => true,
            } && legend_within(&r.legend),
            DrawObject::Text(t) => t.col <= COORD_LIMIT && t.row <= COORD_LIMIT && text_within(&t.content),
            DrawObject::HLine(h) => h.col <= COORD_LIMIT && h.row <= COORD_LIMIT && h.length <= COORD_LIMIT
                && legend_within(&h.legend),
            DrawObject::VLine(v) => v.col <= COORD_LIMIT && v.row <= COORD_LIMIT && v.length <= COORD_LIMIT
                && legend_within(&v.legend),
            DrawObject::Arrow(a) => {
                let mut i: usize = 0;
                while i < a.waypoints.len()
                    invariant
                        i <= a.waypoints@.len(),
                        self@ == DrawObjectView::Arrow(a@),
                        forall|k: int| 0 <= k < i ==> #[trigger] a.waypoints@[k].0 <= 4 * COORD_LIMIT
                            && a.waypoints@[k].1 <= 4 * COORD_LIMIT,
                    decreases a.waypoints.len() - i,
                {
                    let (c, r) = a.waypoints[i];
                    if c > 4 * COORD_LIMIT || r > 4 * COORD_LIMIT {
                        assert(a@.waypoints[i as int] == (c, r));
                        assert(!fits(self@)) by {
                            if fits(self@) {
                                assert(0 <= i < a@.waypoints.len());
                                assert(a@.waypoints[i as int].0 <= 4 * COORD_LIMIT && a@.waypoints[i as int].1
                                    <= 4 * COORD_LIMIT);
                            }
                        }
                        return false;
                    }
                    i = i + 1;
                }
                let ok = legend_within(&a.legend);
                assert(ok == fits(self@)) by {
                    assert forall|k: int| 0 <= k < a@.waypoints.len() implies #[trigger] a@.waypoints[k].0
                        <= 4 * COORD_LIMIT && a@.waypoints[k].1 <= 4 * COORD_LIMIT by {
                        assert(a@.waypoints[k] == a.waypoints@[k]);
                    }
                }
                ok
            },
        }
    }
}

/// A copy of an optional string.
pub fn copy_opt_string(o: &Option<String>) -> (r: Option<String>)
    ensures
        opt_str_view(r) == opt_str_view(*o),
{
    match o {
        Some(s) => Some(s.clone()),
        None => None,
    }
}

impl Legend {
    /// A copy of this legend.
    pub fn duplicate(&self) -> (r: Legend)
        ensures
            r@ == self@,
    {
        Legend { text: self.text.clone(), pos: self.pos, overflow: self.overflow, align: self.align }
    }
}

/// A copy of an optional legend.
pub fn copy_opt_legend(o: &Option<Legend>) -> (r: Option<Legend>)
    ensures
        opt_legend_view(r) == opt_legend_view(*o),
{
    match o {
        Some(l) => Some(l.duplicate()),
        None => None,
    }
}

/// A copy of a list of points.
pub fn copy_points(p: &Vec<(usize, usize)>) -> (r: Vec<(usize, usize)>)
    ensures
        r@ == p@,
{
    let mut r: Vec<(usize, usize)> = Vec::new();
    let mut i: usize = 0;
    while i < p.len()
        invariant
            i <= p@.len(),
            r@ == p@.take(i as int),
        decreases p.len() - i,
    {
        r.push(p[i]);
        i = i + 1;
    }
    assert(p@.take(p@.len() as int) == p@);
    r
}

impl DrawObject {
    /// A copy of this object.
    pub fn duplicate(&self) -> (r: DrawObject)
        ensures
            r@ == self@,
    {
        match self {
            DrawObject::Rect(x) => DrawObject::Rect(
                Rect {
                    col: x.col,
                    row: x.row,
                    width: x.width,
                    height: x.height,
                    content: copy_opt_string(&x.content),
                    style: x.style,
                    content_overflow: x.content_overflow,
                    content_align: x.content_align,
                    id: copy_opt_string(&x.id),
                    legend: copy_opt_legend(&x.legend),
                },
            ),
            DrawObject::Text(x) => DrawObject::Text(
                Text { col: x.col, row: x.row, content: x.content.clone(), id: copy_opt_string(&x.id) },
            ),
            DrawObject::HLine(x) => DrawObject::HLine(
                HLine {
                    col: x.col,
                    row: x.row,
                    length: x.length,
                    style: x.style,
                    id: copy_opt_string(&x.id),
                    legend: copy_opt_legend(&x.legend),
                },
            ),
            DrawObject::VLine(x) => DrawObject::VLine(
                VLine {
                    col: x.col,
                    row: x.row,
                    length: x.length,
                    style: x.style,
                    id: copy_opt_string(&x.id),
                    legend: copy_opt_legend(&x.legend),
                },
            ),
            DrawObject::Arrow(x) => DrawObject::Arrow(
                ResolvedArrow {
                    waypoints: copy_points(&x.waypoints),
                    head: x.head,
                    both: x.both,
                    legend: copy_opt_legend(&x.legend),
                },
            ),
        }
    }

    /// Returns (max_col_exclusive, max_row_exclusive) — the minimum canvas size to contain this object.
    pub fn bounds(&self) -> (b: (usize, usize))
        requires
            fits(self@),
        ensures
            b.0 == bounds_spec(self@).0,
            b.1 == bounds_spec(self@).1,
    {
        match self {
            DrawObject::Rect(r) => (r.col + r.outer_width(), r.row + r.outer_height()),
            DrawObject::Text(t) => {
                let (w, h) = text_extent_of(t.content.as_str());
                (t.col + w, t.row + h)
            },
            DrawObject::HLine(h) => (h.col + h.length, h.row + 1),
            DrawObject::VLine(v) => (v.col + 1, v.row + v.length),
            DrawObject::Arrow(a) => {
                let mut mc: usize = 0;
                let mut mr: usize = 0;
                let mut i: usize = 0;
                assert forall|k: int| 0 <= k < a.waypoints@.len() implies #[trigger] a.waypoints@[k].0
                    <= 4 * COORD_LIMIT && a.waypoints@[k].1 <= 4 * COORD_LIMIT by {
                    assert(a@.waypoints[k] == a.waypoints@[k]);
                }
                while i < a.waypoints.len()
                    invariant
                        i <= a.waypoints@.len(),
                        forall|k: int|
                            0 <= k < a.waypoints@.len() ==> #[trigger] a.waypoints@[k].0 <= 4
                                * COORD_LIMIT && a.waypoints@[k].1 <= 4 * COORD_LIMIT,
                        mc == max_col(a.waypoints@.take(i as int)),
                        mr == max_row(a.waypoints@.take(i as int)),
                        mc <= 4 * COORD_LIMIT,
                        mr <= 4 * COORD_LIMIT,
                    decreases a.waypoints.len() - i,
                {
                    let ghost t = a.waypoints@.take(i + 1);
                    assert(t.drop_last() == a.waypoints@.take(i as int));
                    let (c, r) = a.waypoints[i];
                    assert(t.last() == (c, r));
                    assert(a.waypoints@[i as int].0 <= 4 * COORD_LIMIT);
                    assert(a.waypoints@[i as int].1 <= 4 * COORD_LIMIT);
                    if c > mc {
                        mc = c;
                    }
                    if r > mr {
                        mr = r;
                    }
                    i = i + 1;
                }
                assert(a.waypoints@.take(a.waypoints@.len() as int) == a.waypoints@);
                (mc + 1, mr + 1)
            },
        }
    }

    /// Returns (col, row) for sorting: top-left position of the object.
    pub fn position(&self) -> (p: (usize, usize))
        ensures
            p == position_spec(self@),
    {
        match self {
            DrawObject::Rect(r) => (r.col, r.row),
            DrawObject::Text(t) => (t.col, t.row),
            DrawObject::HLine(h) => (h.col, h.row),
            DrawObject::VLine(v) => (v.col, v.row),
            DrawObject::Arrow(a) => {
                let mut mc: usize = usize::MAX;
                let mut mr: usize = usize::MAX;
                let mut i: usize = 0;
                while i < a.waypoints.len()
                    invariant
                        i <= a.waypoints@.len(),
                        mc == min_col(a.waypoints@.take(i as int)),
                        mr == min_row(a.waypoints@.take(i as int)),
                    decreases a.waypoints.len() - i,
                {
                    let ghost t = a.waypoints@.take(i + 1);
                    assert(t.drop_last() == a.waypoints@.take(i as int));
                    let (c, r) = a.waypoints[i];
                    assert(t.last() == (c, r));
                    if c < mc {
                        mc = c;
                    }
                    if r < mr {
                        mr = r;
                    }
                    i = i + 1;
                }
                assert(a.waypoints@.take(a.waypoints@.len() as int) == a.waypoints@);
                (mc, mr)
            },
        }
    }

    /// Returns a display name for the object type.
    pub fn kind_name(&self) -> (n: &'static str)
        ensures
            n@ == kind_name_spec(self@),
    {
        match self {
            DrawObject::Rect(_) => "rect",
            DrawObject::Text(_) => "text",
            DrawObject::HLine(_) => "hline",
            DrawObject::VLine(_) => "vline",
            DrawObject::Arrow(_) => "arrow",
        }
    }

    /// Short description for collision error messages.
    pub fn collision_desc(&self) -> (s: String)
        requires
            fits(self@),
        ensures
            s@ == collision_desc_spec(self@),
    {
        let mut v: Vec<char> = Vec::new();
        match self {
            DrawObject::Rect(r) => {
                push_str(&mut v, "rect at (");
                push_decimal(&mut v, r.col);
                push_str(&mut v, ",");
                push_decimal(&mut v, r.row);
                push_str(&mut v, ") ");
                push_decimal(&mut v, r.outer_width());
                push_str(&mut v, "x");
                push_decimal(&mut v, r.outer_height());
            },
            DrawObject::Text(t) => {
                push_str(&mut v, "text at (");
                push_decimal(&mut v, t.col);
                push_str(&mut v, ",");
                push_decimal(&mut v, t.row);
                push_str(&mut v, ") w=");
                let c = chars_of(t.content.as_str());
                push_decimal(&mut v, str_width(c.as_slice()));
            },
            DrawObject::HLine(h) => {
                push_str(&mut v, "hline at (");
                push_decimal(&mut v, h.col);
                push_str(&mut v, ",");
                push_decimal(&mut v, h.row);
                push_str(&mut v, ") len=");
                push_decimal(&mut v, h.length);
            },
            DrawObject::VLine(l) => {
                push_str(&mut v, "vline at (");
                push_decimal(&mut v, l.col);
                push_str(&mut v, ",");
                push_decimal(&mut v, l.row);
                push_str(&mut v, ") len=");
                push_decimal(&mut v, l.length);
            },
            DrawObject::Arrow(a) => {
                push_str(&mut v, "arrow ");
                let pts = points_to_text(&a.waypoints);
                let sep = chars_of("->");
                let joined = join(&pts, sep.as_slice());
                push_all(&mut v, joined.as_slice());
            },
        }
        assert(v@ == Seq::<char>::empty() + collision_desc_spec(self@));
        string_from_chars(v.as_slice())
    }

    /// Returns a summary string for list display.
    pub fn summary(&self) -> (s: String)
        ensures
            s@ == summary_spec(self@),
    {
        let mut v: Vec<char> = Vec::new();
        match self {
            DrawObject::Rect(r) => {
                push_str(&mut v, "rect (");
                push_decimal(&mut v, r.col);
                push_str(&mut v, ",");
                push_decimal(&mut v, r.row);
                push_str(&mut v, ") ");
                push_decimal(&mut v, r.width);
                push_str(&mut v, "x");
                push_decimal(&mut v, r.height);
                push_str(&mut v, " ");
                push_str(&mut v, border_style_str(r.style));
                let ghost before = v@;
                match &r.content {
                    Some(c) => {
                        let cv = chars_of(c.as_str());
                        if cv.len() > 0 {
                            push_str(&mut v, " \"");
                            push_all(&mut v, cv.as_slice());
                            push_str(&mut v, "\"");
                        } else {
                            assert(v@ == before + Seq::<char>::empty());
                        }
                    },
                    None => {
                        assert(v@ == before + Seq::<char>::empty());
                    },
                }
            },
            DrawObject::Text(t) => {
                push_str(&mut v, "text (");
                push_decimal(&mut v, t.col);
                push_str(&mut v, ",");
                push_decimal(&mut v, t.row);
                push_str(&mut v, ") \"");
                push_str(&mut v, t.content.as_str());
                push_str(&mut v, "\"");
            },
            DrawObject::HLine(h) => {
                push_str(&mut v, "hline (");
                push_decimal(&mut v, h.col);
                push_str(&mut v, ",");
                push_decimal(&mut v, h.row);
                push_str(&mut v, ") len=");
                push_decimal(&mut v, h.length);
                push_str(&mut v, " ");
                push_str(&mut v, line_style_str(h.style));
            },
            DrawObject::VLine(l) => {
                push_str(&mut v, "vline (");
                push_decimal(&mut v, l.col);
                push_str(&mut v, ",");
                push_decimal(&mut v, l.row);
                push_str(&mut v, ") len=");
                push_decimal(&mut v, l.length);
                push_str(&mut v, " ");
                push_str(&mut v, line_style_str(l.style));
            },
            DrawObject::Arrow(a) => {
                push_str(&mut v, "arrow ");
                let pts = points_to_text(&a.waypoints);
                let sep = chars_of(" -> ");
                let joined = join(&pts, sep.as_slice());
                push_all(&mut v, joined.as_slice());
            },
        }
        assert(v@ == Seq::<char>::empty() + summary_spec(self@));
        string_from_chars(v.as_slice())
    }
}

/// The name of a border style.
pub fn border_style_str(s: BorderStyle) -> (n: &'static str)
    ensures
        n@ == border_style_name(s),
{
    match s {
        BorderStyle::Light => "Light",
        BorderStyle::Heavy => "Heavy",
        BorderStyle::Double => "Double",
        BorderStyle::Rounded => "Rounded",
    }
}

/// The name of a line style.
pub fn line_style_str(s: LineStyle) -> (n: &'static str)
    ensures
        n@ == line_style_name(s),
{
    match s {
        LineStyle::Light => "Light",
        LineStyle::Heavy => "Heavy",
        LineStyle::Double => "Double",
        LineStyle::Dash => "Dash",
    }
}

/// Each point as "(c,r)".
fn points_to_text(p: &Vec<(usize, usize)>) -> (r: Vec<Vec<char>>)
    ensures
        seqs_of(r@) == points_text(p@),
{
    let mut r: Vec<Vec<char>> = Vec::new();
    let mut i: usize = 0;
    while i < p.len()
        invariant
            i <= p@.len(),
            seqs_of(r@) == points_text(p@.take(i as int)),
        decreases p.len() - i,
    {
        let (c, w) = p[i];
        let mut t: Vec<char> = Vec::new();
        push_str(&mut t, "(");
        push_decimal(&mut t, c);
        push_str(&mut t, ",");
        push_decimal(&mut t, w);
        push_str(&mut t, ")");
        assert(t@ == point_text(p@[i as int]));
        let ghost before = r@;
        r.push(t);
        assert(seqs_of(r@) =~= points_text(p@.take(i + 1))) by {
            assert(seqs_of(r@) =~= seqs_of(before).push(t@));
            assert(points_text(p@.take(i + 1)) =~= points_text(p@.take(i as int)).push(point_text(p@[i as int])));
        }
        i = i + 1;
    }
    assert(p@.take(p@.len() as int) == p@);
    r
}

} // verus!
