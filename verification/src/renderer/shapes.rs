//! What each kind of object draws, as steps on the canvas.
use vstd::prelude::*;

use crate::canvas::grid::{ops_view, str_steps, DrawOp, DrawStep};
use crate::error::{ErrorView, UnidError};
use crate::object::arrow::{
    corner_char, corner_spec, default_arrowhead, family_head, resolve_arrowhead,
    resolve_head_spec, segment_dir, segment_dir_spec,
};
use crate::object::{
    lemma_lines_bounds, ArrowView, BorderStyle, ContentAlign, ContentOverflow, Dir,
    DrawObjectView, HLine, LegendPos, LineStyle, LineView, Rect, RectView, ResolvedArrow, Text,
    TextView, VLine, COORD_LIMIT, fits, text_fits,
};
use crate::renderer::layout::{
    hrun, lines_steps, push_hrun, push_lines, push_op, push_put, push_text, put, vrun, push_vrun,
};
use crate::renderer::truncate::{
    ellipsis_spec, ellipsis_truncate_chars, hidden_spec, hidden_truncate_chars,
    lemma_trunc_prefix_width, lemma_trunc_suffix_width,
};
use crate::textops::{chars_of, lines_of, lines_spec, seqs_of, string_from_chars};
use crate::width::{lemma_str_width_bounds, spec_str_width, str_width};

verus! {

/// The corner and edge glyphs of a border style: top-left, top-right,
/// bottom-left, bottom-right, horizontal, vertical.
pub open spec fn border_chars_spec(style: BorderStyle) -> (char, char, char, char, char, char) {
    match style {
        BorderStyle::Light => ('┌', '┐', '└', '┘', '─', '│'),
        BorderStyle::Heavy => ('┏', '┓', '┗', '┛', '━', '┃'),
        BorderStyle::Double => ('╔', '╗', '╚', '╝', '═', '║'),
        BorderStyle::Rounded => ('╭', '╮', '╰', '╯', '─', '│'),
    }
}

/// The corner and edge glyphs of a border style.
pub fn border_chars(style: BorderStyle) -> (r: (char, char, char, char, char, char))
    ensures
        r == border_chars_spec(style),
{
    match style {
        BorderStyle::Light => ('┌', '┐', '└', '┘', '─', '│'),
        BorderStyle::Heavy => ('┏', '┓', '┗', '┛', '━', '┃'),
        BorderStyle::Double => ('╔', '╗', '╚', '╝', '═', '║'),
        BorderStyle::Rounded => ('╭', '╮', '╰', '╯', '─', '│'),
    }
}

/// The glyph of a horizontal line.
pub open spec fn hline_char_spec(style: LineStyle) -> char {
    match style {
        LineStyle::Light => '─',
        LineStyle::Heavy => '━',
        LineStyle::Double => '═',
        LineStyle::Dash => '╌',
    }
}

/// The glyph of a vertical line.
pub open spec fn vline_char_spec(style: LineStyle) -> char {
    match style {
        LineStyle::Light => '│',
        LineStyle::Heavy => '┃',
        LineStyle::Double => '║',
        LineStyle::Dash => '╎',
    }
}

/// The glyph of a horizontal line.
pub fn hline_char(style: LineStyle) -> (c: char)
    ensures
        c == hline_char_spec(style),
{
    match style {
        LineStyle::Light => '─',
        LineStyle::Heavy => '━',
        LineStyle::Double => '═',
        LineStyle::Dash => '╌',
    }
}

/// The glyph of a vertical line.
pub fn vline_char(style: LineStyle) -> (c: char)
    ensures
        c == vline_char_spec(style),
{
    match style {
        LineStyle::Light => '│',
        LineStyle::Heavy => '┃',
        LineStyle::Double => '║',
        LineStyle::Dash => '╎',
    }
}

/// `a - b`, or 0 when `b > a`.
pub open spec fn sat_sub(a: int, b: int) -> int {
    if a >= b {
        a - b
    } else {
        0
    }
}

/// The two side borders of the rows 1..=n below `row`.
pub open spec fn side_pairs(c: int, row: int, w: int, n: nat, v: char, coll: bool) -> Seq<DrawStep>
    decreases n,
{
    if n == 0 {
        Seq::empty()
    } else {
        side_pairs(c, row, w, (n - 1) as nat, v, coll) + seq![
            put(c, row + n, v, coll),
            put(c + w + 1, row + n, v, coll),
        ]
    }
}

/// The border of a rectangle: the top edge left to right, the side edges
/// row by row, then the bottom edge left to right.
pub open spec fn rect_structure_steps(r: RectView, coll: bool) -> Seq<DrawStep> {
    let (tl, tr, bl, br, h, v) = border_chars_spec(r.style);
    let c = r.col as int;
    let row = r.row as int;
    let w = r.width as int;
    let ht = r.height as int;
    seq![put(c, row, tl, coll)] + hrun(c + 1, row, r.width as nat, h, coll) + seq![
        put(c + w + 1, row, tr, coll),
    ] + side_pairs(c, row, w, r.height as nat, v, coll) + seq![put(c, row + ht + 1, bl, coll)]
        + hrun(c + 1, row + ht + 1, r.width as nat, h, coll) + seq![
        put(c + w + 1, row + ht + 1, br, coll),
    ]
}

/// A line of content as shown in `inner_w` columns: unchanged when it fits
/// or overflow is allowed, else fitted by the overflow mode.
pub open spec fn display_spec(
    line: Seq<char>,
    inner_w: usize,
    overflow: ContentOverflow,
    align: ContentAlign,
) -> Seq<char> {
    let cw = spec_str_width(line);
    if cw <= inner_w {
        line
    } else {
        match overflow {
            ContentOverflow::Ellipsis => ellipsis_spec(line, cw as int, inner_w as int, align),
            ContentOverflow::Hidden => hidden_spec(line, inner_w as int, align),
            _ => line,
        }
    }
}

/// The column where a displayed line of width `dw` starts, for a rectangle
/// whose left border is at `col`. Left-aligned text starts right after the
/// border. Right-aligned text ends at the last inner column, so a line wider
/// than the inside reaches out on the left. Centred text leaves equal room on
/// both sides, and a line wider than the inside reaches out on both sides
/// (one column more on the right when the excess is odd). A line never
/// starts left of the canvas: it then starts at column 0.
pub open spec fn line_start(col: int, inner_w: int, dw: int, align: ContentAlign) -> int {
    let s = match align {
        ContentAlign::Left => col + 1,
        ContentAlign::Center => if dw <= inner_w {
            col + 1 + (inner_w - dw) / 2
        } else {
            col + 1 - (dw - inner_w) / 2
        },
        ContentAlign::Right => col + 1 + inner_w - dw,
    };
    if s < 0 {
        0
    } else {
        s
    }
}

/// One line of rectangle content on row `r`: an overflow error when it does
/// not fit and the mode is `Error`, else the displayed text aligned inside
/// the borders (never checked for collisions).
pub open spec fn content_line_steps(
    col: int,
    r: int,
    line: Seq<char>,
    inner_w: usize,
    overflow: ContentOverflow,
    align: ContentAlign,
) -> Seq<DrawStep> {
    let cw = spec_str_width(line);
    if cw > inner_w && overflow == ContentOverflow::Error {
        seq![
            DrawStep::Fail(
                ErrorView::LabelOverflow {
                    label: line,
                    label_width: cw as usize,
                    inner_width: inner_w,
                },
            ),
        ]
    } else {
        let d = display_spec(line, inner_w, overflow, align);
        str_steps(line_start(col, inner_w as int, spec_str_width(d) as int, align), r, d, false)
    }
}

/// The first `k` content lines, on consecutive rows from `start`.
pub open spec fn content_lines_steps(
    col: int,
    start: int,
    ls: Seq<Seq<char>>,
    k: nat,
    inner_w: usize,
    overflow: ContentOverflow,
    align: ContentAlign,
) -> Seq<DrawStep>
    decreases k,
{
    if k == 0 {
        Seq::empty()
    } else {
        content_lines_steps(col, start, ls, (k - 1) as nat, inner_w, overflow, align)
            + content_line_steps(col, start + k - 1, ls[k - 1], inner_w, overflow, align)
    }
}

/// The first row of rectangle content: centred vertically when the lines
/// fit, else the first inner row.
pub open spec fn content_start(r: RectView, n: nat) -> int {
    if n <= r.height {
        r.row + 1 + (r.height - n) / 2
    } else {
        r.row + 1
    }
}

/// How many content lines are drawn: those whose row is inside the borders.
pub open spec fn content_count(r: RectView, n: nat) -> nat {
    let room = r.row + r.height + 1 - content_start(r, n);
    if n <= room {
        n
    } else {
        room as nat
    }
}

/// The content of a rectangle, then its legend (above it, or below it for
/// a bottom legend), drawn without collision checks.
pub open spec fn rect_content_steps(r: RectView) -> Seq<DrawStep> {
    let content = match r.content {
        Some(c) => {
            let ls = lines_spec(c);
            content_lines_steps(
                r.col as int,
                content_start(r, ls.len()),
                ls,
                content_count(r, ls.len()),
                r.width,
                r.content_overflow,
                r.content_align,
            )
        },
        None => Seq::empty(),
    };
    let legend = match r.legend {
        Some(l) => {
            let lr = match l.pos {
                LegendPos::Bottom => r.row + r.height + 2,
                _ => sat_sub(r.row as int, 1),
            };
            lines_steps(r.col as int, lr, lines_spec(l.text), false)
        },
        None => Seq::empty(),
    };
    content + legend
}

/// Every step of writing a text is a placement on its row.
proof fn lemma_str_steps_row(c: int, r: int, s: Seq<char>, coll: bool)
    ensures
        forall|i: int|
            0 <= i < str_steps(c, r, s, coll).len() ==> (#[trigger] str_steps(c, r, s, coll)[i]) is Put && str_steps(c, r, s, coll)[i]->Put_0.1
                == r,
    decreases s.len(),
{
    if s.len() > 0 {
        lemma_str_steps_row(c, r, s.drop_last(), coll);
        let a = str_steps(c, r, s.drop_last(), coll);
        assert forall|i: int| 0 <= i < str_steps(c, r, s, coll).len() implies (#[trigger] str_steps(
            c,
            r,
            s,
            coll,
        )[i]) is Put && str_steps(c, r, s, coll)[i]->Put_0.1 == r by {
            if i < a.len() {
                assert(str_steps(c, r, s, coll)[i] == a[i]);
            }
        }
    }
}

/// Every step of writing lines from row `r` is a placement on one of the
/// rows `r .. r + ls.len()`.
proof fn lemma_lines_steps_rows(c: int, r: int, ls: Seq<Seq<char>>, coll: bool)
    ensures
        forall|i: int|
            0 <= i < lines_steps(c, r, ls, coll).len() ==> (#[trigger] lines_steps(c, r, ls, coll)[i]) is Put && r <= lines_steps(c, r, ls, coll)[i]->Put_0.1
                < r + ls.len(),
    decreases ls.len(),
{
    if ls.len() > 0 {
        lemma_lines_steps_rows(c, r, ls.drop_last(), coll);
        let a = lines_steps(c, r, ls.drop_last(), coll);
        let b = str_steps(c, r + ls.len() - 1, ls.last(), coll);
        lemma_str_steps_row(c, r + ls.len() - 1, ls.last(), coll);
        assert forall|i: int| 0 <= i < lines_steps(c, r, ls, coll).len() implies (#[trigger] lines_steps(
            c,
            r,
            ls,
            coll,
        )[i]) is Put && r <= lines_steps(c, r, ls, coll)[i]->Put_0.1 < r + ls.len() by {
            if i < a.len() {
                assert(lines_steps(c, r, ls, coll)[i] == a[i]);
            } else {
                assert(lines_steps(c, r, ls, coll)[i] == b[i - a.len()]);
            }
        }
    }
}

/// A rectangle's legend never overwrites the rectangle: a bottom legend is
/// written on the rows below the bottom border, starting on the row right
/// after it, one row per legend line; a one-line top legend on the row
/// right above the top border, when there is one.
pub proof fn law_rect_legend_outside(r: RectView)
    requires
        r.content is None,
        r.legend is Some,
    ensures
        ({
            let steps = rect_content_steps(r);
            let l = r.legend->Some_0;
            &&& l.pos == LegendPos::Bottom ==> forall|i: int|
                0 <= i < steps.len() ==> (#[trigger] steps[i]) is Put && r.row + r.height + 2 <= steps[i]->Put_0.1
                    < r.row + r.height + 2 + lines_spec(l.text).len()
            &&& (l.pos != LegendPos::Bottom && r.row >= 1 && lines_spec(l.text).len() <= 1) ==> forall|i: int|
                0 <= i < steps.len() ==> (#[trigger] steps[i]) is Put && steps[i]->Put_0.1 == r.row - 1
        }),
{
    let l = r.legend->Some_0;
    let lr = match l.pos {
        LegendPos::Bottom => r.row + r.height + 2,
        _ => sat_sub(r.row as int, 1),
    };
    let ls = lines_spec(l.text);
    lemma_lines_steps_rows(r.col as int, lr, ls, false);
    assert(rect_content_steps(r) == Seq::<DrawStep>::empty() + lines_steps(r.col as int, lr, ls, false));
    assert(Seq::<DrawStep>::empty() + lines_steps(r.col as int, lr, ls, false) == lines_steps(
        r.col as int,
        lr,
        ls,
        false,
    ));
}

/// Appending one element is concatenating a one-element sequence.
pub proof fn lemma_push_add<A>(s: Seq<A>, x: A)
    ensures
        s.push(x) == s + seq![x],
{
    assert(s.push(x) =~= s + seq![x]);
}

/// The sides of rows 1..=n.
fn push_side_pairs(ops: &mut Vec<DrawOp>, c: usize, row: usize, w: usize, n: usize, v: char, coll: bool)
    requires
        c + w + 1 <= usize::MAX,
        row + n <= usize::MAX,
    ensures
        ops_view(final(ops)@) == ops_view(old(ops)@) + side_pairs(
            c as int,
            row as int,
            w as int,
            n as nat,
            v,
            coll,
        ),
{
    let ghost base = ops_view(ops@);
    let mut k: usize = 0;
    assert(base + side_pairs(c as int, row as int, w as int, 0, v, coll) == base);
    while k < n
        invariant
            k <= n,
            c + w + 1 <= usize::MAX,
            row + n <= usize::MAX,
            ops_view(ops@) == base + side_pairs(c as int, row as int, w as int, k as nat, v, coll),
        decreases n - k,
    {
        let ghost before = ops_view(ops@);
        push_put(ops, c, row + k + 1, v, coll);
        push_put(ops, c + w + 1, row + k + 1, v, coll);
        k = k + 1;
        assert(ops_view(ops@) == before + seq![
            put(c as int, row + k, v, coll),
            put(c + w + 1, row + k, v, coll),
        ]);
        assert(base + side_pairs(c as int, row as int, w as int, k as nat, v, coll) == before
            + seq![put(c as int, row + k, v, coll), put(c + w + 1, row + k, v, coll)]);
    }
}

/// The steps of a rectangle's border.
pub fn rect_structure_ops(r: &Rect, coll: bool) -> (ops: Vec<DrawOp>)
    requires
        fits(DrawObjectView::Rect(r@)),
    ensures
        ops_view(ops@) == rect_structure_steps(r@, coll),
{
    let (tl, tr, bl, br, h, v) = border_chars(r.style);
    let c = r.col;
    let row = r.row;
    let w = r.width;
    let ht = r.height;
    let mut ops: Vec<DrawOp> = Vec::new();
    let ghost e = Seq::<DrawStep>::empty();
    push_put(&mut ops, c, row, tl, coll);
    let ghost s1 = ops_view(ops@);
    push_hrun(&mut ops, c + 1, row, w, h, coll);
    let ghost s2 = ops_view(ops@);
    push_put(&mut ops, c + w + 1, row, tr, coll);
    let ghost s3 = ops_view(ops@);
    push_side_pairs(&mut ops, c, row, w, ht, v, coll);
    let ghost s4 = ops_view(ops@);
    push_put(&mut ops, c, row + ht + 1, bl, coll);
    let ghost s5 = ops_view(ops@);
    push_hrun(&mut ops, c + 1, row + ht + 1, w, h, coll);
    let ghost s6 = ops_view(ops@);
    push_put(&mut ops, c + w + 1, row + ht + 1, br, coll);
    proof {
        assert(s1 == seq![put(c as int, row as int, tl, coll)]);
        lemma_push_add(s2, put(c + w + 1, row as int, tr, coll));
        lemma_push_add(s4, put(c as int, row + ht + 1, bl, coll));
        lemma_push_add(s6, put(c + w + 1, row + ht + 1, br, coll));
    }
    ops
}

/// Appends the steps of one line of rectangle content.
fn push_content_line(
    ops: &mut Vec<DrawOp>,
    col: usize,
    r: usize,
    line: &[char],
    inner_w: usize,
    overflow: ContentOverflow,
    align: ContentAlign,
)
    requires
        col <= COORD_LIMIT,
        inner_w <= COORD_LIMIT,
        line@.len() <= COORD_LIMIT,
    ensures
        ops_view(final(ops)@) == ops_view(old(ops)@) + content_line_steps(
            col as int,
            r as int,
            line@,
            inner_w,
            overflow,
            align,
        ),
{
    proof {
        lemma_str_width_bounds(line@);
    }
    let cw = str_width(line);
    if cw > inner_w && overflow == ContentOverflow::Error {
        let ghost before = ops_view(ops@);
        let label = string_from_chars(line);
        push_op(
            ops,
            DrawOp::Fail(UnidError::LabelOverflow { label, label_width: cw, inner_width: inner_w }),
        );
        proof {
            lemma_push_add(before, ops_view(ops@).last());
        }
        return;
    }
    let display: Vec<char> = if cw <= inner_w {
        crate::textops::copy_range(line, 0, line.len())
    } else {
        match overflow {
            ContentOverflow::Ellipsis => {
                proof {
                    if inner_w >= 3 {
                        match align {
                            ContentAlign::Right => lemma_trunc_suffix_width(line@, inner_w - 3, inner_w - 3),
                            _ => lemma_trunc_prefix_width(line@, inner_w - 3, inner_w - 3),
                        }
                    }
                }
                ellipsis_truncate_chars(line, cw, inner_w, align)
            },
            ContentOverflow::Hidden => hidden_truncate_chars(line, inner_w, align),
            _ => crate::textops::copy_range(line, 0, line.len()),
        }
    };
    assert(line@.subrange(0, line@.len() as int) == line@);
    assert(display@ == display_spec(line@, inner_w, overflow, align));
    proof {
        display_bounds(line@, inner_w, overflow, align);
        lemma_str_width_bounds(display@);
    }
    let dw = str_width(display.as_slice());
    let start: usize = if inner_w >= dw {
        match align {
            ContentAlign::Left => col + 1,
            ContentAlign::Center => col + 1 + (inner_w - dw) / 2,
            ContentAlign::Right => col + 1 + (inner_w - dw),
        }
    } else {
        let excess = dw - inner_w;
        let back: usize = match align {
            ContentAlign::Left => 0,
            ContentAlign::Center => excess / 2,
            ContentAlign::Right => excess,
        };
        if col + 1 >= back {
            col + 1 - back
        } else {
            0
        }
    };
    push_text(ops, start, r, display.as_slice(), false);
}

/// The displayed text is no longer than the line, or at most as wide as
/// the inner width plus a little.
proof fn display_bounds(line: Seq<char>, inner_w: usize, overflow: ContentOverflow, align: ContentAlign)
    requires
        line.len() <= COORD_LIMIT,
        inner_w <= COORD_LIMIT,
    ensures
        display_spec(line, inner_w, overflow, align).len() <= 2 * COORD_LIMIT + 8,
{
    lemma_str_width_bounds(line);
    let cw = spec_str_width(line);
    if cw > inner_w {
        match overflow {
            ContentOverflow::Ellipsis => {
                crate::renderer::truncate::lemma_ellipsis_len(line, cw as int, inner_w as int, align);
            },
            ContentOverflow::Hidden => {
                crate::renderer::truncate::lemma_hidden_width(line, inner_w as int, align);
                lemma_str_width_bounds(hidden_spec(line, inner_w as int, align));
            },
            _ => {},
        }
    }
}

/// Lines of a text that fits the limits, with their bounds.
fn text_lines(text: &String) -> (ls: Vec<Vec<char>>)
    requires
        text_fits(text@),
    ensures
        seqs_of(ls@) == lines_spec(text@),
        ls@.len() <= COORD_LIMIT,
        forall|i: int| 0 <= i < ls@.len() ==> (#[trigger] ls@[i])@.len() <= COORD_LIMIT,
        forall|i: int| 0 <= i < ls@.len() ==> spec_str_width((#[trigger] ls@[i])@) <= 2 * COORD_LIMIT,
{
    let c = chars_of(text.as_str());
    let ls = lines_of(c.as_slice());
    proof {
        lemma_lines_bounds(text@);
        assert forall|i: int| 0 <= i < ls@.len() implies spec_str_width((#[trigger] ls@[i])@) <= 2
            * COORD_LIMIT by {
            assert(seqs_of(ls@)[i] == ls@[i]@);
            lemma_str_width_bounds(ls@[i]@);
        }
        assert forall|i: int| 0 <= i < ls@.len() implies (#[trigger] ls@[i])@.len() <= COORD_LIMIT by {
            assert(seqs_of(ls@)[i] == ls@[i]@);
        }
    }
    ls
}

/// Appends the first `k` content lines of a rectangle.
fn push_content_lines(
    ops: &mut Vec<DrawOp>,
    col: usize,
    start: usize,
    ls: &Vec<Vec<char>>,
    k: usize,
    inner_w: usize,
    overflow: ContentOverflow,
    align: ContentAlign,
)
    requires
        k <= ls@.len(),
        col <= COORD_LIMIT,
        inner_w <= COORD_LIMIT,
        start + k <= usize::MAX,
        forall|i: int| 0 <= i < ls@.len() ==> (#[trigger] ls@[i])@.len() <= COORD_LIMIT,
    ensures
        ops_view(final(ops)@) == ops_view(old(ops)@) + content_lines_steps(
            col as int,
            start as int,
            seqs_of(ls@),
            k as nat,
            inner_w,
            overflow,
            align,
        ),
{
    let ghost base = ops_view(ops@);
    let mut i: usize = 0;
    assert(base + Seq::<DrawStep>::empty() == base);
    while i < k
        invariant
            i <= k <= ls@.len(),
            col <= COORD_LIMIT,
            inner_w <= COORD_LIMIT,
            start + k <= usize::MAX,
            forall|j: int| 0 <= j < ls@.len() ==> (#[trigger] ls@[j])@.len() <= COORD_LIMIT,
            ops_view(ops@) == base + content_lines_steps(
                col as int,
                start as int,
                seqs_of(ls@),
                i as nat,
                inner_w,
                overflow,
                align,
            ),
        decreases k - i,
    {
        assert(seqs_of(ls@)[i as int] == ls@[i as int]@);
        assert(ls@[i as int]@.len() <= COORD_LIMIT);
        push_content_line(ops, col, start + i, ls[i].as_slice(), inner_w, overflow, align);
        i = i + 1;
    }
}

/// The steps of a rectangle's content and legend.
pub fn rect_content_ops(r: &Rect) -> (ops: Vec<DrawOp>)
    requires
        fits(DrawObjectView::Rect(r@)),
    ensures
        ops_view(ops@) == rect_content_steps(r@),
{
    let mut ops: Vec<DrawOp> = Vec::new();
    let col = r.col;
    let row = r.row;
    let inner_w = r.width;
    let inner_h = r.height;
    match &r.content {
        Some(content) => {
            let ls = text_lines(content);
            let n = ls.len();
            let start_row = if n <= inner_h {
                row + 1 + (inner_h - n) / 2
            } else {
                row + 1
            };
            let room = row + inner_h + 1 - start_row;
            let k = if n <= room {
                n
            } else {
                room
            };
            push_content_lines(
                &mut ops,
                col,
                start_row,
                &ls,
                k,
                inner_w,
                r.content_overflow,
                r.content_align,
            );
        },
        None => {},
    }
    let ghost after_content = ops_view(ops@);
    match &r.legend {
        Some(legend) => {
            let lg_row = match legend.pos {
                LegendPos::Bottom => row + inner_h + 2,
                _ => if row >= 1 { row - 1 } else { 0 },
            };
            let ls = text_lines(&legend.text);
            push_lines(&mut ops, col, lg_row, &ls, false);
        },
        None => {
            assert(after_content + Seq::<DrawStep>::empty() == after_content);
        },
    }
    proof {
        assert(Seq::<DrawStep>::empty() + Seq::<DrawStep>::empty() == Seq::<DrawStep>::empty());
    }
    ops
}

/// The legend of a horizontal line: above it by default, or below, left
/// (ending one column before it) or right (one column after its end).
pub open spec fn hline_content_steps(h: LineView) -> Seq<DrawStep> {
    match h.legend {
        Some(l) => {
            let tw = spec_str_width(l.text) as int;
            let (c, r) = match l.pos {
                LegendPos::Bottom => (h.col as int, h.row + 1),
                LegendPos::Left => (sat_sub(h.col as int, tw + 1), h.row as int),
                LegendPos::Right => (h.col + h.length + 1, h.row as int),
                _ => (h.col as int, sat_sub(h.row as int, 1)),
            };
            lines_steps(c, r, lines_spec(l.text), false)
        },
        None => Seq::empty(),
    }
}

/// The legend of a vertical line: right of its middle row by default
/// (leaving one column), or above, below, or left of the middle row.
pub open spec fn vline_content_steps(v: LineView) -> Seq<DrawStep> {
    match v.legend {
        Some(l) => {
            let tw = spec_str_width(l.text) as int;
            let mid = v.row + v.length / 2;
            let (c, r) = match l.pos {
                LegendPos::Top => (v.col as int, sat_sub(v.row as int, 1)),
                LegendPos::Bottom => (v.col as int, v.row + v.length),
                LegendPos::Left => (sat_sub(v.col as int, tw + 1), mid),
                _ => (v.col + 2, mid),
            };
            lines_steps(c, r, lines_spec(l.text), false)
        },
        None => Seq::empty(),
    }
}

/// The lines of a text object one below the other.
pub open spec fn text_steps(t: TextView, coll: bool) -> Seq<DrawStep> {
    lines_steps(t.col as int, t.row as int, lines_spec(t.content), coll)
}

/// The steps of a horizontal line's stroke.
pub fn hline_structure_ops(h: &HLine, coll: bool) -> (ops: Vec<DrawOp>)
    requires
        fits(DrawObjectView::HLine(h@)),
    ensures
        ops_view(ops@) == hrun(h.col as int, h.row as int, h.length as nat, hline_char_spec(h.style), coll),
{
    let mut ops: Vec<DrawOp> = Vec::new();
    push_hrun(&mut ops, h.col, h.row, h.length, hline_char(h.style), coll);
    assert(Seq::<DrawStep>::empty() + hrun(h.col as int, h.row as int, h.length as nat, hline_char_spec(h.style), coll)
        == hrun(h.col as int, h.row as int, h.length as nat, hline_char_spec(h.style), coll));
    ops
}

/// The steps of a vertical line's stroke.
pub fn vline_structure_ops(v: &VLine, coll: bool) -> (ops: Vec<DrawOp>)
    requires
        fits(DrawObjectView::VLine(v@)),
    ensures
        ops_view(ops@) == vrun(v.col as int, v.row as int, v.length as nat, vline_char_spec(v.style), coll),
{
    let mut ops: Vec<DrawOp> = Vec::new();
    push_vrun(&mut ops, v.col, v.row, v.length, vline_char(v.style), coll);
    assert(Seq::<DrawStep>::empty() + vrun(v.col as int, v.row as int, v.length as nat, vline_char_spec(v.style), coll)
        == vrun(v.col as int, v.row as int, v.length as nat, vline_char_spec(v.style), coll));
    ops
}

/// The steps of a horizontal line's legend.
pub fn hline_content_ops(h: &HLine) -> (ops: Vec<DrawOp>)
    requires
        fits(DrawObjectView::HLine(h@)),
    ensures
        ops_view(ops@) == hline_content_steps(h@),
{
    let mut ops: Vec<DrawOp> = Vec::new();
    match &h.legend {
        Some(legend) => {
            let ls = text_lines(&legend.text);
            let tv = chars_of(legend.text.as_str());
            proof {
                lemma_str_width_bounds(tv@);
            }
            let tw = str_width(tv.as_slice());
            let (c, r) = match legend.pos {
                LegendPos::Bottom => (h.col, h.row + 1),
                LegendPos::Left => (if h.col >= tw + 1 { h.col - (tw + 1) } else { 0 }, h.row),
                LegendPos::Right => (h.col + h.length + 1, h.row),
                _ => (h.col, if h.row >= 1 { h.row - 1 } else { 0 }),
            };
            push_lines(&mut ops, c, r, &ls, false);
            assert(Seq::<DrawStep>::empty() + lines_steps(c as int, r as int, lines_spec(legend.text@), false)
                == lines_steps(c as int, r as int, lines_spec(legend.text@), false));
        },
        None => {},
    }
    ops
}

/// The steps of a vertical line's legend.
pub fn vline_content_ops(v: &VLine) -> (ops: Vec<DrawOp>)
    requires
        fits(DrawObjectView::VLine(v@)),
    ensures
        ops_view(ops@) == vline_content_steps(v@),
{
    let mut ops: Vec<DrawOp> = Vec::new();
    match &v.legend {
        Some(legend) => {
            let ls = text_lines(&legend.text);
            let tv = chars_of(legend.text.as_str());
            proof {
                lemma_str_width_bounds(tv@);
            }
            let tw = str_width(tv.as_slice());
            let mid = v.row + v.length / 2;
            let (c, r) = match legend.pos {
                LegendPos::Top => (v.col, if v.row >= 1 { v.row - 1 } else { 0 }),
                LegendPos::Bottom => (v.col, v.row + v.length),
                LegendPos::Left => (if v.col >= tw + 1 { v.col - (tw + 1) } else { 0 }, mid),
                _ => (v.col + 2, mid),
            };
            push_lines(&mut ops, c, r, &ls, false);
            assert(Seq::<DrawStep>::empty() + lines_steps(c as int, r as int, lines_spec(legend.text@), false)
                == lines_steps(c as int, r as int, lines_spec(legend.text@), false));
        },
        None => {},
    }
    ops
}

/// The steps of a text object.
pub fn text_ops(t: &Text, coll: bool) -> (ops: Vec<DrawOp>)
    requires
        fits(DrawObjectView::Text(t@)),
    ensures
        ops_view(ops@) == text_steps(t@, coll),
{
    let mut ops: Vec<DrawOp> = Vec::new();
    let ls = text_lines(&t.content);
    push_lines(&mut ops, t.col, t.row, &ls, coll);
    assert(Seq::<DrawStep>::empty() + text_steps(t@, coll) == text_steps(t@, coll));
    ops
}

/// The arrowhead for `dir`: from the requested family, or the default one.
pub open spec fn tip_spec(head: Option<char>, dir: Dir) -> char {
    match head {
        Some(ch) => resolve_head_spec(ch, dir),
        None => family_head(0, dir),
    }
}

/// The arrowhead for `dir`.
fn tip_char(head: Option<char>, dir: Dir) -> (c: char)
    ensures
        c == tip_spec(head, dir),
{
    match head {
        Some(ch) => resolve_arrowhead(ch, dir),
        None => default_arrowhead(dir),
    }
}

/// One straight segment from `f` to `t`: a run of line glyphs over all its
/// cells, then, for the last segment, the arrowhead on `t`; nothing for a
/// segment that is neither horizontal nor vertical.
pub open spec fn segment_steps(
    f: (usize, usize),
    t: (usize, usize),
    with_tip: bool,
    head: Option<char>,
    coll: bool,
) -> Seq<DrawStep> {
    if f.1 == t.1 {
        let lo = if f.0 < t.0 { f.0 } else { t.0 };
        let hi = if f.0 < t.0 { t.0 } else { f.0 };
        hrun(lo as int, f.1 as int, (hi - lo + 1) as nat, '─', coll) + if with_tip {
            seq![put(t.0 as int, f.1 as int, tip_spec(head, if t.0 > f.0 { Dir::Right } else { Dir::Left }), coll)]
        } else {
            Seq::empty()
        }
    } else if f.0 == t.0 {
        let lo = if f.1 < t.1 { f.1 } else { t.1 };
        let hi = if f.1 < t.1 { t.1 } else { f.1 };
        vrun(f.0 as int, lo as int, (hi - lo + 1) as nat, '│', coll) + if with_tip {
            seq![put(f.0 as int, t.1 as int, tip_spec(head, if t.1 > f.1 { Dir::Down } else { Dir::Up }), coll)]
        } else {
            Seq::empty()
        }
    } else {
        Seq::empty()
    }
}

/// The first `k` segments of the waypoints, the arrowhead on the last one.
pub open spec fn segments_steps(wp: Seq<(usize, usize)>, head: Option<char>, coll: bool, k: nat) -> Seq<DrawStep>
    decreases k,
{
    if k == 0 {
        Seq::empty()
    } else {
        segments_steps(wp, head, coll, (k - 1) as nat) + segment_steps(
            wp[k - 1],
            wp[k as int],
            k - 1 == wp.len() - 2,
            head,
            coll,
        )
    }
}

/// The corner glyphs at waypoints 1..k, by the directions in and out.
pub open spec fn corners_steps(wp: Seq<(usize, usize)>, k: nat) -> Seq<DrawStep>
    decreases k,
{
    if k <= 1 {
        Seq::empty()
    } else {
        let p = wp[k - 2];
        let c = wp[k - 1];
        let n = wp[k as int];
        corners_steps(wp, (k - 1) as nat) + seq![
            put(
                c.0 as int,
                c.1 as int,
                corner_spec(segment_dir_spec(p.0, p.1, c.0, c.1), segment_dir_spec(c.0, c.1, n.0, n.1)),
                false,
            ),
        ]
    }
}

/// The structure of an arrow: its segments, the corners over them (never
/// checked for collisions), and for a two-way arrow a head at the start.
pub open spec fn arrow_structure_steps(a: ArrowView, coll: bool) -> Seq<DrawStep> {
    let wp = a.waypoints;
    if wp.len() < 2 {
        Seq::empty()
    } else {
        let k = (wp.len() - 1) as nat;
        segments_steps(wp, a.head, coll, k) + corners_steps(wp, k) + if a.both {
            seq![
                put(
                    wp[0].0 as int,
                    wp[0].1 as int,
                    tip_spec(a.head, segment_dir_spec(wp[1].0, wp[1].1, wp[0].0, wp[0].1)),
                    false,
                ),
            ]
        } else {
            Seq::empty()
        }
    }
}

/// The Manhattan length of segment `i`.
pub open spec fn seg_len(wp: Seq<(usize, usize)>, i: int) -> nat {
    crate::object::arrow::abs_diff(wp[i].0, wp[i + 1].0) + crate::object::arrow::abs_diff(
        wp[i].1,
        wp[i + 1].1,
    )
}

/// The last longest of segments 1..=j.
pub open spec fn best_seg(wp: Seq<(usize, usize)>, j: int) -> int
    decreases j,
{
    if j <= 1 {
        1
    } else {
        let b = best_seg(wp, j - 1);
        if seg_len(wp, j) >= seg_len(wp, b) {
            j
        } else {
            b
        }
    }
}

/// The segment an arrow's legend stands by: the last longest one after the
/// first for bent arrows, else the only one.
pub open spec fn legend_seg(wp: Seq<(usize, usize)>) -> int {
    if wp.len() >= 3 {
        best_seg(wp, wp.len() - 2)
    } else {
        0
    }
}

/// The legend of an arrow, placed by the middle of its legend segment:
/// centred above it by default for horizontal segments, right of it for
/// vertical ones, or as the legend's position asks.
pub open spec fn arrow_content_steps(a: ArrowView) -> Seq<DrawStep> {
    let wp = a.waypoints;
    match a.legend {
        Some(l) => if wp.len() < 2 {
            Seq::empty()
        } else {
            let i = legend_seg(wp);
            let f = wp[i];
            let t = wp[i + 1];
            let mid_c = (f.0 + t.0) / 2;
            let mid_r = (f.1 + t.1) / 2;
            let dir = segment_dir_spec(f.0, f.1, t.0, t.1);
            let horizontal = dir == Dir::Left || dir == Dir::Right;
            let pos = match l.pos {
                LegendPos::Auto => if horizontal {
                    LegendPos::Top
                } else {
                    LegendPos::Right
                },
                p => p,
            };
            let tw = spec_str_width(l.text) as int;
            let (c, r) = match pos {
                LegendPos::Top => (sat_sub(mid_c, tw / 2), sat_sub(mid_r, 1)),
                LegendPos::Bottom => (sat_sub(mid_c, tw / 2), mid_r + 1),
                LegendPos::Left => (sat_sub(mid_c, tw + 1), mid_r),
                _ => (mid_c + 1, mid_r),
            };
            lines_steps(c, r, lines_spec(l.text), false)
        },
        None => Seq::empty(),
    }
}

/// Appends one segment.
fn push_segment(
    ops: &mut Vec<DrawOp>,
    f: (usize, usize),
    t: (usize, usize),
    with_tip: bool,
    head: Option<char>,
    coll: bool,
)
    requires
        f.0 <= 4 * COORD_LIMIT,
        f.1 <= 4 * COORD_LIMIT,
        t.0 <= 4 * COORD_LIMIT,
        t.1 <= 4 * COORD_LIMIT,
    ensures
        ops_view(final(ops)@) == ops_view(old(ops)@) + segment_steps(f, t, with_tip, head, coll),
{
    let (fc, fr) = f;
    let (tc, tr) = t;
    let ghost base = ops_view(ops@);
    if fr == tr {
        let (lo, hi) = if fc < tc { (fc, tc) } else { (tc, fc) };
        push_hrun(ops, lo, fr, hi - lo + 1, '─', coll);
        let ghost mid = ops_view(ops@);
        if with_tip {
            let dir = if tc > fc { Dir::Right } else { Dir::Left };
            let tip = tip_char(head, dir);
            push_put(ops, tc, fr, tip, coll);
            proof {
                lemma_push_add(mid, put(tc as int, fr as int, tip, coll));
            }
        } else {
            assert(mid + Seq::<DrawStep>::empty() == mid);
        }
    } else if fc == tc {
        let (lo, hi) = if fr < tr { (fr, tr) } else { (tr, fr) };
        push_vrun(ops, fc, lo, hi - lo + 1, '│', coll);
        let ghost mid = ops_view(ops@);
        if with_tip {
            let dir = if tr > fr { Dir::Down } else { Dir::Up };
            let tip = tip_char(head, dir);
            push_put(ops, fc, tr, tip, coll);
            proof {
                lemma_push_add(mid, put(fc as int, tr as int, tip, coll));
            }
        } else {
            assert(mid + Seq::<DrawStep>::empty() == mid);
        }
    } else {
        assert(base + Seq::<DrawStep>::empty() == base);
    }
}

/// The waypoints of a fitting arrow are within the arrow limit.
proof fn lemma_arrow_points(a: ArrowView)
    requires
        fits(DrawObjectView::Arrow(a)),
    ensures
        forall|i: int| 0 <= i < a.waypoints.len() ==> (#[trigger] a.waypoints[i]).0 <= 4 * COORD_LIMIT
            && a.waypoints[i].1 <= 4 * COORD_LIMIT,
{
}

/// The steps of an arrow's structure.
pub fn arrow_structure_ops(a: &ResolvedArrow, coll: bool) -> (ops: Vec<DrawOp>)
    requires
        fits(DrawObjectView::Arrow(a@)),
    ensures
        ops_view(ops@) == arrow_structure_steps(a@, coll),
{
    let mut ops: Vec<DrawOp> = Vec::new();
    let wp = &a.waypoints;
    proof {
        lemma_arrow_points(a@);
    }
    if wp.len() < 2 {
        return ops;
    }
    let n = wp.len();
    let mut i: usize = 0;
    while i < n - 1
        invariant
            n == wp@.len(),
            n >= 2,
            i <= n - 1,
            wp@ == a@.waypoints,
            forall|j: int| 0 <= j < wp@.len() ==> (#[trigger] wp@[j]).0 <= 4 * COORD_LIMIT && wp@[j].1
                <= 4 * COORD_LIMIT,
            ops_view(ops@) == segments_steps(wp@, a.head, coll, i as nat),
        decreases n - 1 - i,
    {
        assert(wp@[i as int].0 <= 4 * COORD_LIMIT && wp@[i as int].1 <= 4 * COORD_LIMIT);
        assert(wp@[i + 1].0 <= 4 * COORD_LIMIT && wp@[i + 1].1 <= 4 * COORD_LIMIT);
        push_segment(&mut ops, wp[i], wp[i + 1], i == n - 2, a.head, coll);
        i = i + 1;
    }
    let ghost segs = ops_view(ops@);
    let mut k: usize = 1;
    assert(segs + Seq::<DrawStep>::empty() == segs);
    while k < n - 1
        invariant
            n == wp@.len(),
            n >= 2,
            1 <= k <= n - 1,
            wp@ == a@.waypoints,
            ops_view(ops@) == segs + corners_steps(wp@, k as nat),
        decreases n - 1 - k,
    {
        let (pc, pr) = wp[k - 1];
        let (cc, cr) = wp[k];
        let (nc, nr) = wp[k + 1];
        let incoming = segment_dir(pc, pr, cc, cr);
        let outgoing = segment_dir(cc, cr, nc, nr);
        let corner = corner_char(incoming, outgoing);
        let ghost before = ops_view(ops@);
        push_put(&mut ops, cc, cr, corner, false);
        k = k + 1;
        proof {
            lemma_push_add(before, put(cc as int, cr as int, corner, false));
            assert(segs + corners_steps(wp@, k as nat) == segs + corners_steps(wp@, (k - 1) as nat) + seq![put(cc as int, cr as int, corner, false)]);
        }
    }
    let ghost body = ops_view(ops@);
    if a.both {
        let (sc, sr) = wp[0];
        let (nc, nr) = wp[1];
        let dir = segment_dir(nc, nr, sc, sr);
        let tip = tip_char(a.head, dir);
        push_put(&mut ops, sc, sr, tip, false);
        proof {
            lemma_push_add(body, put(sc as int, sr as int, tip, false));
        }
    } else {
        assert(body + Seq::<DrawStep>::empty() == body);
    }
    ops
}

/// The steps of an arrow's legend.
pub fn arrow_content_ops(a: &ResolvedArrow) -> (ops: Vec<DrawOp>)
    requires
        fits(DrawObjectView::Arrow(a@)),
    ensures
        ops_view(ops@) == arrow_content_steps(a@),
{
    let mut ops: Vec<DrawOp> = Vec::new();
    let wp = &a.waypoints;
    proof {
        lemma_arrow_points(a@);
    }
    match &a.legend {
        None => {
            return ops;
        },
        Some(legend) => {
            if wp.len() < 2 {
                return ops;
            }
            let n = wp.len();
            let mut seg_idx: usize = 0;
            if n >= 3 {
                seg_idx = 1;
                let mut best_len = seg_length(wp[1], wp[2]);
                let mut i: usize = 2;
                while i < n - 1
                    invariant
                        n == wp@.len(),
                        n >= 3,
                        2 <= i <= n - 1,
                        forall|j: int| 0 <= j < wp@.len() ==> (#[trigger] wp@[j]).0 <= 4 * COORD_LIMIT
                            && wp@[j].1 <= 4 * COORD_LIMIT,
                        seg_idx == best_seg(wp@, i - 1),
                        1 <= seg_idx < n - 1,
                        best_len == seg_len(wp@, seg_idx as int),
                    decreases n - 1 - i,
                {
                    let d = seg_length(wp[i], wp[i + 1]);
                    if d >= best_len {
                        seg_idx = i;
                        best_len = d;
                    }
                    i = i + 1;
                }
            }
            assert(seg_idx == legend_seg(wp@));
            let (fc, fr) = wp[seg_idx];
            let (tc, tr) = wp[seg_idx + 1];
            let mid_c = (fc + tc) / 2;
            let mid_r = (fr + tr) / 2;
            let dir = segment_dir(fc, fr, tc, tr);
            let is_horizontal = matches!(dir, Dir::Left | Dir::Right);
            let pos = match legend.pos {
                LegendPos::Auto => if is_horizontal {
                    LegendPos::Top
                } else {
                    LegendPos::Right
                },
                other => other,
            };
            let tv = chars_of(legend.text.as_str());
            proof {
                lemma_str_width_bounds(tv@);
            }
            let text_w = str_width(tv.as_slice());
            let (c, r) = match pos {
                LegendPos::Top => (
                    if mid_c >= text_w / 2 { mid_c - text_w / 2 } else { 0 },
                    if mid_r >= 1 { mid_r - 1 } else { 0 },
                ),
                LegendPos::Bottom => (if mid_c >= text_w / 2 { mid_c - text_w / 2 } else { 0 }, mid_r + 1),
                LegendPos::Left => (if mid_c >= text_w + 1 { mid_c - (text_w + 1) } else { 0 }, mid_r),
                _ => (mid_c + 1, mid_r),
            };
            let ls = text_lines(&legend.text);
            push_lines(&mut ops, c, r, &ls, false);
            assert(Seq::<DrawStep>::empty() + lines_steps(c as int, r as int, lines_spec(legend.text@), false)
                == lines_steps(c as int, r as int, lines_spec(legend.text@), false));
        },
    }
    ops
}

/// The Manhattan length of the segment from `f` to `t`.
fn seg_length(f: (usize, usize), t: (usize, usize)) -> (d: usize)
    requires
        f.0 <= 4 * COORD_LIMIT,
        f.1 <= 4 * COORD_LIMIT,
        t.0 <= 4 * COORD_LIMIT,
        t.1 <= 4 * COORD_LIMIT,
    ensures
        d == crate::object::arrow::abs_diff(f.0, t.0) + crate::object::arrow::abs_diff(f.1, t.1),
{
    let dx = if f.0 >= t.0 { f.0 - t.0 } else { t.0 - f.0 };
    let dy = if f.1 >= t.1 { f.1 - t.1 } else { t.1 - f.1 };
    dx + dy
}

} // verus!
