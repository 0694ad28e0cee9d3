//! Parses diagram descriptions into commands.
//!
//! A description is read line by line; blank lines and lines whose first
//! non-blank character is `#` are skipped, and every other line is split at
//! whitespace into tokens and read as one command.  Command words and option
//! values are case-insensitive; option names are not.  A legend (`lg=`) and a
//! content (`c=`) come last on their line and take the tokens after them.
use vstd::prelude::*;

use crate::error::{ErrorView, UnidError};
use crate::dsl::command::{commands_view, CanvasSize, CommandView, DslCommand};
use crate::object::line::{HLine, LineStyle, LineView, VLine};
use crate::object::rect::{BorderStyle, ContentAlign, ContentOverflow, Rect, RectView, Side};
use crate::object::text::{Text, TextView};
use crate::object::{DrawObject, DrawObjectView, Legend, LegendPos, LegendView};
use crate::dsl::values::{
    align_spec, anchor_ref_spec, border_style_spec, content_index, content_spec,
    content_token_index, extract_content, extract_legend, id_error, is_legend_tok,
    is_legend_token, legend_of, legend_spec, lemma_content_index_bound, lemma_tail_index_bound,
    line_style_spec, make_legend, number_spec, overflow_spec, parse_anchor, parse_border_style,
    parse_content_align, parse_content_overflow, parse_error, parse_line_style, parse_number,
    parse_position, parse_rect_position, perr, position_spec, push_quoted, quoted,
    rect_position_spec, same_chars, strip, strip_spec, style_option, style_value, tail_index,
    tail_token_index, validate_id,
};
use crate::textops::{
    chars_of, eq_lower, lines_of, lines_spec, lower_seq, push_str, seqs_of, split_words,
    string_from_chars, trim_chars, trim_spec, words_spec,
};

verus! {

/// The canvas settings (border, overflow, alignment) after one option token.
pub open spec fn canvas_step(
    st: (Option<BorderStyle>, Option<ContentOverflow>, Option<ContentAlign>),
    t: Seq<char>,
    line: usize,
) -> Result<(Option<BorderStyle>, Option<ContentOverflow>, Option<ContentAlign>), ErrorView> {
    match strip_spec(t, "border="@) {
        Some(v) => match border_style_spec(v, line) {
            Ok(b) => Ok((Some(b), st.1, st.2)),
            Err(e) => Err(e),
        },
        None => match strip_spec(t, "overflow="@) {
            Some(v) => match overflow_spec(v, line) {
                Ok(o) => Ok((st.0, Some(o), st.2)),
                Err(e) => Err(e),
            },
            None => match strip_spec(t, "align="@) {
                Some(v) => match align_spec(v, line) {
                    Ok(a) => Ok((st.0, st.1, Some(a))),
                    Err(e) => Err(e),
                },
                None => Err(perr(line, "unknown canvas option "@ + quoted(t))),
            },
        },
    }
}

/// The canvas settings after the option tokens `lo..k`, read left to right;
/// the first error stops the reading.
pub open spec fn canvas_opts(toks: Seq<Seq<char>>, lo: nat, k: nat, line: usize) -> Result<
    (Option<BorderStyle>, Option<ContentOverflow>, Option<ContentAlign>),
    ErrorView,
>
    decreases k,
{
    if k <= lo {
        Ok((None, None, None))
    } else {
        match canvas_opts(toks, lo, (k - 1) as nat, line) {
            Err(e) => Err(e),
            Ok(st) => canvas_step(st, toks[k - 1], line),
        }
    }
}

/// Once reading the canvas options has failed, later options change nothing.
proof fn lemma_canvas_opts_err(toks: Seq<Seq<char>>, lo: nat, k: nat, n: nat, line: usize)
    requires
        lo <= k <= n,
        canvas_opts(toks, lo, k, line) is Err,
    ensures
        canvas_opts(toks, lo, n, line) == canvas_opts(toks, lo, k, line),
    decreases n - k,
{
    if k < n {
        lemma_canvas_opts_err(toks, lo, k, (n - 1) as nat, line);
    }
}

/// The canvas command with its size given, its options read from `lo` on.
pub open spec fn canvas_with(
    toks: Seq<Seq<char>>,
    lo: nat,
    width: CanvasSize,
    height: CanvasSize,
    line: usize,
) -> Result<CommandView, ErrorView> {
    match canvas_opts(toks, lo, toks.len(), line) {
        Err(e) => Err(e),
        Ok(st) => Ok(
            CommandView::Canvas {
                width,
                height,
                border: st.0,
                content_overflow: st.1,
                content_align: st.2,
            },
        ),
    }
}

/// `canvas <w> <h> [options]` or `canvas auto [options]`.
pub open spec fn canvas_spec(toks: Seq<Seq<char>>, line: usize) -> Result<CommandView, ErrorView> {
    if toks.len() < 2 {
        Err(perr(line, "canvas requires size arguments (e.g., 'canvas 40 10' or 'canvas auto')"@))
    } else if lower_seq(toks[1]) == "auto"@ {
        canvas_with(toks, 2, CanvasSize::Auto, CanvasSize::Auto, line)
    } else if toks.len() < 3 {
        Err(perr(line, "canvas requires width and height (e.g., 'canvas 40 10')"@))
    } else {
        match number_spec(toks[1], "canvas width"@, line) {
            Err(e) => Err(e),
            Ok(w) => match number_spec(toks[2], "canvas height"@, line) {
                Err(e) => Err(e),
                Ok(h) => canvas_with(toks, 3, CanvasSize::Fixed(w), CanvasSize::Fixed(h), line),
            },
        }
    }
}

/// Reads one canvas option token.
fn canvas_option(
    st: (Option<BorderStyle>, Option<ContentOverflow>, Option<ContentAlign>),
    tk: &[char],
    line: usize,
) -> (r: Result<(Option<BorderStyle>, Option<ContentOverflow>, Option<ContentAlign>), UnidError>)
    ensures
        match r {
            Ok(x) => canvas_step(st, tk@, line) == Ok::<
                (Option<BorderStyle>, Option<ContentOverflow>, Option<ContentAlign>),
                ErrorView,
            >(x),
            Err(e) => canvas_step(st, tk@, line) == Err::<
                (Option<BorderStyle>, Option<ContentOverflow>, Option<ContentAlign>),
                ErrorView,
            >(e@),
        },
{
    match strip(tk, "border=") {
        Some(v) => match parse_border_style(v.as_slice(), line) {
            Ok(b) => Ok((Some(b), st.1, st.2)),
            Err(e) => Err(e),
        },
        None => match strip(tk, "overflow=") {
            Some(v) => match parse_content_overflow(v.as_slice(), line) {
                Ok(o) => Ok((st.0, Some(o), st.2)),
                Err(e) => Err(e),
            },
            None => match strip(tk, "align=") {
                Some(v) => match parse_content_align(v.as_slice(), line) {
                    Ok(a) => Ok((st.0, st.1, Some(a))),
                    Err(e) => Err(e),
                },
                None => {
                    let mut m: Vec<char> = Vec::new();
                    push_str(&mut m, "unknown canvas option ");
                    push_quoted(&mut m, tk);
                    Err(parse_error(line, m))
                },
            },
        },
    }
}

/// Reads a canvas command.
fn parse_canvas(toks: &Vec<Vec<char>>, line: usize) -> (r: Result<DslCommand, UnidError>)
    ensures
        match r {
            Ok(c) => canvas_spec(seqs_of(toks@), line) == Ok::<CommandView, ErrorView>(c@),
            Err(e) => canvas_spec(seqs_of(toks@), line) == Err::<CommandView, ErrorView>(e@),
        },
{
    let ghost t = seqs_of(toks@);
    if toks.len() < 2 {
        let mut m: Vec<char> = Vec::new();
        push_str(&mut m, "canvas requires size arguments (e.g., 'canvas 40 10' or 'canvas auto')");
        return Err(parse_error(line, m));
    }
    assert(t[1] == toks@[1]@);
    let (width, height, start) = if eq_lower(toks[1].as_slice(), "auto") {
        (CanvasSize::Auto, CanvasSize::Auto, 2usize)
    } else {
        if toks.len() < 3 {
            let mut m: Vec<char> = Vec::new();
            push_str(&mut m, "canvas requires width and height (e.g., 'canvas 40 10')");
            return Err(parse_error(line, m));
        }
        assert(t[2] == toks@[2]@);
        let w = match parse_number(toks[1].as_slice(), "canvas width", line) {
            Ok(n) => n,
            Err(e) => return Err(e),
        };
        let h = match parse_number(toks[2].as_slice(), "canvas height", line) {
            Ok(n) => n,
            Err(e) => return Err(e),
        };
        (CanvasSize::Fixed(w), CanvasSize::Fixed(h), 3usize)
    };
    let mut border: Option<BorderStyle> = None;
    let mut overflow: Option<ContentOverflow> = None;
    let mut align: Option<ContentAlign> = None;
    let mut i = start;
    while i < toks.len()
        invariant
            start <= i <= toks@.len(),
            t == seqs_of(toks@),
            canvas_spec(t, line) == canvas_with(t, start as nat, width, height, line),
            canvas_opts(t, start as nat, i as nat, line) == Ok::<
                (Option<BorderStyle>, Option<ContentOverflow>, Option<ContentAlign>),
                ErrorView,
            >((border, overflow, align)),
        decreases toks.len() - i,
    {
        let tk = toks[i].as_slice();
        assert(t[i as int] == tk@);
        match canvas_option((border, overflow, align), tk, line) {
            Ok(st) => {
                border = st.0;
                overflow = st.1;
                align = st.2;
            },
            Err(e) => {
                proof {
                    lemma_canvas_opts_err(t, start as nat, (i + 1) as nat, t.len(), line);
                }
                return Err(e);
            },
        }
        i = i + 1;
    }
    Ok(
        DslCommand::Canvas {
            width,
            height,
            border,
            content_overflow: overflow,
            content_align: align,
        },
    )
}

/// `collision on` or `collision off`.
pub open spec fn collision_spec(toks: Seq<Seq<char>>, line: usize) -> Result<CommandView, ErrorView> {
    if toks.len() < 2 {
        Err(perr(line, "collision requires 'on' or 'off'"@))
    } else if lower_seq(toks[1]) == "on"@ {
        Ok(CommandView::Collision(true))
    } else if lower_seq(toks[1]) == "off"@ {
        Ok(CommandView::Collision(false))
    } else {
        Err(perr(line, "collision must be 'on' or 'off', got "@ + quoted(toks[1])))
    }
}

/// Reads a collision command.
fn parse_collision(toks: &Vec<Vec<char>>, line: usize) -> (r: Result<DslCommand, UnidError>)
    ensures
        match r {
            Ok(c) => collision_spec(seqs_of(toks@), line) == Ok::<CommandView, ErrorView>(c@),
            Err(e) => collision_spec(seqs_of(toks@), line) == Err::<CommandView, ErrorView>(e@),
        },
{
    let ghost t = seqs_of(toks@);
    if toks.len() < 2 {
        let mut m: Vec<char> = Vec::new();
        push_str(&mut m, "collision requires 'on' or 'off'");
        return Err(parse_error(line, m));
    }
    assert(t[1] == toks@[1]@);
    let v = toks[1].as_slice();
    if eq_lower(v, "on") {
        Ok(DslCommand::Collision(true))
    } else if eq_lower(v, "off") {
        Ok(DslCommand::Collision(false))
    } else {
        let mut m: Vec<char> = Vec::new();
        push_str(&mut m, "collision must be 'on' or 'off', got ");
        push_quoted(&mut m, v);
        Err(parse_error(line, m))
    }
}

/// The rect and the position of its legend after one option token.
pub open spec fn rect_step(st: (RectView, LegendPos), t: Seq<char>, line: usize) -> Result<(RectView, LegendPos), ErrorView> {
    let r = st.0;
    match strip_spec(t, "id="@) {
        Some(v) => match id_error(v, line) {
            Some(e) => Err(e),
            None => Ok((RectView { id: Some(v), ..r }, st.1)),
        },
        None => match style_value(t) {
            Some(v) => match border_style_spec(v, line) {
                Ok(b) => Ok((RectView { style: b, ..r }, st.1)),
                Err(e) => Err(e),
            },
            None => match strip_spec(t, "overflow="@) {
                Some(v) => match overflow_spec(v, line) {
                    Ok(o) => Ok((RectView { content_overflow: o, ..r }, st.1)),
                    Err(e) => Err(e),
                },
                None => match strip_spec(t, "align="@) {
                    Some(v) => match align_spec(v, line) {
                        Ok(a) => Ok((RectView { content_align: a, ..r }, st.1)),
                        Err(e) => Err(e),
                    },
                    None => match strip_spec(t, "lg-pos="@) {
                        Some(v) => match rect_position_spec(v, line) {
                            Ok(p) => Ok((r, p)),
                            Err(e) => Err(e),
                        },
                        None => Err(perr(line, "unknown rect option "@ + quoted(t))),
                    },
                },
            },
        },
    }
}

/// The rect and its legend position after the option tokens `lo..k`, read
/// left to right; the first error stops the reading.
pub open spec fn rect_opts(
    toks: Seq<Seq<char>>,
    lo: nat,
    k: nat,
    st0: (RectView, LegendPos),
    line: usize,
) -> Result<(RectView, LegendPos), ErrorView>
    decreases k,
{
    if k <= lo {
        Ok(st0)
    } else {
        match rect_opts(toks, lo, (k - 1) as nat, st0, line) {
            Err(e) => Err(e),
            Ok(st) => rect_step(st, toks[k - 1], line),
        }
    }
}

/// Once reading the rect options has failed, later options change nothing.
proof fn lemma_rect_opts_err(toks: Seq<Seq<char>>, lo: nat, k: nat, n: nat, st0: (RectView, LegendPos), line: usize)
    requires
        lo <= k <= n,
        rect_opts(toks, lo, k, st0, line) is Err,
    ensures
        rect_opts(toks, lo, n, st0, line) == rect_opts(toks, lo, k, st0, line),
    decreases n - k,
{
    if k < n {
        lemma_rect_opts_err(toks, lo, k, (n - 1) as nat, st0, line);
    }
}

/// A rect of the given place and inner size with the default settings.
pub open spec fn plain_rect(col: usize, row: usize, width: usize, height: usize) -> RectView {
    RectView {
        col,
        row,
        width,
        height,
        content: None,
        style: BorderStyle::Light,
        content_overflow: ContentOverflow::Ellipsis,
        content_align: ContentAlign::Left,
        id: None,
        legend: None,
    }
}

/// The rect with its trailing texts from token `ti` on: a legend (up to a
/// content token) and then a content, or a content alone.
pub open spec fn rect_tail(toks: Seq<Seq<char>>, ti: nat, st: (RectView, LegendPos), line: usize) -> Result<RectView, ErrorView> {
    if ti >= toks.len() {
        Ok(st.0)
    } else if is_legend_tok(toks[ti as int]) {
        match legend_spec(toks, ti, line) {
            Err(e) => Err(e),
            Ok(txt) => {
                let r2 = RectView { legend: Some(legend_of(txt, st.1)), ..st.0 };
                let ci = content_index(toks, ti + 1);
                if ci < toks.len() {
                    match content_spec(toks, ci, line) {
                        Err(e) => Err(e),
                        Ok(c) => Ok(RectView { content: Some(c), ..r2 }),
                    }
                } else {
                    Ok(r2)
                }
            },
        }
    } else {
        match content_spec(toks, ti, line) {
            Err(e) => Err(e),
            Ok(c) => Ok(RectView { content: Some(c), ..st.0 }),
        }
    }
}

/// The rect command once its numbers are read: the options up to the
/// first legend or content token, then the legend and content.
pub open spec fn rect_body(toks: Seq<Seq<char>>, r0: RectView, line: usize) -> Result<CommandView, ErrorView> {
    let ti = tail_index(toks, 5);
    match rect_opts(toks, 5, ti, (r0, LegendPos::Auto), line) {
        Err(e) => Err(e),
        Ok(st) => match rect_tail(toks, ti, st, line) {
            Err(e) => Err(e),
            Ok(r) => Ok(CommandView::Object(DrawObjectView::Rect(r))),
        },
    }
}

/// `rect <col> <row> <width> <height> [options] [lg=<legend>] [c=<content>]`.
pub open spec fn rect_spec(toks: Seq<Seq<char>>, line: usize) -> Result<CommandView, ErrorView> {
    if toks.len() < 5 {
        Err(perr(line, "rect requires col, row, width, height"@))
    } else {
        match number_spec(toks[1], "col"@, line) {
            Err(e) => Err(e),
            Ok(col) => match number_spec(toks[2], "row"@, line) {
                Err(e) => Err(e),
                Ok(row) => match number_spec(toks[3], "width"@, line) {
                    Err(e) => Err(e),
                    Ok(width) => match number_spec(toks[4], "height"@, line) {
                        Err(e) => Err(e),
                        Ok(height) => rect_body(toks, plain_rect(col, row, width, height), line),
                    },
                },
            },
        }
    }
}

/// Reads one rect option token into `rect` and the legend position.
fn rect_option(rect: &mut Rect, pos: &mut LegendPos, tk: &[char], line: usize) -> (r: Result<(), UnidError>)
    ensures
        match r {
            Ok(()) => rect_step((old(rect)@, *old(pos)), tk@, line) == Ok::<(RectView, LegendPos), ErrorView>(
                (final(rect)@, *final(pos)),
            ),
            Err(e) => rect_step((old(rect)@, *old(pos)), tk@, line) == Err::<(RectView, LegendPos), ErrorView>(e@),
        },
{
    match strip(tk, "id=") {
        Some(v) => {
            match validate_id(v.as_slice(), line) {
                Ok(()) => {},
                Err(e) => return Err(e),
            }
            rect.id = Some(string_from_chars(v.as_slice()));
            Ok(())
        },
        None => match style_option(tk) {
            Some(v) => match parse_border_style(v.as_slice(), line) {
                Ok(b) => {
                    rect.style = b;
                    Ok(())
                },
                Err(e) => Err(e),
            },
            None => match strip(tk, "overflow=") {
                Some(v) => match parse_content_overflow(v.as_slice(), line) {
                    Ok(o) => {
                        rect.content_overflow = o;
                        Ok(())
                    },
                    Err(e) => Err(e),
                },
                None => match strip(tk, "align=") {
                    Some(v) => match parse_content_align(v.as_slice(), line) {
                        Ok(a) => {
                            rect.content_align = a;
                            Ok(())
                        },
                        Err(e) => Err(e),
                    },
                    None => match strip(tk, "lg-pos=") {
                        Some(v) => match parse_rect_position(v.as_slice(), line) {
                            Ok(p) => {
                                *pos = p;
                                Ok(())
                            },
                            Err(e) => Err(e),
                        },
                        None => {
                            let mut m: Vec<char> = Vec::new();
                            push_str(&mut m, "unknown rect option ");
                            push_quoted(&mut m, tk);
                            Err(parse_error(line, m))
                        },
                    },
                },
            },
        },
    }
}

/// Reads a rect's trailing texts from token `ti` on into `rect`.
fn rect_texts(toks: &Vec<Vec<char>>, ti: usize, rect: &mut Rect, pos: LegendPos, line: usize) -> (r: Result<(), UnidError>)
    requires
        ti == tail_index(seqs_of(toks@), ti as nat) || ti >= toks@.len(),
        ti <= toks@.len(),
    ensures
        match r {
            Ok(()) => rect_tail(seqs_of(toks@), ti as nat, (old(rect)@, pos), line) == Ok::<RectView, ErrorView>(
                final(rect)@,
            ),
            Err(e) => rect_tail(seqs_of(toks@), ti as nat, (old(rect)@, pos), line) == Err::<RectView, ErrorView>(e@),
        },
{
    let ghost t = seqs_of(toks@);
    if ti >= toks.len() {
        return Ok(());
    }
    assert(t[ti as int] == toks@[ti as int]@);
    if is_legend_token(toks[ti].as_slice()) {
        let txt = match extract_legend(toks, ti, line) {
            Ok(v) => v,
            Err(e) => return Err(e),
        };
        rect.legend = Some(make_legend(&txt, pos));
        let ci = content_token_index(toks, ti + 1);
        proof {
            lemma_content_index_bound(t, (ti + 1) as nat);
        }
        if ci < toks.len() {
            match extract_content(toks, ci, line) {
                Ok(c) => {
                    rect.content = Some(string_from_chars(c.as_slice()));
                },
                Err(e) => return Err(e),
            }
        }
        Ok(())
    } else {
        match extract_content(toks, ti, line) {
            Ok(c) => {
                rect.content = Some(string_from_chars(c.as_slice()));
                Ok(())
            },
            Err(e) => Err(e),
        }
    }
}

/// Reads a rect command.
fn parse_rect(toks: &Vec<Vec<char>>, line: usize) -> (r: Result<DslCommand, UnidError>)
    ensures
        match r {
            Ok(c) => rect_spec(seqs_of(toks@), line) == Ok::<CommandView, ErrorView>(c@),
            Err(e) => rect_spec(seqs_of(toks@), line) == Err::<CommandView, ErrorView>(e@),
        },
{
    let ghost t = seqs_of(toks@);
    if toks.len() < 5 {
        let mut m: Vec<char> = Vec::new();
        push_str(&mut m, "rect requires col, row, width, height");
        return Err(parse_error(line, m));
    }
    assert(t[1] == toks@[1]@ && t[2] == toks@[2]@ && t[3] == toks@[3]@ && t[4] == toks@[4]@);
    let col = match parse_number(toks[1].as_slice(), "col", line) {
        Ok(n) => n,
        Err(e) => return Err(e),
    };
    let row = match parse_number(toks[2].as_slice(), "row", line) {
        Ok(n) => n,
        Err(e) => return Err(e),
    };
    let width = match parse_number(toks[3].as_slice(), "width", line) {
        Ok(n) => n,
        Err(e) => return Err(e),
    };
    let height = match parse_number(toks[4].as_slice(), "height", line) {
        Ok(n) => n,
        Err(e) => return Err(e),
    };
    let mut rect = Rect::new(col, row, width, height);
    let mut pos = LegendPos::Auto;
    let ghost r0 = rect@;
    assert(r0 == plain_rect(col, row, width, height));
    let ti = tail_token_index(toks, 5);
    proof {
        lemma_tail_index_bound(t, 5);
        if ti < t.len() {
            lemma_tail_index_bound(t, ti as nat);
        }
    }
    let mut i: usize = 5;
    while i < ti
        invariant
            5 <= i <= ti <= toks@.len(),
            t == seqs_of(toks@),
            ti == tail_index(t, 5),
            ti < t.len() ==> ti == tail_index(t, ti as nat),
            rect_spec(t, line) == rect_body(t, r0, line),
            rect_opts(t, 5, i as nat, (r0, LegendPos::Auto), line) == Ok::<(RectView, LegendPos), ErrorView>(
                (rect@, pos),
            ),
        decreases ti - i,
    {
        let tk = toks[i].as_slice();
        assert(t[i as int] == tk@);
        match rect_option(&mut rect, &mut pos, tk, line) {
            Ok(()) => {},
            Err(e) => {
                proof {
                    lemma_rect_opts_err(t, 5, (i + 1) as nat, ti as nat, (r0, LegendPos::Auto), line);
                }
                return Err(e);
            },
        }
        i = i + 1;
    }
    match rect_texts(toks, ti, &mut rect, pos, line) {
        Ok(()) => {},
        Err(e) => return Err(e),
    }
    Ok(DslCommand::Object(DrawObject::Rect(rect)))
}

/// The text's id after the tokens `3..k` before its content: each `id=`
/// token sets it (checked); other tokens are ignored.
pub open spec fn text_ids(toks: Seq<Seq<char>>, k: nat, line: usize) -> Result<Option<Seq<char>>, ErrorView>
    decreases k,
{
    if k <= 3 {
        Ok(None)
    } else {
        match text_ids(toks, (k - 1) as nat, line) {
            Err(e) => Err(e),
            Ok(id) => match strip_spec(toks[k - 1], "id="@) {
                Some(v) => match id_error(v, line) {
                    Some(e) => Err(e),
                    None => Ok(Some(v)),
                },
                None => Ok(id),
            },
        }
    }
}

/// Once reading the text's id has failed, later tokens change nothing.
proof fn lemma_text_ids_err(toks: Seq<Seq<char>>, k: nat, n: nat, line: usize)
    requires
        3 <= k <= n,
        text_ids(toks, k, line) is Err,
    ensures
        text_ids(toks, n, line) == text_ids(toks, k, line),
    decreases n - k,
{
    if k < n {
        lemma_text_ids_err(toks, k, (n - 1) as nat, line);
    }
}

/// `text <col> <row> [id=<name>] c=<content>`: other tokens before the
/// content are ignored.
pub open spec fn text_spec(toks: Seq<Seq<char>>, line: usize) -> Result<CommandView, ErrorView> {
    if toks.len() < 4 {
        Err(perr(line, "text requires col, row, content=<value>"@))
    } else {
        match number_spec(toks[1], "col"@, line) {
            Err(e) => Err(e),
            Ok(col) => match number_spec(toks[2], "row"@, line) {
                Err(e) => Err(e),
                Ok(row) => text_body(toks, col, row, line),
            },
        }
    }
}

/// The text command once its place is read: its id, then its content.
pub open spec fn text_body(toks: Seq<Seq<char>>, col: usize, row: usize, line: usize) -> Result<CommandView, ErrorView> {
    match text_ids(toks, content_index(toks, 3), line) {
        Err(e) => Err(e),
        Ok(id) => match content_spec(toks, 3, line) {
            Err(e) => Err(e),
            Ok(c) => Ok(CommandView::Object(DrawObjectView::Text(TextView { col, row, content: c, id }))),
        },
    }
}

/// Reads a text command.
fn parse_text(toks: &Vec<Vec<char>>, line: usize) -> (r: Result<DslCommand, UnidError>)
    ensures
        match r {
            Ok(c) => text_spec(seqs_of(toks@), line) == Ok::<CommandView, ErrorView>(c@),
            Err(e) => text_spec(seqs_of(toks@), line) == Err::<CommandView, ErrorView>(e@),
        },
{
    let ghost t = seqs_of(toks@);
    if toks.len() < 4 {
        let mut m: Vec<char> = Vec::new();
        push_str(&mut m, "text requires col, row, content=<value>");
        return Err(parse_error(line, m));
    }
    assert(t[1] == toks@[1]@ && t[2] == toks@[2]@);
    let col = match parse_number(toks[1].as_slice(), "col", line) {
        Ok(n) => n,
        Err(e) => return Err(e),
    };
    let row = match parse_number(toks[2].as_slice(), "row", line) {
        Ok(n) => n,
        Err(e) => return Err(e),
    };
    let ci = content_token_index(toks, 3);
    proof {
        lemma_content_index_bound(t, 3);
    }
    let mut id: Option<Vec<char>> = None;
    let mut i: usize = 3;
    while i < ci
        invariant
            3 <= i <= ci <= toks@.len(),
            t == seqs_of(toks@),
            ci == content_index(t, 3),
            text_spec(t, line) == text_body(t, col, row, line),
            text_ids(t, i as nat, line) == Ok::<Option<Seq<char>>, ErrorView>(
                match id {
                    Some(v) => Some(v@),
                    None => None,
                },
            ),
        decreases ci - i,
    {
        let tk = toks[i].as_slice();
        assert(t[i as int] == tk@);
        match strip(tk, "id=") {
            Some(v) => {
                match validate_id(v.as_slice(), line) {
                    Ok(()) => {},
                    Err(e) => {
                        proof {
                            lemma_text_ids_err(t, (i + 1) as nat, ci as nat, line);
                        }
                        return Err(e);
                    },
                }
                id = Some(v);
            },
            None => {},
        }
        i = i + 1;
    }
    let content = match extract_content(toks, 3, line) {
        Ok(c) => c,
        Err(e) => return Err(e),
    };
    let s = string_from_chars(content.as_slice());
    let mut text = Text::new(col, row, s.as_str());
    text.id = match id {
        Some(v) => Some(string_from_chars(v.as_slice())),
        None => None,
    };
    Ok(DslCommand::Object(DrawObject::Text(text)))
}

/// The line and the position of its legend after one option token of an
/// `hline` or `vline` command (`kind`).
pub open spec fn line_step(st: (LineView, LegendPos), t: Seq<char>, kind: Seq<char>, line: usize) -> Result<
    (LineView, LegendPos),
    ErrorView,
> {
    let l = st.0;
    match strip_spec(t, "id="@) {
        Some(v) => match id_error(v, line) {
            Some(e) => Err(e),
            None => Ok((LineView { id: Some(v), ..l }, st.1)),
        },
        None => match style_value(t) {
            Some(v) => match line_style_spec(v, line) {
                Ok(s) => Ok((LineView { style: s, ..l }, st.1)),
                Err(e) => Err(e),
            },
            None => match strip_spec(t, "pos="@) {
                Some(v) => match position_spec(v, line) {
                    Ok(p) => Ok((l, p)),
                    Err(e) => Err(e),
                },
                None => Err(perr(line, "unknown "@ + kind + " option "@ + quoted(t))),
            },
        },
    }
}

/// The line and its legend position after the option tokens `4..k`, read
/// left to right; the first error stops the reading.
pub open spec fn line_opts(toks: Seq<Seq<char>>, k: nat, st0: (LineView, LegendPos), kind: Seq<char>, line: usize) -> Result<
    (LineView, LegendPos),
    ErrorView,
>
    decreases k,
{
    if k <= 4 {
        Ok(st0)
    } else {
        match line_opts(toks, (k - 1) as nat, st0, kind, line) {
            Err(e) => Err(e),
            Ok(st) => line_step(st, toks[k - 1], kind, line),
        }
    }
}

/// Once reading the line options has failed, later options change nothing.
proof fn lemma_line_opts_err(
    toks: Seq<Seq<char>>,
    k: nat,
    n: nat,
    st0: (LineView, LegendPos),
    kind: Seq<char>,
    line: usize,
)
    requires
        4 <= k <= n,
        line_opts(toks, k, st0, kind, line) is Err,
    ensures
        line_opts(toks, n, st0, kind, line) == line_opts(toks, k, st0, kind, line),
    decreases n - k,
{
    if k < n {
        lemma_line_opts_err(toks, k, (n - 1) as nat, st0, kind, line);
    }
}

/// The line with its legend from token `ti` on: a legend reaching to the end
/// of the line; a content token is not an option of lines.
pub open spec fn line_tail(toks: Seq<Seq<char>>, ti: nat, st: (LineView, LegendPos), kind: Seq<char>, line: usize) -> Result<
    LineView,
    ErrorView,
> {
    if ti >= toks.len() {
        Ok(st.0)
    } else if is_legend_tok(toks[ti as int]) {
        match legend_spec(toks, ti, line) {
            Err(e) => Err(e),
            Ok(txt) => {
                let ci = content_index(toks, ti + 1);
                if ci < toks.len() {
                    Err(perr(line, "unknown "@ + kind + " option "@ + quoted(toks[ci as int])))
                } else {
                    Ok(LineView { legend: Some(legend_of(txt, st.1)), ..st.0 })
                }
            },
        }
    } else {
        Err(perr(line, "unknown "@ + kind + " option "@ + quoted(toks[ti as int])))
    }
}

/// The `hline` or `vline` command once its numbers are read.
pub open spec fn line_body(toks: Seq<Seq<char>>, l0: LineView, kind: Seq<char>, vertical: bool, line: usize) -> Result<
    CommandView,
    ErrorView,
> {
    let ti = tail_index(toks, 4);
    match line_opts(toks, ti, (l0, LegendPos::Auto), kind, line) {
        Err(e) => Err(e),
        Ok(st) => match line_tail(toks, ti, st, kind, line) {
            Err(e) => Err(e),
            Ok(l) => Ok(CommandView::Object(
                if vertical { DrawObjectView::VLine(l) } else { DrawObjectView::HLine(l) },
            )),
        },
    }
}

/// `hline|vline <col> <row> <length> [id=<name>] [s=<style>] [pos=<pos>]
/// [lg=<legend>]`; `vertical` tells which.
pub open spec fn line_cmd_spec(toks: Seq<Seq<char>>, kind: Seq<char>, vertical: bool, line: usize) -> Result<CommandView, ErrorView> {
    if toks.len() < 4 {
        Err(perr(line, kind + " requires col, row, length"@))
    } else {
        match number_spec(toks[1], "col"@, line) {
            Err(e) => Err(e),
            Ok(col) => match number_spec(toks[2], "row"@, line) {
                Err(e) => Err(e),
                Ok(row) => match number_spec(toks[3], "length"@, line) {
                    Err(e) => Err(e),
                    Ok(length) => line_body(
                        toks,
                        LineView { col, row, length, style: LineStyle::Light, id: None, legend: None },
                        kind,
                        vertical,
                        line,
                    ),
                },
            },
        }
    }
}

/// Reads one option token of a line.
fn line_option(
    st: (LineStyle, Option<Vec<char>>, LegendPos),
    tk: &[char],
    kind: &str,
    line: usize,
    l0: Ghost<LineView>,
) -> (r: Result<(LineStyle, Option<Vec<char>>, LegendPos), UnidError>)
    ensures
        ({
            let before = (
                LineView {
                    style: st.0,
                    id: match st.1 {
                        Some(v) => Some(v@),
                        None => None,
                    },
                    ..l0@
                },
                st.2,
            );
            match r {
                Ok(x) => line_step(before, tk@, kind@, line) == Ok::<(LineView, LegendPos), ErrorView>(
                    (
                        LineView {
                            style: x.0,
                            id: match x.1 {
                                Some(v) => Some(v@),
                                None => None,
                            },
                            ..l0@
                        },
                        x.2,
                    ),
                ),
                Err(e) => line_step(before, tk@, kind@, line) == Err::<(LineView, LegendPos), ErrorView>(e@),
            }
        }),
{
    match strip(tk, "id=") {
        Some(v) => match validate_id(v.as_slice(), line) {
            Ok(()) => Ok((st.0, Some(v), st.2)),
            Err(e) => Err(e),
        },
        None => match style_option(tk) {
            Some(v) => match parse_line_style(v.as_slice(), line) {
                Ok(s) => Ok((s, st.1, st.2)),
                Err(e) => Err(e),
            },
            None => match strip(tk, "pos=") {
                Some(v) => match parse_position(v.as_slice(), line) {
                    Ok(p) => Ok((st.0, st.1, p)),
                    Err(e) => Err(e),
                },
                None => {
                    let mut m: Vec<char> = Vec::new();
                    push_str(&mut m, "unknown ");
                    push_str(&mut m, kind);
                    push_str(&mut m, " option ");
                    push_quoted(&mut m, tk);
                    Err(parse_error(line, m))
                },
            },
        },
    }
}

/// The error for a token that is not an option of a line.
fn line_option_error(kind: &str, tk: &[char], line: usize) -> (e: UnidError)
    ensures
        e@ == perr(line, "unknown "@ + kind@ + " option "@ + quoted(tk@)),
{
    let mut m: Vec<char> = Vec::new();
    push_str(&mut m, "unknown ");
    push_str(&mut m, kind);
    push_str(&mut m, " option ");
    push_quoted(&mut m, tk);
    parse_error(line, m)
}

/// Reads an `hline` or `vline` command.
fn parse_line_cmd(toks: &Vec<Vec<char>>, vertical: bool, line: usize) -> (r: Result<DslCommand, UnidError>)
    ensures
        ({
            let kind = if vertical { "vline"@ } else { "hline"@ };
            match r {
                Ok(c) => line_cmd_spec(seqs_of(toks@), kind, vertical, line) == Ok::<CommandView, ErrorView>(c@),
                Err(e) => line_cmd_spec(seqs_of(toks@), kind, vertical, line) == Err::<CommandView, ErrorView>(e@),
            }
        }),
{
    let ghost t = seqs_of(toks@);
    let kind: &str = if vertical { "vline" } else { "hline" };
    if toks.len() < 4 {
        let mut m: Vec<char> = Vec::new();
        push_str(&mut m, kind);
        push_str(&mut m, " requires col, row, length");
        return Err(parse_error(line, m));
    }
    assert(t[1] == toks@[1]@ && t[2] == toks@[2]@ && t[3] == toks@[3]@);
    let col = match parse_number(toks[1].as_slice(), "col", line) {
        Ok(n) => n,
        Err(e) => return Err(e),
    };
    let row = match parse_number(toks[2].as_slice(), "row", line) {
        Ok(n) => n,
        Err(e) => return Err(e),
    };
    let length = match parse_number(toks[3].as_slice(), "length", line) {
        Ok(n) => n,
        Err(e) => return Err(e),
    };
    let ghost l0 = LineView { col, row, length, style: LineStyle::Light, id: None, legend: None };
    let ti = tail_token_index(toks, 4);
    proof {
        lemma_tail_index_bound(t, 4);
        if ti < t.len() {
            lemma_tail_index_bound(t, ti as nat);
        }
    }
    let mut st: (LineStyle, Option<Vec<char>>, LegendPos) = (LineStyle::Light, None, LegendPos::Auto);
    let mut i: usize = 4;
    while i < ti
        invariant
            4 <= i <= ti <= toks@.len(),
            t == seqs_of(toks@),
            ti == tail_index(t, 4),
            kind@ == (if vertical { "vline"@ } else { "hline"@ }),
            line_cmd_spec(t, kind@, vertical, line) == line_body(t, l0, kind@, vertical, line),
            line_opts(t, i as nat, (l0, LegendPos::Auto), kind@, line) == Ok::<(LineView, LegendPos), ErrorView>(
                (
                    LineView {
                        style: st.0,
                        id: match st.1 {
                            Some(v) => Some(v@),
                            None => None,
                        },
                        ..l0
                    },
                    st.2,
                ),
            ),
        decreases ti - i,
    {
        let tk = toks[i].as_slice();
        assert(t[i as int] == tk@);
        match line_option(st, tk, kind, line, Ghost(l0)) {
            Ok(x) => {
                st = x;
            },
            Err(e) => {
                proof {
                    lemma_line_opts_err(t, (i + 1) as nat, ti as nat, (l0, LegendPos::Auto), kind@, line);
                }
                return Err(e);
            },
        }
        i = i + 1;
    }
    let (style, id, pos) = st;
    let mut legend: Option<Legend> = None;
    if ti < toks.len() {
        assert(t[ti as int] == toks@[ti as int]@);
        if is_legend_token(toks[ti].as_slice()) {
            let txt = match extract_legend(toks, ti, line) {
                Ok(v) => v,
                Err(e) => return Err(e),
            };
            let ci = content_token_index(toks, ti + 1);
            proof {
                lemma_content_index_bound(t, (ti + 1) as nat);
            }
            if ci < toks.len() {
                assert(t[ci as int] == toks@[ci as int]@);
                return Err(line_option_error(kind, toks[ci].as_slice(), line));
            }
            legend = Some(make_legend(&txt, pos));
        } else {
            return Err(line_option_error(kind, toks[ti].as_slice(), line));
        }
    }
    let id_s = match id {
        Some(v) => Some(string_from_chars(v.as_slice())),
        None => None,
    };
    if vertical {
        let mut v = VLine::new(col, row, length);
        v.style = style;
        v.id = id_s;
        v.legend = legend;
        Ok(DslCommand::Object(DrawObject::VLine(v)))
    } else {
        let mut h = HLine::new(col, row, length);
        h.style = style;
        h.id = id_s;
        h.legend = legend;
        Ok(DslCommand::Object(DrawObject::HLine(h)))
    }
}

/// The error for an arrowhead that is not a single character.
pub open spec fn head_error(v: Seq<char>, line: usize) -> ErrorView {
    perr(line, "invalid arrowhead "@ + quoted(v) + " (expected a single character)"@)
}

/// The arrow's head, two-way flag and legend position after one option
/// token: `head=<char>`, `both`, `pos=<pos>`; other tokens are ignored.
pub open spec fn arrow_step(st: (Option<char>, bool, LegendPos), t: Seq<char>, line: usize) -> Result<
    (Option<char>, bool, LegendPos),
    ErrorView,
> {
    match strip_spec(t, "head="@) {
        Some(v) => if v.len() == 1 {
            Ok((Some(v[0]), st.1, st.2))
        } else {
            Err(head_error(v, line))
        },
        None => if t == "both"@ {
            Ok((st.0, true, st.2))
        } else {
            match strip_spec(t, "pos="@) {
                Some(v) => match position_spec(v, line) {
                    Ok(p) => Ok((st.0, st.1, p)),
                    Err(e) => Err(e),
                },
                None => Ok(st),
            }
        },
    }
}

/// The arrow's options after the tokens `3..k`, read left to right; the
/// first error stops the reading.
pub open spec fn arrow_opts(toks: Seq<Seq<char>>, k: nat, line: usize) -> Result<(Option<char>, bool, LegendPos), ErrorView>
    decreases k,
{
    if k <= 3 {
        Ok((None, false, LegendPos::Auto))
    } else {
        match arrow_opts(toks, (k - 1) as nat, line) {
            Err(e) => Err(e),
            Ok(st) => arrow_step(st, toks[k - 1], line),
        }
    }
}

/// Once reading the arrow's options has failed, later options change nothing.
proof fn lemma_arrow_opts_err(toks: Seq<Seq<char>>, k: nat, n: nat, line: usize)
    requires
        3 <= k <= n,
        arrow_opts(toks, k, line) is Err,
    ensures
        arrow_opts(toks, n, line) == arrow_opts(toks, k, line),
    decreases n - k,
{
    if k < n {
        lemma_arrow_opts_err(toks, k, (n - 1) as nat, line);
    }
}

/// The arrow command once its anchors are read: its options up to the first
/// legend or content token, then its legend if one follows (a content is
/// ignored).
pub open spec fn arrow_body(
    toks: Seq<Seq<char>>,
    sid: Seq<char>,
    ss: Side,
    did: Seq<char>,
    ds: Side,
    line: usize,
) -> Result<CommandView, ErrorView> {
    let ti = tail_index(toks, 3);
    match arrow_opts(toks, ti, line) {
        Err(e) => Err(e),
        Ok(st) => {
            let legend: Result<Option<LegendView>, ErrorView> = if ti < toks.len() && is_legend_tok(
                toks[ti as int],
            ) {
                match legend_spec(toks, ti, line) {
                    Err(e) => Err(e),
                    Ok(txt) => Ok(Some(legend_of(txt, st.2))),
                }
            } else {
                Ok(None)
            };
            match legend {
                Err(e) => Err(e),
                Ok(lg) => Ok(
                    CommandView::Arrow {
                        src_id: sid,
                        src_side: ss,
                        dst_id: did,
                        dst_side: ds,
                        head: st.0,
                        both: st.1,
                        legend: lg,
                        line,
                    },
                ),
            }
        },
    }
}

/// `arrow <src_id>.<side> <dst_id>.<side> [head=<char>] [both] [pos=<pos>]
/// [lg=<legend>]`: an arrow between two objects named by id, resolved later.
pub open spec fn arrow_spec(toks: Seq<Seq<char>>, line: usize) -> Result<CommandView, ErrorView> {
    if toks.len() < 3 {
        Err(
            perr(
                line,
                "arrow requires <src_id>.<side> <dst_id>.<side> (e.g., 'arrow api.right db.top')"@,
            ),
        )
    } else {
        match anchor_ref_spec(toks[1], line) {
            Err(e) => Err(e),
            Ok((sid, ss)) => match anchor_ref_spec(toks[2], line) {
                Err(e) => Err(e),
                Ok((did, ds)) => arrow_body(toks, sid, ss, did, ds, line),
            },
        }
    }
}

/// The error for an arrowhead that is not a single character.
fn arrowhead_error(v: &[char], line: usize) -> (e: UnidError)
    ensures
        e@ == head_error(v@, line),
{
    let mut m: Vec<char> = Vec::new();
    push_str(&mut m, "invalid arrowhead ");
    push_quoted(&mut m, v);
    push_str(&mut m, " (expected a single character)");
    parse_error(line, m)
}

/// Reads one option token of an arrow.
fn arrow_option(st: (Option<char>, bool, LegendPos), tk: &[char], line: usize) -> (r: Result<
    (Option<char>, bool, LegendPos),
    UnidError,
>)
    ensures
        match r {
            Ok(x) => arrow_step(st, tk@, line) == Ok::<(Option<char>, bool, LegendPos), ErrorView>(x),
            Err(e) => arrow_step(st, tk@, line) == Err::<(Option<char>, bool, LegendPos), ErrorView>(e@),
        },
{
    match strip(tk, "head=") {
        Some(v) => if v.len() == 1 {
            Ok((Some(v[0]), st.1, st.2))
        } else {
            Err(arrowhead_error(v.as_slice(), line))
        },
        None => {
            let both = chars_of("both");
            if same_chars(tk, both.as_slice()) {
                Ok((st.0, true, st.2))
            } else {
                match strip(tk, "pos=") {
                    Some(v) => match parse_position(v.as_slice(), line) {
                        Ok(p) => Ok((st.0, st.1, p)),
                        Err(e) => Err(e),
                    },
                    None => Ok(st),
                }
            }
        },
    }
}

/// Reads an arrow command.
fn parse_arrow(toks: &Vec<Vec<char>>, line: usize) -> (r: Result<DslCommand, UnidError>)
    ensures
        match r {
            Ok(c) => arrow_spec(seqs_of(toks@), line) == Ok::<CommandView, ErrorView>(c@),
            Err(e) => arrow_spec(seqs_of(toks@), line) == Err::<CommandView, ErrorView>(e@),
        },
{
    let ghost t = seqs_of(toks@);
    if toks.len() < 3 {
        let mut m: Vec<char> = Vec::new();
        push_str(
            &mut m,
            "arrow requires <src_id>.<side> <dst_id>.<side> (e.g., 'arrow api.right db.top')",
        );
        return Err(parse_error(line, m));
    }
    assert(t[1] == toks@[1]@ && t[2] == toks@[2]@);
    let (sid, ss) = match parse_anchor(toks[1].as_slice(), line) {
        Ok(a) => a,
        Err(e) => return Err(e),
    };
    let (did, ds) = match parse_anchor(toks[2].as_slice(), line) {
        Ok(a) => a,
        Err(e) => return Err(e),
    };
    let ti = tail_token_index(toks, 3);
    proof {
        lemma_tail_index_bound(t, 3);
    }
    let mut st: (Option<char>, bool, LegendPos) = (None, false, LegendPos::Auto);
    let mut i: usize = 3;
    while i < ti
        invariant
            3 <= i <= ti <= toks@.len(),
            t == seqs_of(toks@),
            ti == tail_index(t, 3),
            arrow_spec(t, line) == arrow_body(t, sid@, ss, did@, ds, line),
            arrow_opts(t, i as nat, line) == Ok::<(Option<char>, bool, LegendPos), ErrorView>(st),
        decreases ti - i,
    {
        let tk = toks[i].as_slice();
        assert(t[i as int] == tk@);
        match arrow_option(st, tk, line) {
            Ok(x) => {
                st = x;
            },
            Err(e) => {
                proof {
                    lemma_arrow_opts_err(t, (i + 1) as nat, ti as nat, line);
                }
                return Err(e);
            },
        }
        i = i + 1;
    }
    let mut legend: Option<Legend> = None;
    if ti < toks.len() {
        assert(t[ti as int] == toks@[ti as int]@);
        if is_legend_token(toks[ti].as_slice()) {
            let txt = match extract_legend(toks, ti, line) {
                Ok(v) => v,
                Err(e) => return Err(e),
            };
            legend = Some(make_legend(&txt, st.2));
        }
    }
    Ok(
        DslCommand::Arrow {
            src_id: string_from_chars(sid.as_slice()),
            src_side: ss,
            dst_id: string_from_chars(did.as_slice()),
            dst_side: ds,
            head: st.0,
            both: st.1,
            legend,
            line,
        },
    )
}

/// `arrowhead <char>`: the arrowhead family of arrows that name none.
pub open spec fn arrowhead_spec(toks: Seq<Seq<char>>, line: usize) -> Result<CommandView, ErrorView> {
    if toks.len() < 2 {
        Err(perr(line, "arrowhead requires a character (e.g., 'arrowhead ▶')"@))
    } else if toks[1].len() != 1 {
        Err(head_error(toks[1], line))
    } else {
        Ok(CommandView::Arrowhead(toks[1][0]))
    }
}

/// Reads an arrowhead command.
fn parse_arrowhead(toks: &Vec<Vec<char>>, line: usize) -> (r: Result<DslCommand, UnidError>)
    ensures
        match r {
            Ok(c) => arrowhead_spec(seqs_of(toks@), line) == Ok::<CommandView, ErrorView>(c@),
            Err(e) => arrowhead_spec(seqs_of(toks@), line) == Err::<CommandView, ErrorView>(e@),
        },
{
    let ghost t = seqs_of(toks@);
    if toks.len() < 2 {
        let mut m: Vec<char> = Vec::new();
        push_str(&mut m, "arrowhead requires a character (e.g., 'arrowhead ▶')");
        return Err(parse_error(line, m));
    }
    assert(t[1] == toks@[1]@);
    let v = toks[1].as_slice();
    if v.len() != 1 {
        return Err(arrowhead_error(v, line));
    }
    Ok(DslCommand::Arrowhead(v[0]))
}

/// One command, chosen by its first token in any letter case.
pub open spec fn command_spec(toks: Seq<Seq<char>>, line: usize) -> Result<CommandView, ErrorView>
    recommends
        toks.len() > 0,
{
    let k = lower_seq(toks[0]);
    if k == "canvas"@ {
        canvas_spec(toks, line)
    } else if k == "collision"@ {
        collision_spec(toks, line)
    } else if k == "rect"@ {
        rect_spec(toks, line)
    } else if k == "text"@ {
        text_spec(toks, line)
    } else if k == "hline"@ {
        line_cmd_spec(toks, "hline"@, false, line)
    } else if k == "vline"@ {
        line_cmd_spec(toks, "vline"@, true, line)
    } else if k == "arrow"@ {
        arrow_spec(toks, line)
    } else if k == "arrowhead"@ {
        arrowhead_spec(toks, line)
    } else {
        Err(perr(line, "unknown command "@ + quoted(toks[0])))
    }
}

/// Reads one command.
fn parse_command(toks: &Vec<Vec<char>>, line: usize) -> (r: Result<DslCommand, UnidError>)
    requires
        toks@.len() > 0,
    ensures
        match r {
            Ok(c) => command_spec(seqs_of(toks@), line) == Ok::<CommandView, ErrorView>(c@),
            Err(e) => command_spec(seqs_of(toks@), line) == Err::<CommandView, ErrorView>(e@),
        },
{
    let ghost t = seqs_of(toks@);
    let k = toks[0].as_slice();
    assert(t[0] == k@);
    if eq_lower(k, "canvas") {
        parse_canvas(toks, line)
    } else if eq_lower(k, "collision") {
        parse_collision(toks, line)
    } else if eq_lower(k, "rect") {
        parse_rect(toks, line)
    } else if eq_lower(k, "text") {
        parse_text(toks, line)
    } else if eq_lower(k, "hline") {
        parse_line_cmd(toks, false, line)
    } else if eq_lower(k, "vline") {
        parse_line_cmd(toks, true, line)
    } else if eq_lower(k, "arrow") {
        parse_arrow(toks, line)
    } else if eq_lower(k, "arrowhead") {
        parse_arrowhead(toks, line)
    } else {
        let mut m: Vec<char> = Vec::new();
        push_str(&mut m, "unknown command ");
        push_quoted(&mut m, k);
        Err(parse_error(line, m))
    }
}

/// What a line of the description gives: nothing for a blank line or a
/// comment, else the command its tokens form (or the error).
pub open spec fn line_spec(text: Seq<char>, n: usize) -> Option<Result<CommandView, ErrorView>> {
    let t = trim_spec(text);
    if t.len() == 0 || t[0] == '#' {
        None
    } else {
        let toks = words_spec(t);
        if toks.len() == 0 {
            None
        } else {
            Some(command_spec(toks, n))
        }
    }
}

/// The commands of the first `k` lines, numbered from 1; the error of the
/// first line that fails.
pub open spec fn parse_lines(lines: Seq<Seq<char>>, k: nat) -> Result<Seq<CommandView>, ErrorView>
    decreases k,
{
    if k == 0 {
        Ok(Seq::empty())
    } else {
        match parse_lines(lines, (k - 1) as nat) {
            Err(e) => Err(e),
            Ok(cs) => match line_spec(lines[k - 1], k as usize) {
                None => Ok(cs),
                Some(Ok(c)) => Ok(cs.push(c)),
                Some(Err(e)) => Err(e),
            },
        }
    }
}

/// The commands a description gives, in order, or the error of its first
/// failing line.
pub open spec fn parse_spec(input: Seq<char>) -> Result<Seq<CommandView>, ErrorView> {
    parse_lines(lines_spec(input), lines_spec(input).len())
}

/// Once a line has failed, later lines change nothing.
proof fn lemma_parse_lines_err(lines: Seq<Seq<char>>, k: nat, n: nat)
    requires
        k <= n,
        parse_lines(lines, k) is Err,
    ensures
        parse_lines(lines, n) == parse_lines(lines, k),
    decreases n - k,
{
    if k < n {
        lemma_parse_lines_err(lines, k, (n - 1) as nat);
    }
}

/// Parses DSL text into a list of commands.
/// Lines are separated by newlines only. Comments start with #.
pub fn parse(input: &str) -> (r: Result<Vec<DslCommand>, UnidError>)
    ensures
        match r {
            Ok(v) => parse_spec(input@) == Ok::<Seq<CommandView>, ErrorView>(commands_view(v@)),
            Err(e) => parse_spec(input@) == Err::<Seq<CommandView>, ErrorView>(e@),
        },
{
    let chars = chars_of(input);
    let lines = lines_of(chars.as_slice());
    let ghost ls = seqs_of(lines@);
    let mut commands: Vec<DslCommand> = Vec::new();
    assert(commands_view(commands@) =~= Seq::<CommandView>::empty());
    let mut i: usize = 0;
    while i < lines.len()
        invariant
            i <= lines@.len(),
            ls == seqs_of(lines@),
            ls == lines_spec(input@),
            parse_lines(ls, i as nat) == Ok::<Seq<CommandView>, ErrorView>(commands_view(commands@)),
        decreases lines.len() - i,
    {
        let line_no = i + 1;
        assert(ls[i as int] == lines@[i as int]@);
        let trimmed = trim_chars(lines[i].as_slice());
        let ghost before = commands@;
        if trimmed.len() == 0 || trimmed[0] == '#' {
        } else {
            let toks = split_words(trimmed.as_slice());
            if toks.len() == 0 {
            } else {
                match parse_command(&toks, line_no) {
                    Ok(c) => {
                        commands.push(c);
                        assert(commands_view(commands@) =~= commands_view(before).push(c@));
                    },
                    Err(e) => {
                        proof {
                            lemma_parse_lines_err(ls, (i + 1) as nat, ls.len());
                        }
                        return Err(e);
                    },
                }
            }
        }
        i = i + 1;
    }
    Ok(commands)
}

/// Two token lists that differ at most in their first token.
pub open spec fn same_args(a: Seq<Seq<char>>, b: Seq<Seq<char>>) -> bool {
    a.len() == b.len() && forall|i: int| 1 <= i < a.len() ==> #[trigger] a[i] == b[i]
}

proof fn lemma_content_index_args(a: Seq<Seq<char>>, b: Seq<Seq<char>>, i: nat)
    requires
        same_args(a, b),
        i >= 1,
    ensures
        content_index(a, i) == content_index(b, i),
    decreases a.len() - i,
{
    if i < a.len() {
        assert(a[i as int] == b[i as int]);
        lemma_content_index_args(a, b, i + 1);
    }
}

proof fn lemma_tail_index_args(a: Seq<Seq<char>>, b: Seq<Seq<char>>, i: nat)
    requires
        same_args(a, b),
        i >= 1,
    ensures
        tail_index(a, i) == tail_index(b, i),
    decreases a.len() - i,
{
    if i < a.len() {
        assert(a[i as int] == b[i as int]);
        lemma_tail_index_args(a, b, i + 1);
    }
}

proof fn lemma_content_args(a: Seq<Seq<char>>, b: Seq<Seq<char>>, from: nat, line: usize)
    requires
        same_args(a, b),
        from >= 1,
    ensures
        content_spec(a, from, line) == content_spec(b, from, line),
{
    lemma_content_index_args(a, b, from);
    lemma_content_index_bound(a, from);
    let i = content_index(a, from);
    if i < a.len() {
        assert(a[i as int] == b[i as int]);
        assert(a.skip((i + 1) as int) =~= b.skip((i + 1) as int));
    }
}

proof fn lemma_legend_args(a: Seq<Seq<char>>, b: Seq<Seq<char>>, i: nat, line: usize)
    requires
        same_args(a, b),
        1 <= i < a.len(),
    ensures
        legend_spec(a, i, line) == legend_spec(b, i, line),
{
    lemma_content_index_args(a, b, i + 1);
    lemma_content_index_bound(a, i + 1);
    assert(a[i as int] == b[i as int]);
    let end = content_index(a, i + 1);
    assert(a.subrange((i + 1) as int, end as int) =~= b.subrange((i + 1) as int, end as int));
}

proof fn lemma_canvas_opts_args(a: Seq<Seq<char>>, b: Seq<Seq<char>>, lo: nat, k: nat, line: usize)
    requires
        same_args(a, b),
        lo >= 1,
        k <= a.len(),
    ensures
        canvas_opts(a, lo, k, line) == canvas_opts(b, lo, k, line),
    decreases k,
{
    if k > lo {
        lemma_canvas_opts_args(a, b, lo, (k - 1) as nat, line);
        assert(a[k - 1] == b[k - 1]);
    }
}

proof fn lemma_rect_opts_args(a: Seq<Seq<char>>, b: Seq<Seq<char>>, k: nat, st0: (RectView, LegendPos), line: usize)
    requires
        same_args(a, b),
        k <= a.len(),
    ensures
        rect_opts(a, 5, k, st0, line) == rect_opts(b, 5, k, st0, line),
    decreases k,
{
    if k > 5 {
        lemma_rect_opts_args(a, b, (k - 1) as nat, st0, line);
        assert(a[k - 1] == b[k - 1]);
    }
}

proof fn lemma_text_ids_args(a: Seq<Seq<char>>, b: Seq<Seq<char>>, k: nat, line: usize)
    requires
        same_args(a, b),
        k <= a.len(),
    ensures
        text_ids(a, k, line) == text_ids(b, k, line),
    decreases k,
{
    if k > 3 {
        lemma_text_ids_args(a, b, (k - 1) as nat, line);
        assert(a[k - 1] == b[k - 1]);
    }
}

proof fn lemma_line_opts_args(
    a: Seq<Seq<char>>,
    b: Seq<Seq<char>>,
    k: nat,
    st0: (LineView, LegendPos),
    kind: Seq<char>,
    line: usize,
)
    requires
        same_args(a, b),
        k <= a.len(),
    ensures
        line_opts(a, k, st0, kind, line) == line_opts(b, k, st0, kind, line),
    decreases k,
{
    if k > 4 {
        lemma_line_opts_args(a, b, (k - 1) as nat, st0, kind, line);
        assert(a[k - 1] == b[k - 1]);
    }
}

proof fn lemma_arrow_opts_args(a: Seq<Seq<char>>, b: Seq<Seq<char>>, k: nat, line: usize)
    requires
        same_args(a, b),
        k <= a.len(),
    ensures
        arrow_opts(a, k, line) == arrow_opts(b, k, line),
    decreases k,
{
    if k > 3 {
        lemma_arrow_opts_args(a, b, (k - 1) as nat, line);
        assert(a[k - 1] == b[k - 1]);
    }
}

proof fn lemma_canvas_args(a: Seq<Seq<char>>, b: Seq<Seq<char>>, line: usize)
    requires
        same_args(a, b),
    ensures
        canvas_spec(a, line) == canvas_spec(b, line),
{
    if a.len() >= 3 {
        assert(a[1] == b[1] && a[2] == b[2]);
        lemma_canvas_opts_args(a, b, 3, a.len(), line);
    }
    if a.len() >= 2 {
        assert(a[1] == b[1]);
        lemma_canvas_opts_args(a, b, 2, a.len(), line);
    }
}

proof fn lemma_rect_args(a: Seq<Seq<char>>, b: Seq<Seq<char>>, line: usize)
    requires
        same_args(a, b),
    ensures
        rect_spec(a, line) == rect_spec(b, line),
{
    if a.len() >= 5 {
        assert(a[1] == b[1] && a[2] == b[2] && a[3] == b[3] && a[4] == b[4]);
        lemma_tail_index_args(a, b, 5);
        lemma_tail_index_bound(a, 5);
        let ti = tail_index(a, 5);
        assert forall|r0: RectView| #[trigger] rect_body(a, r0, line) == rect_body(b, r0, line) by {
            lemma_rect_opts_args(a, b, ti, (r0, LegendPos::Auto), line);
            if let Ok(st) = rect_opts(a, 5, ti, (r0, LegendPos::Auto), line) {
                if ti < a.len() {
                    assert(a[ti as int] == b[ti as int]);
                    if is_legend_tok(a[ti as int]) {
                        lemma_legend_args(a, b, ti, line);
                        lemma_content_index_args(a, b, ti + 1);
                        lemma_content_index_bound(a, ti + 1);
                        lemma_content_args(a, b, content_index(a, ti + 1), line);
                    } else {
                        lemma_content_args(a, b, ti, line);
                    }
                }
            }
        }
    }
}

proof fn lemma_text_args(a: Seq<Seq<char>>, b: Seq<Seq<char>>, line: usize)
    requires
        same_args(a, b),
    ensures
        text_spec(a, line) == text_spec(b, line),
{
    if a.len() >= 4 {
        assert(a[1] == b[1] && a[2] == b[2]);
        lemma_content_index_args(a, b, 3);
        lemma_content_index_bound(a, 3);
        lemma_text_ids_args(a, b, content_index(a, 3), line);
        lemma_content_args(a, b, 3, line);
    }
}

proof fn lemma_line_args(a: Seq<Seq<char>>, b: Seq<Seq<char>>, kind: Seq<char>, vertical: bool, line: usize)
    requires
        same_args(a, b),
    ensures
        line_cmd_spec(a, kind, vertical, line) == line_cmd_spec(b, kind, vertical, line),
{
    if a.len() >= 4 {
        assert(a[1] == b[1] && a[2] == b[2] && a[3] == b[3]);
        lemma_tail_index_args(a, b, 4);
        lemma_tail_index_bound(a, 4);
        let ti = tail_index(a, 4);
        assert forall|l0: LineView| #[trigger] line_body(a, l0, kind, vertical, line) == line_body(
            b,
            l0,
            kind,
            vertical,
            line,
        ) by {
            lemma_line_opts_args(a, b, ti, (l0, LegendPos::Auto), kind, line);
            if ti < a.len() {
                assert(a[ti as int] == b[ti as int]);
                if is_legend_tok(a[ti as int]) {
                    lemma_legend_args(a, b, ti, line);
                    lemma_content_index_args(a, b, ti + 1);
                    lemma_content_index_bound(a, ti + 1);
                    let ci = content_index(a, ti + 1);
                    if ci < a.len() {
                        assert(a[ci as int] == b[ci as int]);
                    }
                }
            }
        }
    }
}

proof fn lemma_arrow_args(a: Seq<Seq<char>>, b: Seq<Seq<char>>, line: usize)
    requires
        same_args(a, b),
    ensures
        arrow_spec(a, line) == arrow_spec(b, line),
{
    if a.len() >= 3 {
        assert(a[1] == b[1] && a[2] == b[2]);
        lemma_tail_index_args(a, b, 3);
        lemma_tail_index_bound(a, 3);
        let ti = tail_index(a, 3);
        lemma_arrow_opts_args(a, b, ti, line);
        if ti < a.len() {
            assert(a[ti as int] == b[ti as int]);
            if is_legend_tok(a[ti as int]) {
                lemma_legend_args(a, b, ti, line);
            }
        }
    }
}

/// The words that name commands.
pub open spec fn is_command_word(w: Seq<char>) -> bool {
    w == "canvas"@ || w == "collision"@ || w == "rect"@ || w == "text"@ || w == "hline"@
        || w == "vline"@ || w == "arrow"@ || w == "arrowhead"@
}

/// Commands are case-insensitive: writing the command word in other letter
/// cases gives the same command, or the same error.
pub proof fn law_command_case(a: Seq<Seq<char>>, b: Seq<Seq<char>>, line: usize)
    requires
        a.len() > 0,
        same_args(a, b),
        lower_seq(a[0]) == lower_seq(b[0]),
        is_command_word(lower_seq(a[0])),
    ensures
        command_spec(a, line) == command_spec(b, line),
{
    if a.len() >= 2 {
        assert(a[1] == b[1]);
    }
    let k = lower_seq(a[0]);
    if k == "canvas"@ {
        lemma_canvas_args(a, b, line);
    } else if k == "rect"@ {
        lemma_rect_args(a, b, line);
    } else if k == "text"@ {
        lemma_text_args(a, b, line);
    } else if k == "hline"@ {
        lemma_line_args(a, b, "hline"@, false, line);
    } else if k == "vline"@ {
        lemma_line_args(a, b, "vline"@, true, line);
    } else if k == "arrow"@ {
        lemma_arrow_args(a, b, line);
    }
}

/// Two lines that are equal, or that are the same command with its command
/// word written in other letter cases.
pub open spec fn same_up_to_command_case(x: Seq<char>, y: Seq<char>) -> bool {
    ||| x == y
    ||| {
        let tx = trim_spec(x);
        let ty = trim_spec(y);
        let wx = words_spec(tx);
        let wy = words_spec(ty);
        &&& tx.len() > 0 && tx[0] != '#'
        &&& ty.len() > 0 && ty[0] != '#'
        &&& wx.len() > 0
        &&& same_args(wx, wy)
        &&& lower_seq(wx[0]) == lower_seq(wy[0])
        &&& is_command_word(lower_seq(wx[0]))
    }
}

proof fn lemma_same_lines(a: Seq<Seq<char>>, b: Seq<Seq<char>>, k: nat)
    requires
        k <= a.len(),
        a.len() == b.len(),
        forall|i: int| 0 <= i < a.len() ==> same_up_to_command_case(#[trigger] a[i], b[i]),
    ensures
        parse_lines(a, k) == parse_lines(b, k),
    decreases k,
{
    if k > 0 {
        lemma_same_lines(a, b, (k - 1) as nat);
        let x = a[k - 1];
        let y = b[k - 1];
        assert(same_up_to_command_case(x, y));
        if x != y {
            law_command_case(words_spec(trim_spec(x)), words_spec(trim_spec(y)), k as usize);
        }
        assert(line_spec(x, k as usize) == line_spec(y, k as usize));
    }
}

/// Commands are case-insensitive in a whole description: two descriptions
/// whose lines are the same, except that some command words are written in
/// other letter cases, give the same commands, or the same error.
pub proof fn law_parse_case(input_a: Seq<char>, input_b: Seq<char>)
    requires
        lines_spec(input_a).len() == lines_spec(input_b).len(),
        forall|i: int|
            0 <= i < lines_spec(input_a).len() ==> same_up_to_command_case(
                #[trigger] lines_spec(input_a)[i],
                lines_spec(input_b)[i],
            ),
    ensures
        parse_spec(input_a) == parse_spec(input_b),
{
    lemma_same_lines(lines_spec(input_a), lines_spec(input_b), lines_spec(input_a).len());
}

/// A description made only of blank lines and comments gives no command.
pub proof fn law_comments_give_nothing(lines: Seq<Seq<char>>, k: nat)
    requires
        k <= lines.len(),
        forall|i: int|
            0 <= i < lines.len() ==> trim_spec(#[trigger] lines[i]).len() == 0 || trim_spec(lines[i])[0] == '#',
    ensures
        parse_lines(lines, k) == Ok::<Seq<CommandView>, ErrorView>(Seq::empty()),
    decreases k,
{
    if k > 0 {
        law_comments_give_nothing(lines, (k - 1) as nat);
        assert(trim_spec(lines[k - 1]).len() == 0 || trim_spec(lines[k - 1])[0] == '#');
    }
}

/// A failed parse reports the error of the first line that fails: that line
/// gives the error and every line before it gives a command or nothing.
pub proof fn law_first_error(lines: Seq<Seq<char>>, k: nat)
    requires
        k <= lines.len(),
        parse_lines(lines, k) is Err,
    ensures
        exists|j: int|
            0 <= j < k && line_spec(#[trigger] lines[j], (j + 1) as usize) == Some(
                Err::<CommandView, ErrorView>(parse_lines(lines, k)->Err_0),
            ) && forall|i: int| 0 <= i < j ==> !(line_spec(#[trigger] lines[i], (i + 1) as usize) matches Some(Err(_))),
    decreases k,
{
    if parse_lines(lines, (k - 1) as nat) is Err {
        law_first_error(lines, (k - 1) as nat);
        let j = choose|j: int|
            0 <= j < k - 1 && line_spec(#[trigger] lines[j], (j + 1) as usize) == Some(
                Err::<CommandView, ErrorView>(parse_lines(lines, (k - 1) as nat)->Err_0),
            ) && forall|i: int| 0 <= i < j ==> !(line_spec(#[trigger] lines[i], (i + 1) as usize) matches Some(Err(_)));
        assert(line_spec(lines[j], (j + 1) as usize) == Some(Err::<CommandView, ErrorView>(parse_lines(lines, k)->Err_0)));
    } else {
        lemma_no_error_before(lines, (k - 1) as nat);
        assert(line_spec(lines[k - 1], k as usize) == Some(Err::<CommandView, ErrorView>(parse_lines(lines, k)->Err_0)));
    }
}

proof fn lemma_no_error_before(lines: Seq<Seq<char>>, k: nat)
    requires
        k <= lines.len(),
        parse_lines(lines, k) is Ok,
    ensures
        forall|i: int| 0 <= i < k ==> !(line_spec(#[trigger] lines[i], (i + 1) as usize) matches Some(Err(_))),
    decreases k,
{
    if k > 0 {
        lemma_no_error_before(lines, (k - 1) as nat);
    }
}

} // verus!




