//! The values inside commands: numbers, styles, positions, ids, anchors,
//! and the trailing content and legend texts, each with the error a bad
//! value gives.
use vstd::prelude::*;

use crate::error::{ErrorView, UnidError};
use crate::object::line::LineStyle;
use crate::object::rect::{BorderStyle, ContentAlign, ContentOverflow, Side};
use crate::object::{Legend, LegendPos, LegendView};
use crate::textops::{
    chars_of, eq_lower, join, join_spec, lines_of, lines_spec, lower_seq, parse_usize_chars,
    parse_usize_spec, push_all, push_str, seqs_of, starts_with, starts_with_spec,
    string_from_chars, trim_chars, trim_spec, unescape_newlines, unescape_spec,
};

verus! {


/// A parse error on `line`.
pub open spec fn perr(line: usize, message: Seq<char>) -> ErrorView {
    ErrorView::Parse { line, message }
}

/// `s` between single quotes.
pub open spec fn quoted(s: Seq<char>) -> Seq<char> {
    "'"@ + s + "'"@
}

/// The rest of `tok` after the prefix `p`, if `tok` begins with it.
pub open spec fn strip_spec(tok: Seq<char>, p: Seq<char>) -> Option<Seq<char>> {
    if starts_with_spec(tok, p) {
        Some(tok.skip(p.len() as int))
    } else {
        None
    }
}

/// The rest of `tok` after the prefix `p`, if `tok` begins with it.
pub(crate) fn strip(tok: &[char], p: &str) -> (r: Option<Vec<char>>)
    ensures
        match r {
            Some(v) => strip_spec(tok@, p@) == Some(v@),
            None => strip_spec(tok@, p@) is None,
        },
{
    if starts_with(tok, p) {
        let n = chars_of(p).len();
        let mut v: Vec<char> = Vec::new();
        let mut i = n;
        while i < tok.len()
            invariant
                n <= i <= tok@.len(),
                v@ == tok@.subrange(n as int, i as int),
            decreases tok.len() - i,
        {
            v.push(tok[i]);
            i = i + 1;
        }
        assert(v@ == tok@.skip(n as int));
        Some(v)
    } else {
        None
    }
}

/// A parse error with message `parts` concatenated.
pub(crate) fn parse_error(line: usize, message: Vec<char>) -> (e: UnidError)
    ensures
        e@ == perr(line, message@),
{
    UnidError::Parse { line, message: string_from_chars(message.as_slice()) }
}

/// The error for a token that is not a number.
pub open spec fn number_error(name: Seq<char>, tok: Seq<char>, line: usize) -> ErrorView {
    perr(line, "invalid "@ + name + " "@ + quoted(tok) + " (expected a non-negative integer)"@)
}

/// The number `tok` denotes, or the error naming it `name`.
pub open spec fn number_spec(tok: Seq<char>, name: Seq<char>, line: usize) -> Result<usize, ErrorView> {
    match parse_usize_spec(tok) {
        Some(n) => Ok(n),
        None => Err(number_error(name, tok, line)),
    }
}

/// Reads a non-negative number.
pub(crate) fn parse_number(tok: &[char], name: &str, line: usize) -> (r: Result<usize, UnidError>)
    ensures
        match r {
            Ok(n) => number_spec(tok@, name@, line) == Ok::<usize, ErrorView>(n),
            Err(e) => number_spec(tok@, name@, line) == Err::<usize, ErrorView>(e@),
        },
{
    match parse_usize_chars(tok) {
        Some(n) => Ok(n),
        None => {
            let mut m: Vec<char> = Vec::new();
            push_str(&mut m, "invalid ");
            push_str(&mut m, name);
            push_str(&mut m, " ");
            push_quoted(&mut m, tok);
            push_str(&mut m, " (expected a non-negative integer)");
            Err(parse_error(line, m))
        },
    }
}

/// Appends `s` between single quotes.
pub fn push_quoted(m: &mut Vec<char>, s: &[char])
    ensures
        final(m)@ == old(m)@ + quoted(s@),
{
    push_str(m, "'");
    push_all(m, s);
    push_str(m, "'");
}

/// The border style `v` names, or the error.
pub open spec fn border_style_spec(v: Seq<char>, line: usize) -> Result<BorderStyle, ErrorView> {
    let l = lower_seq(v);
    if l == "light"@ || l == "l"@ {
        Ok(BorderStyle::Light)
    } else if l == "heavy"@ || l == "h"@ {
        Ok(BorderStyle::Heavy)
    } else if l == "double"@ || l == "d"@ {
        Ok(BorderStyle::Double)
    } else if l == "rounded"@ || l == "r"@ {
        Ok(BorderStyle::Rounded)
    } else if l == "none"@ {
        Ok(BorderStyle::Light)
    } else {
        Err(
            perr(
                line,
                "unknown border style "@ + quoted(v)
                    + " (expected light/l, heavy/h, double/d, rounded/r)"@,
            ),
        )
    }
}

/// Reads a border style.
pub(crate) fn parse_border_style(v: &[char], line: usize) -> (r: Result<BorderStyle, UnidError>)
    ensures
        match r {
            Ok(s) => border_style_spec(v@, line) == Ok::<BorderStyle, ErrorView>(s),
            Err(e) => border_style_spec(v@, line) == Err::<BorderStyle, ErrorView>(e@),
        },
{
    if eq_lower(v, "light") || eq_lower(v, "l") {
        Ok(BorderStyle::Light)
    } else if eq_lower(v, "heavy") || eq_lower(v, "h") {
        Ok(BorderStyle::Heavy)
    } else if eq_lower(v, "double") || eq_lower(v, "d") {
        Ok(BorderStyle::Double)
    } else if eq_lower(v, "rounded") || eq_lower(v, "r") {
        Ok(BorderStyle::Rounded)
    } else if eq_lower(v, "none") {
        Ok(BorderStyle::Light)
    } else {
        let mut m: Vec<char> = Vec::new();
        push_str(&mut m, "unknown border style ");
        push_quoted(&mut m, v);
        push_str(&mut m, " (expected light/l, heavy/h, double/d, rounded/r)");
        Err(parse_error(line, m))
    }
}

/// The line style `v` names, or the error.
pub open spec fn line_style_spec(v: Seq<char>, line: usize) -> Result<LineStyle, ErrorView> {
    let l = lower_seq(v);
    if l == "light"@ || l == "l"@ {
        Ok(LineStyle::Light)
    } else if l == "heavy"@ || l == "h"@ {
        Ok(LineStyle::Heavy)
    } else if l == "double"@ || l == "d"@ {
        Ok(LineStyle::Double)
    } else if l == "dash"@ {
        Ok(LineStyle::Dash)
    } else {
        Err(
            perr(
                line,
                "unknown line style "@ + quoted(v) + " (expected light/l, heavy/h, double/d, dash)"@,
            ),
        )
    }
}

/// Reads a line style.
pub(crate) fn parse_line_style(v: &[char], line: usize) -> (r: Result<LineStyle, UnidError>)
    ensures
        match r {
            Ok(s) => line_style_spec(v@, line) == Ok::<LineStyle, ErrorView>(s),
            Err(e) => line_style_spec(v@, line) == Err::<LineStyle, ErrorView>(e@),
        },
{
    if eq_lower(v, "light") || eq_lower(v, "l") {
        Ok(LineStyle::Light)
    } else if eq_lower(v, "heavy") || eq_lower(v, "h") {
        Ok(LineStyle::Heavy)
    } else if eq_lower(v, "double") || eq_lower(v, "d") {
        Ok(LineStyle::Double)
    } else if eq_lower(v, "dash") {
        Ok(LineStyle::Dash)
    } else {
        let mut m: Vec<char> = Vec::new();
        push_str(&mut m, "unknown line style ");
        push_quoted(&mut m, v);
        push_str(&mut m, " (expected light/l, heavy/h, double/d, dash)");
        Err(parse_error(line, m))
    }
}

/// The overflow mode `v` names, or the error.
pub open spec fn overflow_spec(v: Seq<char>, line: usize) -> Result<ContentOverflow, ErrorView> {
    let l = lower_seq(v);
    if l == "ellipsis"@ {
        Ok(ContentOverflow::Ellipsis)
    } else if l == "overflow"@ {
        Ok(ContentOverflow::Overflow)
    } else if l == "hidden"@ {
        Ok(ContentOverflow::Hidden)
    } else if l == "error"@ {
        Ok(ContentOverflow::Error)
    } else {
        Err(
            perr(
                line,
                "unknown overflow mode "@ + quoted(v)
                    + " (expected ellipsis, overflow, hidden, error)"@,
            ),
        )
    }
}

/// Reads an overflow mode.
pub(crate) fn parse_content_overflow(v: &[char], line: usize) -> (r: Result<ContentOverflow, UnidError>)
    ensures
        match r {
            Ok(s) => overflow_spec(v@, line) == Ok::<ContentOverflow, ErrorView>(s),
            Err(e) => overflow_spec(v@, line) == Err::<ContentOverflow, ErrorView>(e@),
        },
{
    if eq_lower(v, "ellipsis") {
        Ok(ContentOverflow::Ellipsis)
    } else if eq_lower(v, "overflow") {
        Ok(ContentOverflow::Overflow)
    } else if eq_lower(v, "hidden") {
        Ok(ContentOverflow::Hidden)
    } else if eq_lower(v, "error") {
        Ok(ContentOverflow::Error)
    } else {
        let mut m: Vec<char> = Vec::new();
        push_str(&mut m, "unknown overflow mode ");
        push_quoted(&mut m, v);
        push_str(&mut m, " (expected ellipsis, overflow, hidden, error)");
        Err(parse_error(line, m))
    }
}

/// The alignment `v` names, or the error.
pub open spec fn align_spec(v: Seq<char>, line: usize) -> Result<ContentAlign, ErrorView> {
    let l = lower_seq(v);
    if l == "left"@ || l == "l"@ {
        Ok(ContentAlign::Left)
    } else if l == "center"@ || l == "c"@ {
        Ok(ContentAlign::Center)
    } else if l == "right"@ || l == "r"@ {
        Ok(ContentAlign::Right)
    } else {
        Err(perr(line, "unknown align "@ + quoted(v) + " (expected left/l, center/c, right/r)"@))
    }
}

/// Reads an alignment.
pub(crate) fn parse_content_align(v: &[char], line: usize) -> (r: Result<ContentAlign, UnidError>)
    ensures
        match r {
            Ok(s) => align_spec(v@, line) == Ok::<ContentAlign, ErrorView>(s),
            Err(e) => align_spec(v@, line) == Err::<ContentAlign, ErrorView>(e@),
        },
{
    if eq_lower(v, "left") || eq_lower(v, "l") {
        Ok(ContentAlign::Left)
    } else if eq_lower(v, "center") || eq_lower(v, "c") {
        Ok(ContentAlign::Center)
    } else if eq_lower(v, "right") || eq_lower(v, "r") {
        Ok(ContentAlign::Right)
    } else {
        let mut m: Vec<char> = Vec::new();
        push_str(&mut m, "unknown align ");
        push_quoted(&mut m, v);
        push_str(&mut m, " (expected left/l, center/c, right/r)");
        Err(parse_error(line, m))
    }
}

/// Whether std's `char::is_alphanumeric` holds of `c` (Unicode `Alphabetic`
/// or numeric).
pub uninterp spec fn alphanumeric(c: char) -> bool;

/// std's `char::is_alphanumeric` (`is_alphabetic() || is_numeric()`). Its
/// result is named `alphanumeric`; on ASCII it holds exactly of the letters and
/// digits, the ASCII characters that Unicode counts as alphabetic or numeric.
/// What it gives on the rest of Unicode, which takes Unicode's tables to
/// state, is not stated.
#[verifier::external_body]
pub(crate) fn is_alphanumeric(c: char) -> (b: bool)
    ensures
        b == alphanumeric(c),
        (c as u32) < 128 ==> (b <==> ('a' <= c <= 'z' || 'A' <= c <= 'Z' || '0' <= c <= '9')),
{
    c.is_alphanumeric()
}

/// A character allowed in an id.
pub open spec fn id_char(c: char) -> bool {
    alphanumeric(c) || c == '_' || c == '-'
}

/// The error for an id, if it is not a valid one: ids are non-empty and
/// made of alphanumeric characters, `_` and `-`.
pub open spec fn id_error(id: Seq<char>, line: usize) -> Option<ErrorView> {
    if id.len() == 0 {
        Some(perr(line, "id cannot be empty"@))
    } else if exists|i: int| 0 <= i < id.len() && !id_char(#[trigger] id[i]) {
        Some(perr(line, "invalid id "@ + quoted(id) + " (only alphanumeric, '_', '-' allowed)"@))
    } else {
        None
    }
}

/// Checks an id.
pub(crate) fn validate_id(id: &[char], line: usize) -> (r: Result<(), UnidError>)
    ensures
        match r {
            Ok(()) => id_error(id@, line) is None,
            Err(e) => id_error(id@, line) == Some(e@),
        },
{
    if id.len() == 0 {
        let mut m: Vec<char> = Vec::new();
        push_str(&mut m, "id cannot be empty");
        return Err(parse_error(line, m));
    }
    let mut i: usize = 0;
    while i < id.len()
        invariant
            i <= id@.len(),
            forall|k: int| 0 <= k < i ==> id_char(#[trigger] id@[k]),
        decreases id.len() - i,
    {
        let c = id[i];
        if !(is_alphanumeric(c) || c == '_' || c == '-') {
            assert(!id_char(id@[i as int]));
            let mut m: Vec<char> = Vec::new();
            push_str(&mut m, "invalid id ");
            push_quoted(&mut m, id);
            push_str(&mut m, " (only alphanumeric, '_', '-' allowed)");
            return Err(parse_error(line, m));
        }
        i = i + 1;
    }
    Ok(())
}

/// The position of the last `.` in `s`, or -1.
pub open spec fn last_dot(s: Seq<char>) -> int
    decreases s.len(),
{
    if s.len() == 0 {
        -1
    } else if s.last() == '.' {
        s.len() - 1
    } else {
        last_dot(s.drop_last())
    }
}

pub(crate) proof fn lemma_last_dot(s: Seq<char>)
    ensures
        -1 <= last_dot(s) < s.len(),
        last_dot(s) >= 0 ==> s[last_dot(s)] == '.',
        forall|i: int| last_dot(s) < i < s.len() ==> s[i] != '.',
    decreases s.len(),
{
    if s.len() > 0 && s.last() != '.' {
        let t = s.drop_last();
        lemma_last_dot(t);
        assert forall|i: int| last_dot(s) < i < s.len() implies s[i] != '.' by {
            if i < s.len() - 1 {
                assert(t[i] == s[i]);
            }
        }
    }
}

/// The side a lowered side name denotes.
pub open spec fn side_name(l: Seq<char>) -> Option<Side> {
    if l == "top"@ || l == "t"@ {
        Some(Side::Top)
    } else if l == "right"@ || l == "r"@ {
        Some(Side::Right)
    } else if l == "bottom"@ || l == "b"@ {
        Some(Side::Bottom)
    } else if l == "left"@ || l == "l"@ {
        Some(Side::Left)
    } else {
        None
    }
}

/// An anchor `<id>.<side>`, split at its last `.`: the id and the side, or the error.
pub open spec fn anchor_ref_spec(s: Seq<char>, line: usize) -> Result<(Seq<char>, Side), ErrorView> {
    let d = last_dot(s);
    if d < 0 {
        Err(perr(line, "invalid anchor "@ + quoted(s) + " (expected <id>.<side>, e.g., 'api.right')"@))
    } else {
        let id = s.take(d);
        let side = s.skip(d + 1);
        if id.len() == 0 {
            Err(perr(line, "anchor "@ + quoted(s) + " has empty id"@))
        } else {
            match id_error(id, line) {
                Some(e) => Err(e),
                None => match side_name(lower_seq(side)) {
                    Some(sd) => Ok((id, sd)),
                    None => Err(
                        perr(
                            line,
                            "unknown side "@ + quoted(side) + " in anchor "@ + quoted(s)
                                + " (expected top/t, right/r, bottom/b, left/l)"@,
                        ),
                    ),
                },
            }
        }
    }
}

/// Reads an anchor reference such as `api.right`.
pub(crate) fn parse_anchor(s: &[char], line: usize) -> (r: Result<(Vec<char>, Side), UnidError>)
    ensures
        match r {
            Ok((id, side)) => anchor_ref_spec(s@, line) == Ok::<(Seq<char>, Side), ErrorView>((id@, side)),
            Err(e) => anchor_ref_spec(s@, line) == Err::<(Seq<char>, Side), ErrorView>(e@),
        },
{
    proof {
        lemma_last_dot(s@);
    }
    let mut d: usize = s.len();
    assert(s@.take(d as int) == s@);
    while d > 0 && s[d - 1] != '.'
        invariant
            d <= s@.len(),
            forall|i: int| d <= i < s@.len() ==> s@[i] != '.',
            last_dot(s@) == last_dot(s@.take(d as int)),
        decreases d,
    {
        assert(s@.take(d as int).drop_last() == s@.take(d - 1));
        d = d - 1;
    }
    if d == 0 {
        assert(s@.take(0) == Seq::<char>::empty());
        let mut m: Vec<char> = Vec::new();
        push_str(&mut m, "invalid anchor ");
        push_quoted(&mut m, s);
        push_str(&mut m, " (expected <id>.<side>, e.g., 'api.right')");
        return Err(parse_error(line, m));
    }
    let dot = d - 1;
    assert(last_dot(s@) == dot);
    let id = copy_chars(s, 0, dot);
    let side = copy_chars(s, dot + 1, s.len());
    assert(id@ == s@.take(dot as int));
    assert(side@ == s@.skip(dot + 1));
    if id.len() == 0 {
        let mut m: Vec<char> = Vec::new();
        push_str(&mut m, "anchor ");
        push_quoted(&mut m, s);
        push_str(&mut m, " has empty id");
        return Err(parse_error(line, m));
    }
    match validate_id(id.as_slice(), line) {
        Err(e) => return Err(e),
        Ok(()) => {},
    }
    let sv = side.as_slice();
    if eq_lower(sv, "top") || eq_lower(sv, "t") {
        Ok((id, Side::Top))
    } else if eq_lower(sv, "right") || eq_lower(sv, "r") {
        Ok((id, Side::Right))
    } else if eq_lower(sv, "bottom") || eq_lower(sv, "b") {
        Ok((id, Side::Bottom))
    } else if eq_lower(sv, "left") || eq_lower(sv, "l") {
        Ok((id, Side::Left))
    } else {
        let mut m: Vec<char> = Vec::new();
        push_str(&mut m, "unknown side ");
        push_quoted(&mut m, sv);
        push_str(&mut m, " in anchor ");
        push_quoted(&mut m, s);
        push_str(&mut m, " (expected top/t, right/r, bottom/b, left/l)");
        Err(parse_error(line, m))
    }
}

/// Copies `s[lo..hi]`.
pub(crate) fn copy_chars(s: &[char], lo: usize, hi: usize) -> (v: Vec<char>)
    requires
        lo <= hi <= s@.len(),
    ensures
        v@ == s@.subrange(lo as int, hi as int),
{
    crate::textops::copy_range(s, lo, hi)
}

/// A token that starts the content: `content=...` or `c=...`.
pub open spec fn is_content_tok(t: Seq<char>) -> bool {
    starts_with_spec(t, "content="@) || starts_with_spec(t, "c="@)
}

/// The position of the first content token at or after `i`, or the number of tokens.
pub open spec fn content_index(toks: Seq<Seq<char>>, i: nat) -> nat
    decreases toks.len() - i,
{
    if i >= toks.len() {
        toks.len()
    } else if is_content_tok(toks[i as int]) {
        i
    } else {
        content_index(toks, i + 1)
    }
}

/// The text after `content=` (or `c=`) in a content token.
pub open spec fn content_value(t: Seq<char>) -> Seq<char> {
    match strip_spec(t, "content="@) {
        Some(v) => v,
        None => match strip_spec(t, "c="@) {
            Some(v) => v,
            None => t,
        },
    }
}

/// Each line trimmed, lines joined by newlines.
pub open spec fn tidy_lines(s: Seq<char>) -> Seq<char> {
    join_spec(lines_spec(s).map_values(|l: Seq<char>| trim_spec(l)), "\n"@)
}

/// The content of a command: the value of the first content token at or after
/// `from` and all the tokens after it, joined by spaces, with `\n` escapes made
/// newlines and each line trimmed; or the error.
pub open spec fn content_spec(toks: Seq<Seq<char>>, from: nat, line: usize) -> Result<Seq<char>, ErrorView> {
    let i = content_index(toks, from);
    if i >= toks.len() {
        Err(perr(line, "missing content= (or c=)"@))
    } else {
        let first = content_value(toks[i as int]);
        let parts = (if first.len() > 0 { seq![first] } else { Seq::empty() }) + toks.skip((i + 1) as int);
        if parts.len() == 0 {
            Err(perr(line, "content= requires a value"@))
        } else {
            Ok(tidy_lines(unescape_spec(join_spec(parts, " "@))))
        }
    }
}

/// Finds the first content token at or after `from`.
pub(crate) fn content_token_index(toks: &Vec<Vec<char>>, from: usize) -> (i: usize)
    ensures
        i == content_index(seqs_of(toks@), from as nat),
{
    let ghost t = seqs_of(toks@);
    let mut i = from;
    if i >= toks.len() {
        return toks.len();
    }
    while i < toks.len()
        invariant
            from <= i,
            t == seqs_of(toks@),
            content_index(t, from as nat) == content_index(t, i as nat),
        decreases toks.len() - i,
    {
        let tk = toks[i].as_slice();
        if starts_with(tk, "content=") || starts_with(tk, "c=") {
            return i;
        }
        i = i + 1;
    }
    toks.len()
}

/// Trims each line of `s` and joins the lines by newlines.
pub(crate) fn tidy(s: &[char]) -> (v: Vec<char>)
    ensures
        v@ == tidy_lines(s@),
{
    let ls = lines_of(s);
    let ghost lv = seqs_of(ls@);
    let mut out: Vec<Vec<char>> = Vec::new();
    let mut i: usize = 0;
    while i < ls.len()
        invariant
            i <= ls@.len(),
            lv == seqs_of(ls@),
            seqs_of(out@) == lv.take(i as int).map_values(|l: Seq<char>| trim_spec(l)),
        decreases ls.len() - i,
    {
        let ghost before = seqs_of(out@);
        assert(lv[i as int] == ls@[i as int]@);
        out.push(trim_chars(ls[i].as_slice()));
        assert(seqs_of(out@) =~= before.push(trim_spec(lv[i as int])));
        assert(lv.take(i + 1) =~= lv.take(i as int).push(lv[i as int]));
        i = i + 1;
        assert(seqs_of(out@) =~= lv.take(i as int).map_values(|l: Seq<char>| trim_spec(l)));
    }
    assert(lv.take(ls@.len() as int) == lv);
    let sep = chars_of("\n");
    join(&out, sep.as_slice())
}

/// Reads the content starting at the first content token at or after `from`.
pub(crate) fn extract_content(toks: &Vec<Vec<char>>, from: usize, line: usize) -> (r: Result<Vec<char>, UnidError>)
    ensures
        match r {
            Ok(v) => content_spec(seqs_of(toks@), from as nat, line) == Ok::<Seq<char>, ErrorView>(v@),
            Err(e) => content_spec(seqs_of(toks@), from as nat, line) == Err::<Seq<char>, ErrorView>(e@),
        },
{
    let ghost t = seqs_of(toks@);
    let i = content_token_index(toks, from);
    if i >= toks.len() {
        let mut m: Vec<char> = Vec::new();
        push_str(&mut m, "missing content= (or c=)");
        return Err(parse_error(line, m));
    }
    let tk = toks[i].as_slice();
    let first = match strip(tk, "content=") {
        Some(v) => v,
        None => match strip(tk, "c=") {
            Some(v) => v,
            None => copy_chars(tk, 0, tk.len()),
        },
    };
    assert(tk@.subrange(0, tk@.len() as int) == tk@);
    assert(first@ == content_value(t[i as int]));
    let mut parts: Vec<Vec<char>> = Vec::new();
    if first.len() > 0 {
        parts.push(first);
    }
    let ghost head = seqs_of(parts@);
    assert(head =~= (if first@.len() > 0 { seq![first@] } else { Seq::<Seq<char>>::empty() }));
    let mut j = i + 1;
    assert(t.skip(i + 1).take(0) == Seq::<Seq<char>>::empty());
    while j < toks.len()
        invariant
            i < j <= toks@.len(),
            t == seqs_of(toks@),
            seqs_of(parts@) == head + t.skip(i + 1).take(j - i - 1),
        decreases toks.len() - j,
    {
        let ghost before = seqs_of(parts@);
        let c = copy_chars(toks[j].as_slice(), 0, toks[j].len());
        assert(toks@[j as int]@.subrange(0, toks@[j as int]@.len() as int) == toks@[j as int]@);
        parts.push(c);
        assert(seqs_of(parts@) =~= before.push(t[j as int]));
        assert(t.skip(i + 1).take(j - i) =~= t.skip(i + 1).take(j - i - 1).push(t[j as int]));
        j = j + 1;
    }
    assert(t.skip(i + 1).take(toks@.len() - i - 1) == t.skip(i + 1));
    if parts.len() == 0 {
        let mut m: Vec<char> = Vec::new();
        push_str(&mut m, "content= requires a value");
        return Err(parse_error(line, m));
    }
    assert(seqs_of(parts@) == (if content_value(t[i as int]).len() > 0 {
        seq![content_value(t[i as int])]
    } else {
        Seq::<Seq<char>>::empty()
    }) + t.skip((i + 1) as int));
    let sp = chars_of(" ");
    let joined = join(&parts, sp.as_slice());
    let unescaped = unescape_newlines(joined.as_slice());
    Ok(tidy(unescaped.as_slice()))
}

/// A token that starts a legend: `legend=...` or `lg=...`.
pub open spec fn is_legend_tok(t: Seq<char>) -> bool {
    starts_with_spec(t, "legend="@) || starts_with_spec(t, "lg="@)
}

/// A token that starts the trailing texts of a command: a content or a legend.
pub open spec fn is_tail_tok(t: Seq<char>) -> bool {
    is_content_tok(t) || is_legend_tok(t)
}

/// The position of the first content or legend token at or after `i`, or
/// the number of tokens.
pub open spec fn tail_index(toks: Seq<Seq<char>>, i: nat) -> nat
    decreases toks.len() - i,
{
    if i >= toks.len() {
        toks.len()
    } else if is_tail_tok(toks[i as int]) {
        i
    } else {
        tail_index(toks, i + 1)
    }
}

pub(crate) proof fn lemma_tail_index_bound(toks: Seq<Seq<char>>, i: nat)
    ensures
        tail_index(toks, i) <= toks.len(),
        i <= toks.len() ==> i <= tail_index(toks, i),
        tail_index(toks, i) < toks.len() ==> is_tail_tok(toks[tail_index(toks, i) as int]),
        forall|k: int| i <= k < tail_index(toks, i) ==> !is_tail_tok(#[trigger] toks[k]),
    decreases toks.len() - i,
{
    if i < toks.len() && !is_tail_tok(toks[i as int]) {
        lemma_tail_index_bound(toks, i + 1);
    }
}

/// The text after `legend=` (or `lg=`) in a legend token.
pub open spec fn legend_value(t: Seq<char>) -> Seq<char> {
    match strip_spec(t, "legend="@) {
        Some(v) => v,
        None => match strip_spec(t, "lg="@) {
            Some(v) => v,
            None => t,
        },
    }
}

/// The legend starting at the legend token `i`: its value and the tokens
/// after it up to the next content token, joined by spaces, with `\n`
/// escapes made newlines and each line trimmed; or the error.
pub open spec fn legend_spec(toks: Seq<Seq<char>>, i: nat, line: usize) -> Result<Seq<char>, ErrorView> {
    let end = content_index(toks, i + 1);
    let first = legend_value(toks[i as int]);
    let parts = (if first.len() > 0 { seq![first] } else { Seq::empty() }) + toks.subrange((i + 1) as int, end as int);
    if parts.len() == 0 {
        Err(perr(line, "legend= requires a value"@))
    } else {
        Ok(tidy_lines(unescape_spec(join_spec(parts, " "@))))
    }
}

/// Finds the first content or legend token at or after `from`.
pub(crate) fn tail_token_index(toks: &Vec<Vec<char>>, from: usize) -> (i: usize)
    ensures
        i == tail_index(seqs_of(toks@), from as nat),
{
    let ghost t = seqs_of(toks@);
    let mut i = from;
    if i >= toks.len() {
        return toks.len();
    }
    while i < toks.len()
        invariant
            from <= i,
            t == seqs_of(toks@),
            tail_index(t, from as nat) == tail_index(t, i as nat),
        decreases toks.len() - i,
    {
        let tk = toks[i].as_slice();
        if starts_with(tk, "content=") || starts_with(tk, "c=") || starts_with(tk, "legend=")
            || starts_with(tk, "lg=") {
            return i;
        }
        i = i + 1;
    }
    toks.len()
}

/// Whether a token starts a legend.
pub(crate) fn is_legend_token(tk: &[char]) -> (b: bool)
    ensures
        b == is_legend_tok(tk@),
{
    starts_with(tk, "legend=") || starts_with(tk, "lg=")
}

/// Reads the legend starting at the legend token `i`.
pub(crate) fn extract_legend(toks: &Vec<Vec<char>>, i: usize, line: usize) -> (r: Result<Vec<char>, UnidError>)
    requires
        i < toks@.len(),
    ensures
        match r {
            Ok(v) => legend_spec(seqs_of(toks@), i as nat, line) == Ok::<Seq<char>, ErrorView>(v@),
            Err(e) => legend_spec(seqs_of(toks@), i as nat, line) == Err::<Seq<char>, ErrorView>(e@),
        },
{
    let ghost t = seqs_of(toks@);
    let n = toks.len();
    assert(i < n);
    let end = content_token_index(toks, i + 1);
    proof {
        lemma_content_index_bound(t, (i + 1) as nat);
    }
    let tk = toks[i].as_slice();
    let first = match strip(tk, "legend=") {
        Some(v) => v,
        None => match strip(tk, "lg=") {
            Some(v) => v,
            None => copy_chars(tk, 0, tk.len()),
        },
    };
    assert(tk@.subrange(0, tk@.len() as int) == tk@);
    assert(first@ == legend_value(t[i as int]));
    let mut parts: Vec<Vec<char>> = Vec::new();
    if first.len() > 0 {
        parts.push(first);
    }
    let ghost head = seqs_of(parts@);
    assert(head =~= (if first@.len() > 0 { seq![first@] } else { Seq::<Seq<char>>::empty() }));
    let mut j = i + 1;
    assert(t.subrange(i + 1, i + 1) =~= Seq::<Seq<char>>::empty());
    while j < end
        invariant
            i < j <= end <= toks@.len(),
            t == seqs_of(toks@),
            seqs_of(parts@) == head + t.subrange(i + 1, j as int),
        decreases end - j,
    {
        let ghost before = seqs_of(parts@);
        let c = copy_chars(toks[j].as_slice(), 0, toks[j].len());
        assert(toks@[j as int]@.subrange(0, toks@[j as int]@.len() as int) == toks@[j as int]@);
        parts.push(c);
        assert(seqs_of(parts@) =~= before.push(t[j as int]));
        assert(t.subrange(i + 1, j + 1) =~= t.subrange(i + 1, j as int).push(t[j as int]));
        j = j + 1;
    }
    if parts.len() == 0 {
        let mut m: Vec<char> = Vec::new();
        push_str(&mut m, "legend= requires a value");
        return Err(parse_error(line, m));
    }
    let sp = chars_of(" ");
    let joined = join(&parts, sp.as_slice());
    let unescaped = unescape_newlines(joined.as_slice());
    Ok(tidy(unescaped.as_slice()))
}

/// The legend position `v` names, or the error.
pub open spec fn position_spec(v: Seq<char>, line: usize) -> Result<LegendPos, ErrorView> {
    let l = lower_seq(v);
    if l == "top"@ || l == "t"@ {
        Ok(LegendPos::Top)
    } else if l == "right"@ || l == "r"@ {
        Ok(LegendPos::Right)
    } else if l == "bottom"@ || l == "b"@ {
        Ok(LegendPos::Bottom)
    } else if l == "left"@ || l == "l"@ {
        Ok(LegendPos::Left)
    } else if l == "auto"@ || l == "a"@ {
        Ok(LegendPos::Auto)
    } else {
        Err(
            perr(
                line,
                "unknown position "@ + quoted(v) + " (expected top/t, right/r, bottom/b, left/l, auto/a)"@,
            ),
        )
    }
}

/// Reads a legend position.
pub(crate) fn parse_position(v: &[char], line: usize) -> (r: Result<LegendPos, UnidError>)
    ensures
        match r {
            Ok(p) => position_spec(v@, line) == Ok::<LegendPos, ErrorView>(p),
            Err(e) => position_spec(v@, line) == Err::<LegendPos, ErrorView>(e@),
        },
{
    if eq_lower(v, "top") || eq_lower(v, "t") {
        Ok(LegendPos::Top)
    } else if eq_lower(v, "right") || eq_lower(v, "r") {
        Ok(LegendPos::Right)
    } else if eq_lower(v, "bottom") || eq_lower(v, "b") {
        Ok(LegendPos::Bottom)
    } else if eq_lower(v, "left") || eq_lower(v, "l") {
        Ok(LegendPos::Left)
    } else if eq_lower(v, "auto") || eq_lower(v, "a") {
        Ok(LegendPos::Auto)
    } else {
        let mut m: Vec<char> = Vec::new();
        push_str(&mut m, "unknown position ");
        push_quoted(&mut m, v);
        push_str(&mut m, " (expected top/t, right/r, bottom/b, left/l, auto/a)");
        Err(parse_error(line, m))
    }
}

/// The position of a rect's legend `v` names (above or below), or the error.
pub open spec fn rect_position_spec(v: Seq<char>, line: usize) -> Result<LegendPos, ErrorView> {
    let l = lower_seq(v);
    if l == "top"@ || l == "t"@ {
        Ok(LegendPos::Top)
    } else if l == "bottom"@ || l == "b"@ {
        Ok(LegendPos::Bottom)
    } else {
        Err(perr(line, "unknown legend position "@ + quoted(v) + " (expected top/t, bottom/b)"@))
    }
}

/// Reads the position of a rect's legend.
pub(crate) fn parse_rect_position(v: &[char], line: usize) -> (r: Result<LegendPos, UnidError>)
    ensures
        match r {
            Ok(p) => rect_position_spec(v@, line) == Ok::<LegendPos, ErrorView>(p),
            Err(e) => rect_position_spec(v@, line) == Err::<LegendPos, ErrorView>(e@),
        },
{
    if eq_lower(v, "top") || eq_lower(v, "t") {
        Ok(LegendPos::Top)
    } else if eq_lower(v, "bottom") || eq_lower(v, "b") {
        Ok(LegendPos::Bottom)
    } else {
        let mut m: Vec<char> = Vec::new();
        push_str(&mut m, "unknown legend position ");
        push_quoted(&mut m, v);
        push_str(&mut m, " (expected top/t, bottom/b)");
        Err(parse_error(line, m))
    }
}

/// A legend with the given text and position, shown with the default
/// overflow and alignment.
pub open spec fn legend_of(text: Seq<char>, pos: LegendPos) -> LegendView {
    LegendView { text, pos, overflow: ContentOverflow::Ellipsis, align: ContentAlign::Left }
}

/// Builds a legend.
pub(crate) fn make_legend(text: &Vec<char>, pos: LegendPos) -> (l: Legend)
    ensures
        l@ == legend_of(text@, pos),
{
    Legend {
        text: string_from_chars(text.as_slice()),
        pos,
        overflow: ContentOverflow::Ellipsis,
        align: ContentAlign::Left,
    }
}

/// The value of a `style=` or `s=` option.
pub open spec fn style_value(t: Seq<char>) -> Option<Seq<char>> {
    match strip_spec(t, "style="@) {
        Some(v) => Some(v),
        None => strip_spec(t, "s="@),
    }
}

/// Reads the value of a `style=` or `s=` option.
pub(crate) fn style_option(t: &[char]) -> (r: Option<Vec<char>>)
    ensures
        match r {
            Some(v) => style_value(t@) == Some(v@),
            None => style_value(t@) is None,
        },
{
    match strip(t, "style=") {
        Some(v) => Some(v),
        None => strip(t, "s="),
    }
}

pub(crate) proof fn lemma_content_index_bound(toks: Seq<Seq<char>>, i: nat)
    ensures
        content_index(toks, i) <= toks.len(),
        i <= toks.len() ==> i <= content_index(toks, i),
    decreases toks.len() - i,
{
    if i < toks.len() && !is_content_tok(toks[i as int]) {
        lemma_content_index_bound(toks, i + 1);
    }
}

/// Whether two character sequences are equal.
pub(crate) fn same_chars(a: &[char], b: &[char]) -> (r: bool)
    ensures
        r == (a@ == b@),
{
    if a.len() != b.len() {
        return false;
    }
    let mut i: usize = 0;
    while i < a.len()
        invariant
            i <= a@.len(),
            a@.len() == b@.len(),
            forall|k: int| 0 <= k < i ==> a@[k] == b@[k],
        decreases a.len() - i,
    {
        if a[i] != b[i] {
            return false;
        }
        i = i + 1;
    }
    assert(a@ =~= b@);
    true
}


/// A lowered name equal to a word without '.' has no '.' itself.
proof fn lemma_lower_no_dot(name: Seq<char>, word: Seq<char>)
    requires
        lower_seq(name) == word,
        forall|i: int| 0 <= i < word.len() ==> word[i] != '.',
    ensures
        forall|i: int| 0 <= i < name.len() ==> name[i] != '.',
{
    assert forall|i: int| 0 <= i < name.len() implies name[i] != '.' by {
        assert(lower_seq(name)[i] == crate::textops::lower_ascii(name[i]));
        assert(word[i] != '.');
    }
}

/// Every side of an anchor is accepted by its full name and by its initial,
/// in any letter case: `<id>.<name>` with a valid id reads as that id and
/// the side named (top/t, right/r, bottom/b, left/l); any other name without
/// a '.' is refused.
pub proof fn law_anchor_side_names(id: Seq<char>, name: Seq<char>, line: usize)
    requires
        id.len() > 0,
        forall|i: int| 0 <= i < id.len() ==> id_char(#[trigger] id[i]),
    ensures
        lower_seq(name) == "top"@ || lower_seq(name) == "t"@ ==> anchor_ref_spec(id + "."@ + name, line)
            == Ok::<(Seq<char>, Side), ErrorView>((id, Side::Top)),
        lower_seq(name) == "right"@ || lower_seq(name) == "r"@ ==> anchor_ref_spec(id + "."@ + name, line)
            == Ok::<(Seq<char>, Side), ErrorView>((id, Side::Right)),
        lower_seq(name) == "bottom"@ || lower_seq(name) == "b"@ ==> anchor_ref_spec(id + "."@ + name, line)
            == Ok::<(Seq<char>, Side), ErrorView>((id, Side::Bottom)),
        lower_seq(name) == "left"@ || lower_seq(name) == "l"@ ==> anchor_ref_spec(id + "."@ + name, line)
            == Ok::<(Seq<char>, Side), ErrorView>((id, Side::Left)),
        (forall|i: int| 0 <= i < name.len() ==> name[i] != '.') && !(lower_seq(name) == "top"@ || lower_seq(name) == "t"@ || lower_seq(name) == "right"@ || lower_seq(
            name,
        ) == "r"@ || lower_seq(name) == "bottom"@ || lower_seq(name) == "b"@ || lower_seq(name)
            == "left"@ || lower_seq(name) == "l"@) ==> anchor_ref_spec(id + "."@ + name, line) is Err,
{
    reveal_strlit("top");
    reveal_strlit("t");
    reveal_strlit("right");
    reveal_strlit("r");
    reveal_strlit("bottom");
    reveal_strlit("b");
    reveal_strlit("left");
    reveal_strlit("l");
    reveal_strlit(".");
    let l = lower_seq(name);
    assert("top"@[0] == 't' && "t"@[0] == 't' && "right"@[0] == 'r' && "r"@[0] == 'r');
    assert("bottom"@[0] == 'b' && "b"@[0] == 'b' && "left"@[0] == 'l' && "l"@[0] == 'l');
    if l == "top"@ || l == "t"@ || l == "right"@ || l == "r"@ || l == "bottom"@ || l == "b"@
        || l == "left"@ || l == "l"@ {
        lemma_lower_no_dot(name, l);
        let s = id + "."@ + name;
        let k = id.len() as int;
        assert(s[k] == '.');
        lemma_last_dot(s);
        let d = last_dot(s);
        assert(forall|i: int| 0 <= i < name.len() ==> s[k + 1 + i] == name[i]);
        if d > k {
            assert(s[d] == name[d - k - 1]);
        }
        assert(d == k);
        assert(s.take(d) == id);
        assert(s.skip(d + 1) == name);
        assert(id_error(id, line) is None);
    } else if forall|i: int| 0 <= i < name.len() ==> name[i] != '.' {
        let s = id + "."@ + name;
        let k = id.len() as int;
        assert(s[k] == '.');
        lemma_last_dot(s);
        let d = last_dot(s);
        assert(forall|i: int| 0 <= i < name.len() ==> s[k + 1 + i] == name[i]);
        if d > k {
            assert(s[d] == name[d - k - 1]);
        }
        assert(d == k);
        assert(s.take(d) == id);
        assert(s.skip(d + 1) == name);
        assert(side_name(l) is None);
    }
}

} // verus!
