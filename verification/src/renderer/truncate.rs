//! Fitting content into a fixed number of display columns.
use vstd::prelude::*;

use crate::object::ContentAlign;
use crate::textops::{chars_of, decimal, decimal_chars, push_all, push_str, string_from_chars};
use crate::width::{char_width, lemma_str_width_concat, spec_char_width, spec_str_width, str_width};

verus! {

/// The longest prefix of `s` whose display width is at most `max`.
pub open spec fn trunc_prefix(s: Seq<char>, max: int) -> Seq<char>
    decreases s.len(),
{
    if s.len() == 0 {
        s
    } else if spec_char_width(s[0]) > max {
        Seq::empty()
    } else {
        seq![s[0]] + trunc_prefix(s.drop_first(), max - spec_char_width(s[0]))
    }
}

/// The longest suffix of `s` whose display width is at most `max`.
pub open spec fn trunc_suffix(s: Seq<char>, max: int) -> Seq<char>
    decreases s.len(),
{
    if s.len() == 0 {
        s
    } else if spec_char_width(s.last()) > max {
        Seq::empty()
    } else {
        trunc_suffix(s.drop_last(), max - spec_char_width(s.last())).push(s.last())
    }
}

/// A prefix fitted into `max` columns is at most `max` wide and no wider
/// than a prefix fitted into more columns.
pub proof fn lemma_trunc_prefix_width(s: Seq<char>, max: int, more: int)
    requires
        0 <= max <= more,
    ensures
        spec_str_width(trunc_prefix(s, max)) <= max,
        spec_str_width(trunc_prefix(s, max)) <= spec_str_width(trunc_prefix(s, more)),
        spec_str_width(trunc_prefix(s, max)) <= spec_str_width(s),
    decreases s.len(),
{
    if s.len() > 0 {
        let w = spec_char_width(s[0]);
        lemma_str_width_concat(seq![s[0]], trunc_prefix(s.drop_first(), max - w));
        lemma_str_width_concat(seq![s[0]], trunc_prefix(s.drop_first(), more - w));
        lemma_str_width_concat(seq![s[0]], s.drop_first());
        assert(seq![s[0]] + s.drop_first() == s);
        assert(seq![s[0]].drop_last() == Seq::<char>::empty());
        crate::width::lemma_str_width_single(s[0]);
        if w <= max {
            lemma_trunc_prefix_width(s.drop_first(), max - w, more - w);
        } else if w <= more {
            lemma_trunc_prefix_width(s.drop_first(), 0, more - w);
        }
    }
}

/// A suffix fitted into `max` columns is at most `max` wide and no wider
/// than a suffix fitted into more columns.
pub proof fn lemma_trunc_suffix_width(s: Seq<char>, max: int, more: int)
    requires
        0 <= max <= more,
    ensures
        spec_str_width(trunc_suffix(s, max)) <= max,
        spec_str_width(trunc_suffix(s, max)) <= spec_str_width(trunc_suffix(s, more)),
        spec_str_width(trunc_suffix(s, max)) <= spec_str_width(s),
    decreases s.len(),
{
    if s.len() > 0 {
        let w = spec_char_width(s.last());
        let a = trunc_suffix(s.drop_last(), max - w);
        let b = trunc_suffix(s.drop_last(), more - w);
        assert(a.push(s.last()).drop_last() == a);
        assert(b.push(s.last()).drop_last() == b);
        if w <= max {
            lemma_trunc_suffix_width(s.drop_last(), max - w, more - w);
        } else if w <= more {
            lemma_trunc_suffix_width(s.drop_last(), 0, more - w);
        } else {
            lemma_trunc_suffix_width(s.drop_last(), 0, 0);
        }
    }
}

/// Truncates a string from the beginning to fit within `max_width` display columns.
fn truncate_to_width(s: &[char], max_width: usize) -> (r: Vec<char>)
    ensures
        r@ == trunc_prefix(s@, max_width as int),
{
    fit_prefix(s, max_width).0
}

/// The longest prefix of `s` that fits in `max_width` columns, and its width.
fn fit_prefix(s: &[char], max_width: usize) -> (r: (Vec<char>, usize))
    ensures
        r.0@ == trunc_prefix(s@, max_width as int),
        r.1 == spec_str_width(r.0@),
        r.1 <= max_width,
{
    let mut result: Vec<char> = Vec::new();
    let mut current_w: usize = 0;
    let mut i: usize = 0;
    assert(s@.skip(0) == s@);
    while i < s.len()
        invariant_except_break
            i <= s@.len(),
            current_w <= max_width,
            result@ == s@.take(i as int),
            current_w == spec_str_width(result@),
            trunc_prefix(s@, max_width as int) == result@ + trunc_prefix(
                s@.skip(i as int),
                max_width - current_w,
            ),
        ensures
            trunc_prefix(s@, max_width as int) == result@,
            current_w == spec_str_width(result@),
            current_w <= max_width,
        decreases s.len() - i,
    {
        let ch = s[i];
        let w = char_width(ch);
        let ghost rest = s@.skip(i as int);
        assert(rest[0] == ch);
        assert(rest.drop_first() == s@.skip(i + 1));
        if w > max_width - current_w {
            assert(trunc_prefix(rest, max_width - current_w) == Seq::<char>::empty());
            assert(result@ + Seq::<char>::empty() == result@);
            break;
        }
        let ghost old_result = result@;
        result.push(ch);
        assert(result@ == old_result + seq![ch]);
        proof {
            lemma_str_width_concat(old_result, seq![ch]);
            crate::width::lemma_str_width_single(ch);
        }
        assert(s@.take(i + 1) == s@.take(i as int).push(ch));
        assert(result@ + trunc_prefix(s@.skip(i + 1), max_width - current_w - w) == s@.take(
            i as int,
        ) + (seq![ch] + trunc_prefix(rest.drop_first(), max_width - current_w - w)));
        current_w = current_w + w;
        i = i + 1;
    }
    proof {
        if i == s.len() {
            assert(s@.skip(i as int) == Seq::<char>::empty());
            assert(result@ + Seq::<char>::empty() == result@);
        }
    }
    (result, current_w)
}

/// Truncates a string from the end to fit within `max_width` display columns.
fn truncate_from_end(s: &[char], max_width: usize) -> (r: Vec<char>)
    ensures
        r@ == trunc_suffix(s@, max_width as int),
{
    fit_suffix(s, max_width).0
}

/// The longest suffix of `s` that fits in `max_width` columns, and its width.
fn fit_suffix(s: &[char], max_width: usize) -> (r: (Vec<char>, usize))
    ensures
        r.0@ == trunc_suffix(s@, max_width as int),
        r.1 == spec_str_width(r.0@),
        r.1 <= max_width,
{
    let mut result: Vec<char> = Vec::new();
    let mut current_w: usize = 0;
    let mut j: usize = s.len();
    assert(s@.take(j as int) == s@);
    while j > 0
        invariant_except_break
            j <= s@.len(),
            current_w <= max_width,
            current_w == spec_str_width(result@),
            trunc_suffix(s@, max_width as int) == trunc_suffix(
                s@.take(j as int),
                max_width - current_w,
            ) + result@,
        ensures
            trunc_suffix(s@, max_width as int) == result@,
            current_w == spec_str_width(result@),
            current_w <= max_width,
        decreases j,
    {
        let ch = s[j - 1];
        let w = char_width(ch);
        let ghost pre = s@.take(j as int);
        assert(pre.last() == ch);
        assert(pre.drop_last() == s@.take(j - 1));
        if w > max_width - current_w {
            assert(trunc_suffix(pre, max_width - current_w) == Seq::<char>::empty());
            assert(Seq::<char>::empty() + result@ == result@);
            break;
        }
        let ghost old_result = result@;
        result.insert(0, ch);
        assert(result@ == seq![ch] + old_result);
        proof {
            lemma_str_width_concat(seq![ch], old_result);
            crate::width::lemma_str_width_single(ch);
        }
        assert(trunc_suffix(pre, max_width - current_w) == trunc_suffix(
            s@.take(j - 1),
            max_width - current_w - w,
        ).push(ch));
        assert(trunc_suffix(s@.take(j - 1), max_width - current_w - w).push(ch) + old_result
            == trunc_suffix(s@.take(j - 1), max_width - current_w - w) + result@);
        current_w = current_w + w;
        j = j - 1;
    }
    proof {
        if j == 0 {
            assert(s@.take(0) == Seq::<char>::empty());
            assert(Seq::<char>::empty() + result@ == result@);
        }
    }
    (result, current_w)
}

/// How many columns centred content loses on the left when it is wider than
/// `inner_w`: half the excess, rounded down (the right loses the rest).
pub open spec fn centre_cut(content: Seq<char>, inner_w: int) -> int {
    let cw = spec_str_width(content) as int;
    if cw > inner_w {
        (cw - inner_w) / 2
    } else {
        0
    }
}

/// Content fitted into `inner_w` columns for hidden overflow: the longest
/// prefix that fits; for right alignment the longest suffix; for centre
/// alignment the content is cut on both sides: the shortest beginning at
/// least `centre_cut` wide goes, and the rest is fitted like a prefix.
pub open spec fn hidden_spec(content: Seq<char>, inner_w: int, align: ContentAlign) -> Seq<char> {
    match align {
        ContentAlign::Right => trunc_suffix(content, inner_w),
        ContentAlign::Center => trunc_prefix(
            trunc_suffix(content, spec_str_width(content) - centre_cut(content, inner_w)),
            inner_w,
        ),
        ContentAlign::Left => trunc_prefix(content, inner_w),
    }
}

/// Hidden truncation is at most `inner_w` wide and no wider than the content.
pub proof fn lemma_hidden_width(content: Seq<char>, inner_w: int, align: ContentAlign)
    requires
        inner_w >= 0,
    ensures
        spec_str_width(hidden_spec(content, inner_w, align)) <= inner_w,
        spec_str_width(hidden_spec(content, inner_w, align)) <= spec_str_width(content),
{
    match align {
        ContentAlign::Right => lemma_trunc_suffix_width(content, inner_w, inner_w),
        ContentAlign::Left => lemma_trunc_prefix_width(content, inner_w, inner_w),
        ContentAlign::Center => {
            let keep = spec_str_width(content) - centre_cut(content, inner_w);
            let t = trunc_suffix(content, keep);
            lemma_trunc_suffix_width(content, keep, keep);
            lemma_trunc_prefix_width(t, inner_w, inner_w);
        },
    }
}

/// Truncates content for hidden mode.
pub fn hidden_truncate_chars(content: &[char], inner_w: usize, align: ContentAlign) -> (r: Vec<
    char,
>)
    requires
        content@.len() <= usize::MAX / 2,
    ensures
        r@ == hidden_spec(content@, inner_w as int, align),
{
    match align {
        ContentAlign::Left => truncate_to_width(content, inner_w),
        ContentAlign::Right => truncate_from_end(content, inner_w),
        ContentAlign::Center => {
            let cw = str_width(content);
            let cut = if cw > inner_w {
                (cw - inner_w) / 2
            } else {
                0
            };
            let rest = truncate_from_end(content, cw - cut);
            truncate_to_width(rest.as_slice(), inner_w)
        },
    }
}

/// Truncates content for hidden mode.
pub fn hidden_truncate(content: &str, inner_w: usize, align: ContentAlign) -> (r: String)
    requires
        content@.len() <= usize::MAX / 2,
    ensures
        r@ == hidden_spec(content@, inner_w as int, align),
{
    let c = chars_of(content);
    let v = hidden_truncate_chars(c.as_slice(), inner_w, align);
    string_from_chars(v.as_slice())
}

/// The kept part of the content when `digits` digits report the cut width:
/// a prefix (a suffix for right alignment) fitted into the columns left.
pub open spec fn kept_part(content: Seq<char>, inner_w: int, align: ContentAlign, digits: int) -> Seq<
    char,
> {
    match align {
        ContentAlign::Right => trunc_suffix(content, inner_w - 2 - digits),
        _ => trunc_prefix(content, inner_w - 2 - digits),
    }
}

/// The attempt with `digits` digits: the kept part joined by ".." with the
/// width cut off (before it for right alignment), if that number has exactly
/// `digits` digits and the result fits.
pub open spec fn ellipsis_attempt(
    content: Seq<char>,
    content_w: int,
    inner_w: int,
    align: ContentAlign,
    digits: int,
) -> Option<Seq<char>> {
    if 2 + digits > inner_w {
        None
    } else {
        let kept = kept_part(content, inner_w, align, digits);
        let n = decimal((content_w - spec_str_width(kept)) as nat);
        let r = match align {
            ContentAlign::Right => n + ".."@ + kept,
            _ => kept + ".."@ + n,
        };
        if n.len() == digits && spec_str_width(r) <= inner_w {
            Some(r)
        } else {
            None
        }
    }
}

/// The first successful attempt with `digits`..=5 digits, else "..".
pub open spec fn ellipsis_search(
    content: Seq<char>,
    content_w: int,
    inner_w: int,
    align: ContentAlign,
    digits: int,
) -> Seq<char>
    decreases 6 - digits,
{
    if digits > 5 || digits < 1 {
        ".."@
    } else {
        match ellipsis_attempt(content, content_w, inner_w, align, digits) {
            Some(r) => r,
            None => ellipsis_search(content, content_w, inner_w, align, digits + 1),
        }
    }
}

/// Content fitted into `inner_w` columns with a marker of the cut width:
/// "prefix..N" ("N..suffix" for right alignment), where N is the display
/// width cut off; ".." when no such form fits, and the first `inner_w`
/// characters of ".." when fewer than 2 columns are available.
pub open spec fn ellipsis_spec(content: Seq<char>, content_w: int, inner_w: int, align: ContentAlign) -> Seq<
    char,
> {
    if inner_w < 2 {
        ".."@.take(inner_w)
    } else {
        ellipsis_search(content, content_w, inner_w, align, 1)
    }
}

/// The width cut off is never negative for the attempts that are made.
pub open spec fn ellipsis_ok(content: Seq<char>, content_w: int, inner_w: int, align: ContentAlign) -> bool {
    inner_w >= 3 ==> spec_str_width(kept_part(content, inner_w, align, 1)) <= content_w
}

proof fn lemma_kept_monotone(content: Seq<char>, inner_w: int, align: ContentAlign, d: int)
    requires
        1 <= d,
        2 + d <= inner_w,
    ensures
        spec_str_width(kept_part(content, inner_w, align, d)) <= spec_str_width(
            kept_part(content, inner_w, align, 1),
        ),
        spec_str_width(kept_part(content, inner_w, align, d)) <= inner_w - 2 - d,
{
    match align {
        ContentAlign::Right => lemma_trunc_suffix_width(content, inner_w - 2 - d, inner_w - 3),
        _ => lemma_trunc_prefix_width(content, inner_w - 2 - d, inner_w - 3),
    }
}

/// ".." is two columns wide.
proof fn lemma_dots_width()
    ensures
        spec_str_width(".."@) == 2,
{
    reveal_strlit("..");
    assert(".."@ == seq!['.'] + seq!['.']);
    crate::width::lemma_str_width_single('.');
    crate::width::lemma_ascii_width('.');
    lemma_str_width_concat(seq!['.'], seq!['.']);
}

/// Decimal digits are one column wide each.
proof fn lemma_decimal_width(n: nat)
    ensures
        spec_str_width(decimal(n)) == decimal(n).len(),
    decreases n,
{
    if n < 10 {
        crate::width::lemma_str_width_single(crate::textops::digit_char(n));
    } else {
        lemma_decimal_width(n / 10);
        assert(decimal(n) == decimal(n / 10) + seq![crate::textops::digit_char(n % 10)]);
        lemma_str_width_concat(decimal(n / 10), seq![crate::textops::digit_char(n % 10)]);
        crate::width::lemma_str_width_single(crate::textops::digit_char(n % 10));
    }
}

/// Truncates content to fit inner_w using "prefix..{N}" or "{N}..suffix" format.
pub fn ellipsis_truncate_chars(
    content: &[char],
    content_w: usize,
    inner_w: usize,
    align: ContentAlign,
) -> (r: Vec<char>)
    requires
        ellipsis_ok(content@, content_w as int, inner_w as int, align),
    ensures
        r@ == ellipsis_spec(content@, content_w as int, inner_w as int, align),
{
    if inner_w < 2 {
        let mut v: Vec<char> = Vec::new();
        if inner_w == 1 {
            v.push('.');
        }
        proof {
            reveal_strlit("..");
        }
        assert(v@ == ".."@.take(inner_w as int));
        return v;
    }
    let mut digits: usize = 1;
    while digits <= 5
        invariant
            1 <= digits <= 6,
            inner_w >= 2,
            ellipsis_ok(content@, content_w as int, inner_w as int, align),
            ellipsis_spec(content@, content_w as int, inner_w as int, align) == ellipsis_search(
                content@,
                content_w as int,
                inner_w as int,
                align,
                digits as int,
            ),
        decreases 6 - digits,
    {
        let suffix_len = 2 + digits;
        if suffix_len <= inner_w {
            let space = inner_w - suffix_len;
            let (kept, kept_w) = match align {
                ContentAlign::Right => fit_suffix(content, space),
                _ => fit_prefix(content, space),
            };
            assert(kept@ == kept_part(content@, inner_w as int, align, digits as int));
            proof {
                lemma_kept_monotone(content@, inner_w as int, align, digits as int);
            }
            let truncated_w = content_w - kept_w;
            let n_str = decimal_chars(truncated_w);
            if n_str.len() == digits {
                let mut result: Vec<char> = Vec::new();
                match align {
                    ContentAlign::Right => {
                        push_all(&mut result, n_str.as_slice());
                        push_str(&mut result, "..");
                        push_all(&mut result, kept.as_slice());
                    },
                    _ => {
                        push_all(&mut result, kept.as_slice());
                        push_str(&mut result, "..");
                        push_all(&mut result, n_str.as_slice());
                    },
                }
                proof {
                    lemma_dots_width();
                    lemma_decimal_width(truncated_w as nat);
                    match align {
                        ContentAlign::Right => {
                            lemma_str_width_concat(n_str@, ".."@);
                            lemma_str_width_concat(n_str@ + ".."@, kept@);
                        },
                        _ => {
                            lemma_str_width_concat(kept@, ".."@);
                            lemma_str_width_concat(kept@ + ".."@, n_str@);
                        },
                    }
                }
                let rw = kept_w + 2 + digits;
                assert(rw == spec_str_width(result@));
                if rw <= inner_w {
                    return result;
                }
            }
        }
        digits = digits + 1;
    }
    let mut v: Vec<char> = Vec::new();
    push_str(&mut v, "..");
    v
}

/// Truncates content to fit inner_w using "prefix..{N}" or "{N}..suffix" format.
pub fn ellipsis_truncate(content: &str, content_w: usize, inner_w: usize, align: ContentAlign) -> (r:
    String)
    requires
        ellipsis_ok(content@, content_w as int, inner_w as int, align),
    ensures
        r@ == ellipsis_spec(content@, content_w as int, inner_w as int, align),
{
    let c = chars_of(content);
    let v = ellipsis_truncate_chars(c.as_slice(), content_w, inner_w, align);
    string_from_chars(v.as_slice())
}

/// The fitted text is at most as wide as the columns it fits into.
pub proof fn lemma_ellipsis_len(content: Seq<char>, content_w: int, inner_w: int, align: ContentAlign)
    requires
        inner_w >= 0,
    ensures
        spec_str_width(ellipsis_spec(content, content_w, inner_w, align)) <= inner_w,
        ellipsis_spec(content, content_w, inner_w, align).len() <= if inner_w < 2 { 2 } else { inner_w },
{
    reveal_strlit("..");
    lemma_dots_width();
    if inner_w < 2 {
        crate::width::lemma_str_width_bounds(".."@.take(inner_w));
        if inner_w == 0 {
            assert(".."@.take(0) == Seq::<char>::empty());
        } else {
            assert(".."@.take(1) == seq!['.']);
            crate::width::lemma_str_width_single('.');
        }
    } else {
        lemma_ellipsis_search_len(content, content_w, inner_w, align, 1);
    }
}

proof fn lemma_ellipsis_search_len(
    content: Seq<char>,
    content_w: int,
    inner_w: int,
    align: ContentAlign,
    digits: int,
)
    requires
        inner_w >= 2,
    ensures
        spec_str_width(ellipsis_search(content, content_w, inner_w, align, digits)) <= inner_w,
        ellipsis_search(content, content_w, inner_w, align, digits).len() <= inner_w,
    decreases 6 - digits,
{
    lemma_dots_width();
    reveal_strlit("..");
    crate::width::lemma_str_width_bounds(ellipsis_search(content, content_w, inner_w, align, digits));
    if !(digits > 5 || digits < 1) {
        match ellipsis_attempt(content, content_w, inner_w, align, digits) {
            Some(r) => {},
            None => {
                lemma_ellipsis_search_len(content, content_w, inner_w, align, digits + 1);
            },
        }
    }
}

proof fn lemma_trunc_prefix_is_prefix(s: Seq<char>, max: int)
    ensures
        trunc_prefix(s, max).len() <= s.len(),
        trunc_prefix(s, max) == s.take(trunc_prefix(s, max).len() as int),
    decreases s.len(),
{
    if s.len() > 0 && spec_char_width(s[0]) <= max {
        let t = s.drop_first();
        lemma_trunc_prefix_is_prefix(t, max - spec_char_width(s[0]));
        let k = trunc_prefix(t, max - spec_char_width(s[0])).len() as int;
        assert(seq![s[0]] + t.take(k) =~= s.take(k + 1));
    } else if s.len() > 0 {
        assert(s.take(0) =~= Seq::<char>::empty());
    }
}

proof fn lemma_trunc_suffix_is_suffix(s: Seq<char>, max: int)
    ensures
        trunc_suffix(s, max).len() <= s.len(),
        trunc_suffix(s, max) == s.skip(s.len() - trunc_suffix(s, max).len()),
    decreases s.len(),
{
    if s.len() > 0 && spec_char_width(s.last()) <= max {
        let t = s.drop_last();
        lemma_trunc_suffix_is_suffix(t, max - spec_char_width(s.last()));
        let k = trunc_suffix(t, max - spec_char_width(s.last())).len() as int;
        assert(t.skip(t.len() - k).push(s.last()) =~= s.skip(s.len() - (k + 1)));
    } else if s.len() > 0 {
        assert(s.skip(s.len() as int) =~= Seq::<char>::empty());
    } else {
        assert(s.skip(0) =~= s);
    }
}

/// Truncated content fits: in ellipsis mode and in hidden mode the text shown
/// is at most `inner_w` columns wide; hidden mode shows, without any marker, a
/// beginning of the content (its end for right alignment, an unbroken middle
/// part for centre alignment).
pub proof fn law_truncation_fits(content: Seq<char>, content_w: int, inner_w: int, align: ContentAlign)
    requires
        inner_w >= 0,
    ensures
        spec_str_width(ellipsis_spec(content, content_w, inner_w, align)) <= inner_w,
        spec_str_width(hidden_spec(content, inner_w, align)) <= inner_w,
        spec_str_width(hidden_spec(content, inner_w, align)) <= spec_str_width(content),
        ({
            let h = hidden_spec(content, inner_w, align);
            match align {
                ContentAlign::Right => h == content.skip(content.len() - h.len()),
                ContentAlign::Left => h == content.take(h.len() as int),
                ContentAlign::Center => exists|a: int|
                    0 <= a && a + h.len() <= content.len() && h == #[trigger] content.subrange(
                        a,
                        a + h.len(),
                    ),
            }
        }),
{
    lemma_ellipsis_len(content, content_w, inner_w, align);
    lemma_hidden_width(content, inner_w, align);
    lemma_trunc_prefix_is_prefix(content, inner_w);
    lemma_trunc_suffix_is_suffix(content, inner_w);
    if align == ContentAlign::Center {
        let keep = spec_str_width(content) - centre_cut(content, inner_w);
        let t = trunc_suffix(content, keep);
        lemma_trunc_suffix_is_suffix(content, keep);
        lemma_trunc_prefix_is_prefix(t, inner_w);
        let h = hidden_spec(content, inner_w, align);
        let a = content.len() - t.len();
        assert(h == content.subrange(a, a + h.len()));
    }
}


/// `r` shows the kept part `kept` of `content` with the marker `..` and the
/// number `n`: "kept..n" with `kept` a beginning of the content, or for
/// right alignment "n..kept" with `kept` an end of it; `n` is the display
/// width cut off, so `kept` and the cut together are as wide as the content.
/// As much is kept as fits: keeping one more character would not leave room
/// in `inner_w` columns for the marker and the number.
pub open spec fn marks_cut(
    content: Seq<char>,
    inner_w: int,
    align: ContentAlign,
    kept: Seq<char>,
    n: nat,
    r: Seq<char>,
) -> bool {
    let room = inner_w - 2 - decimal(n).len();
    &&& kept.len() <= content.len()
    &&& spec_str_width(kept) + n == spec_str_width(content)
    &&& match align {
        ContentAlign::Right => {
            &&& kept == content.skip(content.len() - kept.len())
            &&& r == decimal(n) + ".."@ + kept
            &&& kept.len() < content.len() ==> spec_str_width(content.skip(content.len() - kept.len() - 1))
                > room
        },
        _ => {
            &&& kept == content.take(kept.len() as int)
            &&& r == kept + ".."@ + decimal(n)
            &&& kept.len() < content.len() ==> spec_str_width(content.take(kept.len() as int + 1)) > room
        },
    }
}

/// The fitted prefix is the longest: one more character would not fit.
proof fn lemma_trunc_prefix_maximal(s: Seq<char>, max: int)
    ensures
        trunc_prefix(s, max).len() < s.len() ==> spec_str_width(s.take(trunc_prefix(s, max).len() as int + 1))
            > max,
    decreases s.len(),
{
    if s.len() > 0 {
        let c = s[0];
        let t = s.drop_first();
        let w = spec_char_width(c);
        crate::width::lemma_str_width_single(c);
        if w > max {
            assert(s.take(1) == seq![c]);
        } else {
            lemma_trunc_prefix_maximal(t, max - w);
            let l = trunc_prefix(t, max - w).len() as int;
            if l < t.len() {
                assert(s.take(l + 2) == seq![c] + t.take(l + 1));
                lemma_str_width_concat(seq![c], t.take(l + 1));
            }
        }
    }
}

/// The fitted suffix is the longest: one more character would not fit.
proof fn lemma_trunc_suffix_maximal(s: Seq<char>, max: int)
    ensures
        trunc_suffix(s, max).len() < s.len() ==> spec_str_width(
            s.skip(s.len() - trunc_suffix(s, max).len() - 1),
        ) > max,
    decreases s.len(),
{
    if s.len() > 0 {
        let c = s.last();
        let t = s.drop_last();
        let w = spec_char_width(c);
        if w > max {
            assert(s.skip(s.len() - 1) == seq![c]);
            crate::width::lemma_str_width_single(c);
        } else {
            lemma_trunc_suffix_maximal(t, max - w);
            let l = trunc_suffix(t, max - w).len() as int;
            if l < t.len() {
                assert(s.skip(s.len() - (l + 1) - 1) == t.skip(t.len() - l - 1).push(c));
                assert(t.skip(t.len() - l - 1).push(c).drop_last() == t.skip(t.len() - l - 1));
            }
        }
    }
}

proof fn lemma_search_marks_cut(content: Seq<char>, inner_w: int, align: ContentAlign, d: int)
    requires
        d >= 1,
    ensures
        ({
            let r = ellipsis_search(content, spec_str_width(content) as int, inner_w, align, d);
            r == ".."@ || exists|kept: Seq<char>, n: nat| #[trigger] marks_cut(content, inner_w, align, kept, n, r)
        }),
    decreases 6 - d,
{
    let cw = spec_str_width(content) as int;
    if d <= 5 {
        match ellipsis_attempt(content, cw, inner_w, align, d) {
            Some(r) => {
                let kept = kept_part(content, inner_w, align, d);
                let m = inner_w - 2 - d;
                match align {
                    ContentAlign::Right => {
                        lemma_trunc_suffix_width(content, m, m);
                        lemma_trunc_suffix_is_suffix(content, m);
                        lemma_trunc_suffix_maximal(content, m);
                    },
                    _ => {
                        lemma_trunc_prefix_width(content, m, m);
                        lemma_trunc_prefix_is_prefix(content, m);
                        lemma_trunc_prefix_maximal(content, m);
                    },
                }
                let n = (cw - spec_str_width(kept)) as nat;
                assert(decimal(n).len() == d);
                assert(marks_cut(content, inner_w, align, kept, n, r));
            },
            None => {
                lemma_search_marks_cut(content, inner_w, align, d + 1);
            },
        }
    }
}

/// Ellipsis truncation reports the display width it cut off: its result is
/// "kept..N" (for right alignment "N..kept"), where `kept` is a beginning
/// (an end) of the content and N is the content's display width minus the
/// display width of `kept`, not a count of characters; `kept` is as long as
/// the columns left for it allow; when no such form fits it is "..", cut to
/// the available columns below two.
pub proof fn law_ellipsis_marks_cut_width(content: Seq<char>, inner_w: int, align: ContentAlign)
    ensures
        ({
            let r = ellipsis_spec(content, spec_str_width(content) as int, inner_w, align);
            if inner_w < 2 {
                r == ".."@.take(inner_w)
            } else {
                r == ".."@ || exists|kept: Seq<char>, n: nat| #[trigger] marks_cut(content, inner_w, align, kept, n, r)
            }
        }),
{
    if inner_w >= 2 {
        lemma_search_marks_cut(content, inner_w, align, 1);
    }
}

} // verus!

