//! Display width of characters and strings in terminal columns.
use vstd::prelude::*;

verus! {

/// The code point of `c` falls in one of the East Asian wide blocks
/// (Hangul, CJK ideographs, kana, full-width forms).
pub open spec fn is_wide(c: char) -> bool {
    let u = c as u32;
    ||| 0x1100 <= u <= 0x115F
    ||| 0x2E80 <= u <= 0x303E
    ||| 0x3041 <= u <= 0x33FF
    ||| 0x3400 <= u <= 0x4DBF
    ||| 0x4E00 <= u <= 0x9FFF
    ||| 0xA000 <= u <= 0xA4CF
    ||| 0xAC00 <= u <= 0xD7A3
    ||| 0xF900 <= u <= 0xFAFF
    ||| 0xFE30 <= u <= 0xFE4F
    ||| 0xFF00 <= u <= 0xFF60
    ||| 0xFFE0 <= u <= 0xFFE6
    ||| 0x20000 <= u <= 0x2FFFD
    ||| 0x30000 <= u <= 0x3FFFD
}

/// Number of display columns that `c` occupies: 2 for wide characters, 1 otherwise.
pub open spec fn spec_char_width(c: char) -> nat {
    if is_wide(c) { 2 } else { 1 }
}

/// Display width of a character sequence: the sum of its characters' widths.
pub open spec fn spec_str_width(s: Seq<char>) -> nat
    decreases s.len(),
{
    if s.len() == 0 {
        0
    } else {
        spec_str_width(s.drop_last()) + spec_char_width(s.last())
    }
}

/// Returns the display width of `ch`.
pub fn char_width(ch: char) -> (w: usize)
    ensures
        w == spec_char_width(ch),
        1 <= w <= 2,
{
    let u = ch as u32;
    if (0x1100 <= u && u <= 0x115F) || (0x2E80 <= u && u <= 0x303E) || (0x3041 <= u && u <= 0x33FF)
        || (0x3400 <= u && u <= 0x4DBF) || (0x4E00 <= u && u <= 0x9FFF) || (0xA000 <= u && u
        <= 0xA4CF) || (0xAC00 <= u && u <= 0xD7A3) || (0xF900 <= u && u <= 0xFAFF) || (0xFE30
        <= u && u <= 0xFE4F) || (0xFF00 <= u && u <= 0xFF60) || (0xFFE0 <= u && u <= 0xFFE6)
        || (0x20000 <= u && u <= 0x2FFFD) || (0x30000 <= u && u <= 0x3FFFD) {
        2
    } else {
        1
    }
}

/// A sequence is at least as wide as it is long and at most twice as wide.
pub proof fn lemma_str_width_bounds(s: Seq<char>)
    ensures
        s.len() <= spec_str_width(s) <= 2 * s.len(),
    decreases s.len(),
{
    if s.len() > 0 {
        lemma_str_width_bounds(s.drop_last());
    }
}

/// A single character is as wide as its width.
pub proof fn lemma_str_width_single(c: char)
    ensures
        spec_str_width(seq![c]) == spec_char_width(c),
{
    let s = seq![c];
    assert(s.drop_last() =~= Seq::<char>::empty());
    assert(s.last() == c);
    assert(spec_str_width(Seq::<char>::empty()) == 0);
    assert(spec_str_width(s) == spec_str_width(s.drop_last()) + spec_char_width(s.last()));
}

/// ASCII characters are one column wide.
pub proof fn lemma_ascii_width(c: char)
    requires
        (c as u32) < 128,
    ensures
        spec_char_width(c) == 1,
{
}

/// Width is additive over concatenation.
pub proof fn lemma_str_width_concat(a: Seq<char>, b: Seq<char>)
    ensures
        spec_str_width(a + b) == spec_str_width(a) + spec_str_width(b),
    decreases b.len(),
{
    if b.len() == 0 {
        assert(a + b == a);
    } else {
        lemma_str_width_concat(a, b.drop_last());
        assert((a + b).drop_last() == a + b.drop_last());
    }
}

/// Returns the display width of `s`.
pub fn str_width(s: &[char]) -> (w: usize)
    requires
        s@.len() <= usize::MAX / 2,
    ensures
        w == spec_str_width(s@),
{
    let mut w: usize = 0;
    let mut i: usize = 0;
    while i < s.len()
        invariant
            i <= s@.len() <= usize::MAX / 2,
            w == spec_str_width(s@.take(i as int)),
            w <= 2 * i,
        decreases s.len() - i,
    {
        assert(s@.take(i + 1).drop_last() == s@.take(i as int));
        w = w + char_width(s[i]);
        i = i + 1;
    }
    assert(s@.take(s@.len() as int) == s@);
    w
}


/// Hangul Jamo initial consonants (U+1100..U+115F), wide in Unicode's East Asian Width table.
pub open spec fn hangul_jamo_leading(u: u32) -> bool {
    0x1100 <= u <= 0x115F
}

/// CJK Radicals Supplement through CJK Symbols and Punctuation (U+2E80..U+303E).
pub open spec fn cjk_radicals_and_symbols(u: u32) -> bool {
    0x2E80 <= u <= 0x303E
}

/// Hiragana, Katakana, Bopomofo, Hangul Compatibility Jamo, Kanbun and the
/// CJK strokes, enclosed letters and compatibility blocks (U+3041..U+33FF).
pub open spec fn kana_and_cjk_compat(u: u32) -> bool {
    0x3041 <= u <= 0x33FF
}

/// CJK Unified Ideographs Extension A (U+3400..U+4DBF) and the CJK Unified
/// Ideographs (U+4E00..U+9FFF).
pub open spec fn cjk_ideographs(u: u32) -> bool {
    (0x3400 <= u <= 0x4DBF) || (0x4E00 <= u <= 0x9FFF)
}

/// Yi Syllables and Yi Radicals (U+A000..U+A4CF).
pub open spec fn yi(u: u32) -> bool {
    0xA000 <= u <= 0xA4CF
}

/// Hangul Syllables (U+AC00..U+D7A3).
pub open spec fn hangul_syllables(u: u32) -> bool {
    0xAC00 <= u <= 0xD7A3
}

/// CJK Compatibility Ideographs (U+F900..U+FAFF) and CJK Compatibility Forms (U+FE30..U+FE4F).
pub open spec fn cjk_compat_ideographs_and_forms(u: u32) -> bool {
    (0xF900 <= u <= 0xFAFF) || (0xFE30 <= u <= 0xFE4F)
}

/// Fullwidth ASCII variants and fullwidth signs (U+FF00..U+FF60, U+FFE0..U+FFE6).
pub open spec fn fullwidth_forms(u: u32) -> bool {
    (0xFF00 <= u <= 0xFF60) || (0xFFE0 <= u <= 0xFFE6)
}

/// The Supplementary and Tertiary Ideographic Planes (U+20000..U+2FFFD, U+30000..U+3FFFD).
pub open spec fn ideographic_planes(u: u32) -> bool {
    (0x20000 <= u <= 0x2FFFD) || (0x30000 <= u <= 0x3FFFD)
}

/// East Asian wide characters take two columns: every character of the
/// Hangul, kana, CJK ideograph, Yi, CJK compatibility and fullwidth blocks
/// (Korean 한글, Chinese 漢字, Japanese かな) is two columns wide. Characters
/// before the Hangul Jamo block (ASCII, Latin, Greek, Cyrillic, ...) and the
/// box-drawing, arrow and geometric-shape characters the diagrams are made
/// of take one column, as does every character outside the wide blocks.
pub proof fn law_east_asian_wide(c: char)
    ensures
        hangul_jamo_leading(c as u32) ==> spec_char_width(c) == 2,
        cjk_radicals_and_symbols(c as u32) ==> spec_char_width(c) == 2,
        kana_and_cjk_compat(c as u32) ==> spec_char_width(c) == 2,
        cjk_ideographs(c as u32) ==> spec_char_width(c) == 2,
        yi(c as u32) ==> spec_char_width(c) == 2,
        hangul_syllables(c as u32) ==> spec_char_width(c) == 2,
        cjk_compat_ideographs_and_forms(c as u32) ==> spec_char_width(c) == 2,
        fullwidth_forms(c as u32) ==> spec_char_width(c) == 2,
        ideographic_planes(c as u32) ==> spec_char_width(c) == 2,
        (c as u32) < 0x1100 ==> spec_char_width(c) == 1,
        0x2190 <= (c as u32) <= 0x21FF ==> spec_char_width(c) == 1,
        0x2500 <= (c as u32) <= 0x25FF ==> spec_char_width(c) == 1,
        !(hangul_jamo_leading(c as u32) || cjk_radicals_and_symbols(c as u32) || kana_and_cjk_compat(
            c as u32,
        ) || cjk_ideographs(c as u32) || yi(c as u32) || hangul_syllables(c as u32)
            || cjk_compat_ideographs_and_forms(c as u32) || fullwidth_forms(c as u32)
            || ideographic_planes(c as u32)) ==> spec_char_width(c) == 1,
{
}

/// A text of characters that each take two columns is twice as wide as it
/// is long; one of characters that each take one column is as wide as it is long.
pub proof fn law_uniform_width(s: Seq<char>, w: nat)
    requires
        forall|i: int| 0 <= i < s.len() ==> spec_char_width(#[trigger] s[i]) == w,
    ensures
        spec_str_width(s) == w * s.len(),
    decreases s.len(),
{
    if s.len() > 0 {
        law_uniform_width(s.drop_last(), w);
        assert(spec_char_width(s[s.len() - 1]) == w);
        assert(w * s.len() == w * (s.len() - 1) + w) by (nonlinear_arith)
            requires s.len() >= 1;
    }
}

} // verus!
