//! Character-sequence utilities used by the parser and the renderer.
//!
//! Strings are handled as sequences of `char`; the spec functions here give the
//! meaning of line splitting, whitespace tokenizing, trimming, joining, decimal
//! formatting and decimal parsing.
use vstd::prelude::*;

verus! {

/// The views of a vector of character vectors.
pub open spec fn seqs_of(v: Seq<Vec<char>>) -> Seq<Seq<char>> {
    v.map_values(|l: Vec<char>| l@)
}

/// Collects the characters of `s`.
pub fn chars_of(s: &str) -> (v: Vec<char>)
    ensures
        v@ == s@,
{
    broadcast use vstd::string::group_string_axioms;

    let mut v: Vec<char> = Vec::new();
    for c in it: s.chars()
        invariant
            v@ == it.seq().take(it.index() as int),
    {
        v.push(c);
    }
    v
}

/// Builds a `String` holding exactly the characters of `v`
/// (std's `FromIterator<char>` for `String`).
#[verifier::external_body]
pub fn string_from_chars(v: &[char]) -> (s: String)
    ensures
        s@ == v@,
{
    v.iter().collect()
}

/// Copies `s[lo..hi]` into a new vector.
pub fn copy_range(s: &[char], lo: usize, hi: usize) -> (v: Vec<char>)
    requires
        lo <= hi <= s@.len(),
    ensures
        v@ == s@.subrange(lo as int, hi as int),
{
    let mut v: Vec<char> = Vec::new();
    let mut i = lo;
    while i < hi
        invariant
            lo <= i <= hi <= s@.len(),
            v@ == s@.subrange(lo as int, i as int),
        decreases hi - i,
    {
        v.push(s[i]);
        i = i + 1;
    }
    v
}

/// Appends the characters of `src` to `dst`.
pub fn push_all(dst: &mut Vec<char>, src: &[char])
    ensures
        final(dst)@ == old(dst)@ + src@,
{
    let mut i: usize = 0;
    while i < src.len()
        invariant
            i <= src@.len(),
            dst@ == old(dst)@ + src@.take(i as int),
        decreases src.len() - i,
    {
        dst.push(src[i]);
        i = i + 1;
        assert(src@.take(i as int) == src@.take(i - 1) + seq![src@[i - 1]]);
    }
    assert(src@.take(src@.len() as int) == src@);
}

/// Appends the characters of `src` to `dst`.
pub fn push_str(dst: &mut Vec<char>, src: &str)
    ensures
        final(dst)@ == old(dst)@ + src@,
{
    let v = chars_of(src);
    push_all(dst, v.as_slice());
}

/// Unicode `White_Space`: the characters for which std's `char::is_whitespace` holds.
pub open spec fn is_ws(c: char) -> bool {
    let u = c as u32;
    ||| 0x9 <= u <= 0xD
    ||| u == 0x20
    ||| u == 0x85
    ||| u == 0xA0
    ||| u == 0x1680
    ||| 0x2000 <= u <= 0x200A
    ||| u == 0x2028
    ||| u == 0x2029
    ||| u == 0x202F
    ||| u == 0x205F
    ||| u == 0x3000
}

/// Whether `c` is whitespace.
pub fn is_whitespace(c: char) -> (b: bool)
    ensures
        b == is_ws(c),
{
    let u = c as u32;
    (0x9 <= u && u <= 0xD) || u == 0x20 || u == 0x85 || u == 0xA0 || u == 0x1680 || (0x2000 <= u
        && u <= 0x200A) || u == 0x2028 || u == 0x2029 || u == 0x202F || u == 0x205F || u == 0x3000
}

/// `s` without its leading whitespace.
pub open spec fn trim_start_spec(s: Seq<char>) -> Seq<char>
    decreases s.len(),
{
    if s.len() > 0 && is_ws(s[0]) {
        trim_start_spec(s.drop_first())
    } else {
        s
    }
}

/// `s` without its trailing whitespace.
pub open spec fn trim_end_spec(s: Seq<char>) -> Seq<char>
    decreases s.len(),
{
    if s.len() > 0 && is_ws(s.last()) {
        trim_end_spec(s.drop_last())
    } else {
        s
    }
}

/// `s` without leading and trailing whitespace.
pub open spec fn trim_spec(s: Seq<char>) -> Seq<char> {
    trim_end_spec(trim_start_spec(s))
}

/// Removes trailing whitespace.
pub fn trim_end_chars(s: &[char]) -> (v: Vec<char>)
    ensures
        v@ == trim_end_spec(s@),
{
    let mut j: usize = s.len();
    assert(s@.take(j as int) == s@);
    while j > 0 && is_whitespace(s[j - 1])
        invariant
            j <= s@.len(),
            trim_end_spec(s@) == trim_end_spec(s@.take(j as int)),
        decreases j,
    {
        assert(s@.take(j as int).drop_last() == s@.take(j - 1));
        j = j - 1;
    }
    copy_range(s, 0, j)
}

/// Removes leading and trailing whitespace.
pub fn trim_chars(s: &[char]) -> (v: Vec<char>)
    ensures
        v@ == trim_spec(s@),
{
    let mut i: usize = 0;
    assert(s@.skip(0) == s@);
    while i < s.len() && is_whitespace(s[i])
        invariant
            i <= s@.len(),
            trim_start_spec(s@) == trim_start_spec(s@.skip(i as int)),
        decreases s.len() - i,
    {
        assert(s@.skip(i as int).drop_first() == s@.skip(i + 1));
        i = i + 1;
    }
    let rest = copy_range(s, i, s.len());
    assert(rest@ == s@.skip(i as int));
    trim_end_chars(rest.as_slice())
}

/// Drops one trailing carriage return.
pub open spec fn strip_cr(l: Seq<char>) -> Seq<char> {
    if l.len() > 0 && l.last() == '\r' {
        l.drop_last()
    } else {
        l
    }
}

/// Lines completed so far and the pending line, after reading `s`.
pub open spec fn lines_state(s: Seq<char>) -> (Seq<Seq<char>>, Seq<char>)
    decreases s.len(),
{
    if s.len() == 0 {
        (Seq::empty(), Seq::empty())
    } else {
        let (d, c) = lines_state(s.drop_last());
        if s.last() == '\n' {
            (d.push(strip_cr(c)), Seq::empty())
        } else {
            (d, c.push(s.last()))
        }
    }
}

/// The lines of `s` as std's `str::lines` yields them: split at `\n`, a `\r`
/// before the `\n` removed, no empty line after a final `\n`.
pub open spec fn lines_spec(s: Seq<char>) -> Seq<Seq<char>> {
    let (d, c) = lines_state(s);
    if c.len() == 0 {
        d
    } else {
        d.push(c)
    }
}

/// Splits `s` into lines.
pub fn lines_of(s: &[char]) -> (v: Vec<Vec<char>>)
    ensures
        seqs_of(v@) == lines_spec(s@),
{
    let mut done: Vec<Vec<char>> = Vec::new();
    let mut cur: Vec<char> = Vec::new();
    let mut i: usize = 0;
    while i < s.len()
        invariant
            i <= s@.len(),
            (seqs_of(done@), cur@) == lines_state(s@.take(i as int)),
        decreases s.len() - i,
    {
        assert(s@.take(i + 1).drop_last() == s@.take(i as int));
        let c = s[i];
        assert(s@.take(i + 1).last() == c);
        if c == '\n' {
            let n: usize = cur.len();
            let line = if n > 0 && cur[n - 1] == '\r' {
                copy_range(cur.as_slice(), 0, n - 1)
            } else {
                copy_range(cur.as_slice(), 0, n)
            };
            assert(cur@.subrange(0, n as int) == cur@);
            assert(cur@.subrange(0, n - 1) == cur@.drop_last());
            assert(line@ == strip_cr(cur@));
            let ghost before = done@;
            done.push(line);
            cur = Vec::new();
            assert(seqs_of(done@) =~= seqs_of(before).push(line@));
        } else {
            cur.push(c);
        }
        i = i + 1;
    }
    assert(s@.take(s@.len() as int) == s@);
    if cur.len() > 0 {
        let ghost before = done@;
        done.push(cur);
        assert(seqs_of(done@) =~= seqs_of(before).push(done@.last()@));
    }
    done
}

/// Words completed so far and the pending word, after reading `s`.
pub open spec fn words_state(s: Seq<char>) -> (Seq<Seq<char>>, Seq<char>)
    decreases s.len(),
{
    if s.len() == 0 {
        (Seq::empty(), Seq::empty())
    } else {
        let (d, c) = words_state(s.drop_last());
        if is_ws(s.last()) {
            if c.len() == 0 {
                (d, c)
            } else {
                (d.push(c), Seq::empty())
            }
        } else {
            (d, c.push(s.last()))
        }
    }
}

/// The maximal non-empty runs of non-whitespace characters of `s`, in order
/// (std's `str::split_whitespace`).
pub open spec fn words_spec(s: Seq<char>) -> Seq<Seq<char>> {
    let (d, c) = words_state(s);
    if c.len() == 0 {
        d
    } else {
        d.push(c)
    }
}

/// Splits `s` at whitespace into non-empty words.
pub fn split_words(s: &[char]) -> (v: Vec<Vec<char>>)
    ensures
        seqs_of(v@) == words_spec(s@),
{
    let mut done: Vec<Vec<char>> = Vec::new();
    let mut cur: Vec<char> = Vec::new();
    let mut i: usize = 0;
    while i < s.len()
        invariant
            i <= s@.len(),
            (seqs_of(done@), cur@) == words_state(s@.take(i as int)),
        decreases s.len() - i,
    {
        assert(s@.take(i + 1).drop_last() == s@.take(i as int));
        let c = s[i];
        assert(s@.take(i + 1).last() == c);
        if is_whitespace(c) {
            if cur.len() > 0 {
                let ghost before = done@;
                done.push(cur);
                cur = Vec::new();
                assert(seqs_of(done@) =~= seqs_of(before).push(done@.last()@));
            }
        } else {
            cur.push(c);
        }
        i = i + 1;
    }
    assert(s@.take(s@.len() as int) == s@);
    if cur.len() > 0 {
        let ghost before = done@;
        done.push(cur);
        assert(seqs_of(done@) =~= seqs_of(before).push(done@.last()@));
    }
    done
}

/// The parts joined with `sep` between consecutive parts.
pub open spec fn join_spec(parts: Seq<Seq<char>>, sep: Seq<char>) -> Seq<char>
    decreases parts.len(),
{
    if parts.len() == 0 {
        Seq::empty()
    } else if parts.len() == 1 {
        parts[0]
    } else {
        join_spec(parts.drop_last(), sep) + sep + parts.last()
    }
}

/// Joins `parts` with `sep`.
pub fn join(parts: &Vec<Vec<char>>, sep: &[char]) -> (v: Vec<char>)
    ensures
        v@ == join_spec(seqs_of(parts@), sep@),
{
    let mut out: Vec<char> = Vec::new();
    let mut i: usize = 0;
    while i < parts.len()
        invariant
            i <= parts@.len(),
            out@ == join_spec(seqs_of(parts@).take(i as int), sep@),
        decreases parts.len() - i,
    {
        let ghost t = seqs_of(parts@).take(i + 1);
        assert(t.drop_last() == seqs_of(parts@).take(i as int));
        assert(t.last() == parts@[i as int]@);
        if i > 0 {
            push_all(&mut out, sep);
        }
        push_all(&mut out, parts[i].as_slice());
        i = i + 1;
    }
    assert(seqs_of(parts@).take(parts@.len() as int) == seqs_of(parts@));
    out
}

/// `s` with each `\` `n` pair, scanned from the left without overlap, replaced
/// by a newline (std's `str::replace("\\n", "\n")`).
pub open spec fn unescape_spec(s: Seq<char>) -> Seq<char>
    decreases s.len(),
{
    if s.len() == 0 {
        s
    } else if s.len() >= 2 && s[0] == '\\' && s[1] == 'n' {
        seq!['\n'] + unescape_spec(s.skip(2))
    } else {
        seq![s[0]] + unescape_spec(s.drop_first())
    }
}

/// Replaces each escaped newline `\n` by a newline character.
pub fn unescape_newlines(s: &[char]) -> (v: Vec<char>)
    ensures
        v@ == unescape_spec(s@),
{
    let mut out: Vec<char> = Vec::new();
    let mut i: usize = 0;
    assert(s@.skip(0) == s@);
    while i < s.len()
        invariant
            i <= s@.len(),
            unescape_spec(s@) == out@ + unescape_spec(s@.skip(i as int)),
        decreases s.len() - i,
    {
        let ghost rest = s@.skip(i as int);
        if i + 1 < s.len() && s[i] == '\\' && s[i + 1] == 'n' {
            assert(rest.skip(2) == s@.skip(i + 2));
            out.push('\n');
            i = i + 2;
        } else {
            assert(rest.drop_first() == s@.skip(i + 1));
            out.push(s[i]);
            i = i + 1;
        }
    }
    assert(s@.skip(s@.len() as int) == Seq::<char>::empty());
    assert(out@ + Seq::<char>::empty() == out@);
    out
}

/// The decimal digit character for `d < 10`.
pub open spec fn digit_char(d: nat) -> char {
    if d == 0 { '0' }
    else if d == 1 { '1' }
    else if d == 2 { '2' }
    else if d == 3 { '3' }
    else if d == 4 { '4' }
    else if d == 5 { '5' }
    else if d == 6 { '6' }
    else if d == 7 { '7' }
    else if d == 8 { '8' }
    else { '9' }
}

/// Decimal notation of `n`, without leading zeros.
pub open spec fn decimal(n: nat) -> Seq<char>
    decreases n,
{
    if n < 10 {
        seq![digit_char(n)]
    } else {
        decimal(n / 10).push(digit_char(n % 10))
    }
}

/// The digit character of `d`.
fn digit_of(d: usize) -> (c: char)
    requires
        d < 10,
    ensures
        c == digit_char(d as nat),
{
    if d == 0 { '0' }
    else if d == 1 { '1' }
    else if d == 2 { '2' }
    else if d == 3 { '3' }
    else if d == 4 { '4' }
    else if d == 5 { '5' }
    else if d == 6 { '6' }
    else if d == 7 { '7' }
    else if d == 8 { '8' }
    else { '9' }
}

/// Appends the decimal notation of `n`.
pub fn push_decimal(dst: &mut Vec<char>, n: usize)
    ensures
        final(dst)@ == old(dst)@ + decimal(n as nat),
    decreases n,
{
    if n < 10 {
        dst.push(digit_of(n));
        assert(old(dst)@.push(digit_char(n as nat)) == old(dst)@ + seq![digit_char(n as nat)]);
    } else {
        push_decimal(dst, n / 10);
        dst.push(digit_of(n % 10));
        assert(decimal(n as nat) == decimal((n / 10) as nat).push(digit_char((n % 10) as nat)));
        assert(old(dst)@ + decimal((n / 10) as nat) + seq![digit_char((n % 10) as nat)]
            == old(dst)@ + decimal(n as nat));
    }
}

/// Decimal notation of `n`.
pub fn decimal_chars(n: usize) -> (v: Vec<char>)
    ensures
        v@ == decimal(n as nat),
{
    let mut v: Vec<char> = Vec::new();
    push_decimal(&mut v, n);
    assert(Seq::<char>::empty() + decimal(n as nat) == decimal(n as nat));
    v
}

/// `c` is an ASCII decimal digit.
pub open spec fn is_digit(c: char) -> bool {
    '0' <= c <= '9'
}

/// The value of an ASCII digit.
pub open spec fn digit_value(c: char) -> nat {
    (c as u32 - '0' as u32) as nat
}

/// The value of a string of decimal digits (0 for the empty string).
pub open spec fn digits_value(s: Seq<char>) -> nat
    decreases s.len(),
{
    if s.len() == 0 {
        0
    } else {
        digits_value(s.drop_last()) * 10 + digit_value(s.last())
    }
}

/// The digits after an optional leading `+`.
pub open spec fn unsigned_body(s: Seq<char>) -> Seq<char> {
    if s.len() > 0 && s[0] == '+' {
        s.drop_first()
    } else {
        s
    }
}

/// The value std's `usize::from_str` gives: an optional `+`, then one or more
/// ASCII digits whose value fits in `usize`.
pub open spec fn parse_usize_spec(s: Seq<char>) -> Option<usize> {
    let body = unsigned_body(s);
    if body.len() > 0 && (forall|i: int| 0 <= i < body.len() ==> is_digit(#[trigger] body[i]))
        && digits_value(body) <= usize::MAX {
        Some(digits_value(body) as usize)
    } else {
        None
    }
}

proof fn lemma_digits_value_prefix(s: Seq<char>, k: int)
    requires
        0 <= k <= s.len(),
    ensures
        digits_value(s.take(k)) <= digits_value(s),
    decreases s.len() - k,
{
    if k < s.len() {
        lemma_digits_value_prefix(s, k + 1);
        assert(s.take(k + 1).drop_last() == s.take(k));
    } else {
        assert(s.take(k) == s);
    }
}

/// Parses a non-negative decimal integer.
pub fn parse_usize_chars(s: &[char]) -> (r: Option<usize>)
    ensures
        r == parse_usize_spec(s@),
{
    let start: usize = if s.len() > 0 && s[0] == '+' { 1 } else { 0 };
    let ghost body = unsigned_body(s@);
    assert(body == s@.skip(start as int));
    if start >= s.len() {
        return None;
    }
    let mut v: usize = 0;
    let mut i: usize = start;
    while i < s.len()
        invariant
            start <= i <= s@.len(),
            body == s@.skip(start as int),
            body == unsigned_body(s@),
            forall|k: int| 0 <= k < i - start ==> is_digit(#[trigger] body[k]),
            v as nat == digits_value(body.take(i - start)),
        decreases s.len() - i,
    {
        let c = s[i];
        assert(body[i - start] == c);
        if !('0' <= c && c <= '9') {
            assert(!is_digit(body[i - start]));
            return None;
        }
        let d: usize = (c as u32 - '0' as u32) as usize;
        assert(d == digit_value(c));
        assert(body.take(i - start + 1).last() == c);
        assert(body.take(i - start + 1).drop_last() == body.take(i - start));
        proof {
            lemma_digits_value_prefix(body, i - start + 1);
        }
        if v > (usize::MAX - d) / 10 {
            assert(v * 10 + d > usize::MAX) by (nonlinear_arith)
                requires
                    v > (usize::MAX - d) / 10,
                    d <= 9,
            ;
            assert(digits_value(body.take(i - start + 1)) == v * 10 + d);
            return None;
        }
        assert(v * 10 + d <= usize::MAX) by (nonlinear_arith)
            requires
                v <= (usize::MAX - d) / 10,
                d <= 9,
        ;
        v = v * 10 + d;
        i = i + 1;
    }
    assert(body.take(body.len() as int) == body);
    Some(v)
}

/// ASCII upper-case letters mapped to lower case; other characters unchanged.
pub open spec fn lower_ascii(c: char) -> char {
    if 'A' <= c <= 'Z' {
        ((c as u32) + 32) as char
    } else {
        c
    }
}

/// `s` with ASCII letters in lower case.
pub open spec fn lower_seq(s: Seq<char>) -> Seq<char> {
    s.map_values(|c: char| lower_ascii(c))
}

/// Whether `tok`, with ASCII letters lowered, is `kw`.
pub fn eq_lower(tok: &[char], kw: &str) -> (b: bool)
    ensures
        b == (lower_seq(tok@) == kw@),
{
    let k = chars_of(kw);
    if tok.len() != k.len() {
        assert(lower_seq(tok@).len() != kw@.len());
        return false;
    }
    let mut i: usize = 0;
    while i < tok.len()
        invariant
            i <= tok@.len(),
            tok@.len() == k@.len(),
            k@ == kw@,
            forall|j: int| 0 <= j < i ==> lower_ascii(#[trigger] tok@[j]) == k@[j],
        decreases tok.len() - i,
    {
        let c = tok[i];
        let lc: char = if 'A' <= c && c <= 'Z' {
            char_from_lower(c)
        } else {
            c
        };
        if lc != k[i] {
            assert(lower_seq(tok@)[i as int] != kw@[i as int]);
            return false;
        }
        i = i + 1;
    }
    assert(lower_seq(tok@) =~= kw@);
    true
}

fn char_from_lower(c: char) -> (r: char)
    requires
        'A' <= c <= 'Z',
    ensures
        r == lower_ascii(c),
{
    let u: u32 = c as u32 + 32;
    if u == 97 { 'a' } else if u == 98 { 'b' } else if u == 99 { 'c' } else if u == 100 { 'd' }
    else if u == 101 { 'e' } else if u == 102 { 'f' } else if u == 103 { 'g' } else if u == 104 { 'h' }
    else if u == 105 { 'i' } else if u == 106 { 'j' } else if u == 107 { 'k' } else if u == 108 { 'l' }
    else if u == 109 { 'm' } else if u == 110 { 'n' } else if u == 111 { 'o' } else if u == 112 { 'p' }
    else if u == 113 { 'q' } else if u == 114 { 'r' } else if u == 115 { 's' } else if u == 116 { 't' }
    else if u == 117 { 'u' } else if u == 118 { 'v' } else if u == 119 { 'w' } else if u == 120 { 'x' }
    else if u == 121 { 'y' } else { 'z' }
}

/// Whether `s` begins with `p`.
pub open spec fn starts_with_spec(s: Seq<char>, p: Seq<char>) -> bool {
    p.len() <= s.len() && s.take(p.len() as int) == p
}

/// Whether `s` begins with `p`.
pub fn starts_with(s: &[char], p: &str) -> (b: bool)
    ensures
        b == starts_with_spec(s@, p@),
{
    let pv = chars_of(p);
    if pv.len() > s.len() {
        return false;
    }
    let mut i: usize = 0;
    while i < pv.len()
        invariant
            i <= pv@.len() <= s@.len(),
            pv@ == p@,
            forall|j: int| 0 <= j < i ==> s@[j] == pv@[j],
        decreases pv.len() - i,
    {
        if s[i] != pv[i] {
            assert(s@.take(pv@.len() as int)[i as int] != p@[i as int]);
            return false;
        }
        i = i + 1;
    }
    assert(s@.take(pv@.len() as int) =~= p@);
    true
}

} // verus!
