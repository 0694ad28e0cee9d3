//! The drawing steps of each kind of object, as spec functions, and the
//! executable builders that produce them.
use vstd::prelude::*;

use crate::canvas::grid::{ops_view, str_steps, DrawOp, DrawStep};

use crate::textops::seqs_of;
use crate::width::{char_width, lemma_str_width_concat, spec_str_width};

verus! {

/// Placing `ch` at (c, r).
pub open spec fn put(c: int, r: int, ch: char, coll: bool) -> DrawStep {
    DrawStep::Put((c, r, ch, coll))
}

/// `n` copies of `ch` from column `c0` rightwards on row `r`.
pub open spec fn hrun(c0: int, r: int, n: nat, ch: char, coll: bool) -> Seq<DrawStep>
    decreases n,
{
    if n == 0 {
        Seq::empty()
    } else {
        hrun(c0, r, (n - 1) as nat, ch, coll).push(put(c0 + n - 1, r, ch, coll))
    }
}

/// `n` copies of `ch` from row `r0` downwards in column `c`.
pub open spec fn vrun(c: int, r0: int, n: nat, ch: char, coll: bool) -> Seq<DrawStep>
    decreases n,
{
    if n == 0 {
        Seq::empty()
    } else {
        vrun(c, r0, (n - 1) as nat, ch, coll).push(put(c, r0 + n - 1, ch, coll))
    }
}

/// The lines written one below the other from (c, r).
pub open spec fn lines_steps(c: int, r: int, ls: Seq<Seq<char>>, coll: bool) -> Seq<DrawStep>
    decreases ls.len(),
{
    if ls.len() == 0 {
        Seq::empty()
    } else {
        lines_steps(c, r, ls.drop_last(), coll) + str_steps(c, r + ls.len() - 1, ls.last(), coll)
    }
}

/// A prefix of a text is no wider than the text.
pub proof fn lemma_prefix_width(s: Seq<char>, k: int)
    requires
        0 <= k <= s.len(),
    ensures
        spec_str_width(s.take(k)) <= spec_str_width(s),
{
    lemma_str_width_concat(s.take(k), s.skip(k));
    assert(s.take(k) + s.skip(k) == s);
}

/// Appends one operation.
pub fn push_op(ops: &mut Vec<DrawOp>, op: DrawOp)
    ensures
        ops_view(final(ops)@) == ops_view(old(ops)@).push(op@),
{
    let ghost before = ops@;
    ops.push(op);
    assert(ops_view(ops@) =~= ops_view(before).push(op@));
}

/// Appends the placement of `ch` at (c, r).
pub fn push_put(ops: &mut Vec<DrawOp>, c: usize, r: usize, ch: char, coll: bool)
    ensures
        ops_view(final(ops)@) == ops_view(old(ops)@).push(put(c as int, r as int, ch, coll)),
{
    push_op(ops, DrawOp::Put((c, r, ch, coll)));
}

/// Appends a horizontal run.
pub fn push_hrun(ops: &mut Vec<DrawOp>, c0: usize, r: usize, n: usize, ch: char, coll: bool)
    requires
        c0 + n <= usize::MAX,
    ensures
        ops_view(final(ops)@) == ops_view(old(ops)@) + hrun(c0 as int, r as int, n as nat, ch, coll),
{
    let ghost base = ops_view(ops@);
    let mut k: usize = 0;
    assert(base + hrun(c0 as int, r as int, 0, ch, coll) == base);
    while k < n
        invariant
            k <= n,
            c0 + n <= usize::MAX,
            ops_view(ops@) == base + hrun(c0 as int, r as int, k as nat, ch, coll),
        decreases n - k,
    {
        push_put(ops, c0 + k, r, ch, coll);
        k = k + 1;
        assert(base + hrun(c0 as int, r as int, k as nat, ch, coll) == (base + hrun(
            c0 as int,
            r as int,
            (k - 1) as nat,
            ch,
            coll,
        )).push(put(c0 + k - 1, r as int, ch, coll)));
    }
}

/// Appends a vertical run.
pub fn push_vrun(ops: &mut Vec<DrawOp>, c: usize, r0: usize, n: usize, ch: char, coll: bool)
    requires
        r0 + n <= usize::MAX,
    ensures
        ops_view(final(ops)@) == ops_view(old(ops)@) + vrun(c as int, r0 as int, n as nat, ch, coll),
{
    let ghost base = ops_view(ops@);
    let mut k: usize = 0;
    assert(base + vrun(c as int, r0 as int, 0, ch, coll) == base);
    while k < n
        invariant
            k <= n,
            r0 + n <= usize::MAX,
            ops_view(ops@) == base + vrun(c as int, r0 as int, k as nat, ch, coll),
        decreases n - k,
    {
        push_put(ops, c, r0 + k, ch, coll);
        k = k + 1;
        assert(base + vrun(c as int, r0 as int, k as nat, ch, coll) == (base + vrun(
            c as int,
            r0 as int,
            (k - 1) as nat,
            ch,
            coll,
        )).push(put(c as int, r0 + k - 1, ch, coll)));
    }
}

/// Appends the steps that write `s` from (c, r).
pub fn push_text(ops: &mut Vec<DrawOp>, c: usize, r: usize, s: &[char], coll: bool)
    requires
        c + spec_str_width(s@) <= usize::MAX,
    ensures
        ops_view(final(ops)@) == ops_view(old(ops)@) + str_steps(c as int, r as int, s@, coll),
{
    let ghost base = ops_view(ops@);
    let mut col: usize = c;
    let mut i: usize = 0;
    assert(s@.take(0) == Seq::<char>::empty());
    assert(base + Seq::<DrawStep>::empty() == base);
    while i < s.len()
        invariant
            i <= s@.len(),
            c + spec_str_width(s@) <= usize::MAX,
            col == c + spec_str_width(s@.take(i as int)),
            ops_view(ops@) == base + str_steps(c as int, r as int, s@.take(i as int), coll),
        decreases s.len() - i,
    {
        let ch = s[i];
        proof {
            lemma_prefix_width(s@, i + 1);
            assert(s@.take(i + 1).drop_last() == s@.take(i as int));
            assert(s@.take(i + 1).last() == ch);
            lemma_str_width_concat(s@.take(i as int), seq![ch]);
            crate::width::lemma_str_width_single(ch);
            assert(s@.take(i + 1) == s@.take(i as int) + seq![ch]);
        }
        push_put(ops, col, r, ch, coll);
        col = col + char_width(ch);
        i = i + 1;
    }
    assert(s@.take(s@.len() as int) == s@);
}

/// Appends the steps that write the lines one below the other from (c, r).
pub fn push_lines(ops: &mut Vec<DrawOp>, c: usize, r: usize, ls: &Vec<Vec<char>>, coll: bool)
    requires
        r + ls@.len() <= usize::MAX,
        forall|i: int| 0 <= i < ls@.len() ==> c + spec_str_width(#[trigger] ls@[i]@) <= usize::MAX,
    ensures
        ops_view(final(ops)@) == ops_view(old(ops)@) + lines_steps(
            c as int,
            r as int,
            seqs_of(ls@),
            coll,
        ),
{
    let ghost base = ops_view(ops@);
    let ghost lv = seqs_of(ls@);
    let mut i: usize = 0;
    assert(lv.take(0) == Seq::<Seq<char>>::empty());
    assert(base + Seq::<DrawStep>::empty() == base);
    while i < ls.len()
        invariant
            i <= ls@.len(),
            lv == seqs_of(ls@),
            r + ls@.len() <= usize::MAX,
            forall|k: int| 0 <= k < ls@.len() ==> c + spec_str_width(#[trigger] ls@[k]@) <= usize::MAX,
            ops_view(ops@) == base + lines_steps(c as int, r as int, lv.take(i as int), coll),
        decreases ls.len() - i,
    {
        assert(lv.take(i + 1).drop_last() == lv.take(i as int));
        assert(lv.take(i + 1).last() == ls@[i as int]@);
        assert(c + spec_str_width(ls@[i as int]@) <= usize::MAX);
        push_text(ops, c, r + i, ls[i].as_slice(), coll);
        i = i + 1;
    }
    assert(lv.take(ls@.len() as int) == lv);
}

} // verus!
