//! The named subsets of the table, each a list of inclusive index ranges, and what a
//! list of ranges walks through.

use vstd::prelude::*;
use vstd::slice::slice_subrange;
use vstd::std_specs::range::RangeInclusiveView;
use core::ops::RangeInclusive;

verus! {

/// Code ranges.
#[derive(Clone, Copy, Debug, PartialEq, Eq)]
pub enum Ranges {
    /// Printable codes
    Printable,
    /// Control codes
    Control,
    /// Capital letter codes
    Capital,
    /// Small letter codes
    Small,
    /// All letter codes
    Letters,
    /// Digit codes
    Digits,
    /// Symbols codes
    Symbols,
    /// Whole table codes
    Table,
}

/// `RangeInclusive::start` returns the lower bound that the range holds.
pub assume_specification<Idx>[ RangeInclusive::<Idx>::start ](r: &RangeInclusive<Idx>) -> (ret:
    &Idx)
    ensures
        *ret == r@.start,
;

/// `RangeInclusive::end` returns the upper bound that the range holds.
pub assume_specification<Idx>[ RangeInclusive::<Idx>::end ](r: &RangeInclusive<Idx>) -> (ret: &Idx)
    ensures
        *ret == r@.end,
;

/// `RangeInclusive::is_empty` on a range of `usize`: true where the lower bound is above
/// the upper one, and where the range has been iterated to its end.
#[verifier::external_body]
pub(crate) fn spent(r: &RangeInclusive<usize>) -> (b: bool)
    ensures
        b == !live(r@),
{
    r.is_empty()
}

/// The range from `start` to `end`, both included, not yet iterated.
pub open spec fn span(start: usize, end: usize) -> RangeInclusiveView<usize> {
    RangeInclusiveView { start, end, exhausted: false }
}

/// A range that still yields an index.
pub open spec fn live(v: RangeInclusiveView<usize>) -> bool {
    !v.exhausted && v.start <= v.end
}

/// The ranges of a list, each by its bounds.
pub open spec fn views(rs: Seq<RangeInclusive<usize>>) -> Seq<RangeInclusiveView<usize>> {
    rs.map_values(|r: RangeInclusive<usize>| r@)
}

/// The ranges of each subset.
pub open spec fn catalog(r: Ranges) -> Seq<RangeInclusiveView<usize>> {
    match r {
        Ranges::Printable => seq![span(32, 126)],
        Ranges::Control => seq![span(0, 31), span(127, 127)],
        Ranges::Capital => seq![span(65, 90)],
        Ranges::Small => seq![span(97, 122)],
        Ranges::Letters => seq![span(65, 90), span(97, 122)],
        Ranges::Digits => seq![span(48, 57)],
        Ranges::Symbols => seq![span(32, 47), span(58, 64), span(91, 96), span(123, 126)],
        Ranges::Table => seq![span(0, 127)],
    }
}

/// How many codes each subset has.
pub open spec fn count(r: Ranges) -> nat {
    match r {
        Ranges::Printable => 95,
        Ranges::Control => 33,
        Ranges::Capital => 26,
        Ranges::Small => 26,
        Ranges::Letters => 52,
        Ranges::Digits => 10,
        Ranges::Symbols => 33,
        Ranges::Table => 128,
    }
}

/// The indices that a range yields: from its lower bound up to its upper bound, or none
/// where it is not live.
pub open spec fn walk(v: RangeInclusiveView<usize>) -> Seq<usize> {
    if live(v) {
        Seq::new((v.end - v.start + 1) as nat, |k: int| (v.start + k) as usize)
    } else {
        Seq::empty()
    }
}

/// The indices that a list of ranges yields: those of each range, in the order of the
/// list. An index that several ranges hold comes once for each.
pub open spec fn expand(vs: Seq<RangeInclusiveView<usize>>) -> Seq<usize>
    decreases vs.len(),
{
    if vs.len() == 0 {
        Seq::empty()
    } else {
        expand(vs.drop_last()) + walk(vs.last())
    }
}

/// Every range of the list has its lower bound at or below its upper bound.
pub open spec fn ordered(vs: Seq<RangeInclusiveView<usize>>) -> bool {
    forall|i: int| 0 <= i < vs.len() ==> (#[trigger] vs[i]).start <= vs[i].end
}

/// The cumulative length of a list of ranges, each counted from its bounds.
pub open spec fn total_len(vs: Seq<RangeInclusiveView<usize>>) -> int
    decreases vs.len(),
{
    if vs.len() == 0 {
        0
    } else {
        total_len(vs.drop_last()) + (vs.last().end - vs.last().start + 1)
    }
}

/// What two lists yield one after the other is what their concatenation yields.
pub proof fn lemma_expand_concat(
    a: Seq<RangeInclusiveView<usize>>,
    b: Seq<RangeInclusiveView<usize>>,
)
    ensures
        expand(a + b) == expand(a) + expand(b),
    decreases b.len(),
{
    if b.len() == 0 {
        assert(a + b =~= a);
        assert(expand(a) + expand(b) =~= expand(a));
    } else {
        lemma_expand_concat(a, b.drop_last());
        assert((a + b).drop_last() =~= a + b.drop_last());
        assert((a + b).last() == b.last());
        assert(expand(a + b) =~= expand(a) + expand(b));
    }
}

/// Of ordered ranges none of which is spent, the cumulative length is the number of
/// indices that they yield.
pub proof fn lemma_total_len_is_walked(vs: Seq<RangeInclusiveView<usize>>)
    requires
        forall|i: int| 0 <= i < vs.len() ==> live(#[trigger] vs[i]),
    ensures
        total_len(vs) == expand(vs).len(),
    decreases vs.len(),
{
    if vs.len() > 0 {
        lemma_total_len_is_walked(vs.drop_last());
        assert(live(vs[vs.len() - 1]));
    }
}

/// The cumulative length grows with the list.
proof fn lemma_total_len_grows(vs: Seq<RangeInclusiveView<usize>>, i: int)
    requires
        ordered(vs),
        0 <= i <= vs.len(),
    ensures
        0 <= total_len(vs.take(i)) <= total_len(vs),
    decreases vs.len() - i,
{
    if i < vs.len() {
        lemma_total_len_grows(vs, i + 1);
        assert(vs.take(i + 1).drop_last() =~= vs.take(i));
        assert(vs.take(i + 1).last() == vs[i]);
        lemma_total_len_nonnegative(vs.take(i));
    } else {
        assert(vs.take(i) =~= vs);
        lemma_total_len_nonnegative(vs);
    }
}

/// The cumulative length of ordered ranges is not negative.
proof fn lemma_total_len_nonnegative(vs: Seq<RangeInclusiveView<usize>>)
    requires
        ordered(vs),
    ensures
        0 <= total_len(vs),
    decreases vs.len(),
{
    if vs.len() > 0 {
        lemma_total_len_nonnegative(vs.drop_last());
        assert(vs[vs.len() - 1].start <= vs[vs.len() - 1].end);
    }
}

/// Every subset's ranges are live, lie within the table, and have the cumulative length
/// that the subset's definition gives.
pub proof fn lemma_catalog(r: Ranges)
    ensures
        ordered(catalog(r)),
        forall|i: int| 0 <= i < catalog(r).len() ==> live(#[trigger] catalog(r)[i]),
        forall|i: int| 0 <= i < catalog(r).len() ==> (#[trigger] catalog(r)[i]).end < 128,
        1 <= catalog(r).len() <= 4,
        total_len(catalog(r)) == count(r),
        expand(catalog(r)).len() == count(r),
{
    reveal_with_fuel(total_len, 5);
    lemma_total_len_is_walked(catalog(r));
}

/// Provides the ranges of the subset `r`. Their cumulative length is the number of codes
/// that the subset has.
pub fn ranges(r: Ranges) -> (rs: Vec<RangeInclusive<usize>>)
    ensures
        views(rs@) == catalog(r),
        rs@.len() == catalog(r).len(),
        total_len(views(rs@)) == count(r),
{
    proof {
        lemma_catalog(r);
    }
    let rs = match r {
        Ranges::Printable => vec![32..=126],
        Ranges::Control => vec![0..=31, 127..=127],
        Ranges::Capital => vec![65..=90],
        Ranges::Small => vec![97..=122],
        Ranges::Letters => vec![65..=90, 97..=122],
        Ranges::Digits => vec![48..=57],
        Ranges::Symbols => vec![32..=47, 58..=64, 91..=96, 123..=126],
        Ranges::Table => vec![0..=127],
    };
    assert(views(rs@) =~= catalog(r));
    rs
}

/// Computes the cumulative length of the ranges `rs`, each counted from its bounds.
pub fn len(rs: &[RangeInclusive<usize>]) -> (n: usize)
    requires
        ordered(views(rs@)),
        total_len(views(rs@)) <= usize::MAX,
    ensures
        n == total_len(views(rs@)),
{
    let ghost vs = views(rs@);
    let mut n: usize = 0;
    let mut i: usize = 0;
    assert(vs.take(0).len() == 0);
    while i < rs.len()
        invariant
            i <= rs.len(),
            vs == views(rs@),
            ordered(vs),
            total_len(vs) <= usize::MAX,
            n == total_len(vs.take(i as int)),
        decreases rs.len() - i,
    {
        let r = &rs[i];
        proof {
            assert(vs.take(i + 1).drop_last() =~= vs.take(i as int));
            assert(vs.take(i + 1).last() == r@);
            assert(vs[i as int].start <= vs[i as int].end);
            lemma_total_len_grows(vs, i + 1);
        }
        n = n + (*r.end() - *r.start() + 1);
        i += 1;
    }
    assert(vs.take(i as int) =~= vs);
    n
}

/// How many indices the ranges `rs` yield, as far as a `usize` can say.
pub(crate) fn walked(rs: &[RangeInclusive<usize>]) -> (n: usize)
    ensures
        n == if expand(views(rs@)).len() <= usize::MAX {
            expand(views(rs@)).len()
        } else {
            usize::MAX as nat
        },
{
    let ghost vs = views(rs@);
    let mut n: usize = 0;
    let mut i: usize = 0;
    assert(vs.take(0).len() == 0);
    while i < rs.len()
        invariant
            i <= rs.len(),
            vs == views(rs@),
            n == if expand(vs.take(i as int)).len() <= usize::MAX {
                expand(vs.take(i as int)).len()
            } else {
                usize::MAX as nat
            },
        decreases rs.len() - i,
    {
        let r = &rs[i];
        proof {
            assert(vs.take(i + 1).drop_last() =~= vs.take(i as int));
            assert(vs.take(i + 1).last() == r@);
        }
        if !spent(r) {
            n = n.saturating_add(*r.end() - *r.start()).saturating_add(1);
        }
        i += 1;
    }
    assert(vs.take(i as int) =~= vs);
    n
}

/// Appends the indices that `r` yields.
fn push_walk(out: &mut Vec<usize>, r: &RangeInclusive<usize>)
    ensures
        final(out)@ == old(out)@ + walk(r@),
{
    if spent(r) {
        assert(out@ =~= old(out)@ + walk(r@));
    } else {
        let start = *r.start();
        let end = *r.end();
        let mut i = start;
        assert(out@ =~= old(out)@ + walk(r@).take(0));
        while i < end
            invariant
                start <= i <= end,
                live(r@),
                start == r@.start,
                end == r@.end,
                out@ == old(out)@ + walk(r@).take(i - start),
            decreases end - i,
        {
            out.push(i);
            i += 1;
            assert(out@ =~= old(out)@ + walk(r@).take(i - start));
        }
        out.push(end);
        assert(out@ =~= old(out)@ + walk(r@));
    }
}

/// Collects the indices that the ranges `rs` yield, range after range.
pub fn ccr1(rs: &[RangeInclusive<usize>]) -> (out: Vec<usize>)
    ensures
        out@ == expand(views(rs@)),
{
    let ghost vs = views(rs@);
    let mut out: Vec<usize> = Vec::with_capacity(walked(rs));
    let mut i: usize = 0;
    assert(out@ =~= expand(vs.take(0)));
    while i < rs.len()
        invariant
            i <= rs.len(),
            vs == views(rs@),
            out@ == expand(vs.take(i as int)),
        decreases rs.len() - i,
    {
        proof {
            assert(vs.take(i + 1).drop_last() =~= vs.take(i as int));
            assert(vs.take(i + 1).last() == rs[i as int]@);
        }
        push_walk(&mut out, &rs[i]);
        i += 1;
    }
    assert(vs.take(i as int) =~= vs);
    out
}

/// Collects the indices that the ranges `rs` yield, by collecting those of every single
/// range and putting them one behind the other.
pub fn ccr2(rs: &[RangeInclusive<usize>]) -> (out: Vec<usize>)
    ensures
        out@ == expand(views(rs@)),
{
    let ghost vs = views(rs@);
    let mut out: Vec<usize> = Vec::with_capacity(walked(rs));
    let mut i: usize = 0;
    assert(out@ =~= expand(vs.take(0)));
    while i < rs.len()
        invariant
            i <= rs.len(),
            vs == views(rs@),
            out@ == expand(vs.take(i as int)),
        decreases rs.len() - i,
    {
        let one = slice_subrange(rs, i, i + 1);
        let mut part = ccr1(one);
        proof {
            assert(views(one@) =~= seq![rs[i as int]@]);
            assert(seq![rs[i as int]@].drop_last() =~= Seq::<RangeInclusiveView<usize>>::empty());
            reveal_with_fuel(expand, 2);
            assert(part@ =~= walk(rs[i as int]@));
            assert(vs.take(i + 1).drop_last() =~= vs.take(i as int));
            assert(vs.take(i + 1).last() == rs[i as int]@);
        }
        out.append(&mut part);
        i += 1;
    }
    assert(vs.take(i as int) =~= vs);
    out
}

} // verus!
