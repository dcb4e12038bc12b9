//! Resolution: from ranges and subsets to the records of the codes that they hold.

use vstd::prelude::*;
use vstd::std_specs::range::RangeInclusiveView;
use core::ops::RangeInclusive;
use crate::code::{Code, Record, lemma_record_narrow, record};
use crate::ranges::{
    Ranges, catalog, count, expand, lemma_catalog, lemma_expand_concat, len, live, ranges, spent,
    views, walk, walked,
};
use crate::table::TABLE;

verus! {

/// Every index that the ranges yield lies within the table.
pub open spec fn in_table(vs: Seq<RangeInclusiveView<usize>>) -> bool {
    forall|k: int| 0 <= k < expand(vs).len() ==> #[trigger] expand(vs)[k] < 128
}

/// The records of the indices `ixs`, in their order.
pub open spec fn records(ixs: Seq<usize>) -> Seq<Record> {
    ixs.map_values(|i: usize| record(i as int))
}

/// The records that a list of ranges resolves to: one for each index that the ranges
/// yield, in that order, an index that comes twice resolved twice.
pub open spec fn resolve(vs: Seq<RangeInclusiveView<usize>>) -> Seq<Record> {
    records(expand(vs))
}

/// The records of a subset.
pub open spec fn members(r: Ranges) -> Seq<Record> {
    resolve(catalog(r))
}

/// The records of several subsets in one list: those of each subset, in the order in
/// which the subsets are given.
pub open spec fn merged(rs: Seq<Ranges>) -> Seq<Record>
    decreases rs.len(),
{
    if rs.len() == 0 {
        Seq::empty()
    } else {
        merged(rs.drop_last()) + members(rs.last())
    }
}

/// The records of several subsets, one list for each subset.
pub open spec fn apart(rs: Seq<Ranges>) -> Seq<Seq<Record>> {
    rs.map_values(|r: Ranges| members(r))
}

/// What the first `i` ranges of a list yield is the start of what the list yields.
proof fn lemma_expand_prefix(vs: Seq<RangeInclusiveView<usize>>, i: int)
    requires
        0 <= i < vs.len(),
    ensures
        expand(vs.take(i + 1)) == expand(vs.take(i)) + walk(vs[i]),
        expand(vs) == expand(vs.take(i + 1)) + expand(vs.skip(i + 1)),
{
    assert(vs.take(i + 1).drop_last() =~= vs.take(i));
    assert(vs.take(i + 1).last() == vs[i]);
    lemma_expand_concat(vs.take(i + 1), vs.skip(i + 1));
    assert(vs.take(i + 1) + vs.skip(i + 1) =~= vs);
}

/// Resolution keeps order and number: there is one record for each index that the ranges
/// yield, and the record in place `k` is that of the index in place `k`.
pub proof fn lemma_resolve_at(vs: Seq<RangeInclusiveView<usize>>, k: int)
    requires
        0 <= k < expand(vs).len(),
    ensures
        resolve(vs).len() == expand(vs).len(),
        resolve(vs)[k] == record(expand(vs)[k] as int),
        expand(vs)[k] < 128 ==> resolve(vs)[k].code == expand(vs)[k],
{
}

/// Resolving two lists of ranges gives the records of the first list followed by the
/// records of the second.
pub proof fn lemma_resolve_concat(
    a: Seq<RangeInclusiveView<usize>>,
    b: Seq<RangeInclusiveView<usize>>,
)
    ensures
        resolve(a + b) == resolve(a) + resolve(b),
{
    lemma_expand_concat(a, b);
    assert(resolve(a + b) =~= resolve(a) + resolve(b));
}

/// The indices that ranges yield lie within the table exactly where every live range ends
/// below 128.
pub proof fn lemma_in_table(vs: Seq<RangeInclusiveView<usize>>)
    ensures
        in_table(vs) <==> forall|i: int|
            0 <= i < vs.len() && live(#[trigger] vs[i]) ==> vs[i].end < 128,
{
    if in_table(vs) {
        assert forall|i: int| 0 <= i < vs.len() && live(#[trigger] vs[i]) implies vs[i].end
            < 128 by {
            lemma_expand_prefix(vs, i);
            let at = expand(vs.take(i)).len() + (vs[i].end - vs[i].start);
            assert(expand(vs)[at] == walk(vs[i])[vs[i].end - vs[i].start]);
        }
    }
    if forall|i: int| 0 <= i < vs.len() && live(#[trigger] vs[i]) ==> vs[i].end < 128 {
        assert forall|k: int| 0 <= k < expand(vs).len() implies #[trigger] expand(vs)[k] < 128 by {
            lemma_walked_within(vs, k);
        }
    }
}

/// Appends the codes of the indices that `r` yields.
fn push_codes(out: &mut Vec<Code>, r: &RangeInclusive<usize>)
    requires
        live(r@) ==> r@.end < 128,
    ensures
        final(out).deep_view() == old(out).deep_view() + records(walk(r@)),
{
    if spent(r) {
        assert(out.deep_view() =~= old(out).deep_view() + records(walk(r@)));
    } else {
        let start = *r.start();
        let end = *r.end();
        let mut i = start;
        assert(out.deep_view() =~= old(out).deep_view() + records(walk(r@).take(0)));
        while i <= end
            invariant
                start <= i <= end + 1,
                live(r@),
                start == r@.start,
                end == r@.end,
                end < 128,
                out.deep_view() == old(out).deep_view() + records(walk(r@).take(i - start)),
            decreases end + 1 - i,
        {
            let info = TABLE[i];
            let code = Code { code: i as u8, human: info.0, desc: info.1 };
            let ghost before = out.deep_view();
            out.push(code);
            proof {
                assert(code@ == record(i as int));
                assert(out.deep_view() =~= before.push(code@));
                assert(walk(r@).take(i + 1 - start) =~= walk(r@).take(i - start).push(i));
                assert(records(walk(r@).take(i + 1 - start)) =~= records(
                    walk(r@).take(i - start),
                ).push(record(i as int)));
            }
            i += 1;
            assert(out.deep_view() =~= old(out).deep_view() + records(
                walk(r@).take(i - start),
            ));
        }
        assert(walk(r@).take(i - start) =~= walk(r@));
    }
}

/// Provides `Code`s for ranges specified: one for each index that the ranges yield,
/// range after range and each range from its lower bound up.
///
/// The indices must lie within the table.
///
/// Duplicities and input order are preserved.
pub fn codes(rs: &[RangeInclusive<usize>]) -> (cs: Vec<Code>)
    requires
        in_table(views(rs@)),
    ensures
        cs.deep_view() == resolve(views(rs@)),
{
    let ghost vs = views(rs@);
    let mut cs: Vec<Code> = Vec::with_capacity(walked(rs));
    let mut i: usize = 0;
    assert(cs.deep_view() =~= records(expand(vs.take(0))));
    while i < rs.len()
        invariant
            i <= rs.len(),
            vs == views(rs@),
            in_table(vs),
            cs.deep_view() == records(expand(vs.take(i as int))),
        decreases rs.len() - i,
    {
        let r = &rs[i];
        proof {
            lemma_expand_prefix(vs, i as int);
            lemma_in_table(vs);
            assert(vs[i as int] == r@);
        }
        push_codes(&mut cs, r);
        i += 1;
        assert(cs.deep_view() =~= records(expand(vs.take(i as int))));
    }
    assert(vs.take(i as int) =~= vs);
    cs
}

/// Provides the `Code`s of the subset `r`.
pub fn to_codes(r: Ranges) -> (cs: Vec<Code>)
    ensures
        cs.deep_view() == members(r),
        cs.len() == count(r),
{
    let rs = ranges(r);
    proof {
        lemma_members(r);
    }
    codes(rs.as_slice())
}

/// Similar to `codes` but it accepts subsets as input and returns their codes in one
/// list, subset after subset.
pub fn acquire(rs: &[Ranges]) -> (merged: Vec<Code>)
    ensures
        merged.deep_view() == self::merged(rs@),
{
    let mut total: usize = 0;
    let mut i: usize = 0;
    while i < rs.len()
        invariant
            i <= rs.len(),
        decreases rs.len() - i,
    {
        let of = ranges(rs[i]);
        proof {
            lemma_catalog(rs[i as int]);
        }
        total = total.saturating_add(len(of.as_slice()));
        i += 1;
    }
    let mut merged: Vec<Code> = Vec::with_capacity(total);
    let mut i: usize = 0;
    assert(merged.deep_view() =~= self::merged(rs@.take(0)));
    while i < rs.len()
        invariant
            i <= rs.len(),
            merged.deep_view() == self::merged(rs@.take(i as int)),
        decreases rs.len() - i,
    {
        let mut part = to_codes(rs[i]);
        proof {
            assert(rs@.take(i + 1).drop_last() =~= rs@.take(i as int));
            assert(rs@.take(i + 1).last() == rs[i as int]);
        }
        let ghost before = merged.deep_view();
        let ghost added = part.deep_view();
        merged.append(&mut part);
        i += 1;
        assert(merged.deep_view() =~= before + added);
    }
    assert(rs@.take(i as int) =~= rs@);
    merged
}

/// Similar to `codes` but it accepts subsets as input and returns their codes apart, one
/// list for each subset.
pub fn acquire_apart(rs: &[Ranges]) -> (many: Vec<Vec<Code>>)
    ensures
        many.deep_view() == apart(rs@),
{
    let mut many: Vec<Vec<Code>> = Vec::with_capacity(rs.len());
    let mut i: usize = 0;
    while i < rs.len()
        invariant
            i <= rs.len(),
            many@.len() == i,
            forall|j: int| 0 <= j < i ==> (#[trigger] many@[j]).deep_view() == members(rs[j]),
        decreases rs.len() - i,
    {
        let codes = to_codes(rs[i]);
        many.push(codes);
        i += 1;
    }
    assert(many.deep_view() =~= apart(rs@));
    many
}

/// A subset's ranges lie within the table, and it resolves to as many records as its
/// definition gives.
pub proof fn lemma_members(r: Ranges)
    ensures
        in_table(catalog(r)),
        members(r).len() == count(r),
{
    lemma_catalog(r);
    lemma_in_table(catalog(r));
}

/// Every record of a subset fits the columns of the listing and of the table.
pub proof fn lemma_members_narrow(r: Ranges, k: int)
    requires
        0 <= k < members(r).len(),
    ensures
        members(r)[k].narrow(),
{
    lemma_members(r);
    lemma_record_narrow(expand(catalog(r))[k] as int);
}

/// Every record of subsets resolved into one list fits the columns of the listing and of
/// the table.
pub proof fn lemma_merged_narrow(rs: Seq<Ranges>, k: int)
    requires
        0 <= k < merged(rs).len(),
    ensures
        merged(rs)[k].narrow(),
    decreases rs.len(),
{
    let rest = merged(rs.drop_last());
    if k < rest.len() {
        lemma_merged_narrow(rs.drop_last(), k);
    } else {
        lemma_members_narrow(rs.last(), k - rest.len());
    }
}

/// An index that ranges yield lies within the bounds of one of them.
proof fn lemma_walked_within(vs: Seq<RangeInclusiveView<usize>>, k: int)
    requires
        0 <= k < expand(vs).len(),
    ensures
        exists|i: int|
            0 <= i < vs.len() && live(#[trigger] vs[i]) && vs[i].start <= expand(vs)[k]
                <= vs[i].end,
    decreases vs.len(),
{
    let rest = vs.drop_last();
    if k < expand(rest).len() {
        lemma_walked_within(rest, k);
        let i = choose|i: int|
            0 <= i < rest.len() && live(#[trigger] rest[i]) && rest[i].start <= expand(rest)[k]
                <= rest[i].end;
        assert(vs[i] == rest[i]);
    } else {
        let i = vs.len() - 1;
        assert(live(vs[i]));
        assert(expand(vs)[k] == walk(vs[i])[k - expand(rest).len()]);
    }
}

/// Resolving several subsets in one call gives the records of the first ones followed by
/// the records of the others.
pub proof fn lemma_merged_concat(x: Seq<Ranges>, y: Seq<Ranges>)
    ensures
        merged(x + y) == merged(x) + merged(y),
    decreases y.len(),
{
    if y.len() == 0 {
        assert(x + y =~= x);
        assert(merged(x) + merged(y) =~= merged(x));
    } else {
        lemma_merged_concat(x, y.drop_last());
        assert((x + y).drop_last() =~= x + y.drop_last());
        assert((x + y).last() == y.last());
        assert(merged(x + y) =~= merged(x) + merged(y));
    }
}

/// Resolving one subset alone gives its records.
pub proof fn lemma_merged_one(a: Ranges)
    ensures
        merged(seq![a]) == members(a),
{
    reveal_with_fuel(merged, 2);
    assert(seq![a].drop_last() =~= Seq::<Ranges>::empty());
    assert(merged(seq![a]) =~= members(a));
}

/// Resolving two subsets merged gives what resolving the first alone gives, followed by
/// what resolving the second alone gives.
pub proof fn lemma_merged_pair(a: Ranges, b: Ranges)
    ensures
        merged(seq![a, b]) == merged(seq![a]) + merged(seq![b]),
{
    lemma_merged_concat(seq![a], seq![b]);
    assert(seq![a] + seq![b] =~= seq![a, b]);
}

/// Resolving two subsets apart gives two lists: what resolving the first alone gives, and
/// what resolving the second alone gives.
pub proof fn lemma_apart_pair(a: Ranges, b: Ranges)
    ensures
        apart(seq![a, b]).len() == 2,
        apart(seq![a, b])[0] == merged(seq![a]),
        apart(seq![a, b])[1] == merged(seq![b]),
{
    lemma_merged_one(a);
    lemma_merged_one(b);
}

/// Resolving subsets apart gives, in each place, what resolving that subset alone gives;
/// put one behind the other, the lists are what resolving merged gives.
pub proof fn lemma_apart_is_merged_cut(rs: Seq<Ranges>)
    ensures
        apart(rs).len() == rs.len(),
        forall|i: int| 0 <= i < rs.len() ==> #[trigger] apart(rs)[i] == merged(seq![rs[i]]),
        apart(rs).flatten() == merged(rs),
    decreases rs.len(),
{
    assert forall|i: int| 0 <= i < rs.len() implies #[trigger] apart(rs)[i] == merged(
        seq![rs[i]],
    ) by {
        lemma_merged_one(rs[i]);
    }
    if rs.len() == 0 {
        assert(apart(rs) =~= Seq::<Seq<Record>>::empty());
    } else {
        lemma_apart_is_merged_cut(rs.drop_last());
        assert(apart(rs).drop_last() =~= apart(rs.drop_last()));
        assert(apart(rs) =~= apart(rs.drop_last()).push(members(rs.last())));
        apart(rs.drop_last()).lemma_flatten_push(members(rs.last()));
    }
}

} // verus!
