//! Text as sequences of characters: runs of one character and padding to a width.

use vstd::prelude::*;
use vstd::string::{StringExecFns, StrSliceExecFns};

verus! {

/// `n` copies of the character `c`.
pub open spec fn run(c: char, n: nat) -> Seq<char> {
    Seq::new(n, |i: int| c)
}

/// `s` written `n` times in a row.
pub open spec fn times(s: Seq<char>, n: nat) -> Seq<char>
    decreases n,
{
    if n == 0 {
        Seq::empty()
    } else {
        times(s, (n - 1) as nat) + s
    }
}

/// `s` with blanks behind it until it is `width` long; a longer `s` is left as it is.
pub open spec fn left(s: Seq<char>, width: nat) -> Seq<char> {
    if s.len() >= width {
        s
    } else {
        s + run(' ', (width - s.len()) as nat)
    }
}

/// `s` with blanks on both sides until it is `width` long, the odd blank behind it;
/// a longer `s` is left as it is.
pub open spec fn centered(s: Seq<char>, width: nat) -> Seq<char> {
    if s.len() >= width {
        s
    } else {
        let gap = (width - s.len()) as nat;
        run(' ', gap / 2) + s + run(' ', (gap - gap / 2) as nat)
    }
}

/// `times` has the length of its parts together.
pub proof fn lemma_times_len(s: Seq<char>, n: nat)
    ensures
        times(s, n).len() == n * s.len(),
    decreases n,
{
    if n > 0 {
        let m = (n - 1) as nat;
        let l = s.len();
        lemma_times_len(s, m);
        assert(n * l == m * l + l) by (nonlinear_arith)
            requires
                n == m + 1,
        ;
    } else {
        assert(0 * s.len() == 0) by (nonlinear_arith);
    }
}

/// Padding fills up to the width and never cuts.
pub proof fn lemma_padded_len(s: Seq<char>, width: nat)
    ensures
        left(s, width).len() == if s.len() >= width { s.len() } else { width },
        centered(s, width).len() == if s.len() >= width { s.len() } else { width },
{
}

/// Appends `n` copies of the one-character text `unit`.
pub(crate) fn push_run(o: &mut String, unit: &str, n: usize)
    requires
        unit@.len() == 1,
    ensures
        final(o)@ == old(o)@ + run(unit@[0], n as nat),
{
    let mut i: usize = 0;
    assert(o@ =~= old(o)@ + run(unit@[0], 0));
    while i < n
        invariant
            i <= n,
            unit@.len() == 1,
            o@ == old(o)@ + run(unit@[0], i as nat),
        decreases n - i,
    {
        o.append(unit);
        i += 1;
        assert(o@ =~= old(o)@ + run(unit@[0], i as nat));
    }
}

/// Appends `s` `n` times.
pub(crate) fn push_times(o: &mut String, s: &str, n: usize)
    ensures
        final(o)@ == old(o)@ + times(s@, n as nat),
{
    let mut i: usize = 0;
    assert(o@ =~= old(o)@ + times(s@, 0));
    while i < n
        invariant
            i <= n,
            o@ == old(o)@ + times(s@, i as nat),
        decreases n - i,
    {
        o.append(s);
        i += 1;
        assert(o@ =~= old(o)@ + times(s@, i as nat));
    }
}

/// Appends `s`, then blanks until `width` characters are written.
pub(crate) fn push_left(o: &mut String, s: &str, width: usize)
    ensures
        final(o)@ == old(o)@ + left(s@, width as nat),
{
    let len = s.unicode_len();
    o.append(s);
    if len < width {
        proof {
            reveal_strlit(" ");
        }
        push_run(o, " ", width - len);
    }
    assert(o@ =~= old(o)@ + left(s@, width as nat));
}

/// Appends `s` with blanks on both sides until `width` characters are written.
pub(crate) fn push_centered(o: &mut String, s: &str, width: usize)
    ensures
        final(o)@ == old(o)@ + centered(s@, width as nat),
{
    let len = s.unicode_len();
    if len < width {
        proof {
            reveal_strlit(" ");
        }
        let gap = width - len;
        push_run(o, " ", gap / 2);
        o.append(s);
        push_run(o, " ", gap - gap / 2);
    } else {
        o.append(s);
    }
    assert(o@ =~= old(o)@ + centered(s@, width as nat));
}

} // verus!
