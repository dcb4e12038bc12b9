//! The number-type flag: `-nt:` followed by the base as a decimal number.

use vstd::prelude::*;
use vstd::string::StrSliceExecFns;
use crate::numeral::Base;

verus! {

/// A decimal digit.
pub open spec fn is_digit(c: char) -> bool {
    '0' <= c <= '9'
}

/// Every character is a decimal digit.
pub open spec fn all_digits(s: Seq<char>) -> bool {
    forall|i: int| 0 <= i < s.len() ==> is_digit(#[trigger] s[i])
}

/// The number that the decimal digits `s` write.
pub open spec fn value(s: Seq<char>) -> nat
    decreases s.len(),
{
    if s.len() == 0 {
        0
    } else {
        10 * value(s.drop_last()) + (s.last() as nat - '0' as nat) as nat
    }
}

/// The number that `s` writes: at least one decimal digit and nothing else, but for one
/// plus sign that may stand in front.
pub open spec fn unsigned(s: Seq<char>) -> Option<nat> {
    let digits = if s.len() > 0 && s[0] == '+' {
        s.skip(1)
    } else {
        s
    };
    if digits.len() > 0 && all_digits(digits) {
        Some(value(digits))
    } else {
        None
    }
}

/// The base that the argument `s` asks for: `s` is `-nt:` followed by the number of a
/// base.
pub open spec fn flag_base(s: Seq<char>) -> Option<Base> {
    if s.len() >= 4 && s.take(4) == "-nt:"@ {
        match unsigned(s.skip(4)) {
            Some(n) => Base::of(n),
            None => None,
        }
    } else {
        None
    }
}

/// Reads the number-type flag: the base where `s` is `-nt:` and the number of a base,
/// nothing where `s` is anything else.
pub fn aq_base(s: &str) -> (r: Option<Base>)
    ensures
        r == flag_base(s@),
{
    proof {
        reveal_strlit("-nt:");
    }
    let n = s.unicode_len();
    if n < 4 {
        return None;
    }
    if s.get_char(0) != '-' || s.get_char(1) != 'n' || s.get_char(2) != 't' || s.get_char(3)
        != ':' {
        assert(s@.take(4)[0] == s@[0] && s@.take(4)[1] == s@[1] && s@.take(4)[2] == s@[2]
            && s@.take(4)[3] == s@[3]);
        return None;
    }
    assert(s@.take(4) =~= "-nt:"@);
    let ghost rest = s@.skip(4);
    let mut i: usize = 4;
    if n > 4 && s.get_char(4) == '+' {
        i = 5;
    }
    let from = i;
    let ghost digits = s@.skip(from as int);
    assert(digits =~= if rest.len() > 0 && rest[0] == '+' {
        rest.skip(1)
    } else {
        rest
    });
    assert(flag_base(s@) == if digits.len() > 0 && all_digits(digits) {
        Base::of(value(digits))
    } else {
        None
    });
    if i == n {
        return None;
    }
    // The number read so far, or 1000 where it is larger: no base is that large.
    let mut acc: u32 = 0;
    assert(digits.take(0).len() == 0);
    while i < n
        invariant
            from <= i <= n,
            n == s@.len(),
            digits == s@.skip(from as int),
            flag_base(s@) == if digits.len() > 0 && all_digits(digits) {
                Base::of(value(digits))
            } else {
                None
            },
            all_digits(digits.take(i - from)),
            acc == if value(digits.take(i - from)) < 1000 {
                value(digits.take(i - from))
            } else {
                1000
            },
        decreases n - i,
    {
        let c = s.get_char(i);
        assert(digits[i - from] == c);
        if c < '0' || c > '9' {
            assert(!is_digit(digits[i - from]));
            return None;
        }
        let d = c as u32 - '0' as u32;
        proof {
            let next = digits.take(i + 1 - from);
            assert(next.drop_last() =~= digits.take(i - from));
            assert(next.last() == c);
            assert forall|k: int| 0 <= k < next.len() implies is_digit(#[trigger] next[k]) by {
                if k < next.len() - 1 {
                    assert(next[k] == digits.take(i - from)[k]);
                }
            }
        }
        acc = acc * 10 + d;
        if acc > 1000 {
            acc = 1000;
        }
        i += 1;
    }
    assert(digits.take(i - from) =~= digits);
    if acc < 256 {
        Base::from_number(acc as u8)
    } else {
        None
    }
}

} // verus!
