//! Numerals: a code's value written in one of four bases.

use vstd::prelude::*;
use vstd::string::StringExecFns;
use crate::text::{run, push_run};

verus! {

/// The base in which code values are written.
#[derive(Clone, Copy, Debug, PartialEq, Eq)]
pub enum Base {
    Binary,
    Octal,
    Decimal,
    Hexadecimal,
}

impl Base {
    /// The base as a number: 2, 8, 10 or 16.
    pub open spec fn radix(self) -> nat {
        match self {
            Base::Binary => 2,
            Base::Octal => 8,
            Base::Decimal => 10,
            Base::Hexadecimal => 16,
        }
    }

    /// The base as a number: 2, 8, 10 or 16.
    pub fn number(&self) -> (r: u8)
        ensures
            r == self.radix(),
    {
        match self {
            Base::Binary => 2,
            Base::Octal => 8,
            Base::Decimal => 10,
            Base::Hexadecimal => 16,
        }
    }

    /// The base whose number is `n`, if there is one.
    pub open spec fn of(n: nat) -> Option<Base> {
        if n == 2 {
            Some(Base::Binary)
        } else if n == 8 {
            Some(Base::Octal)
        } else if n == 10 {
            Some(Base::Decimal)
        } else if n == 16 {
            Some(Base::Hexadecimal)
        } else {
            None
        }
    }

    /// The base whose number is `n`, if there is one.
    pub fn from_number(n: u8) -> (r: Option<Base>)
        ensures
            r == Base::of(n as nat),
    {
        if n == 2 {
            Some(Base::Binary)
        } else if n == 8 {
            Some(Base::Octal)
        } else if n == 10 {
            Some(Base::Decimal)
        } else if n == 16 {
            Some(Base::Hexadecimal)
        } else {
            None
        }
    }

    /// Fewest digits a numeral of this base is written with; shorter ones get leading zeros.
    pub open spec fn min_digits(self) -> nat {
        match self {
            Base::Binary => 7,
            Base::Octal => 3,
            Base::Decimal => 1,
            Base::Hexadecimal => 2,
        }
    }

    /// What a numeral of this base starts with.
    pub open spec fn prefix(self) -> Seq<char> {
        match self {
            Base::Binary => "0b"@,
            Base::Octal => "0o"@,
            Base::Decimal => Seq::empty(),
            Base::Hexadecimal => "0x"@,
        }
    }
}

/// The digit that stands for `d`, lower case above nine.
pub open spec fn digit(d: nat) -> char {
    if d == 0 {
        '0'
    } else if d == 1 {
        '1'
    } else if d == 2 {
        '2'
    } else if d == 3 {
        '3'
    } else if d == 4 {
        '4'
    } else if d == 5 {
        '5'
    } else if d == 6 {
        '6'
    } else if d == 7 {
        '7'
    } else if d == 8 {
        '8'
    } else if d == 9 {
        '9'
    } else if d == 10 {
        'a'
    } else if d == 11 {
        'b'
    } else if d == 12 {
        'c'
    } else if d == 13 {
        'd'
    } else if d == 14 {
        'e'
    } else {
        'f'
    }
}

/// `n` without its last digit in base `b`.
pub open spec fn shift(n: nat, b: Base) -> nat {
    match b {
        Base::Binary => n / 2,
        Base::Octal => n / 8,
        Base::Decimal => n / 10,
        Base::Hexadecimal => n / 16,
    }
}

/// The value of the last digit of `n` in base `b`.
pub open spec fn low(n: nat, b: Base) -> nat {
    match b {
        Base::Binary => n % 2,
        Base::Octal => n % 8,
        Base::Decimal => n % 10,
        Base::Hexadecimal => n % 16,
    }
}

/// The digits of `n` in base `b`, most significant first, with no leading zero
/// (zero itself is the one digit `0`).
pub open spec fn digits(n: nat, b: Base) -> Seq<char>
    decreases n,
{
    if n < b.radix() {
        seq![digit(n)]
    } else {
        digits(shift(n, b), b).push(digit(low(n, b)))
    }
}

/// `s` with zeros in front of it until it is `width` long.
pub open spec fn zero_filled(s: Seq<char>, width: nat) -> Seq<char> {
    if s.len() >= width {
        s
    } else {
        run('0', (width - s.len()) as nat) + s
    }
}

/// The numeral of `n` in base `b`: binary as `0b` and at least seven digits, octal as
/// `0o` and at least three, hexadecimal as `0x` and at least two, decimal as it is.
pub open spec fn numeral(n: nat, b: Base) -> Seq<char> {
    b.prefix() + zero_filled(digits(n, b), b.min_digits())
}

/// How long the numeral of a code below 128 is: nine characters in binary, five in octal,
/// four in hexadecimal, one to three in decimal.
pub proof fn lemma_numeral_len(n: nat, b: Base)
    requires
        n < 128,
    ensures
        match b {
            Base::Binary => numeral(n, b).len() == 9,
            Base::Octal => numeral(n, b).len() == 5,
            Base::Decimal => 1 <= numeral(n, b).len() <= 3,
            Base::Hexadecimal => numeral(n, b).len() == 4,
        },
{
    reveal_with_fuel(digits, 8);
    reveal_strlit("0b");
    reveal_strlit("0o");
    reveal_strlit("0x");
}

/// The one-character text of the digit for `d`.
fn digit_text(d: u8) -> (r: &'static str)
    requires
        d < 16,
    ensures
        r@ == seq![digit(d as nat)],
{
    proof {
        reveal_strlit("0");
        reveal_strlit("1");
        reveal_strlit("2");
        reveal_strlit("3");
        reveal_strlit("4");
        reveal_strlit("5");
        reveal_strlit("6");
        reveal_strlit("7");
        reveal_strlit("8");
        reveal_strlit("9");
        reveal_strlit("a");
        reveal_strlit("b");
        reveal_strlit("c");
        reveal_strlit("d");
        reveal_strlit("e");
        reveal_strlit("f");
    }
    let r = if d == 0 {
        "0"
    } else if d == 1 {
        "1"
    } else if d == 2 {
        "2"
    } else if d == 3 {
        "3"
    } else if d == 4 {
        "4"
    } else if d == 5 {
        "5"
    } else if d == 6 {
        "6"
    } else if d == 7 {
        "7"
    } else if d == 8 {
        "8"
    } else if d == 9 {
        "9"
    } else if d == 10 {
        "a"
    } else if d == 11 {
        "b"
    } else if d == 12 {
        "c"
    } else if d == 13 {
        "d"
    } else if d == 14 {
        "e"
    } else {
        "f"
    };
    assert(r@ =~= seq![digit(d as nat)]);
    r
}

/// `n` without its last digit, and the value of that digit.
fn split(n: u8, b: Base) -> (r: (u8, u8))
    ensures
        r.0 == shift(n as nat, b),
        r.1 == low(n as nat, b),
        r.1 < 16,
{
    match b {
        Base::Binary => (n / 2, n % 2),
        Base::Octal => (n / 8, n % 8),
        Base::Decimal => (n / 10, n % 10),
        Base::Hexadecimal => (n / 16, n % 16),
    }
}

/// How many digits `n` has in base `b`.
fn digit_count(n: u8, b: Base) -> (k: usize)
    ensures
        k == digits(n as nat, b).len(),
        1 <= k <= 8,
    decreases n,
{
    if n < b.number() {
        1
    } else {
        let (rest, _) = split(n, b);
        let k = digit_count(rest, b);
        proof {
            lemma_digits_len(n as nat, b);
        }
        k + 1
    }
}

/// A numeral of a `u8` has at most eight digits.
proof fn lemma_digits_len(n: nat, b: Base)
    requires
        n < 256,
    ensures
        1 <= digits(n, b).len() <= 8,
{
    reveal_with_fuel(digits, 9);
}

/// Appends the digits of `n` in base `b`.
fn push_digits(o: &mut String, n: u8, b: Base)
    ensures
        final(o)@ == old(o)@ + digits(n as nat, b),
    decreases n,
{
    let (rest, last) = split(n, b);
    if n >= b.number() {
        push_digits(o, rest, b);
    }
    o.append(digit_text(last));
    assert(o@ =~= old(o)@ + digits(n as nat, b));
}

/// Appends the numeral of `code` in base `b`.
pub(crate) fn push_numeral(o: &mut String, code: u8, b: Base)
    ensures
        final(o)@ == old(o)@ + numeral(code as nat, b),
{
    match b {
        Base::Binary => o.append("0b"),
        Base::Octal => o.append("0o"),
        Base::Decimal => {},
        Base::Hexadecimal => o.append("0x"),
    }
    let least: usize = match b {
        Base::Binary => 7,
        Base::Octal => 3,
        Base::Decimal => 1,
        Base::Hexadecimal => 2,
    };
    let count = digit_count(code, b);
    if count < least {
        proof {
            reveal_strlit("0");
        }
        push_run(o, "0", least - count);
    }
    push_digits(o, code, b);
    assert(o@ =~= old(o)@ + numeral(code as nat, b));
}

/// The numeral of `code` in base `b`.
pub fn numeric(code: u8, b: Base) -> (s: String)
    ensures
        s@ == numeral(code as nat, b),
{
    let mut s = String::new();
    push_numeral(&mut s, code, b);
    assert(s@ =~= numeral(code as nat, b));
    s
}

} // verus!
