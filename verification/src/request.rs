//! What a command line asks for, and the text that answers it.

use vstd::prelude::*;
use vstd::string::StrSliceExecFns;
use crate::flag::{aq_base, flag_base};
use crate::grid::{laid_out, layout, table_text};
use crate::listing::{listing, subset};
use crate::numeral::Base;
use crate::ranges::Ranges;
use crate::resolve::{acquire, acquire_apart, apart, lemma_members, members, merged};

verus! {

/// The shape of the table: the whole table in four tracks, or capital letters, small
/// letters, digits, symbols and control codes side by side in five.
#[derive(Clone, Copy, Debug, PartialEq, Eq)]
pub enum Shape {
    Classic,
    Special,
}

/// What a command line asks for.
#[derive(Clone, Copy, Debug, PartialEq, Eq)]
pub enum Request {
    /// The help text.
    Help,
    /// The version text.
    Version,
    /// The references.
    Reference,
    /// Nothing that is known.
    Unknown,
    /// The listing of a subset.
    Listing(Ranges, Base),
    /// The table.
    Table(Shape, Base),
}

/// What one argument asks for by itself.
#[derive(Clone, Copy, Debug, PartialEq, Eq)]
pub enum Word {
    Version,
    Reference,
    Help,
    Of(Ranges),
}

impl Shape {
    /// The subsets that the table of this shape shows.
    pub open spec fn subsets(self) -> Seq<Ranges> {
        match self {
            Shape::Classic => seq![Ranges::Table],
            Shape::Special => seq![
                Ranges::Capital,
                Ranges::Small,
                Ranges::Digits,
                Ranges::Symbols,
                Ranges::Control,
            ],
        }
    }
}

/// What the argument `a` asks for: a text, or the subset that its flag names.
pub open spec fn word(a: Seq<char>) -> Option<Word> {
    if a == "-v"@ {
        Some(Word::Version)
    } else if a == "-r"@ {
        Some(Word::Reference)
    } else if a == "--help"@ {
        Some(Word::Help)
    } else if a == "-p"@ {
        Some(Word::Of(Ranges::Printable))
    } else if a == "-c"@ {
        Some(Word::Of(Ranges::Control))
    } else if a == "-lc"@ {
        Some(Word::Of(Ranges::Capital))
    } else if a == "-ls"@ {
        Some(Word::Of(Ranges::Small))
    } else if a == "-l"@ {
        Some(Word::Of(Ranges::Letters))
    } else if a == "-d"@ {
        Some(Word::Of(Ranges::Digits))
    } else if a == "-s"@ {
        Some(Word::Of(Ranges::Symbols))
    } else if a == "-t"@ {
        Some(Word::Of(Ranges::Table))
    } else {
        None
    }
}

/// What the first argument that asks for anything asks for.
pub open spec fn first_word(args: Seq<Seq<char>>) -> Option<Word>
    decreases args.len(),
{
    if args.len() == 0 {
        None
    } else {
        match word(args[0]) {
            Some(w) => Some(w),
            None => first_word(args.skip(1)),
        }
    }
}

/// The shape that the arguments ask for: that of the first `-tt:s` or `-tt:c` among
/// them, the classic one where there is neither.
pub open spec fn shape(args: Seq<Seq<char>>) -> Shape
    decreases args.len(),
{
    if args.len() == 0 {
        Shape::Classic
    } else if args[0] == "-tt:s"@ {
        Shape::Special
    } else if args[0] == "-tt:c"@ {
        Shape::Classic
    } else {
        shape(args.skip(1))
    }
}

/// The base that the arguments ask for: that of the first number-type flag among them,
/// decimal where there is none.
pub open spec fn base(args: Seq<Seq<char>>) -> Base
    decreases args.len(),
{
    if args.len() == 0 {
        Base::Decimal
    } else {
        match flag_base(args[0]) {
            Some(b) => b,
            None => base(args.skip(1)),
        }
    }
}

/// What the command line `args` asks for. A command line of one argument asks for help.
/// Otherwise the first argument that asks for anything decides; where it names the whole
/// table, the table is asked for, in the shape that the arguments give.
pub open spec fn requested(args: Seq<Seq<char>>) -> Request {
    if args.len() == 1 {
        Request::Help
    } else {
        match first_word(args) {
            Some(Word::Version) => Request::Version,
            Some(Word::Reference) => Request::Reference,
            Some(Word::Help) => Request::Help,
            Some(Word::Of(Ranges::Table)) => Request::Table(shape(args), base(args)),
            Some(Word::Of(r)) => Request::Listing(r, base(args)),
            None => Request::Unknown,
        }
    }
}

/// The text that answers a request for a listing or for the table; the other requests are
/// answered by texts that the caller holds.
pub open spec fn answer(r: Request) -> Option<Seq<char>> {
    match r {
        Request::Listing(of, b) => Some(listing(merged(seq![of]), b)),
        Request::Table(s, b) => Some(table_text(laid_out(apart(s.subsets())), b)),
        _ => None,
    }
}

/// Whether two texts are the same.
fn same(a: &str, b: &str) -> (r: bool)
    ensures
        r == (a@ == b@),
{
    let n = a.unicode_len();
    if n != b.unicode_len() {
        return false;
    }
    let mut i: usize = 0;
    while i < n
        invariant
            i <= n,
            n == a@.len(),
            n == b@.len(),
            forall|k: int| 0 <= k < i ==> a@[k] == b@[k],
        decreases n - i,
    {
        if a.get_char(i) != b.get_char(i) {
            return false;
        }
        i += 1;
    }
    assert(a@ =~= b@);
    true
}

/// What the argument `a` asks for.
fn word_of(a: &str) -> (w: Option<Word>)
    ensures
        w == word(a@),
{
    if same(a, "-v") {
        Some(Word::Version)
    } else if same(a, "-r") {
        Some(Word::Reference)
    } else if same(a, "--help") {
        Some(Word::Help)
    } else if same(a, "-p") {
        Some(Word::Of(Ranges::Printable))
    } else if same(a, "-c") {
        Some(Word::Of(Ranges::Control))
    } else if same(a, "-lc") {
        Some(Word::Of(Ranges::Capital))
    } else if same(a, "-ls") {
        Some(Word::Of(Ranges::Small))
    } else if same(a, "-l") {
        Some(Word::Of(Ranges::Letters))
    } else if same(a, "-d") {
        Some(Word::Of(Ranges::Digits))
    } else if same(a, "-s") {
        Some(Word::Of(Ranges::Symbols))
    } else if same(a, "-t") {
        Some(Word::Of(Ranges::Table))
    } else {
        None
    }
}

/// The first word among the arguments.
fn first_word_of(args: &[String]) -> (w: Option<Word>)
    ensures
        w == first_word(args.deep_view()),
{
    let ghost all = args.deep_view();
    let mut i: usize = 0;
    assert(all.skip(0) =~= all);
    while i < args.len()
        invariant
            i <= args.len(),
            all == args.deep_view(),
            first_word(all) == first_word(all.skip(i as int)),
        decreases args.len() - i,
    {
        assert(all.skip(i as int)[0] == args[i as int]@);
        assert(all.skip(i as int).skip(1) =~= all.skip(i + 1));
        let w = word_of(args[i].as_str());
        if w.is_some() {
            return w;
        }
        i += 1;
    }
    None
}

/// The shape that the arguments ask for.
fn shape_of(args: &[String]) -> (s: Shape)
    ensures
        s == shape(args.deep_view()),
{
    let ghost all = args.deep_view();
    let mut i: usize = 0;
    assert(all.skip(0) =~= all);
    while i < args.len()
        invariant
            i <= args.len(),
            all == args.deep_view(),
            shape(all) == shape(all.skip(i as int)),
        decreases args.len() - i,
    {
        assert(all.skip(i as int)[0] == args[i as int]@);
        assert(all.skip(i as int).skip(1) =~= all.skip(i + 1));
        if same(args[i].as_str(), "-tt:s") {
            return Shape::Special;
        }
        if same(args[i].as_str(), "-tt:c") {
            return Shape::Classic;
        }
        i += 1;
    }
    Shape::Classic
}

/// The base that the arguments ask for.
fn base_of(args: &[String]) -> (b: Base)
    ensures
        b == base(args.deep_view()),
{
    let ghost all = args.deep_view();
    let mut i: usize = 0;
    assert(all.skip(0) =~= all);
    while i < args.len()
        invariant
            i <= args.len(),
            all == args.deep_view(),
            base(all) == base(all.skip(i as int)),
        decreases args.len() - i,
    {
        assert(all.skip(i as int)[0] == args[i as int]@);
        assert(all.skip(i as int).skip(1) =~= all.skip(i + 1));
        match aq_base(args[i].as_str()) {
            Some(b) => {
                return b;
            },
            None => {},
        }
        i += 1;
    }
    Base::Decimal
}

/// Reads what the command line `args` asks for; the program's own name is its first
/// argument.
pub fn request(args: &[String]) -> (r: Request)
    ensures
        r == requested(args.deep_view()),
{
    if args.len() == 1 {
        return Request::Help;
    }
    match first_word_of(args) {
        Some(Word::Version) => Request::Version,
        Some(Word::Reference) => Request::Reference,
        Some(Word::Help) => Request::Help,
        Some(Word::Of(Ranges::Table)) => Request::Table(shape_of(args), base_of(args)),
        Some(Word::Of(r)) => Request::Listing(r, base_of(args)),
        None => Request::Unknown,
    }
}

impl Shape {
    /// The subsets that the table of this shape shows.
    pub fn ranges(&self) -> (rs: Vec<Ranges>)
        ensures
            rs@ == self.subsets(),
    {
        let rs = match self {
            Shape::Classic => vec![Ranges::Table],
            Shape::Special => vec![
                Ranges::Capital,
                Ranges::Small,
                Ranges::Digits,
                Ranges::Symbols,
                Ranges::Control,
            ],
        };
        assert(rs@ =~= self.subsets());
        rs
    }
}

impl Request {
    /// Writes the text that answers the request: the listing of the subset, or the table in
    /// its shape, in the base asked for. The other requests are answered by texts that the
    /// caller holds, and get none here.
    pub fn render(&self) -> (text: Option<String>)
        ensures
            text.deep_view() == answer(*self),
    {
        match self {
            Request::Listing(of, b) => {
                let ranges = vec![*of];
                assert(ranges@ =~= seq![*of]);
                let codes = acquire(ranges.as_slice());
                let mut output = String::new();
                subset(codes.as_slice(), &mut output, *b);
                assert(output@ =~= listing(merged(seq![*of]), *b));
                Some(output)
            },
            Request::Table(s, b) => {
                let ranges = s.ranges();
                let codes = acquire_apart(ranges.as_slice());
                proof {
                    lemma_members(Ranges::Table);
                    assert(codes.deep_view()[0] == members(s.subsets()[0]));
                }
                let grid = layout(codes.as_slice());
                let mut output = String::new();
                crate::grid::set(&grid, &mut output, *b);
                assert(output@ =~= table_text(laid_out(apart(s.subsets())), *b));
                Some(output)
            },
            _ => None,
        }
    }
}

} // verus!
