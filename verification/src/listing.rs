//! The flat listing: one line for each code, with its numeral, mnemonic and description.

use vstd::prelude::*;
use vstd::string::StringExecFns;
use crate::code::{Code, Record};
use crate::numeral::{Base, lemma_numeral_len, numeral, numeric, push_numeral};
use crate::text::{centered, push_centered};

verus! {

/// What every line starts with.
pub open spec fn indent() -> Seq<char> {
    "        "@
}

/// The numeral's column in the listing: the numeral in a field of twelve characters
/// that ends in a bar.
pub open spec fn listing_number(code: u8, b: Base) -> Seq<char> {
    match b {
        Base::Binary => " "@ + numeral(code as nat, b) + " |"@,
        Base::Octal => centered(" "@ + numeral(code as nat, b), 10) + " |"@,
        Base::Decimal => " "@ + centered(numeral(code as nat, b), 9) + " |"@,
        Base::Hexadecimal => centered(numeral(code as nat, b), 10) + " |"@,
    }
}

/// The line of one record: numeral, mnemonic centered in seven characters, description.
pub open spec fn listing_line(r: Record, b: Base) -> Seq<char> {
    "\n"@ + indent() + listing_number(r.code, b) + centered(r.human, 7) + "| "@ + r.desc
}

/// The two lines above the records: the columns' titles and a rule.
pub open spec fn listing_head() -> Seq<char> {
    "\n"@ + indent() + "  NUMERIC  | HUMAN | DESCRIPTION"@ + "\n"@ + indent()
        + "-------------------------------------------------"@
}

/// The lines of the records `rs`, in their order.
pub open spec fn listing_lines(rs: Seq<Record>, b: Base) -> Seq<char>
    decreases rs.len(),
{
    if rs.len() == 0 {
        Seq::empty()
    } else {
        listing_lines(rs.drop_last(), b) + listing_line(rs.last(), b)
    }
}

/// The whole listing of the records `rs` in base `b`.
pub open spec fn listing(rs: Seq<Record>, b: Base) -> Seq<char> {
    listing_head() + listing_lines(rs, b)
}

/// Below 128 the numeral's column is twelve characters wide in every base, and its last
/// character is the bar.
pub proof fn lemma_listing_number_width(code: u8, b: Base)
    requires
        code < 128,
    ensures
        listing_number(code, b).len() == 12,
        listing_number(code, b)[11] == '|',
{
    lemma_numeral_len(code as nat, b);
    reveal_strlit(" ");
    reveal_strlit(" |");
}

/// The columns of the listing are aligned: in the line of every record that fits the
/// columns, the bars stand at the same two places and the description starts at the same
/// place, in every base.
pub proof fn lemma_listing_line_columns(r: Record, b: Base)
    requires
        r.narrow(),
    ensures
        listing_line(r, b).len() == 30 + r.desc.len(),
        listing_line(r, b)[0] == '\n',
        listing_line(r, b)[20] == '|',
        listing_line(r, b)[28] == '|',
        listing_line(r, b).skip(30) == r.desc,
{
    lemma_listing_number_width(r.code, b);
    reveal_strlit("\n");
    reveal_strlit("        ");
    reveal_strlit("| ");
    assert(listing_line(r, b).skip(30) =~= r.desc);
}

/// Appends the numeral's column for `code`.
fn push_listing_number(o: &mut String, code: u8, b: Base)
    ensures
        final(o)@ == old(o)@ + listing_number(code, b),
{
    match b {
        Base::Binary => {
            o.append(" ");
            push_numeral(o, code, b);
        },
        Base::Octal => {
            let mut field = String::new();
            field.append(" ");
            push_numeral(&mut field, code, b);
            assert(field@ =~= " "@ + numeral(code as nat, b));
            push_centered(o, field.as_str(), 10);
        },
        Base::Decimal => {
            let field = numeric(code, b);
            o.append(" ");
            push_centered(o, field.as_str(), 9);
        },
        Base::Hexadecimal => {
            let field = numeric(code, b);
            push_centered(o, field.as_str(), 10);
        },
    }
    o.append(" |");
    assert(o@ =~= old(o)@ + listing_number(code, b));
}

/// Appends the line of the code `c`.
fn push_listing_line(o: &mut String, c: &Code, b: Base)
    ensures
        final(o)@ == old(o)@ + listing_line(c@, b),
{
    o.append("\n");
    o.append("        ");
    push_listing_number(o, c.code(), b);
    push_centered(o, c.human(), 7);
    o.append("| ");
    o.append(c.desc());
    assert(o@ =~= old(o)@ + listing_line(c@, b));
}

/// Appends to `o` the listing of `codes` in base `b`: the titles, a rule, and one line
/// for each code in the order given.
pub fn subset(codes: &[Code], o: &mut String, b: Base)
    ensures
        final(o)@ == old(o)@ + listing(codes.deep_view(), b),
{
    o.append("\n");
    o.append("        ");
    o.append("  NUMERIC  | HUMAN | DESCRIPTION");
    o.append("\n");
    o.append("        ");
    o.append("-------------------------------------------------");
    let ghost rs = codes.deep_view();
    assert(o@ =~= old(o)@ + listing_head() + listing_lines(rs.take(0), b));
    let mut i: usize = 0;
    while i < codes.len()
        invariant
            i <= codes.len(),
            rs == codes.deep_view(),
            o@ == old(o)@ + listing_head() + listing_lines(rs.take(i as int), b),
        decreases codes.len() - i,
    {
        push_listing_line(o, &codes[i], b);
        proof {
            let next = rs.take(i + 1);
            assert(next.drop_last() =~= rs.take(i as int));
            assert(next.last() == codes[i as int]@);
        }
        i += 1;
        assert(o@ =~= old(o)@ + listing_head() + listing_lines(rs.take(i as int), b));
    }
    assert(rs.take(i as int) =~= rs);
    assert(o@ =~= old(o)@ + listing(rs, b));
}

} // verus!
