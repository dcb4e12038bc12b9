//! The grid: resolved codes laid out in tracks of equal height, and its rendering as a
//! table with one column pair for each track.

use vstd::prelude::*;
use vstd::string::StringExecFns;
use crate::code::{Code, Record};
use crate::listing::indent;
use crate::numeral::{Base, lemma_numeral_len, numeral, numeric, push_numeral};
use crate::ranges::Ranges;
use crate::resolve::{apart, lemma_members_narrow, members};
use crate::text::{left, lemma_times_len, push_left, push_times, times};

verus! {

/// What a grid holds: `tracks` side by side, each `rows` cells high. A cell holds a
/// record or nothing.
pub ghost struct Sheet {
    pub rows: nat,
    pub tracks: Seq<Seq<Option<Record>>>,
}

impl Sheet {
    /// Every track is `rows` cells high.
    pub open spec fn wf(self) -> bool {
        forall|t: int| 0 <= t < self.tracks.len() ==> (#[trigger] self.tracks[t]).len() == self.rows
    }

    /// Every record in the sheet fits the columns.
    pub open spec fn narrow(self) -> bool {
        forall|t: int, r: int|
            0 <= t < self.tracks.len() && 0 <= r < self.tracks[t].len() ==> (
            #[trigger] self.tracks[t][r] matches Some(x) ==> x.narrow())
    }

    /// The cell in row `row` of track `track`.
    pub open spec fn cell(self, row: int, track: int) -> Option<Record>
        recommends
            0 <= track < self.tracks.len(),
            0 <= row < self.rows,
    {
        self.tracks[track][row]
    }

    /// The cell in place `k` where the cells are counted track after track, each track
    /// from the top.
    pub open spec fn slot(self, k: int) -> Option<Record>
        recommends
            0 <= k < self.tracks.len() * self.rows,
    {
        self.cell(k % (self.rows as int), k / (self.rows as int))
    }
}

/// Codes laid out for the table: tracks side by side, all of one height, where a track
/// that has run out of codes goes on with empty cells.
pub struct Grid<'a> {
    rows: usize,
    tracks: Vec<Vec<Option<&'a Code>>>,
}

impl<'a> View for Grid<'a> {
    type V = Sheet;

    closed spec fn view(&self) -> Sheet {
        Sheet { rows: self.rows as nat, tracks: self.tracks.deep_view() }
    }
}

/// The length of the longest of `tracks`; zero where there is none.
pub open spec fn longest(tracks: Seq<Seq<Record>>) -> nat
    decreases tracks.len(),
{
    if tracks.len() == 0 {
        0
    } else {
        let rest = longest(tracks.drop_last());
        if tracks.last().len() > rest {
            tracks.last().len()
        } else {
            rest
        }
    }
}

/// `track` as a column of `rows` cells: its records from the top, then empty cells.
pub open spec fn column(track: Seq<Record>, rows: nat) -> Seq<Option<Record>> {
    Seq::new(
        rows,
        |r: int|
            if r < track.len() {
                Some(track[r])
            } else {
                None
            },
    )
}

/// Several lists side by side, one track each, as high as the longest of them.
pub open spec fn aligned(apart: Seq<Seq<Record>>) -> Sheet {
    Sheet {
        rows: longest(apart),
        tracks: Seq::new(apart.len(), |t: int| column(apart[t], longest(apart))),
    }
}

/// One list of 128 records cut into four tracks of 32: track `t` holds the records
/// from `32 * t` on.
pub open spec fn quartered(whole: Seq<Record>) -> Sheet
    recommends
        whole.len() == 128,
{
    Sheet {
        rows: 32,
        tracks: Seq::new(4, |t: int| Seq::new(32, |r: int| Some(whole[32 * t + r]))),
    }
}

/// The grid of the lists `apart`: one list is cut into four tracks, several stand side
/// by side.
pub open spec fn laid_out(apart: Seq<Seq<Record>>) -> Sheet
    recommends
        apart.len() >= 1,
        apart.len() == 1 ==> apart[0].len() == 128,
{
    if apart.len() == 1 {
        quartered(apart[0])
    } else {
        aligned(apart)
    }
}

/// The numeral's column in a cell of the table: the numeral between bars, in a field
/// of thirteen characters.
pub open spec fn cell_number(code: u8, b: Base) -> Seq<char> {
    match b {
        Base::Binary => "| "@ + numeral(code as nat, b) + " |"@,
        Base::Octal => left("| "@ + numeral(code as nat, b), 11) + " |"@,
        Base::Decimal => "| "@ + left(numeral(code as nat, b), 9) + " |"@,
        Base::Hexadecimal => left("| "@ + numeral(code as nat, b), 11) + " |"@,
    }
}

/// One cell of the table: numeral and mnemonic of the record, or dashes where the cell
/// is empty.
pub open spec fn cell_text(c: Option<Record>, b: Base) -> Seq<char> {
    match c {
        Some(r) => cell_number(r.code, b) + left(r.human, 7),
        None => "| ---       "@ + "| -     "@,
    }
}

/// The cells of row `row` in the first `upto` tracks, from left to right.
pub open spec fn row_cells(s: Sheet, b: Base, row: int, upto: nat) -> Seq<char>
    decreases upto,
{
    if upto == 0 {
        Seq::empty()
    } else {
        row_cells(s, b, row, (upto - 1) as nat) + cell_text(s.cell(row, upto - 1), b)
    }
}

/// The line of row `row`: its cells and the closing bar.
pub open spec fn row_text(s: Sheet, b: Base, row: int) -> Seq<char> {
    "\n"@ + indent() + row_cells(s, b, row, s.tracks.len()) + "|"@
}

/// The lines of the first `upto` rows, from the top.
pub open spec fn rows_text(s: Sheet, b: Base, upto: nat) -> Seq<char>
    decreases upto,
{
    if upto == 0 {
        Seq::empty()
    } else {
        rows_text(s, b, (upto - 1) as nat) + row_text(s, b, upto - 1)
    }
}

/// The two lines above the rows: the titles of each track and a rule of the same width.
pub open spec fn table_head(tracks: nat) -> Seq<char> {
    "\n"@ + indent() + times("|  NUMERIC  | HUMAN "@, tracks) + "|"@ + "\n"@ + indent() + "-"@
        + times("--------------------"@, tracks)
}

/// The whole table of the sheet `s` in base `b`.
pub open spec fn table_text(s: Sheet, b: Base) -> Seq<char> {
    table_head(s.tracks.len()) + rows_text(s, b, s.rows)
}

/// Counted track after track, track `track` starts at place `track * rows`: with five
/// tracks of 33 rows the tracks start at 0, 33, 66, 99 and 132, with four of 32 at 0, 32,
/// 64 and 96.
pub proof fn lemma_slots(s: Sheet, row: int, track: int)
    requires
        0 <= row < s.rows,
        0 <= track < s.tracks.len(),
    ensures
        0 <= track * s.rows + row < s.tracks.len() * s.rows,
        s.slot(track * s.rows + row) == s.cell(row, track),
{
    let rows = s.rows as int;
    let tracks = s.tracks.len() as int;
    vstd::arithmetic::div_mod::lemma_fundamental_div_mod_converse(
        track * rows + row,
        rows,
        track,
        row,
    );
    assert(0 <= track * rows) by (nonlinear_arith)
        requires
            0 <= track,
            0 <= rows,
    ;
    assert((track + 1) * rows <= tracks * rows) by (nonlinear_arith)
        requires
            track + 1 <= tracks,
            0 <= rows,
    ;
    assert((track + 1) * rows == track * rows + rows) by (nonlinear_arith);
}

/// No list is longer than the longest.
pub proof fn lemma_longest(apart: Seq<Seq<Record>>, t: int)
    requires
        0 <= t < apart.len(),
    ensures
        apart[t].len() <= longest(apart),
    decreases apart.len(),
{
    if t < apart.len() - 1 {
        lemma_longest(apart.drop_last(), t);
    }
}

/// Lists side by side keep every record at its place and lose none: track `t` holds the
/// records of list `t` from the top, in their order, and empty cells below them.
pub proof fn lemma_aligned_cells(apart: Seq<Seq<Record>>, t: int, r: int)
    requires
        0 <= t < apart.len(),
        0 <= r < longest(apart),
    ensures
        aligned(apart).wf(),
        aligned(apart).tracks.len() == apart.len(),
        apart[t].len() <= aligned(apart).rows,
        r < apart[t].len() ==> aligned(apart).cell(r, t) == Some(apart[t][r]),
        r >= apart[t].len() ==> aligned(apart).cell(r, t) == None::<Record>,
{
    lemma_longest(apart, t);
}

/// A list of 128 records cut in four keeps every record: record `k` stands in track
/// `k / 32`, row `k % 32`.
pub proof fn lemma_quartered_cells(whole: Seq<Record>, k: int)
    requires
        whole.len() == 128,
        0 <= k < 128,
    ensures
        quartered(whole).wf(),
        quartered(whole).tracks.len() == 4,
        quartered(whole).rows == 32,
        quartered(whole).cell(k % 32, k / 32) == Some(whole[k]),
{
}

/// The grid of lists whose records fit the columns is well formed, and its records fit
/// the columns.
pub proof fn lemma_laid_out(apart: Seq<Seq<Record>>)
    requires
        apart.len() >= 1,
        apart.len() == 1 ==> apart[0].len() == 128,
        forall|i: int, k: int|
            0 <= i < apart.len() && 0 <= k < apart[i].len() ==> (#[trigger] apart[i][k]).narrow(),
    ensures
        laid_out(apart).wf(),
        laid_out(apart).narrow(),
{
    let s = laid_out(apart);
    assert forall|t: int, r: int| 0 <= t < s.tracks.len() && 0 <= r < s.tracks[t].len() implies (
    #[trigger] s.tracks[t][r] matches Some(x) ==> x.narrow()) by {
        if apart.len() == 1 {
            assert(s.tracks[t][r] == Some(apart[0][32 * t + r]));
        } else {
            if r < apart[t].len() {
                assert(s.tracks[t][r] == Some(apart[t][r]));
            }
        }
    }
}

/// A cell is twenty characters wide, whether it holds a record that fits the columns or
/// nothing, and its two bars stand at the same places.
pub proof fn lemma_cell_width(c: Option<Record>, b: Base)
    requires
        c matches Some(r) ==> r.narrow(),
    ensures
        cell_text(c, b).len() == 20,
        cell_text(c, b)[0] == '|',
        cell_text(c, b)[12] == '|',
{
    reveal_strlit("| ");
    reveal_strlit(" |");
    reveal_strlit("| ---       ");
    reveal_strlit("| -     ");
    match c {
        Some(r) => {
            lemma_numeral_len(r.code as nat, b);
        },
        None => {},
    }
}

/// The first `upto` cells of a row are twenty characters each.
proof fn lemma_row_cells_width(s: Sheet, b: Base, row: int, upto: nat)
    requires
        s.wf(),
        s.narrow(),
        0 <= row < s.rows,
        upto <= s.tracks.len(),
    ensures
        row_cells(s, b, row, upto).len() == 20 * upto,
    decreases upto,
{
    if upto > 0 {
        lemma_row_cells_width(s, b, row, (upto - 1) as nat);
        assert(s.tracks[upto - 1].len() == s.rows);
        lemma_cell_width(s.cell(row, upto - 1), b);
    }
}

/// The table is aligned: where the records fit the columns, the titles, the rule and
/// every row are lines of one length, twenty characters for each track and ten more.
pub proof fn lemma_table_aligned(s: Sheet, b: Base, row: int)
    requires
        s.wf(),
        s.narrow(),
        0 <= row < s.rows,
    ensures
        row_text(s, b, row).len() == 20 * s.tracks.len() + 10,
        table_head(s.tracks.len()).len() == 2 * (20 * s.tracks.len() + 10),
{
    lemma_row_cells_width(s, b, row, s.tracks.len());
    lemma_times_len("|  NUMERIC  | HUMAN "@, s.tracks.len());
    lemma_times_len("--------------------"@, s.tracks.len());
    reveal_strlit("\n");
    reveal_strlit("        ");
    reveal_strlit("|");
    reveal_strlit("-");
    reveal_strlit("|  NUMERIC  | HUMAN ");
    reveal_strlit("--------------------");
}

/// The table of subsets is aligned in every base: of the whole table alone, or of two or
/// more subsets side by side, every row is twenty characters for each track and ten more.
pub proof fn lemma_subsets_table_aligned(rs: Seq<Ranges>, b: Base, row: int)
    requires
        rs.len() >= 2 || rs == seq![Ranges::Table],
        0 <= row < laid_out(apart(rs)).rows,
    ensures
        laid_out(apart(rs)).wf(),
        row_text(laid_out(apart(rs)), b, row).len() == 20 * laid_out(apart(rs)).tracks.len() + 10,
{
    let a = apart(rs);
    assert forall|i: int, k: int| 0 <= i < a.len() && 0 <= k < a[i].len() implies (
    #[trigger] a[i][k]).narrow() by {
        lemma_members_narrow(rs[i], k);
    }
    if rs.len() == 1 {
        crate::resolve::lemma_members(Ranges::Table);
        assert(a[0] == members(Ranges::Table));
    }
    lemma_laid_out(a);
    lemma_table_aligned(laid_out(a), b, row);
}

/// The length of the longest of the lists.
fn longest_len(apart: &[Vec<Code>]) -> (m: usize)
    ensures
        m == longest(apart.deep_view()),
{
    let ghost a = apart.deep_view();
    let mut m: usize = 0;
    let mut i: usize = 0;
    assert(a.take(0).len() == 0);
    while i < apart.len()
        invariant
            i <= apart.len(),
            a == apart.deep_view(),
            m == longest(a.take(i as int)),
        decreases apart.len() - i,
    {
        proof {
            let next = a.take(i + 1);
            assert(next.drop_last() =~= a.take(i as int));
            assert(next.last().len() == apart[i as int].len());
        }
        if apart[i].len() > m {
            m = apart[i].len();
        }
        i += 1;
    }
    assert(a.take(i as int) =~= a);
    m
}

/// `track` as a column of `rows` cells.
fn column_of<'a>(track: &'a Vec<Code>, rows: usize) -> (col: Vec<Option<&'a Code>>)
    ensures
        col.deep_view() == column(track.deep_view(), rows as nat),
{
    let mut col: Vec<Option<&'a Code>> = Vec::with_capacity(rows);
    let mut r: usize = 0;
    while r < rows
        invariant
            r <= rows,
            col@.len() == r,
            forall|k: int|
                0 <= k < r ==> (#[trigger] col@[k]).deep_view() == column(
                    track.deep_view(),
                    rows as nat,
                )[k],
        decreases rows - r,
    {
        if r < track.len() {
            col.push(Some(&track[r]));
        } else {
            col.push(None);
        }
        r += 1;
    }
    assert(col.deep_view() =~= column(track.deep_view(), rows as nat));
    col
}

/// The slice of 32 codes from `from` on, as a column.
fn quarter<'a>(whole: &'a Vec<Code>, from: usize) -> (col: Vec<Option<&'a Code>>)
    requires
        from + 32 <= whole.len(),
    ensures
        col.deep_view() == Seq::new(32, |r: int| Some(whole.deep_view()[from + r])),
{
    let mut col: Vec<Option<&'a Code>> = Vec::with_capacity(32);
    let mut r: usize = 0;
    while r < 32
        invariant
            r <= 32,
            from + 32 <= whole.len(),
            col@.len() == r,
            forall|k: int|
                0 <= k < r ==> (#[trigger] col@[k]).deep_view() == Some(
                    whole.deep_view()[from + k],
                ),
        decreases 32 - r,
    {
        col.push(Some(&whole[from + r]));
        r += 1;
    }
    assert(col.deep_view() =~= Seq::new(32, |r: int| Some(whole.deep_view()[from + r])));
    col
}

/// Lays the lists `apart` out as a grid. One list, which must hold 128 codes, is cut
/// into four tracks of 32. Several lists become one track each, as high as the longest
/// of them; a shorter one is filled up with empty cells, and none is cut.
pub fn layout<'a>(apart: &'a [Vec<Code>]) -> (g: Grid<'a>)
    requires
        apart.len() >= 1,
        apart.len() == 1 ==> apart[0].len() == 128,
    ensures
        g@ == laid_out(apart.deep_view()),
        g@.wf(),
{
    let ghost a = apart.deep_view();
    if apart.len() == 1 {
        let whole = &apart[0];
        assert(whole.deep_view() == a[0]);
        let mut tracks: Vec<Vec<Option<&'a Code>>> = Vec::with_capacity(4);
        let mut t: usize = 0;
        while t < 4
            invariant
                t <= 4,
                whole.len() == 128,
                whole.deep_view() == a[0],
                tracks@.len() == t,
                forall|j: int|
                    0 <= j < t ==> (#[trigger] tracks@[j]).deep_view() == Seq::new(
                        32,
                        |r: int| Some(a[0][32 * j + r]),
                    ),
            decreases 4 - t,
        {
            let col = quarter(whole, 32 * t);
            tracks.push(col);
            t += 1;
        }
        assert(tracks.deep_view() =~= quartered(a[0]).tracks);
        Grid { rows: 32, tracks }
    } else {
        let rows = longest_len(apart);
        let mut tracks: Vec<Vec<Option<&'a Code>>> = Vec::with_capacity(apart.len());
        let mut t: usize = 0;
        while t < apart.len()
            invariant
                t <= apart.len(),
                a == apart.deep_view(),
                rows == longest(a),
                tracks@.len() == t,
                forall|j: int|
                    0 <= j < t ==> (#[trigger] tracks@[j]).deep_view() == column(a[j], rows as nat),
            decreases apart.len() - t,
        {
            let col = column_of(&apart[t], rows);
            assert(apart[t as int].deep_view() == a[t as int]);
            tracks.push(col);
            t += 1;
        }
        assert(tracks.deep_view() =~= aligned(a).tracks);
        Grid { rows, tracks }
    }
}

impl<'a> Grid<'a> {
    #[verifier::type_invariant]
    spec fn inv(self) -> bool {
        self@.wf()
    }

    /// The number of rows.
    pub fn rows(&self) -> (n: usize)
        ensures
            n == self@.rows,
    {
        self.rows
    }

    /// The number of tracks.
    pub fn tracks(&self) -> (n: usize)
        ensures
            n == self@.tracks.len(),
    {
        self.tracks.len()
    }

    /// The code in row `row` of track `track`, if the cell holds one.
    pub fn cell(&self, row: usize, track: usize) -> (c: Option<&'a Code>)
        requires
            track < self@.tracks.len(),
            row < self@.rows,
        ensures
            c.deep_view() == self@.cell(row as int, track as int),
    {
        proof {
            use_type_invariant(self);
        }
        assert(self.tracks@[track as int].deep_view() == self@.tracks[track as int]);
        self.tracks[track][row]
    }
}

/// Appends the numeral's column of a cell for `code`.
fn push_cell_number(o: &mut String, code: u8, b: Base)
    ensures
        final(o)@ == old(o)@ + cell_number(code, b),
{
    match b {
        Base::Binary => {
            o.append("| ");
            push_numeral(o, code, b);
        },
        Base::Octal => {
            let mut field = String::new();
            field.append("| ");
            push_numeral(&mut field, code, b);
            assert(field@ =~= "| "@ + numeral(code as nat, b));
            push_left(o, field.as_str(), 11);
        },
        Base::Decimal => {
            let field = numeric(code, b);
            o.append("| ");
            push_left(o, field.as_str(), 9);
        },
        Base::Hexadecimal => {
            let mut field = String::new();
            field.append("| ");
            push_numeral(&mut field, code, b);
            assert(field@ =~= "| "@ + numeral(code as nat, b));
            push_left(o, field.as_str(), 11);
        },
    }
    o.append(" |");
    assert(o@ =~= old(o)@ + cell_number(code, b));
}

/// Appends one cell.
fn push_cell(o: &mut String, c: Option<&Code>, b: Base)
    ensures
        final(o)@ == old(o)@ + cell_text(c.deep_view(), b),
{
    match c {
        Some(code) => {
            push_cell_number(o, code.code(), b);
            push_left(o, code.human(), 7);
        },
        None => {
            o.append("| ---       ");
            o.append("| -     ");
        },
    }
    assert(o@ =~= old(o)@ + cell_text(c.deep_view(), b));
}

/// Appends to `o` the table of `grid` in base `b`: the titles of each track, a rule,
/// and one line for each row, in which every track has its cell.
pub fn set(grid: &Grid, o: &mut String, b: Base)
    ensures
        final(o)@ == old(o)@ + table_text(grid@, b),
{
    let tracks = grid.tracks();
    let rows = grid.rows();
    let ghost s = grid@;
    o.append("\n");
    o.append("        ");
    push_times(o, "|  NUMERIC  | HUMAN ", tracks);
    o.append("|");
    o.append("\n");
    o.append("        ");
    o.append("-");
    push_times(o, "--------------------", tracks);
    assert(o@ =~= old(o)@ + table_head(s.tracks.len()) + rows_text(s, b, 0));
    let mut row: usize = 0;
    while row < rows
        invariant
            row <= rows,
            s == grid@,
            rows == s.rows,
            tracks == s.tracks.len(),
            o@ == old(o)@ + table_head(s.tracks.len()) + rows_text(s, b, row as nat),
        decreases rows - row,
    {
        let ghost before = o@;
        o.append("\n");
        o.append("        ");
        let ghost start = o@;
        assert(o@ =~= start + row_cells(s, b, row as int, 0));
        let mut track: usize = 0;
        while track < tracks
            invariant
                track <= tracks,
                row < rows,
                s == grid@,
                rows == s.rows,
                tracks == s.tracks.len(),
                o@ == start + row_cells(s, b, row as int, track as nat),
            decreases tracks - track,
        {
            push_cell(o, grid.cell(row, track), b);
            track += 1;
            assert(o@ =~= start + row_cells(s, b, row as int, track as nat));
        }
        o.append("|");
        assert(o@ =~= before + row_text(s, b, row as int));
        row += 1;
        assert(o@ =~= old(o)@ + table_head(s.tracks.len()) + rows_text(s, b, row as nat));
    }
    assert(o@ =~= old(o)@ + table_text(s, b));
}

} // verus!
