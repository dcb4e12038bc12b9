use huski_lib::code::Code;
use huski_lib::grid::layout;
use huski_lib::numeral::Base;
use huski_lib::ranges::Ranges;
use huski_lib::resolve::{acquire, acquire_apart};

const INDENT: &str = "        ";
const BASES: [Base; 4] = [Base::Binary, Base::Octal, Base::Decimal, Base::Hexadecimal];
const SPECIAL: [Ranges; 5] =
    [Ranges::Capital, Ranges::Small, Ranges::Digits, Ranges::Symbols, Ranges::Control];

fn number_by_format(c: u8, b: Base) -> String {
    match b {
        Base::Binary => format!("| 0b{:>07b} |", c),
        Base::Octal => {
            let zero_pad = format!("| 0o{:>03o}", c);
            format!("{:<11} |", zero_pad)
        }
        Base::Decimal => format!("| {:<9} |", c),
        Base::Hexadecimal => {
            let zero_pad = format!("| 0x{:>02x}", c);
            format!("{:<11} |", zero_pad)
        }
    }
}

fn table_by_format(codes: &[Option<&Code>], b: Base, special: bool) -> String {
    let mut o = String::new();
    const HEADER: &str = "|  NUMERIC  | HUMAN ";
    o.push('\n');
    o.push_str(INDENT);
    o.push_str(HEADER);
    o.push_str(HEADER);
    o.push_str(HEADER);
    o.push_str(HEADER);

    if special {
        o.push_str(HEADER);
    }

    o.push('|');
    o.push('\n');
    o.push_str(INDENT);
    o.push_str("---------------------------------------------------------------------------------");

    if special {
        o.push_str("--------------------");
    }

    let (cols, last_col_ix, rows): (&[usize], usize, usize) = if special {
        const COLS: [usize; 5] = [0, 33, 66, 99, 132];
        (&COLS, 132, 33)
    } else {
        const COLS: [usize; 4] = [0, 32, 64, 96];
        (&COLS, 96, 32)
    };

    for row_ix in 0..rows {
        o.push('\n');
        o.push_str(INDENT);

        for &col_ix in cols.iter() {
            let ix = col_ix + row_ix;

            if let Some(c) = &codes[ix] {
                let numeric = number_by_format(c.code(), b);
                let human = format!("{:<7}", c.human());
                o.push_str(numeric.as_str());
                o.push_str(human.as_str());
            } else {
                o.push_str("| ---       ");
                o.push_str("| -     ");
            };

            if col_ix == last_col_ix {
                o.push('|');
            }
        }
    }
    o
}

fn slots(apart: &[Vec<Code>]) -> Vec<Option<&Code>> {
    if apart.len() > 1 {
        let mut codes = Vec::new();
        for item in apart.iter() {
            for i in 0..33 {
                codes.push(item.get(i))
            }
        }
        codes
    } else {
        apart[0].iter().map(|x| Some(x)).collect()
    }
}

fn table_of(apart: &[Vec<Code>], b: Base) -> String {
    let grid = layout(apart);
    let mut o = String::new();
    huski_lib::grid::set(&grid, &mut o, b);
    o
}

#[test]
fn two_subsets_of_unequal_length() {
    let apart = acquire_apart(&[Ranges::Capital, Ranges::Symbols]);
    assert_eq!(26, apart[0].len());
    assert_eq!(33, apart[1].len());

    let grid = layout(&apart);
    assert_eq!(2, grid.tracks());
    assert_eq!(33, grid.rows());

    for row in 0..33 {
        if row < 26 {
            assert_eq!(Some(&apart[0][row]), grid.cell(row, 0));
        } else {
            assert_eq!(None, grid.cell(row, 0));
        }
        assert_eq!(Some(&apart[1][row]), grid.cell(row, 1));
    }
}

#[test]
fn the_longer_track_first() {
    let apart = acquire_apart(&[Ranges::Control, Ranges::Digits]);
    let grid = layout(&apart);
    assert_eq!(2, grid.tracks());
    assert_eq!(33, grid.rows());
    assert_eq!(Some(&apart[0][32]), grid.cell(32, 0));
    assert_eq!(Some(&apart[1][9]), grid.cell(9, 1));
    assert_eq!(None, grid.cell(10, 1));
    assert_eq!(None, grid.cell(32, 1));
}

#[test]
fn the_whole_table_in_four_tracks() {
    let apart = acquire_apart(&[Ranges::Table]);
    let grid = layout(&apart);
    assert_eq!(4, grid.tracks());
    assert_eq!(32, grid.rows());
    for track in 0..4 {
        for row in 0..32 {
            assert_eq!(Some(&apart[0][32 * track + row]), grid.cell(row, track));
        }
    }
    assert_eq!(0, grid.cell(0, 0).unwrap().code());
    assert_eq!(32, grid.cell(0, 1).unwrap().code());
    assert_eq!(64, grid.cell(0, 2).unwrap().code());
    assert_eq!(96, grid.cell(0, 3).unwrap().code());
    assert_eq!(127, grid.cell(31, 3).unwrap().code());
}

#[test]
fn five_subsets_in_five_tracks() {
    let apart = acquire_apart(&SPECIAL);
    let grid = layout(&apart);
    assert_eq!(5, grid.tracks());
    assert_eq!(33, grid.rows());

    let flat = slots(&apart);
    assert_eq!(165, flat.len());
    for (track, from) in [0, 33, 66, 99, 132].into_iter().enumerate() {
        for row in 0..33 {
            assert_eq!(flat[from + row], grid.cell(row, track));
        }
    }
    let held = flat.iter().filter(|c| c.is_some()).count();
    assert_eq!(26 + 26 + 10 + 33 + 33, held);
}

#[test]
fn layout_keeps_every_record_in_its_order() {
    let apart = acquire_apart(&[Ranges::Digits, Ranges::Letters, Ranges::Capital]);
    let grid = layout(&apart);
    assert_eq!(3, grid.tracks());
    assert_eq!(52, grid.rows());
    for (track, list) in apart.iter().enumerate() {
        let held: Vec<Code> =
            (0..grid.rows()).filter_map(|row| grid.cell(row, track)).copied().collect();
        assert_eq!(list, &held);
    }
}

#[test]
fn empty_lists_side_by_side() {
    let apart: Vec<Vec<Code>> = vec![vec![], vec![]];
    let grid = layout(&apart);
    assert_eq!(2, grid.tracks());
    assert_eq!(0, grid.rows());
    let proof =
        "\n        |  NUMERIC  | HUMAN |  NUMERIC  | HUMAN |\n        -----------------------------------------";
    assert_eq!(proof, table_of(&apart, Base::Decimal));
}

#[test]
fn classic_table_as_format_writes_it() {
    let apart = acquire_apart(&[Ranges::Table]);
    for b in BASES {
        assert_eq!(table_by_format(&slots(&apart), b, false), table_of(&apart, b));
    }
}

#[test]
fn special_table_as_format_writes_it() {
    let apart = acquire_apart(&SPECIAL);
    for b in BASES {
        assert_eq!(table_by_format(&slots(&apart), b, true), table_of(&apart, b));
    }
}

#[test]
fn table_of_codes_above_the_table_as_format_writes_it() {
    let high: Vec<Code> =
        (128..=255u8).map(|code| Code { code, human: "longer than seven", desc: "" }).collect();
    let apart = vec![high];
    for b in BASES {
        assert_eq!(table_by_format(&slots(&apart), b, false), table_of(&apart, b));
    }
}

#[test]
fn classic_table_first_rows() {
    let apart = acquire_apart(&[Ranges::Table]);
    let test = table_of(&apart, Base::Decimal);
    let lines: Vec<&str> = test.lines().collect();
    assert_eq!(3 + 32, lines.len());
    assert_eq!("", lines[0]);
    assert_eq!(
        "        |  NUMERIC  | HUMAN |  NUMERIC  | HUMAN |  NUMERIC  | HUMAN |  NUMERIC  | HUMAN |",
        lines[1]
    );
    assert_eq!(format!("        {}", "-".repeat(81)), lines[2]);
    assert_eq!(
        "        | 0         |NUL    | 32        |       | 64        |@      | 96        |`      |",
        lines[3]
    );
    assert_eq!(
        "        | 31        |US     | 63        |?      | 95        |_      | 127       |DEL    |",
        lines[34]
    );
}

#[test]
fn classic_table_rows_in_each_base() {
    let apart = acquire_apart(&[Ranges::Table]);

    let binary = table_of(&apart, Base::Binary);
    assert_eq!(
        "        | 0b0000001 |SOH    | 0b0100001 |!      | 0b1000001 |A      | 0b1100001 |a      |",
        binary.lines().nth(4).unwrap()
    );
    let octal = table_of(&apart, Base::Octal);
    assert_eq!(
        "        | 0o001     |SOH    | 0o041     |!      | 0o101     |A      | 0o141     |a      |",
        octal.lines().nth(4).unwrap()
    );
    let hexadecimal = table_of(&apart, Base::Hexadecimal);
    assert_eq!(
        "        | 0x01      |SOH    | 0x21      |!      | 0x41      |A      | 0x61      |a      |",
        hexadecimal.lines().nth(4).unwrap()
    );
}

#[test]
fn special_table_rows() {
    let apart = acquire_apart(&SPECIAL);
    let test = table_of(&apart, Base::Decimal);
    let lines: Vec<&str> = test.lines().collect();
    assert_eq!(3 + 33, lines.len());
    assert_eq!(format!("        {}|", "|  NUMERIC  | HUMAN ".repeat(5)), lines[1]);
    assert_eq!(format!("        {}", "-".repeat(101)), lines[2]);
    assert_eq!(
        "        | 65        |A      | 97        |a      | 48        |0      | 32        |       | 0         |NUL    |",
        lines[3]
    );
    assert_eq!(
        "        | 75        |K      | 107       |k      | ---       | -     | 42        |*      | 10        |LF     |",
        lines[13]
    );
    assert_eq!(
        "        | ---       | -     | ---       | -     | ---       | -     | 126       |~      | 127       |DEL    |",
        lines[35]
    );
}

#[test]
fn table_lines_have_one_width() {
    for b in BASES {
        let lines = [&SPECIAL[..], &[Ranges::Table][..], &[Ranges::Digits, Ranges::Control][..]];
        for subsets in lines {
            let apart = acquire_apart(subsets);
            let tracks = layout(&apart).tracks();
            let test = table_of(&apart, b);
            for line in test.lines().skip(1) {
                assert_eq!(8 + 20 * tracks + 1, line.chars().count());
            }
        }
    }
}

#[test]
fn table_is_appended() {
    let apart = acquire_apart(&[Ranges::Table]);
    let grid = layout(&apart);
    let mut o = String::from("before");
    huski_lib::grid::set(&grid, &mut o, Base::Binary);
    assert!(o.starts_with("before\n"));
    assert_eq!(table_of(&apart, Base::Binary), &o["before".len()..]);
}

#[test]
fn merged_and_apart_hold_the_same_records() {
    let merged = acquire(&SPECIAL);
    let apart = acquire_apart(&SPECIAL);
    let grid = layout(&apart);
    let mut held = Vec::new();
    for track in 0..grid.tracks() {
        for row in 0..grid.rows() {
            if let Some(c) = grid.cell(row, track) {
                held.push(*c);
            }
        }
    }
    assert_eq!(merged, held);
}
