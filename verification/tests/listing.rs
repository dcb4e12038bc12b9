use huski_lib::code::Code;
use huski_lib::listing::subset;
use huski_lib::numeral::{numeric, Base};
use huski_lib::ranges::Ranges;
use huski_lib::resolve::acquire;

const INDENT: &str = "        ";
const BASES: [Base; 4] = [Base::Binary, Base::Octal, Base::Decimal, Base::Hexadecimal];
const SUBSETS: [Ranges; 8] = [
    Ranges::Printable,
    Ranges::Control,
    Ranges::Capital,
    Ranges::Small,
    Ranges::Letters,
    Ranges::Digits,
    Ranges::Symbols,
    Ranges::Table,
];

fn number_by_format(c: u8, b: Base) -> String {
    match b {
        Base::Binary => format!(" 0b{:>07b} |", c),
        Base::Octal => {
            let zero_pad = format!(" 0o{:>03o}", c);
            format!("{:^10} |", zero_pad)
        }
        Base::Decimal => format!(" {:^9} |", c),
        Base::Hexadecimal => {
            let zero_pad = format!("0x{:>02x}", c);
            format!("{:^10} |", zero_pad)
        }
    }
}

fn listing_by_format(codes: &[Code], b: Base) -> String {
    let mut o = String::new();
    o.push('\n');
    o.push_str(INDENT);
    o.push_str("  NUMERIC  | HUMAN | DESCRIPTION");
    o.push('\n');
    o.push_str(INDENT);
    o.push_str("-------------------------------------------------");

    for c in codes.iter() {
        o.push('\n');
        o.push_str(INDENT);

        let numeric = number_by_format(c.code(), b);
        o.push_str(numeric.as_str());
        let human = format!("{:^7}", c.human());
        o.push_str(human.as_str());
        o.push_str("| ");
        o.push_str(c.desc());
    }
    o
}

fn listing_of(codes: &[Code], b: Base) -> String {
    let mut o = String::new();
    subset(codes, &mut o, b);
    o
}

#[test]
fn numeral_of_space_in_each_base() {
    assert_eq!("0b0100000", numeric(32, Base::Binary));
    assert_eq!("0o040", numeric(32, Base::Octal));
    assert_eq!("0x20", numeric(32, Base::Hexadecimal));
    assert_eq!("32", numeric(32, Base::Decimal));
}

#[test]
fn numeral_of_exclamation_mark_in_each_base() {
    assert_eq!("0b0100001", numeric(33, Base::Binary));
    assert_eq!("0o041", numeric(33, Base::Octal));
    assert_eq!("0x21", numeric(33, Base::Hexadecimal));
    assert_eq!("33", numeric(33, Base::Decimal));
}

#[test]
fn numerals_of_the_ends() {
    assert_eq!("0b0000000", numeric(0, Base::Binary));
    assert_eq!("0o000", numeric(0, Base::Octal));
    assert_eq!("0x00", numeric(0, Base::Hexadecimal));
    assert_eq!("0", numeric(0, Base::Decimal));

    assert_eq!("0b1111111", numeric(127, Base::Binary));
    assert_eq!("0o177", numeric(127, Base::Octal));
    assert_eq!("0x7f", numeric(127, Base::Hexadecimal));
    assert_eq!("127", numeric(127, Base::Decimal));
}

#[test]
fn numerals_above_the_table_grow() {
    assert_eq!("0b10000000", numeric(128, Base::Binary));
    assert_eq!("0b11111111", numeric(255, Base::Binary));
    assert_eq!("0o377", numeric(255, Base::Octal));
    assert_eq!("0xff", numeric(255, Base::Hexadecimal));
    assert_eq!("255", numeric(255, Base::Decimal));
}

#[test]
fn numerals_as_format_writes_them() {
    for c in 0..=255u8 {
        assert_eq!(format!("0b{:>07b}", c), numeric(c, Base::Binary));
        assert_eq!(format!("0o{:>03o}", c), numeric(c, Base::Octal));
        assert_eq!(format!("{}", c), numeric(c, Base::Decimal));
        assert_eq!(format!("0x{:>02x}", c), numeric(c, Base::Hexadecimal));
    }
}

#[test]
fn base_numbers() {
    assert_eq!(2, Base::Binary.number());
    assert_eq!(8, Base::Octal.number());
    assert_eq!(10, Base::Decimal.number());
    assert_eq!(16, Base::Hexadecimal.number());
    for n in 0..=255u8 {
        match Base::from_number(n) {
            Some(b) => assert_eq!(n, b.number()),
            None => assert!(![2, 8, 10, 16].contains(&n)),
        }
    }
}

#[test]
fn listing_of_nothing_is_its_head() {
    let proof = "\n          NUMERIC  | HUMAN | DESCRIPTION\n        -------------------------------------------------";
    for b in BASES {
        assert_eq!(proof, listing_of(&[], b));
    }
}

#[test]
fn listing_lines_of_space() {
    let space = Code { code: 32, human: " ", desc: "Space" };
    let head = listing_of(&[], Base::Decimal);

    let binary = listing_of(&[space], Base::Binary);
    assert_eq!("\n         0b0100000 |       | Space", &binary[head.len()..]);

    let octal = listing_of(&[space], Base::Octal);
    assert_eq!("\n           0o040   |       | Space", &octal[head.len()..]);

    let decimal = listing_of(&[space], Base::Decimal);
    assert_eq!("\n            32     |       | Space", &decimal[head.len()..]);

    let hexadecimal = listing_of(&[space], Base::Hexadecimal);
    assert_eq!("\n           0x20    |       | Space", &hexadecimal[head.len()..]);
}

#[test]
fn listing_centers_the_mnemonic() {
    let head = listing_of(&[], Base::Decimal);

    let nul = listing_of(&[Code { code: 0, human: "NUL", desc: "Null" }], Base::Decimal);
    assert_eq!("\n             0     |  NUL  | Null", &nul[head.len()..]);

    let bs = listing_of(&[Code { code: 8, human: "BS", desc: "Backspace" }], Base::Decimal);
    assert_eq!("\n             8     |  BS   | Backspace", &bs[head.len()..]);

    let del = listing_of(&[Code { code: 127, human: "DEL", desc: "Delete" }], Base::Decimal);
    assert_eq!("\n            127    |  DEL  | Delete", &del[head.len()..]);
}

#[test]
fn listing_leaves_a_long_mnemonic_whole() {
    let head = listing_of(&[], Base::Hexadecimal);
    let long = Code { code: 99, human: "mnemonic", desc: "desc" };
    let test = listing_of(&[long], Base::Hexadecimal);
    assert_eq!("\n           0x63    |mnemonic| desc", &test[head.len()..]);
    assert_eq!(listing_by_format(&[long], Base::Hexadecimal), test);
}

#[test]
fn listing_counts_characters_not_bytes() {
    let wide = Code { code: 1, human: "äö", desc: "ü" };
    for b in BASES {
        assert_eq!(listing_by_format(&[wide], b), listing_of(&[wide], b));
    }
}

#[test]
fn listing_as_format_writes_it() {
    for r in SUBSETS {
        let codes = acquire(&[r]);
        for b in BASES {
            assert_eq!(listing_by_format(&codes, b), listing_of(&codes, b));
        }
    }
}

#[test]
fn listing_of_codes_above_the_table_as_format_writes_it() {
    let codes: Vec<Code> = (0..=255u8).map(|code| Code { code, human: "?", desc: "" }).collect();
    for b in BASES {
        assert_eq!(listing_by_format(&codes, b), listing_of(&codes, b));
    }
}

#[test]
fn listing_of_merged_subsets_keeps_their_order() {
    let codes = acquire(&[Ranges::Digits, Ranges::Capital]);
    let test = listing_of(&codes, Base::Decimal);
    let lines: Vec<&str> = test.lines().collect();
    assert_eq!(3 + 10 + 26, lines.len());
    assert_eq!("            48     |   0   | ", lines[3]);
    assert_eq!("            57     |   9   | ", lines[12]);
    assert_eq!("            65     |   A   | ", lines[13]);
    assert_eq!("            90     |   Z   | ", lines[38]);
}

#[test]
fn listing_is_appended() {
    let mut o = String::from("before");
    let codes = acquire(&[Ranges::Digits]);
    subset(&codes, &mut o, Base::Octal);
    assert!(o.starts_with("before\n"));
    assert_eq!(listing_of(&codes, Base::Octal), &o["before".len()..]);
}

#[test]
fn listing_columns_are_aligned() {
    for b in BASES {
        let codes = acquire(&[Ranges::Table]);
        let test = listing_of(&codes, b);
        for (n, line) in test.lines().enumerate().skip(3) {
            let bars: Vec<usize> =
                line.char_indices().filter(|(_, c)| *c == '|').map(|(i, _)| i).collect();
            let code = n - 3;
            if code == '|' as usize {
                assert_eq!(vec![19, 23, 27], bars);
            } else {
                assert_eq!(vec![19, 27], bars);
            }
            assert_eq!(codes[code].desc(), &line[29..]);
        }
    }
}
