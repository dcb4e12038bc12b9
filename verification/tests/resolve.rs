use huski_lib::code::Code;
use huski_lib::ranges::Ranges;
use huski_lib::resolve::{acquire as acquire_fn, acquire_apart, codes, to_codes as to_codes_fn};
use huski_lib::table::TABLE;
use std::ops::RangeInclusive;

fn letters() -> [RangeInclusive<usize>; 2] {
    [65..=90, 97..=122]
}

fn symbols() -> [RangeInclusive<usize>; 4] {
    [32..=47, 58..=64, 91..=96, 123..=126]
}

fn printable() -> [RangeInclusive<usize>; 1] {
    [32..=126]
}

#[test]
fn acquire() {
    let cs = codes(&letters());
    let test = acquire_fn(&[Ranges::Letters]);

    assert_eq!(cs.as_slice(), &*test);
}

#[test]
fn lib_basic_test() {
    let proof = codes(&letters());
    let test = acquire_fn(&[Ranges::Letters]);

    assert_eq!(proof, test);

    let proof = vec![codes(&letters())];
    let test = acquire_apart(&[Ranges::Letters]);

    assert_eq!(proof, test);

    let codes_in = [(0..=2), (125..=127)];
    let test = codes(&codes_in);

    assert_eq!(6, test.len());
    assert!(6 <= test.capacity());

    let mut reix = 0;
    for r in codes_in {
        for i in r {
            let info = TABLE[i];
            let t = &test[reix];

            reix += 1;

            assert_eq!(i as u8, t.code);
            assert_eq!(info.0, t.human);
            assert_eq!(info.1, t.desc);
        }
    }
}

#[test]
fn lib_merging_test() {
    let l = codes(&letters());
    let s = codes(&symbols());
    let test = acquire_fn(&[Ranges::Letters, Ranges::Symbols]);

    let proof = l.into_iter().chain(s.into_iter()).collect::<Vec<Code>>();
    assert_eq!(proof, test);

    let l = codes(&letters());
    let s = codes(&symbols());
    let test = acquire_apart(&[Ranges::Letters, Ranges::Symbols]);

    let proof = vec![l, s];
    assert_eq!(proof, test);
}

#[test]
fn to_codes() {
    let r = Ranges::Printable;
    assert_eq!(codes(&printable()), to_codes_fn(r.clone()));
}

#[test]
fn lib_code() {
    let code = 99;
    let human = "human";
    let desc = "desc";

    let test = Code { code, human, desc };

    assert_eq!(code, test.code);
    assert_eq!(human, test.human);
    assert_eq!(desc, test.desc);
}

#[test]
fn code_getters() {
    let test = Code { code: 99, human: "human", desc: "desc" };

    assert_eq!(99, test.code());
    assert_eq!("human", test.human());
    assert_eq!("desc", test.desc());
}

#[test]
#[should_panic(expected = "index out of bounds: the len is 128 but the index is 128")]
fn lib_index_128() {
    let r128 = [128..=128];
    _ = codes(r128.as_slice())
}

#[test]
fn lib_preservation() {
    let codes_in = [127..=127, 127..=127, 0..=0];

    let len = codes_in.len();
    let test = codes(codes_in.as_slice());

    assert_eq!(len, test.len());

    for i in 0..len {
        let code = *codes_in[i].start();
        let info = TABLE[code];

        let t = &test[i];

        assert_eq!(code as u8, t.code);
        assert_eq!(info.0, t.human);
        assert_eq!(info.1, t.desc);
    }
}

#[test]
fn preservation_gives_three_records_in_order() {
    let test = codes(&[127..=127, 127..=127, 0..=0]);

    assert_eq!(3, test.len());
    assert_eq!(
        vec![
            Code { code: 127, human: "DEL", desc: "Delete" },
            Code { code: 127, human: "DEL", desc: "Delete" },
            Code { code: 0, human: "NUL", desc: "Null" },
        ],
        test
    );
}

#[test]
fn index_127_is_the_last() {
    let test = codes(&[127..=127]);
    assert_eq!(vec![Code { code: 127, human: "DEL", desc: "Delete" }], test);
}

#[test]
fn capital_letters_end_to_end() {
    let rs = huski_lib::ranges::ranges(Ranges::Capital);
    assert_eq!(vec![65..=90], rs);

    let cs = codes(&rs);
    assert_eq!(26, cs.len());
    assert_eq!(65, cs[0].code());
    assert_eq!("A", cs[0].human());
    assert_eq!(90, cs[25].code());
    assert_eq!("Z", cs[25].human());
}

#[test]
fn acquire_of_capital_and_small() {
    let rs = acquire_fn(&[Ranges::Capital, Ranges::Small]);
    assert_eq!(52, rs.len());
    assert_eq!('A', rs[0].code() as char);
    assert_eq!('z', rs[51].code() as char);
}

#[test]
fn acquire_apart_of_capital_and_small() {
    let rs = acquire_apart(&[Ranges::Capital, Ranges::Small]);
    assert_eq!(2, rs.len());
    assert_eq!('A', rs[0][0].code() as char);
    assert_eq!('z', rs[1][25].code() as char);
}

#[test]
fn codes_of_letters() {
    let cs = codes(&letters());
    assert_eq!(52, cs.len());
    assert_eq!('A', cs[0].code() as char);
    assert_eq!('z', cs[51].code() as char);
}

#[test]
fn merged_is_one_after_the_other() {
    let all = [
        Ranges::Printable,
        Ranges::Control,
        Ranges::Capital,
        Ranges::Small,
        Ranges::Letters,
        Ranges::Digits,
        Ranges::Symbols,
        Ranges::Table,
    ];
    for a in all {
        for b in all {
            let mut proof = acquire_fn(&[a]);
            proof.extend(acquire_fn(&[b]));
            assert_eq!(proof, acquire_fn(&[a, b]));
        }
    }
}

#[test]
fn apart_is_each_alone() {
    let all = [
        Ranges::Printable,
        Ranges::Control,
        Ranges::Capital,
        Ranges::Small,
        Ranges::Letters,
        Ranges::Digits,
        Ranges::Symbols,
        Ranges::Table,
    ];
    for a in all {
        for b in all {
            let test = acquire_apart(&[a, b]);
            assert_eq!(2, test.len());
            assert_eq!(acquire_fn(&[a]), test[0]);
            assert_eq!(acquire_fn(&[b]), test[1]);
        }
    }
}

#[test]
fn a_subset_twice_comes_twice() {
    let test = acquire_fn(&[Ranges::Digits, Ranges::Digits]);
    assert_eq!(20, test.len());
    assert_eq!(test[..10], test[10..]);
    assert_eq!("0", test[0].human());
    assert_eq!("9", test[19].human());
}

#[test]
fn no_subsets_resolve_to_nothing() {
    assert_eq!(Vec::<Code>::new(), acquire_fn(&[]));
    assert_eq!(Vec::<Vec<Code>>::new(), acquire_apart(&[]));
    assert_eq!(Vec::<Code>::new(), codes(&[]));
}

#[test]
fn every_subset_resolves_to_its_count() {
    assert_eq!(95, to_codes_fn(Ranges::Printable).len());
    assert_eq!(33, to_codes_fn(Ranges::Control).len());
    assert_eq!(26, to_codes_fn(Ranges::Capital).len());
    assert_eq!(26, to_codes_fn(Ranges::Small).len());
    assert_eq!(52, to_codes_fn(Ranges::Letters).len());
    assert_eq!(10, to_codes_fn(Ranges::Digits).len());
    assert_eq!(33, to_codes_fn(Ranges::Symbols).len());
    assert_eq!(128, to_codes_fn(Ranges::Table).len());
}

#[test]
fn the_whole_table_in_order() {
    let test = to_codes_fn(Ranges::Table);
    for (i, c) in test.iter().enumerate() {
        assert_eq!(i as u8, c.code());
        assert_eq!(TABLE[i].0, c.human());
        assert_eq!(TABLE[i].1, c.desc());
    }
}

#[test]
fn table_entries() {
    assert_eq!(128, TABLE.len());
    assert_eq!(("NUL", "Null"), TABLE[0]);
    assert_eq!((" ", "Space"), TABLE[32]);
    assert_eq!(("A", ""), TABLE[65]);
    assert_eq!(("x", ""), TABLE[120]);
    assert_eq!(("DEL", "Delete"), TABLE[127]);
    for (i, entry) in TABLE.iter().enumerate() {
        if (33..127).contains(&i) {
            assert_eq!((i as u8 as char).to_string(), entry.0);
        }
        assert!(entry.0.chars().count() <= 3);
    }
}

#[test]
#[allow(clippy::reversed_empty_ranges)]
fn a_range_that_yields_nothing_may_lie_outside() {
    let mut spent = 200..=201;
    for _ in spent.by_ref() {}

    let test = codes(&[spent, 300..=299, 48..=49]);
    assert_eq!(2, test.len());
    assert_eq!("0", test[0].human());
    assert_eq!("1", test[1].human());
}

#[test]
fn names_at_the_root() {
    let rs = huski_lib::acquire(&[huski_lib::Ranges::Capital, huski_lib::Ranges::Small]);
    assert_eq!('A', rs[0].code() as char);
    assert_eq!('z', rs[51].code() as char);

    let rs = huski_lib::acquire_apart(&[huski_lib::Ranges::Capital, huski_lib::Ranges::Small]);
    assert_eq!('A', rs[0][0].code() as char);
    assert_eq!('z', rs[1][25].code() as char);

    let cs: Vec<huski_lib::Code> = huski_lib::codes(&huski_lib::ranges(huski_lib::Ranges::Letters));
    assert_eq!(52, cs.len());
    assert_eq!(huski_lib::TABLE[65].0, cs[0].human());
}
