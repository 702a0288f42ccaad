use solkit::text::{find_char, is_whitespace, parse_number, split, str_eq, strip, trim};

const SAMPLES: [&str; 24] = [
    "",
    " ",
    "a",
    " a",
    "a ",
    "  a b  ",
    "\t name = value \r\n",
    "\u{a0}x\u{3000}",
    "\u{2003}\u{2003}",
    "[global]",
    "[ deck ] ",
    "] [x] [",
    "a,b,c",
    ",",
    ",,",
    "a,,b,",
    ",a",
    "k, any, asc, same suit",
    "=",
    "a=b=c",
    "x\u{e9}=\u{1f0a1},y",
    "+",
    "-",
    "\u{85}\u{1680} q \u{2028}\u{2029}\u{202f}\u{205f}",
];

#[test]
fn texts_compare_by_their_characters() {
    for a in SAMPLES {
        for b in SAMPLES {
            assert_eq!(str_eq(a, b), a == b);
        }
    }
    assert!(str_eq("na\u{ef}ve", "na\u{ef}ve"));
    assert!(!str_eq("na\u{ef}ve", "naive"));
}

#[test]
fn white_space_is_that_of_unicode() {
    for n in 0u32..0x11000 {
        if let Some(c) = char::from_u32(n) {
            assert_eq!(is_whitespace(c), c.is_whitespace());
        }
    }
}

#[test]
fn trimming_cuts_white_space_off_both_ends() {
    for s in SAMPLES {
        assert_eq!(trim(s), s.trim());
        assert_eq!(strip(s, false), s.trim());
        assert_eq!(strip(s, true), s.trim_matches(|c| c == '[' || c == ']' || c == ' '));
    }
    assert_eq!(trim("  two words \t"), "two words");
    assert_eq!(strip("[ free cell ]", true), "free cell");
    assert_eq!(strip("[]", true), "");
}

#[test]
fn finding_gives_the_first_place_in_characters() {
    for s in SAMPLES {
        for c in ['=', ',', 'a', ' '] {
            let want = s.chars().position(|x| x == c);
            assert_eq!(find_char(s, c), want);
        }
    }
    assert_eq!(find_char("\u{e9}\u{e9}=1", '='), Some(2));
    assert_eq!(find_char("abc", 'z'), None);
}

#[test]
fn splitting_gives_the_parts_between_commas() {
    for s in SAMPLES {
        for c in [',', '=', ' '] {
            let want: Vec<&str> = s.split(c).collect();
            assert_eq!(split(s, c), want);
        }
    }
    assert_eq!(split("7, 7 ,take", ','), vec!["7", " 7 ", "take"]);
    assert_eq!(split("", ','), vec![""]);
}

#[test]
fn numbers_are_read_as_the_standard_library_reads_them() {
    let texts = [
        "", "0", "1", "7", "+7", "-7", "007", "+0", "-0", "255", "256", "+255", "65535", "65536",
        "127", "128", "-128", "-129", "+-1", "-+1", "--1", "1 ", " 1", "1a", "a", "+", "-", "1.0",
        "1e3", "999999", "1000000", "1000001", "99999999999999999999", "0000000000000000000012",
        "\u{661}", "1\u{661}", "12,3", "0x10", "16", "17", "-1",
    ];
    for t in texts {
        assert_eq!(parse_number(t, 0, 255), t.parse::<u8>().ok().map(i32::from));
        assert_eq!(parse_number(t, 0, 65535), t.parse::<u16>().ok().map(i32::from));
        assert_eq!(parse_number(t, -128, 127), t.parse::<i8>().ok().map(i32::from));
    }
    assert_eq!(parse_number("12", 0, 255), Some(12));
    assert_eq!(parse_number("-12", -128, 127), Some(-12));
    assert_eq!(parse_number("300", 0, 255), None);
    assert_eq!(parse_number("5", 6, 9), None);
    assert_eq!(parse_number("1000000", -1000000, 1000000), Some(1000000));
    assert_eq!(parse_number("-1000000", -1000000, 1000000), Some(-1000000));
}
