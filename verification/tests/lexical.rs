use risc16::text::{
    chars_of, find, is_whitespace, parse_decimal, split_bounds, trim_bounds, word_is,
};

fn chars(s: &str) -> Vec<char> {
    s.chars().collect()
}

#[test]
fn chars_of_gives_the_characters() {
    assert_eq!(chars_of("add 1"), vec!['a', 'd', 'd', ' ', '1']);
    assert_eq!(chars_of(""), Vec::<char>::new());
    assert_eq!(chars_of("é1"), vec!['é', '1']);
}

#[test]
fn whitespace_is_what_trim_removes() {
    for c in ['\t', '\n', '\u{b}', '\u{c}', '\r', ' ', '\u{85}', '\u{a0}', '\u{1680}', '\u{2000}',
        '\u{200a}', '\u{2028}', '\u{2029}', '\u{202f}', '\u{205f}', '\u{3000}']
    {
        assert!(is_whitespace(c), "{:?}", c);
    }
    for c in ['a', '0', ',', '\u{8}', '\u{e}', '\u{200b}', '\u{feff}', '\u{1f}'] {
        assert!(!is_whitespace(c), "{:?}", c);
    }
    let mut u = 0u32;
    while u < 0x3100 {
        if let Some(c) = char::from_u32(u) {
            assert_eq!(is_whitespace(c), c.is_whitespace(), "{:?}", c);
        }
        u += 1;
    }
}

#[test]
fn trim_bounds_match_str_trim() {
    for s in ["", " ", "  \t", "add 1,2,3", "  add 1,2,3", "add 1,2,3 \r", "\t halt \n",
        "\u{3000}nop\u{a0}", " a b "]
    {
        let v = chars(s);
        let (lo, hi) = trim_bounds(&v);
        let got: String = v[lo..hi].iter().collect();
        assert_eq!(got, s.trim(), "{:?}", s);
    }
}

#[test]
fn find_gives_the_first_position() {
    let v = chars("add 1,2,3");
    assert_eq!(find(&v, 0, v.len(), ' '), 3);
    assert_eq!(find(&v, 0, v.len(), ','), 5);
    assert_eq!(find(&v, 6, v.len(), ','), 7);
    assert_eq!(find(&v, 8, v.len(), ','), 9);
    assert_eq!(find(&v, 0, 3, ' '), 3);
    assert_eq!(find(&v, 4, 4, '1'), 4);
}

#[test]
fn split_bounds_give_every_piece() {
    let v = chars("x 1,22,,3,");
    assert_eq!(split_bounds(&v, 2, v.len(), ','), vec![(2, 3), (4, 6), (7, 7), (8, 9), (10, 10)]);
    assert_eq!(split_bounds(&v, 2, 3, ','), vec![(2, 3)]);
    assert_eq!(split_bounds(&v, 2, 2, ','), vec![(2, 2)]);
    assert_eq!(split_bounds(&v, 3, 4, ','), vec![(3, 3), (4, 4)]);
}

#[test]
fn word_is_compares_the_whole_range() {
    let v = chars("addi 1");
    assert!(word_is(&v, 0, 4, "addi"));
    assert!(word_is(&v, 0, 3, "add"));
    assert!(!word_is(&v, 0, 4, "add"));
    assert!(!word_is(&v, 0, 3, "addi"));
    assert!(!word_is(&v, 0, 4, "addx"));
    assert!(word_is(&v, 2, 2, ""));
}

fn signed(s: &str, min: i32, max: i32) -> Option<i32> {
    let v = chars(s);
    parse_decimal(&v, 0, v.len(), true, min, max)
}

fn unsigned(s: &str, min: i32, max: i32) -> Option<i32> {
    let v = chars(s);
    parse_decimal(&v, 0, v.len(), false, min, max)
}

#[test]
fn parse_decimal_reads_literals() {
    assert_eq!(signed("0", -64, 63), Some(0));
    assert_eq!(signed("-64", -64, 63), Some(-64));
    assert_eq!(signed("63", -64, 63), Some(63));
    assert_eq!(signed("+63", -64, 63), Some(63));
    assert_eq!(signed("-0", -64, 63), Some(0));
    assert_eq!(signed("000000000000000000000012", -64, 63), Some(12));
    assert_eq!(signed("-32768", -32768, 32767), Some(-32768));
    assert_eq!(signed("32767", -32768, 32767), Some(32767));
    assert_eq!(unsigned("1023", 0, 1023), Some(1023));
    assert_eq!(unsigned("+7", 0, 7), Some(7));
    assert_eq!(unsigned("65536", 0, 65536), Some(65536));
}

#[test]
fn parse_decimal_refuses_what_is_no_literal_or_out_of_range() {
    assert_eq!(signed("64", -64, 63), None);
    assert_eq!(signed("-65", -64, 63), None);
    assert_eq!(signed("", -64, 63), None);
    assert_eq!(signed("+", -64, 63), None);
    assert_eq!(signed("-", -64, 63), None);
    assert_eq!(signed("+-1", -64, 63), None);
    assert_eq!(signed("1 ", -64, 63), None);
    assert_eq!(signed(" 1", -64, 63), None);
    assert_eq!(signed("1a", -64, 63), None);
    assert_eq!(signed("٣", -64, 63), None);
    assert_eq!(signed("65537", -65536, 65536), None);
    assert_eq!(signed("99999999999999999999", -64, 63), None);
    assert_eq!(signed("-99999999999999999999", -64, 63), None);
    assert_eq!(unsigned("-0", 0, 7), None);
    assert_eq!(unsigned("-1", 0, 7), None);
    assert_eq!(unsigned("8", 0, 7), None);
    assert_eq!(unsigned("1024", 0, 1023), None);
}

#[test]
fn parse_decimal_agrees_with_the_standard_parser() {
    for s in ["0", "7", "-7", "+7", "007", "-007", "127", "-128", "128", "-129", "", "+", "-",
        "1+", "--1", "12a", " 1", "1 "]
    {
        assert_eq!(signed(s, -128, 127), s.parse::<i8>().ok().map(|x| x as i32), "{:?}", s);
        assert_eq!(unsigned(s, 0, 255), s.parse::<u8>().ok().map(|x| x as i32), "{:?}", s);
    }
}

#[test]
fn parse_decimal_reads_a_part_of_the_line() {
    let v = chars("addi 1,2,-17");
    assert_eq!(parse_decimal(&v, 5, 6, false, 0, 7), Some(1));
    assert_eq!(parse_decimal(&v, 9, 12, true, -64, 63), Some(-17));
    assert_eq!(parse_decimal(&v, 9, 12, false, 0, 63), None);
    assert_eq!(parse_decimal(&v, 10, 12, false, 0, 63), Some(17));
}
