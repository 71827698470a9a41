use forge_backup::text::{
    blank, chars_of, seek_at, skip_blanks_at, starts_with_at, trim_range, whitespace,
};

#[test]
fn blank_is_tab_or_space() {
    assert!(blank(' '));
    assert!(blank('\t'));
    assert!(!blank('\n'));
    assert!(!blank('\r'));
    assert!(!blank('\u{00A0}'));
    assert!(!blank('a'));
}

#[test]
fn whitespace_is_what_std_calls_whitespace() {
    let mut count = 0;
    for code in 0u32..=0x10FFFF {
        if let Some(c) = char::from_u32(code) {
            assert_eq!(whitespace(c), c.is_whitespace(), "U+{:04X}", code);
            if whitespace(c) {
                count += 1;
            }
        }
    }
    assert_eq!(count, 25);
}

#[test]
fn chars_of_keeps_every_character() {
    assert_eq!(chars_of(""), Vec::<char>::new());
    assert_eq!(chars_of("a\u{00E9}\u{1F600}"), vec!['a', '\u{00E9}', '\u{1F600}']);
}

#[test]
fn skip_blanks_stops_at_the_first_other_character() {
    let t = chars_of(" \t x ");
    assert_eq!(skip_blanks_at(&t, 0), 3);
    assert_eq!(skip_blanks_at(&t, 3), 3);
    assert_eq!(skip_blanks_at(&t, 4), 5);
    assert_eq!(skip_blanks_at(&t, 5), 5);
    let feed = chars_of(" \n ");
    assert_eq!(skip_blanks_at(&feed, 0), 1);
}

#[test]
fn seek_finds_the_next_occurrence() {
    let t = chars_of("a=b=c");
    assert_eq!(seek_at(&t, 0, '='), 1);
    assert_eq!(seek_at(&t, 1, '='), 1);
    assert_eq!(seek_at(&t, 2, '='), 3);
    assert_eq!(seek_at(&t, 4, '='), 5);
    assert_eq!(seek_at(&t, 5, '='), 5);
}

#[test]
fn starts_with_at_compares_in_place() {
    let t = chars_of("xdefine(");
    let word = chars_of("define(");
    assert!(!starts_with_at(&t, 0, &word));
    assert!(starts_with_at(&t, 1, &word));
    assert!(!starts_with_at(&t, 2, &word));
    assert!(!starts_with_at(&t, 8, &word));
    assert!(starts_with_at(&t, 8, &Vec::new()));
}

#[test]
fn trim_range_agrees_with_std_trim() {
    let samples = [
        "",
        " ",
        "a",
        "  a  ",
        "\t\r\n a b \u{3000}\u{00A0}",
        "\u{2003}x\u{2003}y\u{2003}",
        "   ",
        "x   ",
        "   x",
    ];
    for sample in samples {
        let t = chars_of(sample);
        let (from, to) = trim_range(&t, 0, t.len());
        let got: String = t[from..to].iter().collect();
        assert_eq!(got, sample.trim(), "{:?}", sample);
    }
}

#[test]
fn trim_range_stays_inside_its_bounds() {
    let t = chars_of("ab  cd  ef");
    assert_eq!(trim_range(&t, 2, 8), (4, 6));
    assert_eq!(trim_range(&t, 2, 4), (4, 4));
    assert_eq!(trim_range(&t, 3, 3), (3, 3));
    assert_eq!(trim_range(&t, 0, 10), (0, 10));
}
