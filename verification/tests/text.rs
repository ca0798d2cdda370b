use memgraph_connector::text::{
    chars_of, comes_before, decimal_of, has_mark, head_of, replace, rest_after, same,
    split_at_marks, trim,
};

#[test]
fn trims_every_kind_of_white_space() {
    let mut blank = Vec::new();
    for code in 0u32..0x110000 {
        if let Some(c) = char::from_u32(code) {
            let text = c.to_string();
            let trimmed = trim(&text).is_empty();
            assert_eq!(trimmed, c.is_whitespace(), "{code:x}");
            if trimmed {
                blank.push(code);
            }
        }
    }
    let expected = vec![
        0x9, 0xa, 0xb, 0xc, 0xd, 0x20, 0x85, 0xa0, 0x1680, 0x2000, 0x2001, 0x2002, 0x2003, 0x2004,
        0x2005, 0x2006, 0x2007, 0x2008, 0x2009, 0x200a, 0x2028, 0x2029, 0x202f, 0x205f, 0x3000,
    ];
    assert_eq!(blank, expected);
}

#[test]
fn trims_both_ends() {
    assert_eq!(trim("\u{a0} a b\t\n"), "a b");
    assert_eq!(trim(" \n "), "");
    assert_eq!(trim(trim("  x ")), trim("  x "));
}

#[test]
fn replaces_from_left_to_right() {
    assert_eq!(replace("aaaa a", "aa", "b"), "bb a");
    assert_eq!(replace("aba", "a", ""), "b");
    assert_eq!(replace("ab", "", "-"), "-a-b-");
    assert_eq!(replace("", "", "x"), "x");
    assert_eq!(replace("äöü", "ö", "oe"), "äoeü");
    for (text, from, to) in [("abcabc", "bc", "xyz"), ("--", "-", "--"), ("é", "", "e")] {
        assert_eq!(replace(text, from, to), text.replace(from, to));
    }
}

#[test]
fn splits_and_cuts() {
    assert_eq!(split_at_marks("a:b::c", ':'), vec!["a", "b", "", "c"]);
    assert_eq!(split_at_marks("", ':'), vec![""]);
    assert_eq!(head_of("user@host", '@'), "user");
    assert_eq!(head_of("host", '@'), "host");
    assert_eq!(rest_after("bolt://a://b", "://"), Some("a://b"));
    assert_eq!(rest_after("bolt:/", "://"), None);
    assert!(has_mark("a:b", ':'));
    assert!(!has_mark("ab", ':'));
    assert_eq!(chars_of("añ"), vec!['a', 'ñ']);
    assert!(same("a", "a") && !same("a", "b"));
}

#[test]
fn numerals_are_decimal() {
    assert_eq!(decimal_of(0), "0");
    assert_eq!(decimal_of(10), "10");
    assert_eq!(decimal_of(1987), "1987");
    assert_eq!(decimal_of(usize::MAX), usize::MAX.to_string());
}

#[test]
fn orders_texts_as_strings_are_ordered() {
    for a in ["", "a", "ab", "b", "Z", "é", "\u{ffff}", "\u{10000}"] {
        for b in ["", "a", "ab", "b", "Z", "é", "\u{ffff}", "\u{10000}"] {
            assert_eq!(comes_before(a, b), a < b);
        }
    }
}
