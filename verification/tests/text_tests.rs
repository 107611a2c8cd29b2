use nacre::text::{
    find_in, has_prefix, i64_to_string, is_whitespace, lex_less, parse_u64, second_field_bounds,
    split_whitespace, str_chars, string_of, trim_bounds, u64_to_string,
};

fn chars(s: &str) -> Vec<char> {
    str_chars(s)
}

#[test]
fn decimal_text_of_numbers() {
    assert_eq!(u64_to_string(0), "0");
    assert_eq!(u64_to_string(7), "7");
    assert_eq!(u64_to_string(1800), "1800");
    assert_eq!(u64_to_string(u64::MAX), u64::MAX.to_string());
    assert_eq!(i64_to_string(-42), "-42");
    assert_eq!(i64_to_string(i64::MIN), i64::MIN.to_string());
}

#[test]
fn parse_u64_follows_std() {
    for s in ["0", "42", "+7", "", "+", "-1", "12a", "18446744073709551615", "18446744073709551616", "007"] {
        let v = chars(s);
        assert_eq!(parse_u64(&v, 0, v.len()), s.parse::<u64>().ok(), "input {:?}", s);
    }
}

#[test]
fn decimal_text_parses_back() {
    for n in [0u64, 9, 10, 12345, u64::MAX] {
        let s = u64_to_string(n);
        let v = chars(&s);
        assert_eq!(parse_u64(&v, 0, v.len()), Some(n));
    }
}

#[test]
fn trim_follows_std() {
    for s in ["  a b  ", "\t\nx\u{a0}", "", "   ", "\u{3000}word\u{2029}", "x"] {
        let v = chars(s);
        let (a, b) = trim_bounds(&v, 0, v.len());
        let t: String = v[a..b].iter().collect();
        assert_eq!(t, s.trim(), "input {:?}", s);
    }
}

#[test]
fn whitespace_follows_std() {
    for c in ['a', ' ', '\t', '\u{85}', '\u{a0}', '\u{1680}', '\u{2007}', '\u{200b}', '\u{3000}', 'é'] {
        assert_eq!(is_whitespace(c), c.is_whitespace(), "char {:?}", c);
    }
}

#[test]
fn split_whitespace_follows_std() {
    for s in ["cpu  10 20\t30 40", "", "  lone  ", "a\u{a0}b c"] {
        let v = chars(s);
        let words: Vec<String> = split_whitespace(&v, 0, v.len()).iter().map(string_of).collect();
        let expected: Vec<String> = s.split_whitespace().map(|w| w.to_string()).collect();
        assert_eq!(words, expected, "input {:?}", s);
    }
}

#[test]
fn find_and_prefix() {
    let v = chars("event>>data>>more");
    assert_eq!(find_in(&v, 0, v.len(), &chars(">>")), Some(5));
    assert_eq!(find_in(&v, 0, v.len(), &chars("<<")), None);
    assert!(has_prefix(&v, 0, v.len(), &chars("event")));
    assert!(!has_prefix(&v, 1, v.len(), &chars("event")));
}

#[test]
fn second_field_follows_split_nth() {
    for (s, sep) in [("class,title", ","), ("no comma", ","), ("a,b,c", ","), ("Exec=env A=B x", "=")] {
        let v = chars(s);
        let (a, b) = second_field_bounds(&v, 0, v.len(), &chars(sep));
        let got: String = v[a..b].iter().collect();
        let expected = s.split(sep).nth(1).unwrap_or(s);
        assert_eq!(got, expected, "input {:?}", s);
    }
}

#[test]
fn lexicographic_order_matches_string_order() {
    let words = ["", "a", "ab", "b", "Z", "é", "Firefox", "firefox"];
    for x in words {
        for y in words {
            assert_eq!(lex_less(&chars(x), &chars(y)), x < y, "{:?} < {:?}", x, y);
        }
    }
}
