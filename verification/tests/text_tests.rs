use transfel::text::{
    chars_of, contains_str, find_char, find_str, has_prefix, is_whitespace, parse_u64, parse_u8,
    replace_str, rfind_char, split_char, split_lines, split_whitespace, string_of, substring,
    to_ascii_lower, trim_bounds, trim_str, utf8_len_at_most,
};

fn texts(v: Vec<Vec<char>>) -> Vec<String> {
    v.iter().map(|w| w.iter().collect()).collect()
}

#[test]
fn trimming_follows_str_trim() {
    for s in ["  a b  ", "\u{3000}x\u{a0}", "", "   ", "\tline\r\n", "x"] {
        assert_eq!(trim_str(s), s.trim());
    }
    assert_eq!(trim_bounds(&chars_of("  ab ")), (2, 4));
    assert!(is_whitespace('\u{2028}'));
    assert!(!is_whitespace('x'));
}

#[test]
fn splitting_follows_std() {
    for s in ["a b\tc\n d", "", "   ", "one", " x  y "] {
        let mine = texts(split_whitespace(&chars_of(s)));
        let std: Vec<String> = s.split_whitespace().map(|w| w.to_string()).collect();
        assert_eq!(mine, std);
    }
    for s in ["a\nb\r\nc", "a\n", "", "\n\n", "x\r", "a\r\n\r\nb"] {
        let mine = texts(split_lines(&chars_of(s)));
        let std: Vec<String> = s.lines().map(|w| w.to_string()).collect();
        assert_eq!(mine, std);
    }
    for s in ["1.2.3.4", "", ".", "a..b"] {
        let mine = texts(split_char(&chars_of(s), '.'));
        let std: Vec<String> = s.split('.').map(|w| w.to_string()).collect();
        assert_eq!(mine, std);
    }
}

#[test]
fn searching() {
    let s = chars_of("a/b/c");
    assert_eq!(find_char(&s, '/'), Some(1));
    assert_eq!(rfind_char(&s, '/'), Some(3));
    assert_eq!(find_char(&s, 'x'), None);
    let t = chars_of("Connected to host");
    assert_eq!(find_str(&t, &chars_of("to")), Some(10));
    assert!(contains_str(&t, &chars_of("host")));
    assert!(!contains_str(&t, &chars_of("hostile")));
    assert!(contains_str(&t, &chars_of("")));
    assert!(has_prefix(&t, &chars_of("Conn")));
    assert!(!has_prefix(&chars_of("Co"), &chars_of("Conn")));
}

#[test]
fn numbers() {
    assert_eq!(parse_u64(&chars_of("+42")), Some(42));
    assert_eq!(parse_u64(&chars_of("18446744073709551615")), Some(u64::MAX));
    assert_eq!(parse_u64(&chars_of("18446744073709551616")), None);
    assert_eq!(parse_u64(&chars_of("")), None);
    assert_eq!(parse_u64(&chars_of("+")), None);
    assert_eq!(parse_u64(&chars_of("1 2")), None);
    assert_eq!(parse_u8(&chars_of("255")), Some(255));
    assert_eq!(parse_u8(&chars_of("256")), None);
    assert_eq!(parse_u8(&chars_of("007")), Some(7));
}

#[test]
fn editing() {
    assert_eq!(string_of(&replace_str(&chars_of("Physical size: 1x2"), &chars_of("Physical size:"), &[])), " 1x2");
    assert_eq!(string_of(&replace_str(&chars_of("aaa"), &chars_of("aa"), &chars_of("b"))), "ba");
    assert_eq!(string_of(&to_ascii_lower(&chars_of("JPG Ñ"))), "jpg Ñ");
    assert_eq!(substring(&chars_of("hello"), 1, 3), "el");
    assert!(utf8_len_at_most(&chars_of("ñ"), 2));
    assert!(!utf8_len_at_most(&chars_of("ñ"), 1));
}
