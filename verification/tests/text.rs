use meda::strmap::StrMap;
use meda::text::{
    contains, digit, find, find_from, from_chars, has_prefix, has_suffix, is_whitespace, join,
    lines, parse_number, push_hex, replace_char, rfind, same_text, split, to_chars, to_decimal,
    trim,
};

fn chars(s: &str) -> Vec<char> {
    s.chars().collect()
}

fn text(v: &[char]) -> String {
    v.iter().collect()
}

#[test]
fn characters_go_in_and_out_unchanged() {
    for s in ["", "a", "hello world", "tab\tnew\nline", "gr\u{fc}\u{df}e \u{1f600}"] {
        assert_eq!(to_chars(s), chars(s));
        assert_eq!(from_chars(&chars(s)), s);
    }
}

#[test]
fn searching_agrees_with_the_standard_library() {
    let hays = ["", "a", "abcabc", "aaa", "x.chunk.1.chunk.2", "tap-1: tap-2:"];
    let needles = ["", "a", "abc", "aa", ".chunk.", "tap-", ":", "zz", "abcabcabc"];
    for h in hays {
        for n in needles {
            let (hv, nv) = (chars(h), chars(n));
            assert_eq!(find(&hv, &nv), h.find(n), "find {:?} {:?}", h, n);
            assert_eq!(rfind(&hv, &nv), h.rfind(n), "rfind {:?} {:?}", h, n);
            assert_eq!(contains(&hv, &nv), h.contains(n));
            assert_eq!(has_prefix(&hv, &nv), h.starts_with(n));
            assert_eq!(has_suffix(&hv, &nv), h.ends_with(n));
            for from in 0..=h.len() {
                let expected = h[from..].find(n).map(|i| i + from);
                assert_eq!(find_from(&hv, &nv, from), expected);
            }
            assert_eq!(find_from(&hv, &nv, h.len() + 1), None);
            assert_eq!(same_text(h, n), h == n);
        }
    }
}

#[test]
fn splitting_and_joining_agree_with_the_standard_library() {
    for s in ["", "a", "a/b", "/a//b/", "///", "registry/org/name:tag"] {
        let got: Vec<String> = split(&chars(s), '/').iter().map(|p| text(p)).collect();
        let expected: Vec<String> = s.split('/').map(|p| p.to_string()).collect();
        assert_eq!(got, expected);
        assert_eq!(join(&got, "/"), s);
    }
    assert_eq!(join(&Vec::new(), ","), "");
    assert_eq!(join(&vec!["a".to_string()], ","), "a");
    assert_eq!(join(&vec!["a".to_string(), "".to_string(), "b".to_string()], ", "), "a, , b");
}

#[test]
fn lines_agree_with_the_standard_library() {
    for s in ["", "\n", "a", "a\n", "a\nb", "a\r\nb\r\n", "a\r", "\r\n\r\n", "a\n\nb\n", "x\ry\n"] {
        let got: Vec<String> = lines(&chars(s)).iter().map(|p| text(p)).collect();
        let expected: Vec<String> = s.lines().map(|p| p.to_string()).collect();
        assert_eq!(got, expected, "lines of {:?}", s);
    }
}

#[test]
fn trimming_agrees_with_the_standard_library() {
    for s in ["", " ", "a", "  a b \n", "\t\r\n x", "x\u{a0}", "\u{3000}x\u{2003}", "\u{200b}x"] {
        assert_eq!(text(&trim(&chars(s))), s.trim(), "trim of {:?}", s);
    }
    for n in 0..0x3100u32 {
        if let Some(c) = char::from_u32(n) {
            assert_eq!(is_whitespace(c), c.is_whitespace(), "U+{:04X}", n);
        }
    }
}

#[test]
fn numbers_are_read_as_the_standard_library_reads_them() {
    for s in ["0", "7", "007", "+7", "255", "256", "", "+", "-1", "1 ", " 1", "1x", "++1", "4294967295", "4294967296", "18446744073709551615", "18446744073709551616", "99999999999999999999999"] {
        assert_eq!(parse_number(&chars(s), 255), s.parse::<u8>().ok().map(|n| n as u64), "u8 {:?}", s);
        assert_eq!(parse_number(&chars(s), u32::MAX as u64), s.parse::<u32>().ok().map(|n| n as u64));
        assert_eq!(parse_number(&chars(s), u64::MAX), s.parse::<u64>().ok());
    }
    assert_eq!(parse_number(&chars("5"), 4), None);
    assert_eq!(parse_number(&chars("4"), 4), Some(4));
    assert_eq!(parse_number(&chars("0"), 0), Some(0));
}

#[test]
fn numbers_are_written_in_base_ten_and_sixteen() {
    for n in [0u64, 1, 9, 10, 99, 100, 12345, u32::MAX as u64, u64::MAX] {
        assert_eq!(to_decimal(n), n.to_string());
        assert_eq!(parse_number(&chars(&to_decimal(n)), u64::MAX), Some(n));
    }
    for (n, width, expected) in [(0u64, 2u8, "00"), (0xab, 2, "ab"), (0x1ab, 2, "ab"), (0xdeadbeef, 8, "deadbeef"), (5, 0, ""), (0xf, 1, "f"), (0x123, 7, "0000123")] {
        let mut out = Vec::new();
        push_hex(&mut out, n, width);
        assert_eq!(text(&out), expected);
    }
    let digits: String = (0..16u8).map(digit).collect();
    assert_eq!(digits, "0123456789abcdef");
    assert_eq!(text(&replace_char(&chars("a.b.c"), '.', '_')), "a_b_c");
    assert_eq!(text(&replace_char(&chars(""), '.', '_')), "");
}

#[test]
fn a_map_keeps_the_order_of_its_keys() {
    let mut m = StrMap::new();
    assert!(m.is_empty());
    assert_eq!(m.len(), 0);
    assert!(m.get("a").is_none());
    m.insert("b".to_string(), "1".to_string());
    m.insert("a".to_string(), "2".to_string());
    m.insert("b".to_string(), "3".to_string());
    assert_eq!(m.len(), 2);
    assert!(!m.is_empty());
    assert_eq!(m.key_at(0), "b");
    assert_eq!(m.value_at(0), "3");
    assert_eq!(m.key_at(1), "a");
    assert_eq!(m.get("a").unwrap(), "2");
    assert_eq!(m.get("b").unwrap(), "3");
    assert!(m.contains_key("a"));
    assert!(!m.contains_key("c"));
    assert!(!m.contains_key(""));
}
