use shotly::text::{
    chars_after_first, chars_eq, chars_of, ends_with, push_dec, push_hex2, split_chars,
    starts_with, str_eq, string_from_chars, trim_chars, trim_str,
};

#[test]
fn decimal_formatting() {
    let mut s = String::new();
    push_dec(&mut s, 0);
    assert_eq!(s, "0");
    let mut s = String::from("n=");
    push_dec(&mut s, 1234567890123);
    assert_eq!(s, "n=1234567890123");
    let mut s = String::new();
    push_dec(&mut s, u128::MAX);
    assert_eq!(s, u128::MAX.to_string());
}

#[test]
fn hex_formatting() {
    let mut s = String::new();
    push_hex2(&mut s, 0);
    push_hex2(&mut s, 0x0f);
    push_hex2(&mut s, 0xa5);
    push_hex2(&mut s, 0xff);
    assert_eq!(s, "000FA5FF");
}

#[test]
fn chars_and_back() {
    let v = chars_of("截图 ab");
    assert_eq!(v, vec!['截', '图', ' ', 'a', 'b']);
    assert_eq!(string_from_chars(&v), "截图 ab");
    assert!(chars_eq(&v, &chars_of("截图 ab")));
    assert!(!chars_eq(&v, &chars_of("截图 a")));
}

#[test]
fn string_equality_and_affixes() {
    assert!(str_eq("zh-CN", "zh-CN"));
    assert!(!str_eq("zh-CN", "zh"));
    assert!(starts_with("overlay-3", "overlay-"));
    assert!(!starts_with("overla", "overlay-"));
    assert!(ends_with("abc:fx", ":fx"));
    assert!(!ends_with("abc:fy", ":fx"));
    assert!(ends_with("", ""));
}

#[test]
fn trimming_matches_std() {
    for s in ["", "   ", " a b ", "\t\n x\u{3000}", "\u{85}y\u{a0}", "中文", " \u{200b}z "] {
        assert_eq!(trim_str(s), s.trim());
        let t: String = trim_chars(&chars_of(s)).into_iter().collect();
        assert_eq!(t, s.trim());
    }
}

#[test]
fn splitting_matches_std() {
    for s in ["", ",", "a,b", "a,,b,", "zh-Hans, en-US"] {
        let pieces: Vec<String> = split_chars(&chars_of(s), ',')
            .into_iter()
            .map(|p| p.into_iter().collect())
            .collect();
        let expected: Vec<String> = s.split(',').map(|p| p.to_string()).collect();
        assert_eq!(pieces, expected);
    }
}

#[test]
fn after_first_comma() {
    let r = chars_after_first(&chars_of("data:image/png;base64,QUJD,x"), ',');
    assert_eq!(r.map(|v| v.into_iter().collect::<String>()), Some("QUJD,x".to_string()));
    assert_eq!(chars_after_first(&chars_of("QUJD"), ','), None);
}
