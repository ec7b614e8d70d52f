use shotly::util::{
    decode_data_url, describe_decode_failure, encode_base64, fresh_temp_file_name, stamp,
    temp_file_expired, temp_file_name, urlencode, DecodeFailure, MAX_TEMP_AGE_MS,
};

#[test]
fn urlencode_keeps_safe_bytes_and_slashes() {
    assert_eq!(urlencode("/tmp/shotly/a-b_c.d~e.png"), "/tmp/shotly/a-b_c.d~e.png");
    assert_eq!(urlencode("a b"), "a%20b");
    assert_eq!(urlencode("截图"), "%E6%88%AA%E5%9B%BE");
    assert_eq!(urlencode("a+b&c=%"), "a%2Bb%26c%3D%25");
    assert_eq!(urlencode(""), "");
}

fn percent_decode(s: &str) -> Vec<u8> {
    let b = s.as_bytes();
    let mut out = Vec::new();
    let mut i = 0;
    while i < b.len() {
        if b[i] == b'%' {
            out.push(u8::from_str_radix(&s[i + 1..i + 3], 16).unwrap());
            i += 3;
        } else {
            out.push(b[i]);
            i += 1;
        }
    }
    out
}

#[test]
fn urlencode_is_reversible() {
    for s in ["C:\\Users\\张三\\Pictures\\shot 1.png", "%41", "~/a b/c", "ü€😀"] {
        let e = urlencode(s);
        assert!(e.bytes().all(|c| c.is_ascii_alphanumeric() || b"-_.~/%".contains(&c)));
        assert_eq!(percent_decode(&e), s.as_bytes());
    }
}

#[test]
fn temp_file_names() {
    assert_eq!(temp_file_name(42, 1700000000000, 7, "png"), "shotly-42-1700000000000-7.png");
    let n = fresh_temp_file_name(9, "png").expect("the system gives entropy here");
    assert!(n.starts_with("shotly-9-"));
    assert!(n.ends_with(".png"));
    assert_eq!(n.split('-').count(), 4);
}

#[test]
fn stamp_is_after_2020() {
    assert!(stamp() > 1_577_836_800_000);
}

#[test]
fn temp_expiry() {
    assert_eq!(MAX_TEMP_AGE_MS, 12 * 3600 * 1000);
    let now = 100_000_000u128;
    assert!(!temp_file_expired(now, None));
    assert!(!temp_file_expired(now, Some(now)));
    assert!(!temp_file_expired(now, Some(now - MAX_TEMP_AGE_MS)));
    assert!(temp_file_expired(now, Some(now - MAX_TEMP_AGE_MS - 1)));
    assert!(!temp_file_expired(now, Some(now + 5)));
}

#[test]
fn data_url_decodes() {
    assert_eq!(decode_data_url("data:image/png;base64,QUJD").unwrap(), b"ABC");
    assert_eq!(decode_data_url("  Zm9v \n").unwrap(), b"foo");
    assert_eq!(decode_data_url("data:,").unwrap(), b"");
}

#[test]
fn data_url_errors() {
    assert_eq!(
        decode_data_url("data:image/png;base64,@@@@").unwrap_err(),
        "base64 解码失败: Invalid symbol 64, offset 0."
    );
    assert_eq!(decode_data_url("x,Z").unwrap_err(), "base64 解码失败: Invalid input length: 1");
    assert_eq!(decode_data_url("x,Zg=").unwrap_err(), "base64 解码失败: Invalid padding");
    assert_eq!(
        decode_data_url("x,Zh==").unwrap_err(),
        "base64 解码失败: Invalid last symbol 104, offset 1."
    );
}

#[test]
fn decode_failure_messages() {
    assert_eq!(describe_decode_failure(DecodeFailure::InvalidByte(3, 10)), "Invalid symbol 10, offset 3.");
    assert_eq!(describe_decode_failure(DecodeFailure::InvalidLength(5)), "Invalid input length: 5");
    assert_eq!(
        describe_decode_failure(DecodeFailure::InvalidLastSymbol(7, 104)),
        "Invalid last symbol 104, offset 7."
    );
    assert_eq!(describe_decode_failure(DecodeFailure::InvalidPadding), "Invalid padding");
}

#[test]
fn base64_encoding_and_data_url_roundtrip() {
    assert_eq!(encode_base64(b""), "");
    assert_eq!(encode_base64(b"f"), "Zg==");
    assert_eq!(encode_base64(b"foo"), "Zm9v");
    let png: Vec<u8> = (0u8..=255).collect();
    let text = encode_base64(&png);
    let url = format!("data:image/png;base64,{text}");
    assert_eq!(decode_data_url(&url).unwrap(), png);
}

#[test]
fn data_url_reads_back_as_its_payload() {
    for text in ["", "Zg==", "Zm8=", "Zm9v", "iVBORw0KGgo="] {
        let bytes = decode_data_url(&format!("data:image/png;base64,{text}")).unwrap();
        assert_eq!(text.len(), (bytes.len() + 2) / 3 * 4);
        assert_eq!(encode_base64(&bytes), text);
    }
    assert!(decode_data_url("data:,Zh==").is_err());
}
