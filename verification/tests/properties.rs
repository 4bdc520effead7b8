use std::borrow::Cow;

#[test]
fn round_trip_decode_encode() {
    let data = vec![0u8, 1, 2, 250, 255, 13, 10, 7];
    let text = base64_url::encode(&data);
    assert_eq!(data, base64_url::decode(&text).unwrap());
}

#[test]
fn hello_world_scenarios() {
    assert_eq!("SGVsbG8sIHdvcmxkIQ", base64_url::encode(b"Hello, world!"));
    assert_eq!(b"Hello, world!".to_vec(), base64_url::decode("SGVsbG8sIHdvcmxkIQ").unwrap());
    assert_eq!("SGVsbG8sIHdvcmxkIQ", base64_url::escape("SGVsbG8sIHdvcmxkIQ=="));
    assert_eq!("SGVsbG8sIHdvcmxkIQ==", base64_url::unescape("SGVsbG8sIHdvcmxkIQ"));
}

#[test]
fn encode_into_url_buffer() {
    let hash = &[1, 2, 3, 4, 5, 6, 7, 8, 9];
    let mut url = String::from("https://example.com/?hash=");

    assert_eq!("AQIDBAUGBwgJ", base64_url::encode_to_string(hash, &mut url));
    assert_eq!("https://example.com/?hash=AQIDBAUGBwgJ", url);
}

#[test]
fn escape_substitutes_and_truncates() {
    assert_eq!("ab-cd_ef", base64_url::escape("ab+cd/ef=gh="));
    assert_eq!("", base64_url::escape("===="));
    assert_eq!("", base64_url::escape(""));
    assert_eq!(b"ab-", base64_url::escape_u8_slice(b"ab+==").as_ref());
}

#[test]
fn escape_is_idempotent() {
    let once = base64_url::escape("ab+cd/ef==").into_owned();
    let twice = base64_url::escape(&once).into_owned();
    assert_eq!(once, twice);
}

#[test]
fn escape_borrows_when_nothing_changes() {
    assert!(matches!(base64_url::escape("abcd"), Cow::Borrowed(_)));
    assert!(matches!(base64_url::escape("ab=="), Cow::Borrowed(_)));
    assert!(matches!(base64_url::escape("a+"), Cow::Owned(_)));
    assert!(matches!(base64_url::escape_u8_slice(b"abcd"), Cow::Borrowed(_)));
    assert!(matches!(base64_url::escape_u8_slice(b"a/"), Cow::Owned(_)));
}

#[test]
fn escape_returns_view_of_input() {
    let input = String::from("abcd");
    match base64_url::escape(&input) {
        Cow::Borrowed(view) => assert!(std::ptr::eq(view, input.as_str())),
        Cow::Owned(_) => panic!("expected a borrowed view"),
    }
}

#[test]
fn unescape_appends_padding() {
    assert_eq!("YQ==", base64_url::unescape("YQ"));
    assert_eq!("", base64_url::unescape(""));
    assert_eq!("+/+/", base64_url::unescape("-_-_"));
}

#[test]
fn unescape_length_is_multiple_of_four() {
    for input in ["", "a", "ab", "abc", "abcd", "abcde", "ab-", "abcdef_"] {
        assert_eq!(base64_url::unescape(input).len() % 4, 0);
    }
}

#[test]
fn unescape_inverts_escape_on_canonical_padding() {
    for input in ["SGVsbG8sIHdvcmxkIQ==", "YQ==", "abcd", "ab+/"] {
        let escaped_text = base64_url::escape(input).into_owned();
        assert_eq!(input, base64_url::unescape(&escaped_text));
    }
}

#[test]
fn unescape_borrows_when_nothing_changes() {
    assert!(matches!(base64_url::unescape("abcd"), Cow::Borrowed(_)));
    assert!(matches!(base64_url::unescape("abc"), Cow::Owned(_)));
    assert!(matches!(base64_url::unescape("ab-d"), Cow::Owned(_)));
    assert!(matches!(base64_url::unescape_u8_slice(b"abcd"), Cow::Borrowed(_)));
    assert!(matches!(base64_url::unescape_u8_slice(b"ab_d"), Cow::Owned(_)));
    assert_eq!(b"ab+c", base64_url::unescape_u8_slice(b"ab-c").as_ref());
}

#[test]
fn escape_in_place_variants() {
    let mut buffer = b"ab+cd/=xyz".to_vec();
    let view = base64_url::escape_u8_slice_in_place(&mut buffer);
    assert_eq!(b"ab-cd_", view);
    assert_eq!(b"ab-cd_=xyz", buffer.as_slice());

    let mut buffer = b"ab+cd/=xyz".to_vec();
    assert_eq!(b"ab-cd_", base64_url::escape_vec_in_place(&mut buffer));
    assert_eq!(b"ab-cd_", buffer.as_slice());

    let mut text = String::from("ab+cd/=xyz");
    base64_url::unsafe_escape_string(&mut text);
    assert_eq!("ab-cd_", text);

    assert_eq!("ab-cd_", base64_url::unsafe_escape(String::from("ab+cd/=xyz")));

    let mut buffer = b"a/b+".to_vec();
    base64_url::unsafe_escape_vec(&mut buffer);
    assert_eq!(b"a_b-", buffer.as_slice());

    let mut buffer = b"a+=c".to_vec();
    let view = base64_url::unsafe_escape_u8_slice(&mut buffer);
    assert_eq!(b"a-", view);
}

#[test]
fn unescape_in_place_variants() {
    let mut buffer = b"ab-c_d".to_vec();
    assert_eq!(b"ab+c/d==", base64_url::unescape_vec_in_place(&mut buffer));
    assert_eq!(b"ab+c/d==", buffer.as_slice());

    let mut text = String::from("ab-c_d");
    base64_url::unsafe_unescape_string(&mut text);
    assert_eq!("ab+c/d==", text);

    assert_eq!("ab+c/d==", base64_url::unsafe_unescape(String::from("ab-c_d")));

    let mut buffer = b"ab-c_d".to_vec();
    base64_url::unsafe_unescape_vec(&mut buffer);
    assert_eq!(b"ab+c/d==", buffer.as_slice());
}

#[test]
fn unescape_try_in_place_borrows_and_copies() {
    let mut buffer = b"ab-c_dzz".to_vec();
    {
        let r = base64_url::unescape_u8_slice_try_in_place(&mut buffer);
        assert!(matches!(r, Cow::Borrowed(_)));
        assert_eq!(b"ab+c/dzz", r.as_ref());
    }
    assert_eq!(b"ab+c/dzz", buffer.as_slice());

    let mut buffer = b"ab-c_d".to_vec();
    {
        let r = base64_url::unsafe_unescape_u8_slice(&mut buffer);
        assert!(matches!(r, Cow::Owned(_)));
        assert_eq!(b"ab+c/d==", r.as_ref());
    }
    assert_eq!(b"ab+c/d", buffer.as_slice());
}

#[test]
fn decode_rejects_malformed_text() {
    assert!(base64_url::decode("!!!!").is_err());
    assert!(base64_url::decode("a").is_err());
}

#[test]
fn decode_to_slice_exact_and_short() {
    let mut out = vec![0u8; 16];
    let decoded = base64_url::decode_to_slice("SGVsbG8h", &mut out).unwrap();
    assert_eq!(b"Hello!", decoded);
    assert_eq!(&b"Hello!"[..], &out[..6]);

    let mut out = vec![0u8; 2];
    assert!(base64_url::decode_to_slice("SGVsbG8sIHdvcmxkIQ", &mut out).is_err());
}

#[test]
fn decode_to_vec_untouched_on_failure() {
    let mut buffer = b"keep".to_vec();
    assert!(base64_url::decode_to_vec("!!!!", &mut buffer).is_err());
    assert_eq!(b"keep", buffer.as_slice());
}

#[test]
fn encode_to_slice_exact_and_short() {
    let mut out = vec![0u8; 8];
    let encoded = base64_url::encode_to_slice(b"Hello!", &mut out).unwrap();
    assert_eq!(b"SGVsbG8h", encoded);
    assert_eq!(b"SGVsbG8h", out.as_slice());

    let mut out = vec![0u8; 7];
    assert!(base64_url::encode_to_slice(b"Hello!", &mut out).is_err());
}

#[test]
fn encode_to_vec_appends() {
    let mut buffer = b"hash:".to_vec();
    let encoded = base64_url::encode_to_vec(b"Hello!", &mut buffer);
    assert_eq!(b"SGVsbG8h", encoded);
    assert_eq!(b"hash:SGVsbG8h", buffer.as_slice());
}

#[test]
fn escape_and_unescape_keep_other_text() {
    assert_eq!("héllo-wörld_", base64_url::escape("héllo+wörld/"));
    assert_eq!("héllo+wörld/==", base64_url::unescape("héllo-wörld_"));
}
