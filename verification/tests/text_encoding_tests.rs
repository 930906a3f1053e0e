use monas_state_node::auth_token::{decode_jwt, encode_jwt};
use monas_state_node::encoding::u64_to_be_bytes;
use monas_state_node::monas_account::{MonasAccountAdapter, MonasAuthError};
use monas_state_node::text::{
    is_white_space_char, trim_whitespace,
    chars_from, chars_until, contains_str, decimal_string, find_char, split_str,
    starts_with, str_equal, str_le, strip_prefix,
};

#[test]
fn decimal_strings() {
    assert_eq!(decimal_string(0), "0");
    assert_eq!(decimal_string(7), "7");
    assert_eq!(decimal_string(1000), "1000");
    assert_eq!(decimal_string(u64::MAX), u64::MAX.to_string());
}

#[test]
fn string_order_matches_str_ord() {
    let words = ["", "a", "ab", "b", "node-A", "node-a", "é", "z"];
    for x in words {
        for y in words {
            assert_eq!(str_le(x, y), x <= y, "{x} <= {y}");
        }
    }
}

#[test]
fn splitting_and_searching() {
    assert_eq!(split_str("a.b..c", '.'), vec!["a", "b", "", "c"]);
    assert_eq!(split_str("", '.'), vec![""]);
    assert!(starts_with("monas:user", "monas:"));
    assert!(!starts_with("mon", "monas:"));
    assert_eq!(strip_prefix("monas://content/x", "monas://content/"), Some("x".to_string()));
    assert!(contains_str("a capacity b", "capacity"));
    assert!(!contains_str("cap", "capacity"));
    assert_eq!(find_char("ab:cd:e", ':'), Some(2));
    assert_eq!(chars_from("héllo", 1), "éllo");
    assert_eq!(chars_until("héllo", 2), "hé");
    assert_eq!(monas_state_node::text::concat("a", "b"), "ab");
    assert!(str_equal("x", "x"));
}

#[test]
fn codecs() {
    let key_hex = format!("04{}", "0aFF".repeat(32));
    let key = MonasAccountAdapter::extract_public_key_from_key_id(&format!("user:{}", key_hex)).unwrap();
    assert_eq!(key.len(), 65);
    assert_eq!(key[0], 4);
    assert_eq!(&key[1..3], &[10, 255]);
    let odd = format!("user:04{}", "g".repeat(128));
    assert_eq!(MonasAccountAdapter::extract_public_key_from_key_id(&odd), Err(MonasAuthError::InvalidHex));

    let jwt = encode_jwt(&[0xfb, 0xff], b"{}", &[1]);
    assert_eq!(jwt, "-_8.e30.AQ");
    let parts = decode_jwt(&jwt).unwrap();
    assert_eq!(parts.header_json, vec![0xfb, 0xff]);
    assert_eq!(u64_to_be_bytes(258), vec![0, 0, 0, 0, 0, 0, 1, 2]);
}

#[test]
fn trimming_matches_str_trim() {
    let white: Vec<char> = vec![
        '\u{9}', '\u{a}', '\u{b}', '\u{c}', '\u{d}', ' ', '\u{85}', '\u{a0}', '\u{1680}',
        '\u{2000}', '\u{2001}', '\u{2002}', '\u{2003}', '\u{2004}', '\u{2005}', '\u{2006}',
        '\u{2007}', '\u{2008}', '\u{2009}', '\u{200a}', '\u{2028}', '\u{2029}', '\u{202f}',
        '\u{205f}', '\u{3000}',
    ];
    for c in &white {
        assert!(is_white_space_char(*c));
        assert!(c.is_whitespace());
    }
    for c in ['a', '\u{200b}', '\u{180e}', '\u{feff}', '\u{8}', '\u{e}', '\u{1f}', '0'] {
        assert!(!is_white_space_char(c));
        assert_eq!(c.is_whitespace(), false);
    }
    let samples = [
        "",
        "   ",
        "  read  ",
        "\t\u{3000}write\u{a0}\n",
        "a b",
        "\u{200b}x\u{200b}",
        "\u{2028} share \u{205f}",
    ];
    for s in samples {
        assert_eq!(trim_whitespace(s), s.trim());
    }
    assert_eq!(trim_whitespace(" \t content/read \n"), "content/read");
}
