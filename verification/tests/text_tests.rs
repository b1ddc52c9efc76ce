use pin_gate::codec::{bearer_token, normalize_hex, parse_credential, Parts};
use pin_gate::text::{chars_of, is_blank_byte, matches_at, remove_all, trim};

#[test]
fn remove_all_takes_out_every_occurrence() {
    assert_eq!(remove_all(b"Bearer abcBearerdef", b"Bearer"), b" abcdef".to_vec());
    assert_eq!(remove_all(b"BearerBearer", b"Bearer"), Vec::<u8>::new());
}

#[test]
fn remove_all_scans_from_the_left_without_overlap() {
    // "aaa" holds "aa" once from the left; the third "a" stays
    assert_eq!(remove_all(b"aaa", b"aa"), b"a".to_vec());
    // what closes up after a removal is not looked at again
    assert_eq!(remove_all(b"BeaBearerrer", b"Bearer"), b"Bearer".to_vec());
}

#[test]
fn remove_all_leaves_other_text_alone() {
    assert_eq!(remove_all(b"bearer Basic", b"Bearer"), b"bearer Basic".to_vec());
    assert_eq!(remove_all(b"Bear", b"Bearer"), b"Bear".to_vec());
    assert_eq!(remove_all(b"", b"Bearer"), Vec::<u8>::new());
}

#[test]
fn remove_all_with_empty_pattern_changes_nothing() {
    assert_eq!(remove_all(b"abc", b""), b"abc".to_vec());
}

#[test]
fn matches_at_checks_position_and_length() {
    assert!(matches_at(b"xxBearer", b"Bearer", 2));
    assert!(!matches_at(b"xxBearer", b"Bearer", 1));
    assert!(!matches_at(b"xxBear", b"Bearer", 2));
    assert!(matches_at(b"abc", b"", 3));
}

#[test]
fn trim_drops_blanks_at_both_ends_only() {
    assert_eq!(trim(b"  \tab cd \r\n"), b"ab cd".to_vec());
    assert_eq!(trim(b"abc"), b"abc".to_vec());
    assert_eq!(trim(b" \t "), Vec::<u8>::new());
    assert_eq!(trim(b""), Vec::<u8>::new());
}

#[test]
fn blanks_are_ascii_white_space() {
    for b in [9u8, 10, 11, 12, 13, 32] {
        assert!(is_blank_byte(b));
    }
    for b in [0u8, 8, 14, 31, 33, 65, 160, 255] {
        assert!(!is_blank_byte(b));
    }
}

#[test]
fn chars_of_gives_every_character() {
    assert_eq!(chars_of("a:é"), vec!['a', ':', 'é']);
    assert_eq!(chars_of(""), Vec::<char>::new());
}

#[test]
fn bearer_token_strips_marker_and_blanks() {
    assert_eq!(bearer_token(b"Bearer dG9rZW4="), b"dG9rZW4=".to_vec());
    assert_eq!(bearer_token(b"dG9rZW4="), b"dG9rZW4=".to_vec());
    assert_eq!(bearer_token(b"  Bearer   dG9rZW4=  "), b"dG9rZW4=".to_vec());
    // the marker is taken out wherever it stands
    assert_eq!(bearer_token(b"dG9rBearerZW4="), b"dG9rZW4=".to_vec());
}

#[test]
fn normalize_hex_strips_every_leading_0x() {
    assert_eq!(normalize_hex("0xabcd"), "abcd");
    assert_eq!(normalize_hex("abcd"), "abcd");
    assert_eq!(normalize_hex("0x0x0xab"), "ab");
    assert_eq!(normalize_hex("0x"), "");
    assert_eq!(normalize_hex(""), "");
}

#[test]
fn normalize_hex_keeps_what_is_no_prefix() {
    assert_eq!(normalize_hex("0Xab"), "0Xab");
    assert_eq!(normalize_hex("x0ab"), "x0ab");
    assert_eq!(normalize_hex("0"), "0");
    assert_eq!(normalize_hex("ab0x"), "ab0x");
}

#[test]
fn parse_credential_wants_exactly_two_fields() {
    assert_eq!(
        parse_credential("addr:sig"),
        Some(Parts { address: "addr".to_string(), signature: "sig".to_string() })
    );
    assert_eq!(parse_credential("addrsig"), None);
    assert_eq!(parse_credential("a:b:c"), None);
    assert_eq!(parse_credential("a::b"), None);
    assert_eq!(parse_credential(""), None);
}

#[test]
fn parse_credential_accepts_empty_fields() {
    assert_eq!(
        parse_credential(":"),
        Some(Parts { address: String::new(), signature: String::new() })
    );
    assert_eq!(
        parse_credential("a:"),
        Some(Parts { address: "a".to_string(), signature: String::new() })
    );
}

#[test]
fn parse_credential_strips_0x_from_both_fields() {
    let want = Some(Parts { address: "5Grw".to_string(), signature: "beef".to_string() });
    assert_eq!(parse_credential("5Grw:beef"), want);
    assert_eq!(parse_credential("0x5Grw:beef"), want);
    assert_eq!(parse_credential("5Grw:0xbeef"), want);
    assert_eq!(parse_credential("0x5Grw:0x0xbeef"), want);
}

#[test]
fn parse_credential_counts_characters_not_bytes() {
    assert_eq!(
        parse_credential("é:ü"),
        Some(Parts { address: "é".to_string(), signature: "ü".to_string() })
    );
}
