use peckboard_api_plugin::query::{parse_query, percent_decode, unescape};
use peckboard_api_plugin::string_map::StringMap;
use peckboard_api_plugin::text::{
    eq_ignore_ascii_case, lists_text, same_text, split_once, split_words, to_ascii_uppercase, trim,
};

#[test]
fn trim_agrees_with_the_standard_library_on_every_character() {
    for code in 0..=0x10ffff {
        if let Some(c) = char::from_u32(code) {
            let alone = c.to_string();
            assert_eq!(trim(&alone), alone.trim());
        }
    }
}

#[test]
fn trim_keeps_inner_white_space() {
    assert_eq!(trim(" \t a b \u{3000}\n"), "a b");
    assert_eq!(trim(""), "");
    assert_eq!(trim("   "), "");
}

#[test]
fn ascii_case_is_ignored() {
    assert_eq!(to_ascii_uppercase("get/{}`z\u{e9}"), "get/{}`z\u{e9}".to_ascii_uppercase());
    assert!(eq_ignore_ascii_case("BeArEr", "bearer"));
    assert!(!eq_ignore_ascii_case("bearer ", "bearer"));
    assert!(!eq_ignore_ascii_case("\u{c9}", "\u{e9}"));
}

#[test]
fn split_once_takes_the_first_mark() {
    assert_eq!(split_once("a=b=c", '='), Some(("a".to_string(), "b=c".to_string())));
    assert_eq!(split_once("=", '='), Some(("".to_string(), "".to_string())));
    assert_eq!(split_once("abc", '='), None);
    assert_eq!(split_once("", '='), None);
}

#[test]
fn words_stand_between_spaces() {
    assert_eq!(split_words("project p1 not found"), vec!["project", "p1", "not", "found"]);
    assert_eq!(split_words("  a  b "), vec!["a", "b"]);
    assert!(split_words(" ").is_empty());
}

#[test]
fn list_holds_a_text() {
    let list = vec!["read".to_string(), "write".to_string()];
    assert!(lists_text(&list, "write"));
    assert!(!lists_text(&list, "writ"));
    assert!(!lists_text(&Vec::new(), ""));
}

#[test]
fn same_text_compares_characters() {
    assert!(same_text("\u{e9}", "\u{e9}"));
    assert!(!same_text("e\u{301}", "\u{e9}"));
    assert!(!same_text("ab", "ac"));
}

#[test]
fn later_value_takes_the_place_of_the_earlier() {
    let mut map = StringMap::new();
    assert_eq!(map.get("a"), None);
    map.insert("a".to_string(), "1".to_string());
    map.insert("b".to_string(), "2".to_string());
    map.insert("a".to_string(), "3".to_string());
    assert_eq!(map.get("a").unwrap(), "3");
    assert_eq!(map.get("b").unwrap(), "2");
    assert_eq!(map.get("c"), None);
}

#[test]
fn percent_decode_reads_escapes() {
    assert_eq!(percent_decode("a+b%20c"), "a b c");
    assert_eq!(percent_decode("%41%6a%6A"), "Ajj");
    assert_eq!(percent_decode("%C3%A9"), "\u{e9}");
    assert_eq!(percent_decode("%2B"), "+");
    assert_eq!(percent_decode("%2541"), "%41");
    assert_eq!(percent_decode("\u{e9}"), "\u{e9}");
    assert_eq!(percent_decode(""), "");
}

#[test]
fn malformed_escapes_stay() {
    assert_eq!(percent_decode("%"), "%");
    assert_eq!(percent_decode("%4"), "%4");
    assert_eq!(percent_decode("100%"), "100%");
    assert_eq!(percent_decode("%zz"), "%zz");
    assert_eq!(percent_decode("%4g+"), "%4g ");
    assert_eq!(percent_decode("%%41"), "%A");
}

#[test]
fn invalid_utf8_is_replaced() {
    assert_eq!(percent_decode("a%FFb"), "a\u{fffd}b");
    assert_eq!(percent_decode("%C3"), "\u{fffd}");
}

#[test]
fn every_byte_can_be_escaped() {
    for byte in 0..=255u8 {
        assert_eq!(unescape(format!("%{:02X}", byte).as_bytes()), vec![byte]);
        assert_eq!(unescape(format!("%{:02x}!", byte).as_bytes()), vec![byte, b'!']);
    }
}

#[test]
fn query_is_read_pair_by_pair() {
    let params = parse_query("project_id=p%201&step=in+progress&&flag&=x");
    assert_eq!(params.get("project_id").unwrap(), "p 1");
    assert_eq!(params.get("step").unwrap(), "in progress");
    assert_eq!(params.get("flag").unwrap(), "");
    assert_eq!(params.get("").unwrap(), "x");
    assert_eq!(params.get("x"), None);
}

#[test]
fn later_duplicates_win() {
    let params = parse_query("a=1&a=2&%61=3");
    assert_eq!(params.get("a").unwrap(), "3");
    assert_eq!(parse_query("a=1&a").get("a").unwrap(), "");
}

#[test]
fn only_the_first_equals_sign_splits() {
    assert_eq!(parse_query("a=b=c").get("a").unwrap(), "b=c");
    assert_eq!(parse_query("a%3Db=c").get("a=b").unwrap(), "c");
}

#[test]
fn empty_query_has_no_parameters() {
    assert_eq!(parse_query("").get(""), None);
    assert_eq!(parse_query("&&").get(""), None);
}

#[test]
fn parts_are_decoded_one_by_one() {
    let parts = ["", "a+b", "%41", "%%41", "%zz1", "100%25", "\u{e9}%C3%A9"];
    for left in parts {
        for right in parts {
            let both = format!("{}{}", left, right);
            assert_eq!(percent_decode(&both), percent_decode(left) + &percent_decode(right));
        }
    }
    assert_eq!(percent_decode("%4"), "%4");
    assert_eq!(percent_decode("%41"), "A");
}
