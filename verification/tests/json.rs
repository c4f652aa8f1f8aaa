use peckboard_api_plugin::json::Json;
use peckboard_api_plugin::response::response;

fn rewritten(text: &str) -> String {
    Json::parse(text).unwrap().to_text()
}

#[test]
fn values_are_printed_compactly_and_sorted() {
    assert_eq!(rewritten(" { \"b\" : 1 , \"a\" : [ true , null ] } "), "{\"a\":[true,null],\"b\":1}");
    assert_eq!(rewritten("{\"a\":1,\"a\":2}"), "{\"a\":2}");
    assert_eq!(rewritten("-5"), "-5");
    assert_eq!(rewritten("18446744073709551615"), "18446744073709551615");
    assert_eq!(rewritten("\"\\u00e9\\n\""), "\"\u{e9}\\n\"");
}

#[test]
fn text_that_is_not_json_gives_a_message() {
    assert_eq!(
        Json::parse("{").err().unwrap(),
        "EOF while parsing an object at line 1 column 1"
    );
    assert_eq!(Json::parse("1 2").err().unwrap(), "trailing characters at line 1 column 3");
}

#[test]
fn members_are_found() {
    let json = Json::parse("{\"a\":\"x\",\"b\":1}").unwrap();
    assert!(json.is_object());
    assert!(json.has_member("a"));
    assert!(json.has_member("b"));
    assert!(!json.has_member("c"));
    assert_eq!(json.str_member("a"), Some("x"));
    assert_eq!(json.str_member("b"), None);
    assert_eq!(json.str_member("c"), None);
    let list = Json::parse("[\"a\"]").unwrap();
    assert!(!list.is_object());
    assert!(!list.has_member("a"));
}

#[test]
fn printed_values_read_back() {
    for text in ["{\"a\":{\"b\":[1,-2,\"\\u0000\\\"\\\\/\"]}}", "[]", "{}", "\"\u{1f600}\"", "0"] {
        let once = rewritten(text);
        assert_eq!(rewritten(&once), once);
    }
}

#[test]
fn parser_follows_the_stated_number_of_levels() {
    let nested = |levels: usize| format!("{}{}", "[".repeat(levels), "]".repeat(levels));
    assert_eq!(rewritten(&nested(127)), nested(127));
    assert!(Json::parse(&nested(128)).is_err());
}

#[test]
fn reply_reads_back_with_the_levels_it_adds() {
    let nested = |levels: usize| format!("{}{}", "[".repeat(levels), "]".repeat(levels));
    let deepest = response(200, Json::parse(&nested(125)).unwrap());
    assert!(Json::parse(&deepest).is_ok());
    let deeper = response(200, Json::parse(&nested(126)).unwrap());
    assert!(Json::parse(&deeper).is_err());
}

#[test]
fn parts_are_read() {
    let json = Json::parse("{\"a\":[1,\"x\",null,-1,1.5,18446744073709551615],\"b\":null}").unwrap();
    let items = json.as_ref().member("a").unwrap().items().unwrap();
    assert_eq!(items.len(), 6);
    assert_eq!(items[0].unsigned(), Some(1));
    assert_eq!(items[1].text(), Some("x"));
    assert_eq!(items[1].unsigned(), None);
    assert!(items[2].is_null());
    assert_eq!(items[3].unsigned(), None);
    assert_eq!(items[4].unsigned(), None);
    assert_eq!(items[5].unsigned(), Some(u64::MAX));
    assert!(json.as_ref().member("b").unwrap().is_null());
    assert!(json.as_ref().member("c").is_none());
    assert!(json.as_ref().items().is_none());
    assert!(items[0].text().is_none());
    assert!(!items[0].is_null());
}
