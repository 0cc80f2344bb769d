//! Texts, numbers, addresses and documents.

use mague_rc::json::{check_document, read_node, JsonNode};
use mague_rc::numbers::{seconds_to_ms, Double, Single};
use mague_rc::ranking::rank;
use mague_rc::text::{
    decimal_text, hex16_text, join_texts, normalize, padded_decimal_text, parse_number,
    split_lines, split_words, trimmed, NumberFault,
};
use mague_rc::web::{
    bare_url, endpoint_path, endpoint_url, query_url, url_scheme, UrlFault,
};

#[test]
fn texts_are_trimmed_split_and_joined() {
    assert_eq!(trimmed(" \u{a0}абв\t\n"), "абв");
    assert_eq!(
        split_words(" a\tb\n c "),
        vec!["a".to_owned(), "b".to_owned(), "c".to_owned()]
    );
    assert_eq!(normalize("  что   такое \n HashMap "), "что такое HashMap");
    assert_eq!(
        join_texts(&vec!["a".to_owned(), "b".to_owned()], ", "),
        "a, b"
    );
    assert_eq!(
        split_lines("a\r\nb\n"),
        vec!["a".to_owned(), "b".to_owned()]
    );
}

#[test]
fn numbers_are_read_and_written() {
    assert_eq!(parse_number("42", 100), Ok(42));
    assert_eq!(parse_number("+42", 100), Ok(42));
    assert_eq!(parse_number("101", 100), Err(NumberFault::TooLarge));
    assert_eq!(parse_number("", 100), Err(NumberFault::Empty));
    assert_eq!(parse_number("-1", 100), Err(NumberFault::InvalidDigit));
    assert_eq!(decimal_text(0), "0");
    assert_eq!(decimal_text(u64::MAX), "18446744073709551615");
    assert_eq!(hex16_text(0xaf63dc4c8601ec8c), "af63dc4c8601ec8c");
    assert_eq!(hex16_text(1), "0000000000000001");
    assert_eq!(padded_decimal_text(7, 4), "0007");
    assert_eq!(padded_decimal_text(12_345, 4), "12345");
}

#[test]
fn fractions_are_compared_by_their_value() {
    let single = |value: f32| Single { bits: value.to_bits() };
    assert!(single(0.5).reaches(single(0.5)));
    assert!(!single(0.5).exceeds(single(0.5)));
    assert!(single(-0.5).exceeds(single(-1.0)));
    assert!(single(0.0).reaches(single(-0.0)));
    assert!(!single(f32::NAN).reaches(single(0.0)));
    assert!(single(1.5).lies_within(single(0.0), single(2.0)));
    assert!(!single(2.5).lies_within(single(0.0), single(2.0)));
    assert!(!single(f32::INFINITY).has_finite());
    assert!(single(-0.0).total_rank_of() < single(0.0).total_rank_of());
    assert!(single(-2.0).total_rank_of() < single(-1.0).total_rank_of());
}

#[test]
fn seconds_are_rounded_to_milliseconds() {
    let double = |value: f64| Double { bits: value.to_bits() };
    for seconds in [0.0, 0.5, 1.25, 2.5, 0.0004, 0.0005, 1.0005, 12.3456789, 1e6, 0.1 + 0.2] {
        assert_eq!(
            seconds_to_ms(double(seconds)),
            Some((seconds * 1000.0).round() as u64)
        );
    }
    assert_eq!(seconds_to_ms(double(-1.0)), None);
    assert_eq!(seconds_to_ms(double(f64::NAN)), None);
    assert_eq!(seconds_to_ms(double(f64::INFINITY)), None);
}

#[test]
fn ranking_is_stable() {
    assert_eq!(rank(&vec![1, 3, 2, 3]), vec![1, 3, 2, 0]);
}

#[test]
fn addresses_are_built_on_a_base() {
    assert_eq!(url_scheme("wss://host/path"), "wss");
    assert_eq!(
        endpoint_url("https://host/api/", "/x"),
        Ok("https://host/api/x".to_owned())
    );
    assert_eq!(endpoint_url("nowhere", "/x"), Err(UrlFault::NotAUrl));
    assert_eq!(
        bare_url("https://host/a?b=c#d"),
        Ok("https://host/a".to_owned())
    );
    assert_eq!(bare_url("nowhere"), Err(UrlFault::NotAUrl));
    assert_eq!(endpoint_path("/api//", "/x"), "/api/x");
    assert_eq!(endpoint_path("", "/x"), "/x");
    assert_eq!(
        query_url(
            "https://host/api",
            &vec![("a b".to_owned(), "c&d".to_owned())]
        ),
        Ok("https://host/api?a+b=c%26d".to_owned())
    );
}

#[test]
fn long_addresses_are_built() {
    let long = "a".repeat(17_000_000);
    let base = format!("https://host/{long}#part");
    assert_eq!(
        endpoint_url(&base, "/x"),
        Ok(format!("https://host/{long}/x"))
    );
    assert_eq!(
        query_url(&base, &vec![("q".to_owned(), long.clone())]),
        Ok(format!("https://host/{long}?q={long}#part"))
    );
}

#[test]
fn addresses_keep_what_their_parts_allow() {
    assert_eq!(
        endpoint_url("mailto:you  #part", "/x"),
        Ok("mailto:you  /x".to_owned())
    );
    assert_eq!(
        endpoint_url("https://host/a b?q#part", "/x"),
        Ok("https://host/a%20b/x".to_owned())
    );
    assert_eq!(
        query_url("https://host/?#part", &vec![("a".to_owned(), "\u{e9}".to_owned())]),
        Ok("https://host/?a=%C3%A9#part".to_owned())
    );
}

#[test]
fn documents_are_read_by_place() {
    let text = r#"{"a":[{"b":"c"}],"n":1.5,"t":true,"x":null}"#;
    assert!(matches!(read_node(text, "/a/0/b"), JsonNode::Text(found) if found == "c"));
    assert!(matches!(read_node(text, "/a"), JsonNode::List(1)));
    assert!(matches!(
        read_node(text, "/n"),
        JsonNode::Number(Some(double)) if f64::from_bits(double.bits) == 1.5
    ));
    assert!(matches!(read_node(text, "/t"), JsonNode::Bool(true)));
    assert!(matches!(read_node(text, "/x"), JsonNode::Null));
    assert!(matches!(read_node(text, "/y"), JsonNode::Missing));
    assert!(matches!(read_node(text, ""), JsonNode::Object));
    assert!(check_document(text).is_none());
    assert!(check_document("{").is_some());
}
