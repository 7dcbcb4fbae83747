use book_catalog::json::{book_json, books_json, json_escape, u16_string, u32_string};
use book_catalog::{Book, Catalog};

fn seeded() -> Catalog {
    let mut c = Catalog::new();
    c.initialize();
    c
}

#[test]
fn numerals_are_plain_decimal() {
    assert_eq!(u32_string(0), "0");
    assert_eq!(u32_string(3), "3");
    assert_eq!(u32_string(42), "42");
    assert_eq!(u32_string(2017), "2017");
    assert_eq!(u32_string(u32::MAX), "4294967295");
    assert_eq!(u16_string(0), "0");
    assert_eq!(u16_string(1996), "1996");
    assert_eq!(u16_string(u16::MAX), "65535");
}

#[test]
fn escaping_leaves_plain_text_alone() {
    assert_eq!(json_escape("Clean Code"), "Clean Code");
    assert_eq!(json_escape(""), "");
}

#[test]
fn escaping_handles_quotes_backslashes_and_controls() {
    assert_eq!(json_escape("a\"b"), "a\\\"b");
    assert_eq!(json_escape("a\\b"), "a\\\\b");
    assert_eq!(json_escape("a\nb\tc"), "a\\nb\\tc");
    assert_eq!(json_escape("\r\u{8}\u{c}"), "\\r\\b\\f");
    assert_eq!(json_escape("\u{1}\u{1f}"), "\\u0001\\u001f");
}

#[test]
fn book_3_encodes_to_the_exact_body() {
    let c = seeded();
    let b = c.get_by_id(3).unwrap();
    assert_eq!(
        book_json(&b),
        "{\"id\":3,\"title\":\"Designing Data-Intensive Applications\",\"author\":\"Martin Kleppmann\",\"year\":2017}"
    );
}

#[test]
fn list_encodes_to_an_array_of_five_with_book_3() {
    let c = seeded();
    let body = books_json(&c.list_all());
    assert!(body.starts_with('['));
    assert!(body.ends_with(']'));
    assert_eq!(body.matches("{\"id\":").count(), 5);
    assert!(body.contains(
        "{\"id\":3,\"title\":\"Designing Data-Intensive Applications\",\"author\":\"Martin Kleppmann\",\"year\":2017}"
    ));
}

#[test]
fn empty_list_encodes_to_an_empty_array() {
    let c = Catalog::new();
    assert_eq!(books_json(&c.list_all()), "[]");
}

#[test]
fn encoded_title_with_special_characters_is_escaped() {
    let b = Book::new(8, "A \"quoted\" title".to_string(), "Some\\One".to_string(), 1999);
    assert_eq!(
        book_json(&b),
        "{\"id\":8,\"title\":\"A \\\"quoted\\\" title\",\"author\":\"Some\\\\One\",\"year\":1999}"
    );
}
