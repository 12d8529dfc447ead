use http_server::http::{QueryString, QueryStringValue};

fn single<'a>(query: &'a QueryString<'a>, key: &str) -> &'a str {
    match query.get(key) {
        Some(QueryStringValue::Single(value)) => value,
        other => panic!("{:?} is not a single value", other),
    }
}

fn multiple<'a>(query: &'a QueryString<'a>, key: &str) -> Vec<&'a str> {
    match query.get(key) {
        Some(QueryStringValue::Multiple(values)) => values.clone(),
        other => panic!("{:?} is not a multiple value", other),
    }
}

#[test]
fn key_that_occurs_once_is_single() {
    let query = QueryString::build("a=1&b=2&c=3");
    assert_eq!(single(&query, "a"), "1");
    assert_eq!(single(&query, "b"), "2");
    assert_eq!(single(&query, "c"), "3");
}

#[test]
fn repeated_key_keeps_the_order_of_the_text() {
    let query = QueryString::build("k=a&k=b&k=c&k=a");
    assert_eq!(multiple(&query, "k"), vec!["a", "b", "c", "a"]);
}

#[test]
fn second_occurrence_turns_single_into_two() {
    let query = QueryString::build("x=1&x=2");
    assert_eq!(multiple(&query, "x"), vec!["1", "2"]);
}

#[test]
fn keys_between_each_other_do_not_mix() {
    let query = QueryString::build("a=1&b=2&a=3&c=4&b=5&a=6");
    assert_eq!(multiple(&query, "a"), vec!["1", "3", "6"]);
    assert_eq!(multiple(&query, "b"), vec!["2", "5"]);
    assert_eq!(single(&query, "c"), "4");
}

#[test]
fn segment_without_equals_has_the_empty_value() {
    let query = QueryString::build("flag&a=1");
    assert_eq!(single(&query, "flag"), "");
    assert_eq!(single(&query, "a"), "1");
    let query = QueryString::build("flag");
    assert_eq!(single(&query, "flag"), "");
    let query = QueryString::build("flag&flag");
    assert_eq!(multiple(&query, "flag"), vec!["", ""]);
    let query = QueryString::build("flag&flag=on");
    assert_eq!(multiple(&query, "flag"), vec!["", "on"]);
}

#[test]
fn empty_text_is_the_empty_key_with_the_empty_value() {
    let query = QueryString::build("");
    assert_eq!(single(&query, ""), "");
    assert!(query.get("a").is_none());
}

#[test]
fn separators_alone_give_empty_segments() {
    let query = QueryString::build("&");
    assert_eq!(multiple(&query, ""), vec!["", ""]);
    let query = QueryString::build("&&");
    assert_eq!(multiple(&query, ""), vec!["", "", ""]);
    let query = QueryString::build("a=1&&b=2");
    assert_eq!(single(&query, "a"), "1");
    assert_eq!(single(&query, ""), "");
    assert_eq!(single(&query, "b"), "2");
    let query = QueryString::build("a=1&");
    assert_eq!(single(&query, "a"), "1");
    assert_eq!(single(&query, ""), "");
}

#[test]
fn value_is_all_that_follows_the_first_equals() {
    let query = QueryString::build("a=b=c&d==&=e&=");
    assert_eq!(single(&query, "a"), "b=c");
    assert_eq!(single(&query, "d"), "=");
    assert_eq!(multiple(&query, ""), vec!["e", ""]);
}

#[test]
fn key_with_empty_value() {
    let query = QueryString::build("a=&b");
    assert_eq!(single(&query, "a"), "");
    assert_eq!(single(&query, "b"), "");
}

#[test]
fn absent_key_is_absent() {
    let query = QueryString::build("a=1&b=2");
    assert!(query.get("c").is_none());
    assert!(query.get("").is_none());
    assert!(query.get("a=1").is_none());
    assert!(query.get("A").is_none());
}

#[test]
fn keys_and_values_are_not_decoded() {
    let query = QueryString::build("a%20b=c+d&e=%26");
    assert_eq!(single(&query, "a%20b"), "c+d");
    assert_eq!(single(&query, "e"), "%26");
}

#[test]
fn keys_outside_ascii() {
    let query = QueryString::build("\u{e9}=1&\u{e8}=2&\u{e9}=\u{4e2d}");
    assert_eq!(multiple(&query, "\u{e9}"), vec!["1", "\u{4e2d}"]);
    assert_eq!(single(&query, "\u{e8}"), "2");
}

#[test]
fn from_is_build() {
    let query = QueryString::from("x=1&y&x=2");
    assert_eq!(multiple(&query, "x"), vec!["1", "2"]);
    assert_eq!(single(&query, "y"), "");
}

#[test]
fn multiple_value_has_at_least_two_values() {
    for raw in ["", "a", "a&a", "a=1&b=2&a=3", "&&&", "k=v&k=v&k=v"] {
        let query = QueryString::build(raw);
        for key in ["", "a", "b", "k"] {
            if let Some(QueryStringValue::Multiple(values)) = query.get(key) {
                assert!(values.len() >= 2);
            }
        }
    }
}

#[test]
fn bytes_inside_a_character_are_no_delimiters() {
    // U+0126 is encoded as C4 A6 and U+013D as C4 BD: neither holds the
    // byte of `&` (26) or of `=` (3D).
    let query = QueryString::build("\u{126}=\u{13d}&\u{13d}");
    assert_eq!(single(&query, "\u{126}"), "\u{13d}");
    assert_eq!(single(&query, "\u{13d}"), "");
}
