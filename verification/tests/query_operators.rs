use rustymail::query::parse_query_operators;

#[test]
fn auth_test_parse_query_simple_free_text() {
    let p = parse_query_operators("hello world");
    assert_eq!(p.free_text, "hello world");
    assert!(p.from.is_none());
    assert!(p.to.is_none());
    assert!(p.subject.is_none());
    assert!(!p.has_attachment);
    assert!(p.is_unread.is_none());
}

#[test]
fn auth_test_parse_query_from_operator() {
    let p = parse_query_operators("from:alice@example.com");
    assert_eq!(p.from, Some("alice@example.com".to_string()));
    assert!(p.free_text.is_empty());
}

#[test]
fn auth_test_parse_query_to_operator() {
    let p = parse_query_operators("to:bob@example.com");
    assert_eq!(p.to, Some("bob@example.com".to_string()));
    assert!(p.free_text.is_empty());
}

#[test]
fn auth_test_parse_query_subject_operator() {
    let p = parse_query_operators("subject:meeting");
    assert_eq!(p.subject, Some("meeting".to_string()));
    assert!(p.free_text.is_empty());
}

#[test]
fn auth_test_parse_query_quoted_values() {
    let p = parse_query_operators("from:\"Alice Doe\"");
    assert_eq!(p.from, Some("Alice Doe".to_string()));
}

#[test]
fn auth_test_parse_query_has_attachment() {
    let p = parse_query_operators("has:attachment");
    assert!(p.has_attachment);
    assert!(p.free_text.is_empty());
}

#[test]
fn auth_test_parse_query_is_unread() {
    let p = parse_query_operators("is:unread");
    assert_eq!(p.is_unread, Some(true));
}

#[test]
fn auth_test_parse_query_is_read() {
    let p = parse_query_operators("is:read");
    assert_eq!(p.is_unread, Some(false));
}

#[test]
fn auth_test_parse_query_mixed_operators() {
    let p = parse_query_operators("from:alice subject:meeting hello");
    assert_eq!(p.from, Some("alice".to_string()));
    assert_eq!(p.subject, Some("meeting".to_string()));
    assert_eq!(p.free_text, "hello");
}

#[test]
fn auth_test_parse_query_passthrough_operators() {
    let p = parse_query_operators("before:2024/01/01");
    assert!(p.free_text.contains("before:2024/01/01"));
    assert!(p.from.is_none());
}

#[test]
fn auth_test_parse_query_has_link_passthrough() {
    let p = parse_query_operators("has:link");
    assert!(p.free_text.contains("has:link"));
}

#[test]
fn auth_test_parse_query_empty_operator_value() {
    let p = parse_query_operators("from: something");
    assert!(p.from.is_none());
    assert_eq!(p.free_text, "something");
}

#[test]
fn search_test_parse_query_simple_free_text() {
    let p = parse_query_operators("hello world");
    assert_eq!(p.free_text, "hello world");
    assert!(p.from.is_none());
    assert!(p.to.is_none());
    assert!(p.subject.is_none());
    assert!(!p.has_attachment);
    assert!(p.is_unread.is_none());
}

#[test]
fn search_test_parse_query_from_operator() {
    let p = parse_query_operators("from:alice@example.com");
    assert_eq!(p.from, Some("alice@example.com".to_string()));
    assert!(p.free_text.is_empty());
}

#[test]
fn search_test_parse_query_to_operator() {
    let p = parse_query_operators("to:bob@example.com");
    assert_eq!(p.to, Some("bob@example.com".to_string()));
    assert!(p.free_text.is_empty());
}

#[test]
fn search_test_parse_query_subject_operator() {
    let p = parse_query_operators("subject:meeting");
    assert_eq!(p.subject, Some("meeting".to_string()));
    assert!(p.free_text.is_empty());
}

#[test]
fn search_test_parse_query_quoted_values() {
    let p = parse_query_operators("from:\"Alice Doe\"");
    assert_eq!(p.from, Some("Alice Doe".to_string()));
}

#[test]
fn search_test_parse_query_has_attachment() {
    let p = parse_query_operators("has:attachment");
    assert!(p.has_attachment);
    assert!(p.free_text.is_empty());
}

#[test]
fn search_test_parse_query_is_unread() {
    let p = parse_query_operators("is:unread");
    assert_eq!(p.is_unread, Some(true));
}

#[test]
fn search_test_parse_query_is_read() {
    let p = parse_query_operators("is:read");
    assert_eq!(p.is_unread, Some(false));
}

#[test]
fn search_test_parse_query_mixed_operators() {
    let p = parse_query_operators("from:alice subject:meeting hello");
    assert_eq!(p.from, Some("alice".to_string()));
    assert_eq!(p.subject, Some("meeting".to_string()));
    assert_eq!(p.free_text, "hello");
}

#[test]
fn search_test_parse_query_passthrough_operators() {
    let p = parse_query_operators("before:2024/01/01");
    assert!(p.free_text.contains("before:2024/01/01"));
    assert!(p.from.is_none());
}

#[test]
fn search_test_parse_query_has_link_passthrough() {
    let p = parse_query_operators("has:link");
    assert!(p.free_text.contains("has:link"));
}

#[test]
fn search_test_parse_query_empty_operator_value() {
    let p = parse_query_operators("from: something");
    assert!(p.from.is_none());
    assert_eq!(p.free_text, "something");
}

#[test]
fn quote_free_query_reads_its_words() {
    let p = parse_query_operators("  from:alice has:attachment hello   world from:bob from: ");
    assert_eq!(p.from.as_deref(), Some("bob"));
    assert!(p.has_attachment);
    assert_eq!(p.free_text, "hello world");
    let q = parse_query_operators("has:attachments report");
    assert!(!q.has_attachment);
    assert_eq!(q.free_text, "has:attachments report");
}
