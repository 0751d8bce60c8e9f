use rustymail::query::parse_query_operators;
use rustymail::search::{
    append_new_ids, general_suggestions, like_pattern, plan_local_search, recent_suggestions,
    recipient_suggestions, record_recent_search, sender_suggestions, subject_suggestions,
    suggestion_source, wants_lookups, SuggestionSource,
};

fn strings(v: &[&str]) -> Vec<String> {
    v.iter().map(|s| s.to_string()).collect()
}

#[test]
fn like_pattern_wraps_in_percent() {
    assert_eq!(like_pattern("bob"), "%bob%");
    assert_eq!(like_pattern(""), "%%");
}

#[test]
fn suggestion_source_by_operator() {
    let op = |s: &str| Some(s.to_string());
    assert_eq!(suggestion_source(&op("from"), "al"), SuggestionSource::Senders);
    assert_eq!(suggestion_source(&op("to"), "al"), SuggestionSource::Recipients);
    assert_eq!(suggestion_source(&op("subject"), "al"), SuggestionSource::Subjects);
    assert_eq!(suggestion_source(&op("from"), ""), SuggestionSource::Nothing);
    assert_eq!(suggestion_source(&op("has"), "x"), SuggestionSource::General);
    assert_eq!(suggestion_source(&None, "x"), SuggestionSource::General);
    assert!(wants_lookups("ab"));
    assert!(!wants_lookups("a"));
}

#[test]
fn sender_and_subject_suggestions() {
    let s = sender_suggestions(&strings(&["Alice <alice@x.org>", "bob@x.org"]));
    assert_eq!(s.len(), 2);
    assert_eq!(s[0].kind, "contact");
    assert_eq!(s[0].text, "Alice");
    assert_eq!(s[0].detail, "Alice <alice@x.org>");
    assert_eq!(s[1].text, "bob@x.org");
    let t = subject_suggestions(&strings(&["Lunch"]));
    assert_eq!(t[0].kind, "subject");
    assert_eq!(t[0].text, "Lunch");
    assert_eq!(t[0].detail, "");
}

#[test]
fn recipient_suggestions_split_and_dedup() {
    let rows = strings(&[
        "Alice <alice@x.org>, bob@y.org",
        "alice <alice@x.org>,Alice <alice@x.org>",
        "carol@z.org",
    ]);
    let s = recipient_suggestions(&rows, "ALICE");
    assert_eq!(s.len(), 2);
    assert_eq!(s[0].text, "Alice");
    assert_eq!(s[0].detail, "Alice <alice@x.org>");
    assert_eq!(s[1].text, "alice");
    let many: Vec<String> = (0..12).map(|i| format!("user{}@x.org", i)).collect();
    assert_eq!(recipient_suggestions(&many, "user").len(), 8);
}

#[test]
fn recent_suggestions_filter_first_five() {
    let stored = Some("[\"Rust\",\"lunch\",\"trust fund\",\"a\",\"b\",\"rusty\"]".to_string());
    let s = recent_suggestions(&stored, "rust");
    assert_eq!(s.len(), 2);
    assert_eq!(s[0].text, "Rust");
    assert_eq!(s[0].kind, "recent");
    assert_eq!(s[0].detail, "Recent search");
    assert_eq!(s[1].text, "trust fund");
    assert_eq!(recent_suggestions(&stored, "").len(), 5);
    assert!(recent_suggestions(&None, "").is_empty());
    assert!(recent_suggestions(&Some("oops".to_string()), "").is_empty());
}

#[test]
fn general_suggestions_complete_queries() {
    let s = general_suggestions(&strings(&["Ann <ann@x.org>"]), &strings(&["Report"]));
    assert_eq!(s.len(), 2);
    assert_eq!(s[0].text, "from:Ann");
    assert_eq!(s[0].detail, "Ann <ann@x.org>");
    assert_eq!(s[1].kind, "subject");
    assert_eq!(s[1].text, "subject:Report");
}

#[test]
fn recent_search_list_puts_query_first() {
    let r = record_recent_search(&None, "hello");
    assert_eq!(r, "[\"hello\"]");
    let r = record_recent_search(&Some("[\"a\",\"hello\",\"b\"]".to_string()), "hello");
    assert_eq!(r, "[\"hello\",\"a\",\"b\"]");
    let stored: Vec<String> = (0..10).map(|i| format!("q{}", i)).collect();
    let stored = serde_json::to_string(&stored).unwrap();
    let r = record_recent_search(&Some(stored), "new");
    let list: Vec<String> = serde_json::from_str(&r).unwrap();
    assert_eq!(list.len(), 10);
    assert_eq!(list[0], "new");
    assert_eq!(list[9], "q8");
}

#[test]
fn local_search_plan_with_operators() {
    let parsed = parse_query_operators("from:bob is:unread has:attachment report");
    let plan = plan_local_search(&parsed, "acc1");
    let (sql, binds) = plan.operator_query.unwrap();
    assert_eq!(
        sql,
        "SELECT DISTINCT m.thread_id FROM messages m WHERE m.account_id = ? AND m.sender LIKE ? AND m.has_attachments = 1 AND m.is_read = ? LIMIT 50"
    );
    assert_eq!(binds, vec!["acc1", "%bob%", "0"]);
    let (fts, like) = plan.free_text.unwrap();
    assert_eq!(fts, "report*");
    assert_eq!(like, "%report%");
}

#[test]
fn local_search_plan_free_text_only() {
    let parsed = parse_query_operators("hello");
    let plan = plan_local_search(&parsed, "acc1");
    assert!(plan.operator_query.is_none());
    assert_eq!(plan.free_text.unwrap().0, "hello*");
    let plan = plan_local_search(&parse_query_operators(""), "acc1");
    assert!(plan.operator_query.is_none());
    assert!(plan.free_text.is_none());
}

#[test]
fn appended_ids_are_new_and_ordered() {
    let mut all = strings(&["t1", "t2"]);
    append_new_ids(
        &mut all,
        vec![Some("t2".to_string()), None, Some("t3".to_string()), Some("t3".to_string()), Some("t4".to_string())],
    );
    assert_eq!(all, strings(&["t1", "t2", "t3", "t4"]));
}

#[test]
fn search_plan_binds_every_placeholder() {
    for q in ["from:a to:b subject:c has:attachment is:read x", "is:unread", "to:x", "plain"] {
        let plan = plan_local_search(&parse_query_operators(q), "acc");
        if let Some((sql, binds)) = plan.operator_query {
            assert_eq!(sql.matches('?').count(), binds.len());
        }
    }
}
