use rustymail::numbers::{
    epoch_from_clock, now_epoch, now_secs, parse_i32, parse_i64, parse_u64, secs_from_clock,
};
use rustymail::records::{
    action_counts_sql, action_items_query, attachment_from_row, feed_page, label_from_row,
    message_from_row, setting_value, LabelRow, MessageRow,
};
use rustymail::summary::{clean_summary, require_ready, summary_prompt, EngineStatus, LlmEngine};
use rustymail::thread_queries::{
    archive_change, available_superstars, category_fetch, importance_change, read_change,
    star_change, thread_query,
};
use rustymail::threads::{
    page_token_key, text_or, text_or_empty, thread_from_row, threads_from_rows, ThreadCategory,
    ThreadRow,
};

fn strings(v: &[&str]) -> Vec<String> {
    v.iter().map(|s| s.to_string()).collect()
}

fn thread_row(id: &str) -> ThreadRow {
    ThreadRow {
        id: id.to_string(),
        snippet: None,
        history_id: Some("h1".to_string()),
        unread: None,
        sender: Some("Alice <alice@x.org>".to_string()),
        subject: None,
        msg_date: Some(123),
        starred: Some(1),
        star_type: Some("RED_STAR".to_string()),
        has_attachments: Some(0),
        important: None,
        account_id: "acc1".to_string(),
    }
}

#[test]
fn categories_by_name() {
    assert_eq!(ThreadCategory::from_str("Promotions"), Some(ThreadCategory::Promotions));
    assert_eq!(ThreadCategory::from_str("PRIMARY"), Some(ThreadCategory::Primary));
    assert_eq!(ThreadCategory::from_str("updates"), None);
    assert_eq!(ThreadCategory::Social.name(), "social");
}

#[test]
fn thread_rows_become_list_entries() {
    let t = thread_from_row(thread_row("t1"));
    assert_eq!(t.id, "t1");
    assert_eq!(t.snippet, "");
    assert_eq!(t.history_id, "h1");
    assert_eq!(t.unread, 0);
    assert_eq!(t.sender, "Alice");
    assert_eq!(t.subject, "No Subject");
    assert_eq!(t.internal_date, 123);
    assert!(t.starred);
    assert_eq!(t.star_type, Some("RED_STAR".to_string()));
    assert!(!t.has_attachments);
    assert!(!t.important);
    let all = threads_from_rows(vec![thread_row("a"), thread_row("b"), thread_row("c")]);
    let ids: Vec<&str> = all.iter().map(|t| t.id.as_str()).collect();
    assert_eq!(ids, vec!["a", "b", "c"]);
    assert_eq!(text_or_empty(None), "");
    assert_eq!(text_or(None, "dflt"), "dflt");
    assert_eq!(text_or(Some("x".to_string()), "dflt"), "x");
}

#[test]
fn paging_token_keys() {
    assert_eq!(page_token_key("acc", None, None), "acc:INBOX");
    assert_eq!(page_token_key("acc", Some("SENT"), None), "acc:SENT");
    assert_eq!(
        page_token_key("acc", Some("SENT"), Some(ThreadCategory::Important)),
        "acc:category:important"
    );
}

#[test]
fn thread_count_query_for_one_account() {
    let q = thread_query(false, true, &strings(&["acc"]), &None, None);
    assert_eq!(
        q.sql,
        "SELECT COUNT(DISTINCT t.id) FROM threads t WHERE t.account_id = ? AND t.metadata_synced = 1"
    );
    assert_eq!(q.binds, strings(&["acc"]));
}

#[test]
fn thread_list_query_with_label_and_accounts() {
    let q = thread_query(true, false, &strings(&["a", "b"]), &Some("L1".to_string()), None);
    assert!(q.sql.starts_with("SELECT t.id, t.snippet"));
    assert!(q.sql.contains(" INNER JOIN thread_labels tl ON t.id = tl.thread_id AND tl.label_id = ? WHERE t.account_id IN (?, ?) AND t.metadata_synced = 1"));
    assert!(q.sql.ends_with(" ORDER BY COALESCE(t.latest_date, 0) DESC, t.rowid DESC LIMIT ? OFFSET ?"));
    assert_eq!(q.binds, strings(&["L1", "a", "b"]));
}

#[test]
fn primary_category_query_excludes_social_and_promotions() {
    let q = thread_query(false, true, &strings(&["acc"]), &Some("L1".to_string()), Some(ThreadCategory::Primary));
    assert!(q.sql.contains("tl_inbox.label_id = 'INBOX'"));
    assert!(q.sql.ends_with(" AND tl_social.thread_id IS NULL AND tl_promo.thread_id IS NULL"));
    assert_eq!(q.binds, strings(&["acc"]));
}

#[test]
fn category_fetches() {
    let f = category_fetch("acc", "Social").unwrap();
    assert_eq!(f.label_id, "INBOX");
    assert_eq!(f.query, Some("category:social".to_string()));
    assert_eq!(f.token_key, "acc:category:social");
    let f = category_fetch("acc", "important").unwrap();
    assert_eq!(f.label_id, "IMPORTANT");
    assert!(f.query.is_none());
    assert_eq!(category_fetch("acc", "Updates").unwrap_err(), "Unknown category: Updates");
}

#[test]
fn star_and_label_changes() {
    let existing = strings(&["RED_STAR", "BLUE_STAR"]);
    let c = star_change(&existing, &Some("BLUE_STAR".to_string()));
    assert_eq!(c.add, strings(&["STARRED", "BLUE_STAR"]));
    assert_eq!(c.remove, strings(&["RED_STAR"]));
    let c = star_change(&existing, &None);
    assert!(c.add.is_empty());
    assert_eq!(c.remove, strings(&["RED_STAR", "BLUE_STAR", "STARRED"]));
    let r = read_change(true);
    assert!(r.add.is_empty());
    assert_eq!(r.remove, strings(&["UNREAD"]));
    assert_eq!(read_change(false).add, strings(&["UNREAD"]));
    assert_eq!(importance_change(true).add, strings(&["IMPORTANT"]));
    assert_eq!(importance_change(false).remove, strings(&["IMPORTANT"]));
    assert_eq!(archive_change().remove, strings(&["INBOX"]));
    assert_eq!(
        available_superstars(&strings(&["BLUE_STAR", "X", "YELLOW_STAR", "RED_CIRCLE"])),
        strings(&["YELLOW_STAR", "BLUE_STAR", "RED_CIRCLE"])
    );
}

#[test]
fn label_message_and_attachment_rows() {
    let l = label_from_row(LabelRow {
        id: "L".to_string(),
        name: None,
        label_type: Some("user".to_string()),
        unread_count: Some(3),
        threads_total: None,
        threads_unread: None,
        bg_color: None,
        text_color: Some("#fff".to_string()),
    });
    assert_eq!(l.name, "");
    assert_eq!(l.label_type, "user");
    assert_eq!(l.unread_count, 3);
    assert_eq!(l.threads_total, 0);
    assert_eq!(l.text_color, Some("#fff".to_string()));
    let m = message_from_row(MessageRow {
        id: "m1".to_string(),
        thread_id: Some("t1".to_string()),
        sender: None,
        recipients: None,
        subject: Some("S".to_string()),
        snippet: None,
        internal_date: None,
        body_html: None,
        body_plain: Some("plain".to_string()),
        is_draft: false,
        has_attachments: true,
    });
    assert_eq!(m.thread_id, "t1");
    assert_eq!(m.sender, "");
    assert_eq!(m.internal_date, 0);
    assert_eq!(m.body_plain, "plain");
    assert!(m.has_attachments);
    let a = attachment_from_row("a1".to_string(), "m1".to_string(), None, Some("image/png".to_string()), None);
    assert_eq!(a.filename, "");
    assert_eq!(a.mime_type, "image/png");
    assert_eq!(a.size, 0);
    assert_eq!(setting_value(None), "");
    assert_eq!(setting_value(Some("v".to_string())), "v");
    assert_eq!(feed_page(None, None), (0, 50));
    assert_eq!(feed_page(Some(10), Some(5)), (10, 5));
}

#[test]
fn action_item_queries() {
    assert_eq!(
        action_counts_sql(3),
        "SELECT thread_id, COUNT(*) as count FROM action_items WHERE status = 'pending' AND thread_id IN (?1,?2,?3) GROUP BY thread_id"
    );
    let (sql, binds) = action_items_query(&Some("acc".to_string()), &None, Some(-5));
    assert!(sql.ends_with(" WHERE 1=1 AND a.account_id = ? ORDER BY a.created_at DESC LIMIT -5"));
    assert_eq!(binds, strings(&["acc"]));
    let (sql, binds) = action_items_query(&None, &Some("pending".to_string()), None);
    assert!(sql.ends_with(" WHERE 1=1 AND a.status = ? ORDER BY a.created_at DESC"));
    assert_eq!(binds, strings(&["pending"]));
}

#[test]
fn numbers_parse_like_std() {
    assert_eq!(parse_i64("-42"), Some(-42));
    assert_eq!(parse_i64("+7"), Some(7));
    assert_eq!(parse_i64("9223372036854775807"), Some(i64::MAX));
    assert_eq!(parse_i64("9223372036854775808"), None);
    assert_eq!(parse_i64("-9223372036854775808"), Some(i64::MIN));
    assert_eq!(parse_i64(""), None);
    assert_eq!(parse_i64("-"), None);
    assert_eq!(parse_i64("1 2"), None);
    assert_eq!(parse_i32("2147483648"), None);
    assert_eq!(parse_i32("-2147483648"), Some(i32::MIN));
    assert_eq!(parse_u64("18446744073709551615"), Some(u64::MAX));
    assert_eq!(parse_u64("-1"), None);
    for s in ["0", "12", "+3", "-3", "x", "99999999999999999999"] {
        assert_eq!(parse_i64(s), s.parse::<i64>().ok());
        assert_eq!(parse_u64(s), s.parse::<u64>().ok());
    }
}

#[test]
fn clock_is_after_epoch() {
    assert!(now_epoch() > 1_600_000_000);
    assert!(now_secs().unwrap() > 1_600_000_000);
}

#[test]
fn summary_needs_ready_model() {
    assert_eq!(
        require_ready(&EngineStatus::Uninitialized),
        Err("No model loaded. Download and load a model in Settings > AI.".to_string())
    );
    assert!(require_ready(&EngineStatus::Loading { model_id: "m".to_string() }).is_err());
    assert_eq!(
        require_ready(&EngineStatus::Ready { model_id: "m".to_string(), model_size_bytes: 1 }),
        Ok(())
    );
}

#[test]
fn summary_prompt_text() {
    assert_eq!(summary_prompt(&Vec::new()), Err("No messages in thread".to_string()));
    let p = summary_prompt(&vec![("Ann".to_string(), "Hello".to_string())]).unwrap();
    assert_eq!(
        p,
        "<start_of_turn>user\nSummarize the following email thread in 2-3 concise sentences. Focus on key points, decisions, and action items.\n\nFrom: Ann\n---\nHello\n\n<end_of_turn>\n<start_of_turn>model\n"
    );
    let long = "a".repeat(2500);
    let p = summary_prompt(&vec![("B".to_string(), long)]).unwrap();
    assert!(p.contains(&format!("---\n{}\n\n", "a".repeat(2000))));
    assert!(!p.contains(&"a".repeat(2001)));
    assert_eq!(clean_summary("  The gist.\n"), "The gist.");
}

fn marks(s: &str) -> usize {
    s.matches('?').count()
}

#[test]
fn queries_bind_every_placeholder() {
    let accounts = strings(&["a", "b", "c"]);
    for category in [None, Some(ThreadCategory::Primary), Some(ThreadCategory::Social), Some(ThreadCategory::Important)] {
        for label in [None, Some("L".to_string())] {
            let q = thread_query(true, false, &accounts, &label, category);
            assert_eq!(marks(&q.sql), q.binds.len() + 2);
            let q = thread_query(false, true, &strings(&["a"]), &label, category);
            assert_eq!(marks(&q.sql), q.binds.len());
        }
    }
    assert_eq!(marks(&action_counts_sql(12)), 12);
    let (sql, binds) = action_items_query(&Some("a".to_string()), &Some("s".to_string()), Some(3));
    assert_eq!(marks(&sql), binds.len());
}

#[test]
fn clock_readings() {
    assert_eq!(secs_from_clock(Ok(1_700_000_000)), Ok(1_700_000_000));
    assert_eq!(secs_from_clock(Ok(u64::MAX)), Ok(i64::MAX));
    assert_eq!(secs_from_clock(Err("before epoch".to_string())), Err("before epoch".to_string()));
    assert_eq!(epoch_from_clock(Ok(42)), 42);
    assert_eq!(epoch_from_clock(Ok(u64::MAX)), i64::MAX);
    assert_eq!(epoch_from_clock(Err("before epoch".to_string())), 0);
}

#[test]
fn category_names_ignore_case() {
    for name in ["primary", "social", "promotions", "important"] {
        let upper = name.to_uppercase();
        assert_eq!(ThreadCategory::from_str(&upper), ThreadCategory::from_str(name));
        assert!(ThreadCategory::from_str(name).is_some());
        assert_eq!(ThreadCategory::from_str(name).unwrap().name(), name);
    }
    assert_eq!(ThreadCategory::from_str("Inbox"), None);
}

#[test]
fn engine_loads_generates_and_unloads() {
    let mut engine = LlmEngine::new();
    assert!(matches!(engine.get_status(), EngineStatus::Uninitialized));
    assert!(require_ready(&engine.get_status()).is_err());
    assert_eq!(engine.generate("x"), Err("No model loaded".to_string()));
    assert_eq!(
        engine.load_model("m.gguf", "/models/m.gguf", false, None),
        Err("Model file not found: /models/m.gguf".to_string())
    );
    assert!(matches!(engine.get_status(), EngineStatus::Uninitialized));
    assert_eq!(engine.load_model("m.gguf", "/models/m.gguf", true, Some(42)), Ok(()));
    match engine.get_status() {
        EngineStatus::Ready { model_id, model_size_bytes } => {
            assert_eq!(model_id, "m.gguf");
            assert_eq!(model_size_bytes, 42);
        }
        other => panic!("unexpected status {:?}", other),
    }
    assert!(require_ready(&engine.get_status()).is_ok());
    assert!(engine.generate("summarize").unwrap().starts_with("Summary placeholder"));
    engine.load_model("n.gguf", "/models/n.gguf", true, None).unwrap();
    assert!(matches!(engine.get_status(), EngineStatus::Ready { model_size_bytes: 0, .. }));
    engine.unload();
    assert!(matches!(engine.get_status(), EngineStatus::Uninitialized));
    assert!(engine.generate("x").is_err());
}
