use rustymail::subscriptions::{
    collect_message_ids, corrected_status, enrichment_supported, from_header, local_progress_due,
    outlook_next_skip, outlook_sender, page_size, remote_progress_due, scan_depth,
    subscription_record, subscriptions_query, unsubscribe_after_open, unsubscribe_after_post,
    unsubscribe_start, Detection, SubscriptionScan, UnsubscribeStep, UnsubscribeTarget,
};

fn detection(sender: &str, is_sub: bool) -> Detection {
    Detection {
        is_subscription: is_sub,
        sender_email: sender.to_string(),
        sender_name: Some("News".to_string()),
        methods: vec!["list-unsubscribe".to_string(), "precedence".to_string()],
        details: None,
        unsubscribe_url: Some("https://x.org/u".to_string()),
        unsubscribe_mailto: None,
        supports_one_click: true,
    }
}

fn strings(v: &[&str]) -> Vec<String> {
    v.iter().map(|s| s.to_string()).collect()
}

#[test]
fn scan_depth_setting() {
    assert_eq!(scan_depth("1200"), 1200);
    assert_eq!(scan_depth("-3"), -3);
    assert_eq!(scan_depth("lots"), 500);
    assert_eq!(scan_depth("99999999999"), 500);
    assert_eq!(page_size(120), 120);
    assert_eq!(page_size(2000), 500);
}

#[test]
fn message_ids_stop_at_depth() {
    let mut ids = strings(&["a", "b"]);
    let next = collect_message_ids(&mut ids, strings(&["c"]), Some("p2".to_string()), 10);
    assert_eq!(next, Some("p2".to_string()));
    assert_eq!(ids.len(), 3);
    let next = collect_message_ids(&mut ids, strings(&["d", "e", "f"]), Some("p3".to_string()), 5);
    assert_eq!(next, None);
    assert_eq!(ids, strings(&["a", "b", "c", "d", "e"]));
    let mut few = Vec::new();
    assert_eq!(collect_message_ids(&mut few, strings(&["x"]), None, 5), None);
    assert_eq!(few, strings(&["x"]));
}

#[test]
fn outlook_paging_and_progress() {
    assert_eq!(outlook_next_skip(Some(50), 50, 500), Some(50));
    assert_eq!(outlook_next_skip(Some(550), 500, 500), None);
    assert_eq!(outlook_next_skip(None, 10, 500), None);
    assert!(remote_progress_due(200));
    assert!(!remote_progress_due(201));
    assert!(local_progress_due(50, 73));
    assert!(local_progress_due(73, 73));
    assert!(!local_progress_due(51, 73));
}

#[test]
fn sender_headers() {
    let headers = vec![
        ("To".to_string(), "me@x.org".to_string()),
        ("FROM".to_string(), "Shop <shop@y.org>".to_string()),
        ("From".to_string(), "second".to_string()),
    ];
    assert_eq!(from_header(&headers), "Shop <shop@y.org>");
    assert_eq!(from_header(&Vec::new()), "");
    assert_eq!(
        outlook_sender(&Some("Shop".to_string()), &Some("shop@y.org".to_string())),
        "Shop <shop@y.org>"
    );
    assert_eq!(outlook_sender(&None, &None), " <>");
    assert!(enrichment_supported(&None));
    assert!(enrichment_supported(&Some("gmail".to_string())));
    assert!(!enrichment_supported(&Some("outlook".to_string())));
}

#[test]
fn subscription_record_joins_methods() {
    let r = subscription_record("acc1", &detection("news@x.org", true), 77);
    assert_eq!(r.account_id, "acc1");
    assert_eq!(r.sender_email, "news@x.org");
    assert_eq!(r.detection_method, "list-unsubscribe, precedence");
    assert_eq!(r.supports_one_click, 1);
    assert_eq!(r.first_seen, 77);
    assert_eq!(r.last_seen, 77);
}

#[test]
fn scan_records_each_sender_once() {
    let mut scan = SubscriptionScan::new();
    scan.count_remote();
    assert!(scan.admit_remote(&detection("a@x.org", true)));
    scan.count_remote();
    assert!(!scan.admit_remote(&detection("a@x.org", true)));
    scan.count_remote();
    assert!(!scan.admit_remote(&detection("b@x.org", false)));
    scan.count_local();
    assert!(!scan.admit_local(&detection("a@x.org", true)));
    scan.count_local();
    assert!(scan.admit_local(&detection("c@x.org", true)));
    assert!(scan.store_pending);
    scan.record_local_store(Some(1));
    assert!(!scan.store_pending);
    scan.count_local();
    assert!(scan.admit_local(&detection("e@x.org", true)));
    scan.record_local_store(Some(0));
    assert!(scan.record_enrichment(&detection("d@x.org", true)));
    let r = scan.result();
    assert_eq!(r.messages_scanned, 6);
    assert_eq!(r.subscriptions_found, 2);
    assert_eq!(r.subscriptions_updated, 1);
    assert_eq!(r.enriched, 1);
    assert_eq!(scan.seen, strings(&["a@x.org", "c@x.org", "e@x.org"]));
    assert!(r.subscriptions_found + r.subscriptions_updated <= scan.seen.len() as i64);
}

#[test]
fn unsubscribe_steps() {
    match unsubscribe_start(&None) {
        UnsubscribeStep::Finish(f) => {
            assert_eq!(f.method, "none");
            assert_eq!(f.message, "Subscription not found");
            assert!(!f.success);
        }
        _ => panic!("expected an answer"),
    }
    let one_click = || UnsubscribeTarget {
        unsubscribe_url: Some("https://x.org/u".to_string()),
        unsubscribe_mailto: None,
        supports_one_click: 1,
    };
    let t = one_click();
    match unsubscribe_start(&Some(one_click())) {
        UnsubscribeStep::PostOneClick(u) => assert_eq!(u, "https://x.org/u"),
        _ => panic!("expected a one-click POST"),
    }
    match unsubscribe_after_post(&t, false) {
        UnsubscribeStep::OpenBrowser(u) => assert_eq!(u, "https://x.org/u"),
        _ => panic!("expected the browser"),
    }
    match unsubscribe_after_post(&t, true) {
        UnsubscribeStep::Finish(f) => {
            assert_eq!(f.method, "one_click");
            assert!(f.success);
            assert_eq!(f.message, "Successfully unsubscribed via one-click");
        }
        _ => panic!("expected an answer"),
    }
    let mailto = UnsubscribeTarget {
        unsubscribe_url: None,
        unsubscribe_mailto: Some("mailto:u@x.org".to_string()),
        supports_one_click: 1,
    };
    match unsubscribe_start(&Some(mailto)) {
        UnsubscribeStep::Finish(f) => {
            assert_eq!(f.method, "mailto");
            assert_eq!(f.message, "Mailto unsubscribe requires manual action");
        }
        _ => panic!("expected an answer"),
    }
    let nothing = UnsubscribeTarget { unsubscribe_url: None, unsubscribe_mailto: None, supports_one_click: 0 };
    match unsubscribe_start(&Some(nothing)) {
        UnsubscribeStep::Finish(f) => assert_eq!(f.message, "No unsubscribe method available"),
        _ => panic!("expected an answer"),
    }
    let r = unsubscribe_after_open(&Ok(()));
    assert!(r.success && r.opened_browser);
    assert_eq!(r.method, "https");
    let r = unsubscribe_after_open(&Err("denied".to_string()));
    assert!(!r.success);
    assert_eq!(r.message, "Failed to open URL: denied");
}

#[test]
fn subscription_listing_query() {
    assert_eq!(corrected_status(true), "active");
    assert_eq!(corrected_status(false), "ignored");
    let (sql, binds) = subscriptions_query(&Some("acc".to_string()), &Some("active".to_string()));
    assert!(sql.ends_with(" FROM subscriptions WHERE account_id = ? AND status = ?"));
    assert_eq!(binds, strings(&["acc", "active"]));
    let (sql, binds) = subscriptions_query(&None, &None);
    assert!(sql.ends_with(" FROM subscriptions"));
    assert!(binds.is_empty());
    let (sql, binds) = subscriptions_query(&None, &Some("ignored".to_string()));
    assert!(sql.ends_with(" WHERE status = ?"));
    assert_eq!(binds, strings(&["ignored"]));
}

#[test]
fn subscription_query_binds_every_placeholder() {
    let some = |s: &str| Some(s.to_string());
    for (a, s) in [(some("a"), some("s")), (some("a"), None), (None, some("s")), (None, None)] {
        let (sql, binds) = subscriptions_query(&a, &s);
        assert_eq!(sql.matches('?').count(), binds.len());
    }
}

#[test]
fn failed_local_store_counts_nothing() {
    let mut scan = SubscriptionScan::new();
    scan.count_local();
    assert!(scan.admit_local(&detection("z@x.org", true)));
    scan.record_local_store(None);
    let r = scan.result();
    assert_eq!(r.subscriptions_found, 0);
    assert_eq!(r.subscriptions_updated, 0);
    assert!(!scan.store_pending);
}
