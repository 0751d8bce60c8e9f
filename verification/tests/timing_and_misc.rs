use rustymail::misc::{
    decimal_string, is_log_file, new_template, numbered_file_name, recent_log_lines,
    report_windows, should_record_trackers, template_id, template_update_result, tracker_sender,
};
use rustymail::timing::{
    check_mute_until, check_send_at, check_snooze_until, is_muted_at, mute_is_over,
    remove_after_attempt, send_route, sender_or_default, snooze_is_over, subject_or_default,
    tally_batch, SendRoute,
};

#[test]
fn mute_until_must_be_in_future() {
    assert_eq!(check_mute_until(None, 100), Ok(()));
    assert_eq!(check_mute_until(Some(101), 100), Ok(()));
    assert_eq!(
        check_mute_until(Some(100), 100),
        Err("muted_until must be in the future".to_string())
    );
}

#[test]
fn snooze_and_send_times_must_be_in_future() {
    assert_eq!(check_snooze_until(101, 100), Ok(()));
    assert_eq!(
        check_snooze_until(50, 100),
        Err("snoozed_until must be in the future".to_string())
    );
    assert_eq!(check_send_at(101, 100), Ok(()));
    assert_eq!(
        check_send_at(100, 100),
        Err("Scheduled time must be in the future".to_string())
    );
}

#[test]
fn accepted_mute_holds_until_it_ends() {
    let until = Some(200);
    assert_eq!(check_mute_until(until, 100), Ok(()));
    assert!(is_muted_at(until, 100));
    assert!(!mute_is_over(until, 100));
    assert!(!is_muted_at(until, 200));
    assert!(mute_is_over(until, 200));
    assert!(is_muted_at(None, 1_000_000));
    assert!(!mute_is_over(None, 1_000_000));
    assert!(snooze_is_over(100, 100));
    assert!(!snooze_is_over(101, 100));
}

#[test]
fn scheduled_send_routes() {
    assert_eq!(send_route("imap"), SendRoute::Smtp);
    assert_eq!(send_route("outlook"), SendRoute::OutlookDraft);
    assert_eq!(send_route("gmail"), SendRoute::GmailDraft);
    assert_eq!(send_route(""), SendRoute::GmailDraft);
    assert!(remove_after_attempt(true, "imap"));
    assert!(remove_after_attempt(false, "gmail"));
    assert!(!remove_after_attempt(false, "outlook"));
}

#[test]
fn batch_tally_counts_in_order() {
    let outcomes = vec![
        ("t1".to_string(), true),
        ("t2".to_string(), false),
        ("t3".to_string(), true),
        ("t4".to_string(), false),
    ];
    let r = tally_batch(&outcomes);
    assert_eq!(r.succeeded, 2);
    assert_eq!(r.failed_ids, vec!["t2".to_string(), "t4".to_string()]);
    let r = tally_batch(&Vec::new());
    assert_eq!(r.succeeded, 0);
    assert!(r.failed_ids.is_empty());
}

#[test]
fn thread_display_defaults() {
    assert_eq!(subject_or_default(&None), "No Subject");
    assert_eq!(subject_or_default(&Some("Hi".to_string())), "Hi");
    assert_eq!(sender_or_default(&None), "Unknown Sender");
    assert_eq!(sender_or_default(&Some("a@b".to_string())), "a@b");
}

#[test]
fn log_files_and_tails() {
    assert!(is_log_file("rustymail.log"));
    assert!(is_log_file("rustymail.log.2024-01-01"));
    assert!(!is_log_file("other.log"));
    assert_eq!(recent_log_lines("a\nb\nc\nd", Some(2)), "c\nd");
    assert_eq!(recent_log_lines("a\nb", Some(5)), "a\nb");
    assert_eq!(recent_log_lines("a\nb", Some(0)), "");
    assert_eq!(recent_log_lines("", None), "");
    let many: Vec<String> = (0..250).map(|i| i.to_string()).collect();
    let tail = recent_log_lines(&many.join("\n"), None);
    assert!(tail.starts_with("50\n51\n"));
    assert!(tail.ends_with("\n249"));
}

#[test]
fn numbered_download_names() {
    assert_eq!(numbered_file_name("report.pdf", 1), "report (1).pdf");
    assert_eq!(numbered_file_name("archive.tar.gz", 12), "archive.tar (12).gz");
    assert_eq!(numbered_file_name("README", 3), "README (3)");
    assert_eq!(decimal_string(0), "0");
    assert_eq!(decimal_string(1234567890), "1234567890");
    assert_eq!(decimal_string(u64::MAX), "18446744073709551615");
}

#[test]
fn templates() {
    assert_eq!(template_id(1700000000, 42), "tmpl_1700000000_42");
    let t = new_template("id".to_string(), "n".to_string(), "s".to_string(), "<p>b</p>".to_string(), 9);
    assert_eq!(t.created_at, 9);
    assert_eq!(t.updated_at, 9);
    assert_eq!(t.body_html, "<p>b</p>");
    assert_eq!(template_update_result(1), Ok(()));
    assert_eq!(template_update_result(0), Err("Template not found".to_string()));
}

#[test]
fn privacy_report_parts() {
    assert_eq!(report_windows(10_000_000), (10_000_000 - 604_800, 10_000_000 - 2_592_000));
    let s = tracker_sender("a@x.org".to_string(), 3, None);
    assert_eq!(s.tracker_types, "");
    assert_eq!(s.tracker_count, 3);
    let s = tracker_sender("a@x.org".to_string(), 3, Some("pixel".to_string()));
    assert_eq!(s.tracker_types, "pixel");
    assert!(should_record_trackers(2, false));
    assert!(!should_record_trackers(0, false));
    assert!(!should_record_trackers(2, true));
}
