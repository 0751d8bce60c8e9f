use rustymail::sender::clean_sender_name;

#[test]
fn auth_test_clean_sender_name() {
    assert_eq!(
        clean_sender_name(Some("John Doe <john@example.com>".to_string())),
        "John Doe"
    );
    assert_eq!(
        clean_sender_name(Some("<only-email@example.com>".to_string())),
        "only-email@example.com"
    );
    assert_eq!(
        clean_sender_name(Some("\"John Doe\" <john@example.com>".to_string())),
        "John Doe"
    );
    assert_eq!(clean_sender_name(None), "Unknown Sender");
}

#[test]
fn auth_test_clean_sender_name_empty_string() {
    assert_eq!(clean_sender_name(Some("".to_string())), "");
}

#[test]
fn auth_test_clean_sender_name_whitespace_only() {
    assert_eq!(clean_sender_name(Some("   ".to_string())), "   ");
}

#[test]
fn auth_test_clean_sender_name_multiple_brackets() {
    assert_eq!(
        clean_sender_name(Some("Name <email> <extra>".to_string())),
        "Name"
    );
}

#[test]
fn auth_test_clean_sender_name_no_brackets() {
    assert_eq!(
        clean_sender_name(Some("just-a-name".to_string())),
        "just-a-name"
    );
}

#[test]
fn threads_test_clean_sender_name() {
    assert_eq!(
        clean_sender_name(Some("John Doe <john@example.com>".to_string())),
        "John Doe"
    );
    assert_eq!(
        clean_sender_name(Some("<only-email@example.com>".to_string())),
        "only-email@example.com"
    );
    assert_eq!(
        clean_sender_name(Some("\"John Doe\" <john@example.com>".to_string())),
        "John Doe"
    );
    assert_eq!(clean_sender_name(None), "Unknown Sender");
}

#[test]
fn threads_test_clean_sender_name_empty_string() {
    assert_eq!(clean_sender_name(Some("".to_string())), "");
}

#[test]
fn threads_test_clean_sender_name_whitespace_only() {
    assert_eq!(clean_sender_name(Some("   ".to_string())), "   ");
}

#[test]
fn threads_test_clean_sender_name_multiple_brackets() {
    assert_eq!(
        clean_sender_name(Some("Name <email> <extra>".to_string())),
        "Name"
    );
}

#[test]
fn threads_test_clean_sender_name_no_brackets() {
    assert_eq!(
        clean_sender_name(Some("just-a-name".to_string())),
        "just-a-name"
    );
}
