use rustymail::accounts::{
    account_info, auth_status, cache_limit_mb, cache_over_limit, check_oauth_state,
    hydration_batch_size, parse_oauth_callback, plan_auth_check, prefetch_enabled,
    refresh_failure, refreshed_profile, sign_in_expiry, sign_in_profile, sync_target_label,
    token_needs_refresh, token_update, AccountRow, AuthNext,
};

fn row(id: &str, active: Option<i32>, expiry: Option<i64>) -> AccountRow {
    AccountRow {
        id: id.to_string(),
        email: Some(format!("{}@example.com", id)),
        display_name: None,
        avatar_url: None,
        token_expiry: expiry,
        is_active: active,
    }
}

#[test]
fn account_row_shows_missing_fields_as_empty() {
    let a = account_info(&row("a1", Some(1), None));
    assert_eq!(a.id, "a1");
    assert_eq!(a.email, "a1@example.com");
    assert_eq!(a.display_name, "");
    assert_eq!(a.avatar_url, "");
    assert!(a.is_active);
    assert!(!account_info(&row("a2", Some(0), None)).is_active);
    assert!(!account_info(&row("a3", None, None)).is_active);
}

#[test]
fn auth_check_without_accounts_is_signed_out() {
    let c = plan_auth_check(&Vec::new(), 1000);
    assert!(c.activate.is_none());
    match c.next {
        AuthNext::Ready(s) => {
            assert!(!s.authenticated);
            assert!(s.active_account.is_none());
            assert!(s.accounts.is_empty());
        }
        AuthNext::Refresh { .. } => panic!("no refresh without accounts"),
    }
}

#[test]
fn auth_check_with_valid_token_is_signed_in() {
    let rows = vec![row("a1", Some(0), Some(10)), row("a2", Some(1), Some(5000))];
    let c = plan_auth_check(&rows, 1000);
    assert!(c.activate.is_none());
    match c.next {
        AuthNext::Ready(s) => {
            assert!(s.authenticated);
            assert_eq!(s.accounts.len(), 2);
            assert_eq!(s.active_account.unwrap().id, "a2");
        }
        AuthNext::Refresh { .. } => panic!("token is still valid"),
    }
}

#[test]
fn auth_check_activates_first_account_and_refreshes_expired_token() {
    let rows = vec![row("a1", None, Some(999)), row("a2", Some(0), Some(5000))];
    let c = plan_auth_check(&rows, 1000);
    assert_eq!(c.activate, Some("a1".to_string()));
    match c.next {
        AuthNext::Refresh { account_id, accounts } => {
            assert_eq!(account_id, "a1");
            assert_eq!(accounts.len(), 2);
        }
        AuthNext::Ready(_) => panic!("the token has expired"),
    }
}

#[test]
fn auth_status_picks_active_or_first() {
    let infos = vec![
        account_info(&row("a1", Some(0), None)),
        account_info(&row("a2", Some(1), None)),
    ];
    let s = auth_status(infos, true);
    assert_eq!(s.active_account.unwrap().id, "a2");
    let none_active = vec![account_info(&row("b1", None, None)), account_info(&row("b2", None, None))];
    let s = auth_status(none_active, true);
    assert_eq!(s.active_account.unwrap().id, "b1");
    let s = auth_status(Vec::new(), false);
    assert!(!s.authenticated);
    assert!(s.active_account.is_none());
}

#[test]
fn token_refresh_window_is_five_minutes() {
    assert!(token_needs_refresh(Some(1200), 1000));
    assert!(!token_needs_refresh(Some(1300), 1000));
    assert!(!token_needs_refresh(Some(0), 1000));
    assert!(!token_needs_refresh(None, 1000));
}

#[test]
fn refresh_failure_revokes_on_invalid_grant() {
    let f = refresh_failure("{\"error\":\"invalid_grant\",\"error_description\":\"Bad\"}");
    assert!(f.revoke_tokens);
    assert_eq!(f.message, "invalid_grant: Please re-authenticate your account.");
    let f = refresh_failure("{\"error\":\"server_error\"}");
    assert!(!f.revoke_tokens);
    assert!(f.message.starts_with("Token refresh failed: "));
    assert!(f.message.contains("server_error"));
}

#[test]
fn token_update_reads_token_and_lifetime() {
    let u = token_update("{\"access_token\":\"tok\",\"expires_in\":60}", 1000).unwrap();
    assert_eq!(u.access_token, "tok");
    assert_eq!(u.expiry, 1060);
    let u = token_update("{}", 1000).unwrap();
    assert_eq!(u.access_token, "");
    assert_eq!(u.expiry, 4500);
    assert!(token_update("{\"expires_in\":10}", i64::MAX).is_none());
}

#[test]
fn sign_in_profile_defaults() {
    let p = sign_in_profile(&Some("{\"email\":\"me@x.org\",\"name\":\"Me\"}".to_string()));
    assert_eq!(p.email, "me@x.org");
    assert_eq!(p.name, "Me");
    assert_eq!(p.picture, "");
    let p = sign_in_profile(&None);
    assert_eq!(p.email, "unknown@gmail.com");
    assert_eq!(p.name, "");
    let p = refreshed_profile("{\"picture\":\"http://p\"}");
    assert_eq!(p.email, "");
    assert_eq!(p.picture, "http://p");
    assert_eq!(sign_in_expiry(100), 3600);
}

#[test]
fn oauth_callback_reads_code_and_state() {
    let c = parse_oauth_callback("GET /callback?code=abc&state=xyz HTTP/1.1");
    assert_eq!(c.code, "abc");
    assert_eq!(c.state, "xyz");
    let c = parse_oauth_callback("POST /callback?code=abc HTTP/1.1");
    assert_eq!(c.code, "");
    let c = parse_oauth_callback("GET /callback HTTP/1.1");
    assert_eq!(c.code, "");
    assert_eq!(c.state, "");
}

#[test]
fn oauth_state_must_match() {
    assert_eq!(check_oauth_state("s1", "s1"), Ok(()));
    assert_eq!(check_oauth_state("s1", "s2"), Err("CSRF token mismatch".to_string()));
}

#[test]
fn sync_settings() {
    assert_eq!(sync_target_label(&None), "INBOX");
    assert_eq!(sync_target_label(&Some("SENT".to_string())), "SENT");
    assert_eq!(hydration_batch_size(250, false), 100);
    assert_eq!(hydration_batch_size(42, false), 42);
    assert_eq!(hydration_batch_size(250, true), 250);
    assert!(prefetch_enabled(&Some("true".to_string())));
    assert!(!prefetch_enabled(&Some("TRUE".to_string())));
    assert!(!prefetch_enabled(&None));
    assert_eq!(cache_limit_mb(&Some("250".to_string())), 250);
    assert_eq!(cache_limit_mb(&Some("abc".to_string())), 500);
    assert_eq!(cache_limit_mb(&Some("-5".to_string())), 500);
    assert_eq!(cache_limit_mb(&None), 500);
    assert!(cache_over_limit(3 * 1048576, 2));
    assert!(!cache_over_limit(3 * 1048576 - 1, 2));
}
