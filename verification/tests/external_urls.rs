use rustymail::misc::validate_external_url;

#[test]
fn auth_test_validate_url_javascript_rejected() {
    let result = validate_external_url("javascript:alert(1)");
    assert!(result.is_err());
    assert!(result.unwrap_err().contains("Only http and https URLs are allowed"));
}

#[test]
fn auth_test_validate_url_ftp_rejected() {
    let result = validate_external_url("ftp://example.com");
    assert!(result.is_err());
    assert!(result.unwrap_err().contains("Only http and https URLs are allowed"));
}

#[test]
fn auth_test_validate_url_empty_rejected() {
    let result = validate_external_url("");
    assert!(result.is_err());
    assert!(result.unwrap_err().contains("Only http and https URLs are allowed"));
}

#[test]
fn auth_test_validate_url_data_rejected() {
    assert!(validate_external_url("data:text/html,<h1>hi</h1>").is_err());
}

#[test]
fn auth_test_validate_url_http_accepted() {
    assert!(validate_external_url("http://example.com").is_ok());
}

#[test]
fn auth_test_validate_url_https_accepted() {
    assert!(validate_external_url("https://example.com").is_ok());
}

#[test]
fn misc_test_validate_url_javascript_rejected() {
    let result = validate_external_url("javascript:alert(1)");
    assert!(result.is_err());
    assert!(result.unwrap_err().contains("Only http and https URLs are allowed"));
}

#[test]
fn misc_test_validate_url_ftp_rejected() {
    let result = validate_external_url("ftp://example.com");
    assert!(result.is_err());
    assert!(result.unwrap_err().contains("Only http and https URLs are allowed"));
}

#[test]
fn misc_test_validate_url_empty_rejected() {
    let result = validate_external_url("");
    assert!(result.is_err());
    assert!(result.unwrap_err().contains("Only http and https URLs are allowed"));
}

#[test]
fn misc_test_validate_url_data_rejected() {
    assert!(validate_external_url("data:text/html,<h1>hi</h1>").is_err());
}

#[test]
fn misc_test_validate_url_http_accepted() {
    assert!(validate_external_url("http://example.com").is_ok());
}

#[test]
fn misc_test_validate_url_https_accepted() {
    assert!(validate_external_url("https://example.com").is_ok());
}
