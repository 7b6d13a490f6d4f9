use mexc_lag::web::security_headers;

#[test]
fn every_answer_is_guarded() {
    let headers = security_headers();
    assert_eq!(headers.len(), 5);
    assert_eq!(headers[0], ("x-content-type-options", "nosniff"));
    assert_eq!(headers[1], ("x-frame-options", "DENY"));
    assert_eq!(headers[2], ("referrer-policy", "no-referrer"));
    assert_eq!(
        headers[3],
        ("permissions-policy", "camera=(), microphone=(), geolocation=(), payment=()")
    );
    assert_eq!(headers[4].0, "content-security-policy");
    assert!(headers[4].1.starts_with("default-src 'self'; connect-src 'self';"));
    assert!(headers[4].1.ends_with("form-action 'self'"));
}
