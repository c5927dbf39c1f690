use bugtrack::auth::login;

#[test]
fn valid_credentials_earn_the_token() {
    let r = login(true, "session-token".to_string());
    assert_eq!(r.status, "success");
    assert_eq!(r.token, Some("session-token".to_string()));
}

#[test]
fn invalid_credentials_earn_no_token() {
    let r = login(false, "session-token".to_string());
    assert_eq!(r.status, "failure");
    assert_eq!(r.token, None);
}
