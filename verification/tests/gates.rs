use ropds::web::gates::{
    basic_credentials, login_failed_url, login_target, password_gate, session_gate, SessionGate,
};

#[test]
fn basic_credentials_are_decoded_and_split_at_the_first_colon() {
    assert_eq!(
        basic_credentials(Some("Basic dXNlcjpwYTpzcw==")),
        Some(("user".to_string(), "pa:ss".to_string()))
    );
    assert_eq!(basic_credentials(Some("Basic bm9jb2xvbg==")), None);
    assert_eq!(basic_credentials(Some("Basic //46eA==")), None);
    assert_eq!(basic_credentials(Some("Basic not base64!")), None);
    assert_eq!(basic_credentials(Some("Bearer dXNlcjpwYTpzcw==")), None);
    assert_eq!(basic_credentials(None), None);
}

fn redirect(g: SessionGate) -> String {
    match g {
        SessionGate::Redirect { to } => to,
        _ => panic!("a redirect was expected"),
    }
}

#[test]
fn web_pages_need_a_session() {
    assert!(matches!(session_gate(false, "/admin", None), SessionGate::Pass));
    assert!(matches!(session_gate(true, "/login", None), SessionGate::Pass));
    assert!(matches!(session_gate(true, "/set-language?lang=ru", None), SessionGate::Pass));
    assert_eq!(redirect(session_gate(true, "/admin", None)), "/web/login?next=%2Fweb%2Fadmin");
    assert!(matches!(session_gate(true, "/logout", Some(3)), SessionGate::Pass));
    assert!(matches!(session_gate(true, "/admin", Some(3)), SessionGate::CheckPasswordChange { user_id: 3 }));
    assert!(matches!(password_gate("/admin", Some(false)), SessionGate::Pass));
    assert_eq!(redirect(password_gate("/admin", Some(true))), "/web/change-password?next=%2Fweb%2Fadmin");
    assert_eq!(redirect(password_gate("/admin", None)), "/web/change-password?next=%2Fweb%2Fadmin");
}

#[test]
fn sign_in_targets() {
    assert_eq!(login_target(Some("/web/admin")), "/web/admin");
    assert_eq!(login_target(Some("https://evil.example/")), "/web/bookshelf");
    assert_eq!(login_target(Some("")), "/web/bookshelf");
    assert_eq!(login_target(None), "/web/bookshelf");
    assert_eq!(login_failed_url(Some("/web/admin")), "/web/login?error=1&next=%2Fweb%2Fadmin");
    assert_eq!(login_failed_url(None), "/web/login?error=1&next=");
}
