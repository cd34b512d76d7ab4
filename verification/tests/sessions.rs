use nearshare::handlers::session::{
    authenticate, index, logged_out, logout, require_user, session,
};
use nearshare::models::{AuthRequest, AuthResponse, SessionResponse};
use nearshare::reply::{Body, Reply, Status};
use nearshare::sessions::{authenticated_token, authenticated_username, Sessions};

fn credentials(username: &str, password: &str) -> AuthRequest {
    AuthRequest { username: username.to_string(), password: password.to_string() }
}

fn one_session() -> Sessions {
    let mut sessions = Sessions::new();
    sessions.insert("token".to_string(), "admin".to_string());
    sessions
}

fn text(status: Status, text: &str) -> Reply {
    Reply { status, body: Body::Text(text.to_string()) }
}

#[test]
fn page_is_handed_out() {
    let reply = index(Some("<html>".to_string()));
    assert_eq!(reply, Reply { status: Status::Success, body: Body::Html("<html>".to_string()) });
    assert_eq!(reply.content_type(), Some("text/html".to_string()));
    let missing = index(None);
    assert_eq!(missing, text(Status::InternalServerError, "Frontend file not found."));
    assert_eq!(missing.content_type(), None);
}

#[test]
fn only_the_right_credentials_are_accepted() {
    assert!(authenticate(&credentials("admin", "password")).is_ok());
    for wrong in [("admin", "Password"), ("Admin", "password"), ("", ""), ("password", "admin")] {
        let refusal = authenticate(&credentials(wrong.0, wrong.1)).unwrap_err();
        assert_eq!(refusal, Reply { status: Status::Unauthorized, body: Body::Empty });
    }
}

#[test]
fn login_gives_out_the_token() {
    let mut sessions = Sessions::new();
    let login = authenticate(&credentials("admin", "password")).unwrap();
    let reply = login.finish_with(&mut sessions, true, "token".to_string());
    let body = Body::Token(AuthResponse { token: "token".to_string() });
    assert_eq!(reply, Reply { status: Status::Success, body });
    let name = authenticated_username(Some(b"Bearer token"), &sessions);
    assert_eq!(name, Some("admin".to_string()));
}

#[test]
fn login_without_clearing_lets_nobody_in() {
    let mut sessions = Sessions::new();
    let login = authenticate(&credentials("admin", "password")).unwrap();
    let reply = login.finish_with(&mut sessions, false, "token".to_string());
    assert_eq!(reply, text(Status::InternalServerError, "Failed to reset uploads"));
    assert_eq!(authenticated_username(Some(b"Bearer token"), &sessions), None);
}

#[test]
fn session_lasts_from_login_to_logout() {
    let mut sessions = one_session();
    let login = authenticate(&credentials("admin", "password")).unwrap();
    let reply = login.finish(&mut sessions, true);
    let token = match reply.body {
        Body::Token(response) => response.token,
        other => panic!("{other:?}"),
    };
    assert_eq!(token.len(), 32);
    let header = format!("Bearer {token}");
    let header = Some(header.as_bytes());
    let body = Body::Session(SessionResponse { username: "admin".to_string() });
    assert_eq!(session(header, &sessions), Reply { status: Status::Success, body });
    assert_eq!(authenticated_token(header, &sessions), Some(token.clone()));
    assert_eq!(require_user(header, &sessions), Ok(()));

    assert_eq!(logout(header, &mut sessions), Ok(()));
    let refusal = Reply { status: Status::Unauthorized, body: Body::Empty };
    assert_eq!(session(header, &sessions), refusal);
    assert_eq!(logout(header, &mut sessions).unwrap_err(), refusal);
    assert_eq!(authenticated_token(header, &sessions), None);
    assert!(authenticated_username(Some(b"Bearer token"), &sessions).is_some());
}

#[test]
fn logout_is_answered() {
    assert_eq!(logged_out(true), Reply { status: Status::Success, body: Body::Empty });
    let failed = text(Status::InternalServerError, "Failed to clear uploads");
    assert_eq!(logged_out(false), failed);
}

#[test]
fn headers_are_read_strictly() {
    let sessions = one_session();
    assert!(authenticated_username(Some(b"Bearer token"), &sessions).is_some());
    for header in [
        &b"token"[..],
        b"bearer token",
        b"Bearer",
        b"Bearer ",
        b"Bearer  token",
        b"Bearer token ",
        b"Bearer token\x7f",
        b"Bearer token\xc3\xa9",
        b"",
    ] {
        assert_eq!(authenticated_username(Some(header), &sessions), None);
    }
    assert_eq!(authenticated_username(None, &sessions), None);
}

#[test]
fn tokens_may_hold_tabs_and_spaces() {
    let mut sessions = Sessions::new();
    sessions.insert("a\tb c~".to_string(), "user".to_string());
    let name = authenticated_username(Some(b"Bearer a\tb c~"), &sessions);
    assert_eq!(name, Some("user".to_string()));
}

#[test]
fn tokens_are_replaced_and_taken_back() {
    let mut sessions = one_session();
    sessions.insert("token".to_string(), "other".to_string());
    let name = authenticated_username(Some(b"Bearer token"), &sessions);
    assert_eq!(name, Some("other".to_string()));
    sessions.remove("token");
    assert_eq!(authenticated_username(Some(b"Bearer token"), &sessions), None);
}
