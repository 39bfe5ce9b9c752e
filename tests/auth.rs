use sirius_watch::api::{Api, Courses, Sirius, COURSES_SCOPE, SIRIUS_SCOPE};
use sirius_watch::auth::{Auth, AuthError, RefreshReply, TokenStep};
use sirius_watch::model::AuthResponse;

fn granted(token: &str, expires_in: u64) -> RefreshReply {
    RefreshReply::Answered {
        status: 200,
        body: Some(AuthResponse {
            access_token: token.to_string(),
            token_type: "bearer".to_string(),
            expires_in,
            scope: "s".to_string(),
        }),
    }
}

fn fresh() -> Auth {
    Auth::new("id".to_string(), "secret".to_string(), "scope".to_string())
}

#[test]
fn empty_cache_asks_for_refresh() {
    let mut a = fresh();
    assert!(matches!(a.get_token(0), TokenStep::Refresh));
    assert!(a.is_refreshing());
}

#[test]
fn valid_token_needs_no_request() {
    let mut a = fresh();
    assert!(matches!(a.get_token(100), TokenStep::Refresh));
    assert_eq!(a.finish_refresh(100, granted("tok", 3600)).unwrap(), "tok");
    for now in [100, 2000, 3699] {
        match a.get_token(now) {
            TokenStep::Ready(t) => assert_eq!(t, "tok"),
            _ => panic!("a valid token must be handed out"),
        }
        assert!(!a.is_refreshing());
    }
}

#[test]
fn concurrent_callers_share_one_refresh() {
    let mut a = fresh();
    assert!(matches!(a.get_token(10), TokenStep::Refresh));
    assert!(matches!(a.get_token(11), TokenStep::Wait(_)));
    assert!(matches!(a.get_token(12), TokenStep::Wait(_)));
    let first = a.finish_refresh(13, granted("new", 60)).unwrap();
    match a.get_token(14) {
        TokenStep::Ready(t) => assert_eq!(t, first),
        _ => panic!("the waiter must get the refreshed token"),
    }
}

#[test]
fn waiter_gets_the_token_of_the_refresh_it_waited_for() {
    let mut a = fresh();
    assert!(matches!(a.get_token(10), TokenStep::Refresh));
    let ticket = match a.get_token(11) {
        TokenStep::Wait(t) => t,
        _ => panic!("the second caller must wait"),
    };
    // still in flight: waiting goes on
    assert!(matches!(a.after_wait(12, ticket), TokenStep::Wait(t) if t == ticket));
    let first = a.finish_refresh(13, granted("shared", 60)).unwrap();
    match a.after_wait(14, ticket) {
        TokenStep::Ready(t) => assert_eq!(t, first),
        _ => panic!("the waiter must get the refreshed token"),
    }
}

#[test]
fn waiter_gets_the_error_of_the_refresh_it_waited_for() {
    let mut a = fresh();
    assert!(matches!(a.get_token(10), TokenStep::Refresh));
    let ticket = match a.get_token(11) {
        TokenStep::Wait(t) => t,
        _ => panic!("the second caller must wait"),
    };
    let first = a.finish_refresh(12, RefreshReply::Answered { status: 401, body: None });
    assert_eq!(first, Err(AuthError::Rejected(401)));
    assert!(matches!(a.after_wait(13, ticket), TokenStep::Failed(AuthError::Rejected(401))));
    // no request was asked for on the waiter's behalf
    assert!(!a.is_refreshing());
    // a new caller retries
    assert!(matches!(a.get_token(14), TokenStep::Refresh));
    let again = match a.get_token(15) {
        TokenStep::Wait(t) => t,
        _ => panic!("expected to wait"),
    };
    assert_ne!(again, ticket);
    a.finish_refresh(16, RefreshReply::Unreachable).unwrap_err();
    assert!(matches!(a.after_wait(17, again), TokenStep::Failed(AuthError::Transport)));
}

#[test]
fn callers_that_come_during_a_refresh_all_wait() {
    let mut a = fresh();
    assert!(matches!(a.get_token(0), TokenStep::Refresh));
    assert!(matches!(a.get_token(1), TokenStep::Wait(_)));
    assert!(matches!(a.get_token(2), TokenStep::Wait(_)));
}

#[test]
fn expired_token_is_refreshed() {
    let mut a = fresh();
    a.get_token(0);
    a.finish_refresh(0, granted("old", 10)).unwrap();
    assert!(matches!(a.get_token(10), TokenStep::Refresh));
    assert!(matches!(a.get_token(11), TokenStep::Wait(_)));
    assert_eq!(a.finish_refresh(12, granted("new", 10)).unwrap(), "new");
    match a.get_token(21) {
        TokenStep::Ready(t) => assert_eq!(t, "new"),
        _ => panic!("expected the new token"),
    }
    assert!(matches!(a.get_token(22), TokenStep::Refresh));
}

#[test]
fn unauthorized_reply_caches_nothing_and_retries() {
    let mut a = fresh();
    assert!(matches!(a.get_token(0), TokenStep::Refresh));
    let r = a.finish_refresh(1, RefreshReply::Answered { status: 401, body: None });
    assert_eq!(r, Err(AuthError::Rejected(401)));
    assert!(!a.is_refreshing());
    assert!(matches!(a.get_token(2), TokenStep::Refresh));
}

#[test]
fn unsuccessful_status_wins_over_body() {
    let mut a = fresh();
    a.get_token(0);
    let r = a.finish_refresh(1, RefreshReply::Answered { status: 500, body: granted_body() });
    assert_eq!(r, Err(AuthError::Rejected(500)));
    assert!(matches!(a.get_token(2), TokenStep::Refresh));
}

fn granted_body() -> Option<AuthResponse> {
    match granted("x", 5) {
        RefreshReply::Answered { body, .. } => body,
        RefreshReply::Unreachable => None,
    }
}

#[test]
fn transport_and_malformed_errors() {
    let mut a = fresh();
    a.get_token(0);
    assert_eq!(a.finish_refresh(1, RefreshReply::Unreachable), Err(AuthError::Transport));
    assert!(matches!(a.get_token(2), TokenStep::Refresh));
    assert_eq!(
        a.finish_refresh(3, RefreshReply::Answered { status: 200, body: None }),
        Err(AuthError::Malformed)
    );
    assert!(matches!(a.get_token(4), TokenStep::Refresh));
}

#[test]
fn failed_refresh_keeps_previous_token() {
    let mut a = fresh();
    a.get_token(0);
    a.finish_refresh(0, granted("old", 100)).unwrap();
    // a refresh can only be asked for once the token expired
    assert!(matches!(a.get_token(100), TokenStep::Refresh));
    assert_eq!(a.finish_refresh(101, RefreshReply::Unreachable), Err(AuthError::Transport));
    assert!(matches!(a.get_token(99), TokenStep::Ready(_)));
}

#[test]
fn expiry_saturates() {
    let mut a = fresh();
    a.get_token(5);
    a.finish_refresh(5, granted("long", u64::MAX)).unwrap();
    assert!(matches!(a.get_token(u64::MAX - 1), TokenStep::Ready(_)));
    assert!(matches!(a.get_token(u64::MAX), TokenStep::Refresh));
}

#[test]
fn refresh_form_is_client_credentials_grant() {
    let a = fresh();
    let f = a.refresh_form();
    let expect = vec![
        ("grant_type", "client_credentials"),
        ("client_id", "id"),
        ("client_secret", "secret"),
        ("scope", "scope"),
    ];
    assert_eq!(f.len(), 4);
    for ((k, v), (ek, ev)) in f.iter().zip(expect.iter()) {
        assert_eq!(k, ek);
        assert_eq!(v, ev);
    }
}

#[test]
fn clients_use_their_scopes() {
    let s = Sirius::new("i".to_string(), "s".to_string());
    assert_eq!(s.auth.refresh_form()[3].1, SIRIUS_SCOPE);
    let c = Courses::new("i".to_string(), "s".to_string());
    assert_eq!(c.auth.refresh_form()[3].1, COURSES_SCOPE);
    let api = Api::new("i".to_string(), "s".to_string());
    assert_eq!(api.sirius.auth.refresh_form()[3].1, "cvut:sirius:personal:read");
    assert_eq!(api.courses.auth.refresh_form()[3].1, "cvut:cpages:common:read");
}

#[test]
fn urls_of_the_endpoints() {
    assert_eq!(Sirius::events_url("BI-LA1.21"), "https://sirius.fit.cvut.cz/api/v1/courses/BI-LA1.21/events");
    assert_eq!(Courses::news_url(), "https://courses.fit.cvut.cz/api/v1/cpages/news.json");
    assert_eq!(Courses::bearer("abc"), "Bearer abc");
}
