use trivia::game::GameState;
use trivia::models::Category;
use trivia::session::{AdminSessionStore, SessionError, SessionStore, SessionToken, SESSION_COOKIE};

fn new_game() -> GameState {
    GameState::new("Tom".to_string(), vec![Category { id: 1, name: "Science".to_string() }])
}

#[test]
fn session_is_set() {
    let mut store = SessionStore::new();
    let token = store.create();
    store.insert(token, new_game());
    let value = token.cookie_value();
    assert_eq!(SESSION_COOKIE, "session");
    assert_eq!(value.len(), 36);
    assert_eq!(SessionToken::from_cookie(&value), Some(token));
    assert!(store.contains(token));
}

#[test]
fn game_state_is_set() {
    let mut store = SessionStore::new();
    let token = store.create();
    store.insert(token, new_game());
    assert!(store.len() == 1)
}

#[test]
fn end_game_removes_state() {
    let mut store = SessionStore::new();
    let token = store.create();
    store.insert(token, new_game());
    assert!(store.remove(token).is_ok());
    assert!(store.len() == 0)
}

#[test]
fn removed_session_is_unauthenticated() {
    let mut store = SessionStore::new();
    let token = store.create();
    store.insert(token, new_game());
    let points = store.with_state(token, |g| {
        let p = g.points();
        (g, p)
    });
    assert!(matches!(points, Ok(0)));
    store.remove(token).ok().unwrap();
    let after = store.with_state(token, |g| (g, ()));
    assert!(matches!(after, Err(SessionError::Unauthenticated)));
    assert!(matches!(store.remove(token), Err(SessionError::Unauthenticated)));
}

#[test]
fn with_state_keeps_changes() {
    let mut store = SessionStore::new();
    let token = store.create();
    store.insert(token, new_game());
    let used = store.with_state(token, |mut g| {
        let r = g.use_joker().is_ok();
        (g, r)
    });
    assert!(matches!(used, Ok(false)));
    let joker = store.with_state(token, |g| {
        let j = g.joker();
        (g, j)
    });
    assert!(matches!(joker, Ok(false)));
}

#[test]
fn created_tokens_are_fresh() {
    let mut store = SessionStore::new();
    let first = store.create();
    store.insert(first, new_game());
    let second = store.create();
    assert_ne!(first, second);
    assert!(!store.contains(second));
}

#[test]
fn garbage_cookie_is_no_token() {
    assert_eq!(SessionToken::from_cookie("not a uuid"), None);
    let token = SessionToken(0x0123_4567_89ab_cdef_0123_4567_89ab_cdef);
    assert_eq!(token.cookie_value(), "01234567-89ab-cdef-0123-456789abcdef");
}

#[test]
fn admin_sessions_hold_tokens() {
    let mut admins = AdminSessionStore::new();
    let token = SessionToken(5);
    assert!(!admins.contains(token));
    admins.insert(token);
    assert!(admins.contains(token));
    assert!(!admins.contains(SessionToken(6)));
}
