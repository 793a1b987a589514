//! The Session Store: create-on-touch, round trips, and the cookie that
//! carries the identifier.

use nu_php::numeric::parse_u64;
use nu_php::session::{
    cookie_value, session_id_from_cookie, set_cookie_value, SessionStore,
};

#[test]
fn unknown_identifier_creates_default_record() {
    let mut store = SessionStore::new();
    assert!(store.get(42).is_none());
    let blob = store.lookup_or_create(42);
    assert_eq!(blob, "{}");
    assert_eq!(store.get(42).unwrap(), "{}");
    let again = store.lookup_or_create(42);
    assert_eq!(again, "{}");
}

#[test]
fn store_then_lookup_round_trips() {
    let mut store = SessionStore::new();
    store.store(7, "{\"cart\": [1, 2]}".to_string());
    assert_eq!(store.get(7).unwrap(), "{\"cart\": [1, 2]}");
    assert_eq!(store.lookup_or_create(7), "{\"cart\": [1, 2]}");
}

#[test]
fn later_write_wins() {
    let mut store = SessionStore::new();
    store.store(1, "first".to_string());
    store.store(1, "second".to_string());
    assert_eq!(store.get(1).unwrap(), "second");
}

#[test]
fn identifiers_do_not_interfere() {
    let mut store = SessionStore::new();
    store.store(1, "one".to_string());
    store.store(2, "two".to_string());
    assert_eq!(store.get(1).unwrap(), "one");
    assert_eq!(store.get(2).unwrap(), "two");
}

#[test]
fn cookie_header_yields_session_id() {
    assert_eq!(
        session_id_from_cookie("yummy_cookie=choco; nu_php_cookie=42"),
        Some(42)
    );
    assert_eq!(session_id_from_cookie("nu_php_cookie=42"), Some(42));
}

#[test]
fn absent_or_malformed_cookie_means_no_session() {
    assert_eq!(session_id_from_cookie("yummy_cookie=choco"), None);
    assert_eq!(session_id_from_cookie("nu_php_cookie=not-a-number"), None);
    assert_eq!(session_id_from_cookie(""), None);
    assert_eq!(session_id_from_cookie("nu_php_cookie="), None);
}

#[test]
fn last_session_cookie_wins() {
    assert_eq!(
        session_id_from_cookie("nu_php_cookie=1; nu_php_cookie=2"),
        Some(2)
    );
}

#[test]
fn cookie_lookup_trims_segments() {
    assert_eq!(
        cookie_value("  a=1 ;  b=2  ", "b").as_deref(),
        Some("2")
    );
    assert_eq!(cookie_value("a=1; b", "b"), None);
}

#[test]
fn set_cookie_header_value() {
    assert_eq!(set_cookie_value(5), "nu_php_cookie=5; HttpOnly; SameSite;");
    assert_eq!(
        set_cookie_value(u64::MAX),
        "nu_php_cookie=18446744073709551615; HttpOnly; SameSite;"
    );
}

#[test]
fn decimal_u64_parsing() {
    assert_eq!(parse_u64("0"), Some(0));
    assert_eq!(parse_u64("42"), Some(42));
    assert_eq!(parse_u64("+42"), Some(42));
    assert_eq!(parse_u64("18446744073709551615"), Some(u64::MAX));
    assert_eq!(parse_u64("18446744073709551616"), None);
    assert_eq!(parse_u64(""), None);
    assert_eq!(parse_u64("+"), None);
    assert_eq!(parse_u64("4 2"), None);
    assert_eq!(parse_u64("-1"), None);
}
