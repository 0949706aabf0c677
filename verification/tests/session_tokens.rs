use std::collections::HashSet;

use chisel_auth::error::Error;
use chisel_auth::session::SessionStore;

#[test]
fn minted_token_resolves_to_username() {
    let mut store = SessionStore::new();
    let token = store.new_session_token("alice").unwrap();
    assert_eq!(store.get_username(&token).unwrap(), "alice");
    let other = store.new_session_token("bob").unwrap();
    assert_eq!(store.get_username(&other).unwrap(), "bob");
    assert_eq!(store.get_username(&token).unwrap(), "alice");
}

#[test]
fn unminted_token_fails_with_token_not_found() {
    let mut store = SessionStore::new();
    assert_eq!(store.get_username("no-such-token"), Err(Error::TokenNotFound));
    let token = store.new_session_token("alice").unwrap();
    assert_eq!(store.get_username(""), Err(Error::TokenNotFound));
    let mut garbled = token.clone();
    garbled.push('x');
    assert_eq!(store.get_username(&garbled), Err(Error::TokenNotFound));
}

#[test]
fn tokens_are_unique_over_many_mints() {
    let mut store = SessionStore::new();
    let mut seen: HashSet<String> = HashSet::new();
    for i in 0..10_000u32 {
        let user = format!("user{}", i % 7);
        let token = store.new_session_token(&user).unwrap();
        assert!(seen.insert(token), "token minted twice");
    }
    assert_eq!(seen.len(), 10_000);
}

#[test]
fn token_is_long_enough_for_entropy() {
    let mut store = SessionStore::new();
    let token = store.new_session_token("alice").unwrap();
    // 16 counter digits plus 32 random hexadecimal digits.
    assert_eq!(token.len(), 48);
    assert!(token.chars().all(|c| c.is_ascii_hexdigit()));
}
