use session_store::error::StoreError;
use session_store::table::{copy_state, same_text, SessionTable};
use std::collections::HashMap;
use time::Duration;

fn state(pairs: &[(&str, &str)]) -> HashMap<String, String> {
    let mut state = HashMap::new();
    for (key, value) in pairs {
        state.insert(key.to_string(), value.to_string());
    }
    state
}

#[test]
fn table_new_is_empty() {
    let table = SessionTable::new();
    assert_eq!(table.len(), 0);
    assert!(table.entries().is_empty());
    assert_eq!(table.load("anything"), None);
    assert_eq!(table.ttl("anything"), None);
    assert!(!table.contains("anything"));
}

#[test]
fn table_round_trip() {
    let mut table = SessionTable::new();
    let cases = vec![
        state(&[]),
        state(&[("user", "alice")]),
        state(&[("b", "2"), ("a", "1"), ("c", "3")]),
        state(&[("", ""), ("clé", "valeur é"), ("emoji", "🦀")]),
    ];
    for (n, s) in cases.iter().enumerate() {
        let id = format!("session-{n}");
        assert_eq!(table.save_as(id.clone(), s.clone(), &Duration::minutes(30)), Ok(id.clone()));
        assert_eq!(table.load(&id), Some(s.clone()));
        assert_eq!(table.ttl(&id), Some(Duration::minutes(30)));
    }
    assert_eq!(table.len(), 4);
    for (n, s) in cases.iter().enumerate() {
        assert_eq!(table.load(&format!("session-{n}")), Some(s.clone()));
    }
}

#[test]
fn table_save_makes_a_fresh_identifier() {
    let mut table = SessionTable::new();
    let s = state(&[("user", "alice")]);
    let first = table.save(s.clone(), &Duration::minutes(30)).unwrap();
    let second = table.save(s.clone(), &Duration::minutes(30)).unwrap();
    assert_eq!(first.len(), 36);
    assert_eq!(second.len(), 36);
    assert_ne!(first, second);
    assert_eq!(table.len(), 2);
    assert_eq!(table.load(&first), Some(s.clone()));
    assert_eq!(table.load(&second), Some(s));
}

#[test]
fn table_save_as_replaces_the_record_of_a_known_identifier() {
    let mut table = SessionTable::new();
    table.save_as("k".to_string(), state(&[("v", "1")]), &Duration::minutes(1)).unwrap();
    table.save_as("other".to_string(), state(&[("v", "x")]), &Duration::minutes(9)).unwrap();
    table.save_as("k".to_string(), state(&[("v", "2")]), &Duration::minutes(2)).unwrap();
    assert_eq!(table.len(), 2);
    assert_eq!(table.load("k"), Some(state(&[("v", "2")])));
    assert_eq!(table.ttl("k"), Some(Duration::minutes(2)));
    assert_eq!(table.load("other"), Some(state(&[("v", "x")])));
    let mut ids: Vec<String> = table.entries().into_iter().map(|e| e.id).collect();
    ids.sort();
    assert_eq!(ids, vec!["k".to_string(), "other".to_string()]);
}

#[test]
fn table_key_of_4064_bytes_is_the_longest_accepted() {
    let mut table = SessionTable::new();
    let longest: String = std::iter::repeat('a').take(4064).collect();
    assert_eq!(table.save_as(longest.clone(), state(&[]), &Duration::minutes(1)), Ok(longest.clone()));
    let too_long: String = std::iter::repeat('a').take(4065).collect();
    assert_eq!(
        table.save_as(too_long.clone(), state(&[("k", "v")]), &Duration::minutes(1)),
        Err(StoreError::KeyEncoding)
    );
    // the record is stored all the same
    assert_eq!(table.len(), 2);
    assert_eq!(table.load(&too_long), Some(state(&[("k", "v")])));
}

#[test]
fn table_key_length_counts_bytes_not_characters() {
    let mut table = SessionTable::new();
    // 2032 two-byte characters are 4064 bytes, 2033 are 4066
    let fits: String = std::iter::repeat('é').take(2032).collect();
    assert_eq!(table.save_as(fits.clone(), state(&[]), &Duration::minutes(1)), Ok(fits));
    let over: String = std::iter::repeat('é').take(2033).collect();
    assert_eq!(table.save_as(over, state(&[]), &Duration::minutes(1)), Err(StoreError::KeyEncoding));
}

#[test]
fn table_update_replaces_state_and_ttl() {
    let mut table = SessionTable::new();
    let id = table.save(state(&[("user", "alice")]), &Duration::minutes(30)).unwrap();
    let r = table.update(id.clone(), state(&[("user", "bob")]), &Duration::minutes(60));
    assert_eq!(r, Ok(id.clone()));
    assert_eq!(table.load(&id), Some(state(&[("user", "bob")])));
    assert_ne!(table.load(&id), Some(state(&[("user", "alice")])));
    assert_eq!(table.ttl(&id), Some(Duration::minutes(60)));
    assert_eq!(table.len(), 1);
}

#[test]
fn table_update_of_absent_identifier_creates_nothing() {
    let mut table = SessionTable::new();
    table.save_as("present".to_string(), state(&[("a", "1")]), &Duration::minutes(1)).unwrap();
    let r = table.update("absent".to_string(), state(&[("b", "2")]), &Duration::minutes(1));
    assert_eq!(r, Err(StoreError::NotFound));
    assert!(!table.contains("absent"));
    assert_eq!(table.load("absent"), None);
    assert_eq!(table.len(), 1);
    assert_eq!(table.load("present"), Some(state(&[("a", "1")])));
}

#[test]
fn table_update_ttl_keeps_the_state() {
    let mut table = SessionTable::new();
    table.save_as("s1".to_string(), state(&[("a", "1")]), &Duration::minutes(1)).unwrap();
    table.save_as("s2".to_string(), state(&[("b", "2")]), &Duration::minutes(2)).unwrap();
    assert_eq!(table.update_ttl("s1", &Duration::days(7)), Ok(()));
    assert_eq!(table.load("s1"), Some(state(&[("a", "1")])));
    assert_eq!(table.ttl("s1"), Some(Duration::days(7)));
    assert_eq!(table.load("s2"), Some(state(&[("b", "2")])));
    assert_eq!(table.ttl("s2"), Some(Duration::minutes(2)));
    assert_eq!(table.update_ttl("s3", &Duration::days(7)), Err(StoreError::NotFound));
    assert_eq!(table.len(), 2);
    assert!(!table.contains("s3"));
}

#[test]
fn table_delete_is_idempotent() {
    let mut table = SessionTable::new();
    table.save_as("a".to_string(), state(&[("n", "1")]), &Duration::minutes(1)).unwrap();
    table.save_as("b".to_string(), state(&[("n", "2")]), &Duration::minutes(1)).unwrap();
    table.save_as("c".to_string(), state(&[("n", "3")]), &Duration::minutes(1)).unwrap();
    table.delete("b");
    assert_eq!(table.load("b"), None);
    assert_eq!(table.len(), 2);
    table.delete("b");
    assert_eq!(table.len(), 2);
    table.delete("zzz");
    assert_eq!(table.len(), 2);
    assert_eq!(table.load("a"), Some(state(&[("n", "1")])));
    assert_eq!(table.load("c"), Some(state(&[("n", "3")])));
    let mut ids: Vec<String> = table.entries().into_iter().map(|e| e.id).collect();
    ids.sort();
    assert_eq!(ids, vec!["a".to_string(), "c".to_string()]);
}

#[test]
fn table_identifiers_are_compared_exactly() {
    let mut table = SessionTable::new();
    table.save_as("Session".to_string(), state(&[("n", "1")]), &Duration::minutes(1)).unwrap();
    assert_eq!(table.load("session"), None);
    assert_eq!(table.load("Session "), None);
    assert_eq!(table.load("Sessio"), None);
    assert_eq!(table.load(""), None);
    assert!(table.contains("Session"));
    table.save_as("".to_string(), state(&[("n", "0")]), &Duration::minutes(1)).unwrap();
    assert_eq!(table.load(""), Some(state(&[("n", "0")])));
}

#[test]
fn table_sequence_of_updates_ends_with_the_last() {
    let mut table = SessionTable::new();
    let id = table.save(state(&[("n", "start")]), &Duration::minutes(1)).unwrap();
    for n in 0..20 {
        let s = state(&[("n", &n.to_string())]);
        assert_eq!(table.update(id.clone(), s, &Duration::minutes(1)), Ok(id.clone()));
    }
    assert_eq!(table.load(&id), Some(state(&[("n", "19")])));
    assert_eq!(table.len(), 1);
}

#[test]
fn table_entries_lists_every_record_once() {
    let mut table = SessionTable::new();
    table.save_as("x".to_string(), state(&[("n", "1")]), &Duration::minutes(1)).unwrap();
    table.save_as("y".to_string(), state(&[("n", "2")]), &Duration::minutes(2)).unwrap();
    table.update("x".to_string(), state(&[("n", "3")]), &Duration::minutes(3)).unwrap();
    let mut listing = table.entries();
    listing.sort_by(|a, b| a.id.cmp(&b.id));
    assert_eq!(listing.len(), 2);
    assert_eq!(listing[0].id, "x");
    assert_eq!(listing[0].state, state(&[("n", "3")]));
    assert_eq!(listing[0].ttl, Duration::minutes(3));
    assert_eq!(listing[1].id, "y");
    assert_eq!(listing[1].state, state(&[("n", "2")]));
    assert_eq!(listing[1].ttl, Duration::minutes(2));
}

#[test]
fn same_text_compares_whole_strings() {
    assert!(same_text("", ""));
    assert!(same_text("abc", "abc"));
    assert!(!same_text("abc", "abd"));
    assert!(!same_text("abc", "ab"));
    assert!(!same_text("ab", "abc"));
    assert!(same_text("héllo 🦀", "héllo 🦀"));
    assert!(!same_text("héllo", "hello"));
}

#[test]
fn copy_state_keeps_every_pair() {
    let s = state(&[("a", "1"), ("b", "2")]);
    assert_eq!(copy_state(&s), s);
    assert_eq!(copy_state(&HashMap::new()), HashMap::new());
}
