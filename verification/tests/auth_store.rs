use ring_agent::auth::{auth_path, get_api_key, get_api_key_at, remove_auth_entry, AuthEntry, AuthStore};

fn oauth(access: &str, expires: u64) -> AuthEntry {
    AuthEntry::Oauth { refresh: "r".to_string(), access: access.to_string(), expires, account_id: None }
}

#[test]
fn keys_of_entries() {
    let a = AuthEntry::Api { key: "k".to_string() };
    assert_eq!(a.api_key(), Some("k"));
    assert_eq!(a.refresh_token(), None);
    assert!(!a.is_expired());
    let o = oauth("acc", 0);
    assert_eq!(o.api_key(), Some("acc"));
    assert_eq!(o.refresh_token(), Some("r"));
    assert!(!o.is_expired());
    assert!(oauth("acc", 1).is_expired());
}

#[test]
fn expiry_at_given_times() {
    let o = oauth("acc", 100);
    assert!(!o.is_expired_at(99));
    assert!(o.is_expired_at(100));
    assert!(!oauth("acc", 0).is_expired_at(u64::MAX));
}

#[test]
fn store_lookup_and_removal() {
    let mut store = AuthStore::new();
    store.insert("openai".to_string(), AuthEntry::Api { key: "sk".to_string() });
    store.insert("blank".to_string(), AuthEntry::Api { key: "  ".to_string() });
    store.insert("old".to_string(), oauth("tok", 10));
    store.insert("openai".to_string(), AuthEntry::Api { key: "sk2".to_string() });
    assert_eq!(store.len(), 3);
    assert_eq!(get_api_key(&store, "openai"), Some("sk2"));
    assert_eq!(get_api_key(&store, "blank"), None);
    assert_eq!(get_api_key(&store, "missing"), None);
    assert_eq!(get_api_key_at(&store, "old", 5), Some("tok"));
    assert_eq!(get_api_key_at(&store, "old", 10), None);
    assert!(remove_auth_entry(&mut store, "openai"));
    assert!(!remove_auth_entry(&mut store, "openai"));
    assert_eq!(get_api_key(&store, "openai"), None);
    assert_eq!(store.len(), 2);
    assert_eq!(store.entries().len(), 2);
}

#[test]
fn credentials_file_path() {
    assert_eq!(auth_path("/home/u/.ring"), "/home/u/.ring/auth.json");
}
