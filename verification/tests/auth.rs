use peckboard_api_plugin::auth::{
    authenticate, config_snapshot, constant_time_eq, managed_grant, presented_key, ApiConfig, ApiKey,
};
use peckboard_api_plugin::hashing::sha256_hex;
use peckboard_api_plugin::managed::{seed, ManagedSet};
use peckboard_api_plugin::string_map::StringMap;

fn key(secret: &str, scopes: &[&str]) -> ApiKey {
    ApiKey {
        key: secret.to_string(),
        scopes: scopes.iter().map(|s| s.to_string()).collect(),
        label: None,
    }
}

fn headers(pairs: &[(&str, &str)]) -> StringMap {
    let mut map = StringMap::new();
    for (name, value) in pairs {
        map.insert(name.to_string(), value.to_string());
    }
    map
}

fn presented(pairs: &[(&str, &str)]) -> Option<String> {
    presented_key(&headers(pairs))
}

#[test]
fn bearer_token_is_presented() {
    assert_eq!(presented(&[("authorization", "Bearer s3cret")]), Some("s3cret".to_string()));
    assert_eq!(presented(&[("authorization", "  bEaReR   s3cret  ")]), Some("s3cret".to_string()));
    assert_eq!(presented(&[("authorization", "Bearer two words")]), Some("two words".to_string()));
}

#[test]
fn x_api_key_is_presented() {
    assert_eq!(presented(&[("x-api-key", "s3cret")]), Some("s3cret".to_string()));
    assert_eq!(presented(&[("x-api-key", "\t s3cret\u{a0}")]), Some("s3cret".to_string()));
}

#[test]
fn bearer_token_wins_over_x_api_key() {
    assert_eq!(
        presented(&[("authorization", "Bearer one"), ("x-api-key", "two")]),
        Some("one".to_string())
    );
}

#[test]
fn header_without_a_bearer_token_leaves_x_api_key() {
    for header in ["Basic one", "Bearer", "Bearer ", "Bearer\tone", "", "one"] {
        assert_eq!(
            presented(&[("authorization", header), ("x-api-key", "two")]),
            Some("two".to_string())
        );
    }
}

#[test]
fn blank_or_missing_key_is_none() {
    assert_eq!(presented(&[]), None);
    assert_eq!(presented(&[("x-api-key", "  ")]), None);
    assert_eq!(presented(&[("authorization", "Bearer  ")]), None);
    assert_eq!(presented(&[("X-API-Key", "s3cret")]), None);
}

fn config(keys: Vec<ApiKey>) -> ApiConfig {
    ApiConfig { keys, bootstrap_admin_key: None }
}

fn granted(config: &ApiConfig, set: Option<ManagedSet>, pairs: &[(&str, &str)]) -> Option<Vec<String>> {
    authenticate(config, &set, &headers(pairs)).map(|grant| grant.scopes)
}

/// The scopes that a request with these headers is granted, which are the same before and after the
/// managed set is made of the configured keys.
fn scopes(config: &ApiConfig, pairs: &[(&str, &str)]) -> Option<Vec<String>> {
    let before = granted(config, None, pairs);
    assert_eq!(granted(config, Some(seed(config, 0)), pairs), before);
    before
}

#[test]
fn managed_key_authenticates() {
    let config = config(vec![key("one", &["read"]), key("two", &["read", "write"])]);
    let found = scopes(&config, &[("x-api-key", "two")]).unwrap();
    assert_eq!(found, vec!["read".to_string(), "write".to_string()]);
    assert!(scopes(&config, &[("x-api-key", "three")]).is_none());
    assert!(scopes(&config, &[]).is_none());
}

#[test]
fn last_key_of_a_secret_counts() {
    let config = config(vec![key("one", &["read"]), key("one", &["write"]), key("two", &["admin"])]);
    let found = scopes(&config, &[("authorization", "Bearer one")]).unwrap();
    assert_eq!(found, vec!["write".to_string()]);
}

#[test]
fn secret_with_outer_white_space_cannot_be_presented() {
    let config = config(vec![key(" one", &["read"])]);
    assert!(scopes(&config, &[("x-api-key", " one")]).is_none());
}

#[test]
fn blank_key_never_authenticates() {
    let config = config(vec![key("", &["read"]), key("  ", &["read"])]);
    for value in ["", " ", "  "] {
        assert!(scopes(&config, &[("x-api-key", value)]).is_none());
        let bearer = format!("Bearer {}", value);
        assert!(scopes(&config, &[("authorization", &bearer)]).is_none());
    }
}

#[test]
fn hash_of_a_key_is_no_key() {
    let config = config(vec![key("one", &["read"])]);
    let hash = sha256_hex("one");
    assert!(scopes(&config, &[("x-api-key", &hash)]).is_none());
}

#[test]
fn grant_is_found_by_hash() {
    let set = seed(&config(vec![key("one", &["read"]), key("two", &["write"])]), 0);
    let found = managed_grant(&set, &sha256_hex("two")).unwrap();
    assert_eq!(found.scopes, vec!["write".to_string()]);
    assert!(managed_grant(&set, "two").is_none());
    assert!(managed_grant(&set, "").is_none());
}

#[test]
fn secrets_are_hashed_with_sha_256() {
    assert_eq!(
        sha256_hex("abc"),
        "ba7816bf8f01cfea414140de5dae2223b00361a396177a9cb410ff61f20015ad"
    );
    assert_eq!(sha256_hex(""), "e3b0c44298fc1c149afbf4c8996fb92427ae41e4649b934ca495991b7852b855");
    assert_eq!(sha256_hex("\u{e9}"), "4a99557e4033c3539de2eb65472017cad5f9557f7a0625a09f1c3f6e2ba69c4c");
}

#[test]
fn bootstrap_key_grants_every_scope() {
    let mut config = config(vec![key("root", &["read"])]);
    config.bootstrap_admin_key = Some("root".to_string());
    let all = vec!["read".to_string(), "write".to_string(), "admin".to_string()];
    assert_eq!(scopes(&config, &[("x-api-key", "root")]), Some(all));
    assert!(scopes(&config, &[("x-api-key", "roots")]).is_none());
    assert!(scopes(&config, &[]).is_none());
    config.bootstrap_admin_key = None;
    assert_eq!(scopes(&config, &[("x-api-key", "root")]), Some(vec!["read".to_string()]));
}

#[test]
fn scopes_imply_no_others() {
    let admin = key("one", &["admin"]);
    assert!(admin.has_scope("admin"));
    assert!(!admin.has_scope("read"));
    assert!(!admin.has_scope("write"));
    assert!(!admin.has_scope(""));
}

#[test]
fn bytes_are_compared_to_the_end() {
    assert!(constant_time_eq(b"", b""));
    assert!(constant_time_eq(b"abc", b"abc"));
    assert!(!constant_time_eq(b"abc", b"abd"));
    assert!(!constant_time_eq(b"abc", b"bbc"));
    assert!(!constant_time_eq(b"abc", b"abcd"));
    assert!(!constant_time_eq(&[0x80, 1], &[0, 0x81]));
}

#[test]
fn snapshot_is_a_copy() {
    let mut one = key("one", &["read"]);
    one.label = Some("ci".to_string());
    let keys = vec![one, key("two", &[])];
    let stored = Some(ApiConfig { keys, bootstrap_admin_key: Some("root".to_string()) });
    let config = config_snapshot(&stored);
    assert_eq!(config.keys.len(), 2);
    assert_eq!(config.keys[0].key, "one");
    assert_eq!(config.keys[0].scopes, vec!["read".to_string()]);
    assert_eq!(config.keys[0].label, Some("ci".to_string()));
    assert_eq!(config.keys[1].label, None);
    assert_eq!(config.bootstrap_admin_key, Some("root".to_string()));
    assert_eq!(config_snapshot(&None).keys.len(), 0);
    assert_eq!(config_snapshot(&None).bootstrap_admin_key, None);
}
