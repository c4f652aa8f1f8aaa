//! API keys: how they are configured, how a request presents one, and what that one grants.

use crate::hashing::{hash_of, sha256_hex};
use crate::managed::{set_model, ManagedModel, ManagedSet};
use crate::string_map::StringMap;
use crate::text::{
    ascii_uppercase, copy_optional, copy_texts, eq_ignore_ascii_case, lemma_encoding_is_injective,
    lists_text, optional_text, split_at_first, split_once, texts, trim, trimmed,
};
use vstd::prelude::*;

verus! {

/// The scope that reading data takes.
pub const SCOPE_READ: &'static str = "read";

/// The scope that changing data takes.
pub const SCOPE_WRITE: &'static str = "write";

/// The scope that managing keys takes.
pub const SCOPE_ADMIN: &'static str = "admin";

/// Whether a scope is one of those there are.
pub open spec fn is_known_scope(scope: Seq<char>) -> bool {
    scope == SCOPE_READ@ || scope == SCOPE_WRITE@ || scope == SCOPE_ADMIN@
}

/// All the scopes there are.
pub open spec fn all_scopes() -> Seq<Seq<char>> {
    seq![SCOPE_READ@, SCOPE_WRITE@, SCOPE_ADMIN@]
}

/// What an [`ApiKey`] says.
pub struct KeyModel {
    pub key: Seq<char>,
    pub scopes: Seq<Seq<char>>,
    pub label: Option<Seq<char>>,
}

/// One configured API key and the scopes it grants. The label is a name for operators. The secret
/// is `key`.
#[derive(Debug)]
pub struct ApiKey {
    pub key: String,
    pub scopes: Vec<String>,
    pub label: Option<String>,
}

impl View for ApiKey {
    type V = KeyModel;

    open spec fn view(&self) -> KeyModel {
        KeyModel {
            key: self.key@,
            scopes: texts(self.scopes@),
            label: optional_text(self.label),
        }
    }
}

impl Clone for ApiKey {
    fn clone(&self) -> (copy: ApiKey)
        ensures
            copy@ == self@,
    {
        ApiKey {
            key: self.key.clone(),
            scopes: copy_texts(&self.scopes),
            label: copy_optional(&self.label),
        }
    }
}

impl ApiKey {
    /// Whether the key grants `scope`. A scope implies no other.
    pub fn has_scope(&self, scope: &str) -> (has: bool)
        ensures
            has == self@.scopes.contains(scope@),
    {
        lists_text(&self.scopes, scope)
    }
}

/// What an [`ApiConfig`] says.
pub struct ConfigModel {
    pub keys: Seq<KeyModel>,
    pub bootstrap_admin_key: Option<Seq<char>>,
}

/// The configuration of the plugin: the keys that the managed set is seeded with, and a secret that
/// is valid at all times and grants every scope.
#[derive(Debug)]
pub struct ApiConfig {
    pub keys: Vec<ApiKey>,
    pub bootstrap_admin_key: Option<String>,
}

impl View for ApiConfig {
    type V = ConfigModel;

    open spec fn view(&self) -> ConfigModel {
        ConfigModel {
            keys: Seq::new(self.keys@.len(), |i: int| self.keys@[i]@),
            bootstrap_admin_key: optional_text(self.bootstrap_admin_key),
        }
    }
}

impl Clone for ApiConfig {
    fn clone(&self) -> (copy: ApiConfig)
        ensures
            copy@ == self@,
    {
        let mut keys: Vec<ApiKey> = Vec::new();
        for i in 0..self.keys.len()
            invariant
                keys@.len() == i,
                forall|j: int| 0 <= j < i ==> (#[trigger] keys@[j])@ == self.keys@[j]@,
        {
            keys.push(self.keys[i].clone());
        }
        let copy = ApiConfig {
            keys,
            bootstrap_admin_key: copy_optional(&self.bootstrap_admin_key),
        };
        assert(copy@.keys =~= self@.keys);
        copy
    }
}

/// The configuration that says nothing.
pub open spec fn no_config() -> ConfigModel {
    ConfigModel { keys: Seq::empty(), bootstrap_admin_key: None }
}

impl Default for ApiConfig {
    /// No keys.
    fn default() -> (config: ApiConfig)
        ensures
            config@ == no_config(),
    {
        let config = ApiConfig { keys: Vec::new(), bootstrap_admin_key: None };
        assert(config@.keys =~= Seq::<KeyModel>::empty());
        config
    }
}

/// The configuration in force when `stored` is what has been configured so far.
pub open spec fn config_in_force(stored: Option<ApiConfig>) -> ConfigModel {
    match stored {
        Some(config) => config@,
        None => no_config(),
    }
}

/// The configuration in force: none has no keys.
pub fn config_snapshot(stored: &Option<ApiConfig>) -> (config: ApiConfig)
    ensures
        config@ == config_in_force(*stored),
{
    match stored {
        Some(config) => config.clone(),
        None => ApiConfig::default(),
    }
}

/// The key in an `Authorization` header of the form `Bearer <key>`. The scheme may be written in
/// either case, and a blank key is none.
pub open spec fn bearer_key(header: Seq<char>) -> Option<Seq<char>> {
    match split_at_first(trimmed(header), ' ') {
        Some((scheme, rest)) => if ascii_uppercase(scheme) == ascii_uppercase("bearer"@)
            && trimmed(rest).len() > 0 {
            Some(trimmed(rest))
        } else {
            None
        },
        None => None,
    }
}

/// The key that the headers present as a bearer token.
pub open spec fn key_from_authorization(headers: Map<Seq<char>, Seq<char>>) -> Option<Seq<char>> {
    if headers.contains_key("authorization"@) {
        bearer_key(headers["authorization"@])
    } else {
        None
    }
}

/// The key that the headers present as `X-API-Key`.
pub open spec fn key_from_x_api_key(headers: Map<Seq<char>, Seq<char>>) -> Option<Seq<char>> {
    if headers.contains_key("x-api-key"@) && trimmed(headers["x-api-key"@]).len() > 0 {
        Some(trimmed(headers["x-api-key"@]))
    } else {
        None
    }
}

/// The key that the headers present, a bearer token before `X-API-Key`.
pub open spec fn key_presented(headers: Map<Seq<char>, Seq<char>>) -> Option<Seq<char>> {
    match key_from_authorization(headers) {
        Some(key) => Some(key),
        None => key_from_x_api_key(headers),
    }
}

/// The managed key with the hash `hash`: the last of them, where there are several.
pub open spec fn key_with_hash(set: Seq<ManagedModel>, hash: Seq<char>) -> Option<ManagedModel>
    decreases set.len(),
{
    if set.len() == 0 {
        None
    } else if set.last().hash == hash {
        Some(set.last())
    } else {
        key_with_hash(set.drop_last(), hash)
    }
}

/// The configured key whose secret is `secret`: the last of them, where there are several.
pub open spec fn configured_key(keys: Seq<KeyModel>, secret: Seq<char>) -> Option<KeyModel>
    decreases keys.len(),
{
    if keys.len() == 0 {
        None
    } else if keys.last().key == secret {
        Some(keys.last())
    } else {
        configured_key(keys.drop_last(), secret)
    }
}

/// The scopes that a secret grants, `loaded` being the managed set if one has been made: every scope
/// where it is the bootstrap secret; else those of the managed key that is kept as its hash; and
/// where no set has been made, those of the configured key that it is.
pub open spec fn secret_grants(
    config: ConfigModel,
    loaded: Option<Seq<ManagedModel>>,
    secret: Seq<char>,
) -> Option<Seq<Seq<char>>> {
    if config.bootstrap_admin_key == Some(secret) {
        Some(all_scopes())
    } else {
        match loaded {
            Some(set) => match key_with_hash(set, hash_of(secret)) {
                Some(key) => Some(key.scopes),
                None => None,
            },
            None => match configured_key(config.keys, secret) {
                Some(key) => Some(key.scopes),
                None => None,
            },
        }
    }
}

/// The scopes that the key grants which the headers present.
pub open spec fn granted(
    config: ConfigModel,
    loaded: Option<Seq<ManagedModel>>,
    headers: Map<Seq<char>, Seq<char>>,
) -> Option<Seq<Seq<char>>> {
    match key_presented(headers) {
        Some(secret) => secret_grants(config, loaded, secret),
        None => None,
    }
}

/// The scopes of a key that a request has been authenticated with.
pub struct Grant {
    pub scopes: Vec<String>,
}

impl View for Grant {
    type V = Seq<Seq<char>>;

    open spec fn view(&self) -> Seq<Seq<char>> {
        texts(self.scopes@)
    }
}

impl Grant {
    /// Whether `scope` is granted. A scope implies no other.
    pub fn has_scope(&self, scope: &str) -> (has: bool)
        ensures
            has == self@.contains(scope@),
    {
        lists_text(&self.scopes, scope)
    }
}

/// Compares two byte strings. Strings of one length are compared to their end whatever they hold,
/// so that the time it takes does not tell where they differ.
pub fn constant_time_eq(a: &[u8], b: &[u8]) -> (equal: bool)
    ensures
        equal == (a@ == b@),
{
    if a.len() != b.len() {
        return false;
    }
    let mut diff: u8 = 0;
    assert(a@.take(0) == b@.take(0));
    for i in 0..a.len()
        invariant
            a@.len() == b@.len(),
            (diff == 0) == (a@.take(i as int) == b@.take(i as int)),
    {
        let x: u8 = a[i];
        let y: u8 = b[i];
        assert((diff | (x ^ y)) == 0 <==> diff == 0 && x == y) by (bit_vector);
        proof {
            let left = a@.take(i + 1);
            let right = b@.take(i + 1);
            assert(left.drop_last() == a@.take(i as int));
            assert(right.drop_last() == b@.take(i as int));
            assert(left == left.drop_last().push(x));
            assert(right == right.drop_last().push(y));
            assert(left == right <==> left.drop_last() == right.drop_last() && x == y) by {
                assert(left.last() == x && right.last() == y);
            }
        }
        diff = diff | (x ^ y);
    }
    assert(a@.take(a@.len() as int) == a@);
    assert(b@.take(b@.len() as int) == b@);
    diff == 0
}

/// The key that the headers present, a bearer token before `X-API-Key`. The names of the headers
/// are in small letters. A missing or blank key is none.
pub fn presented_key(headers: &StringMap) -> (key: Option<String>)
    ensures
        match key {
            Some(k) => key_presented(headers@) == Some(k@),
            None => key_presented(headers@) is None,
        },
{
    if let Some(header) = headers.get("authorization") {
        if let Some((scheme, rest)) = split_once(trim(header.as_str()).as_str(), ' ') {
            if eq_ignore_ascii_case(scheme.as_str(), "bearer") {
                let key = trim(rest.as_str());
                if !key.as_str().is_empty() {
                    return Some(key);
                }
            }
        }
    }
    if let Some(header) = headers.get("x-api-key") {
        let key = trim(header.as_str());
        if !key.as_str().is_empty() {
            return Some(key);
        }
    }
    None
}

/// Whether two strings are equal, compared to their end where they are of one length.
fn constant_time_same(a: &str, b: &str) -> (same: bool)
    ensures
        same == (a@ == b@),
{
    let same = constant_time_eq(a.as_bytes(), b.as_bytes());
    proof {
        if same {
            lemma_encoding_is_injective(a@, b@);
        }
    }
    same
}

/// Whether a text is the bootstrap secret.
pub fn is_bootstrap(config: &ApiConfig, presented: &str) -> (is: bool)
    ensures
        is == (config@.bootstrap_admin_key == Some(presented@)),
{
    match &config.bootstrap_admin_key {
        Some(secret) => constant_time_same(secret.as_str(), presented),
        None => false,
    }
}

/// The scopes of the managed key that is kept as `hash`. Every key is compared, whether or not one
/// has matched.
pub fn managed_grant(set: &ManagedSet, hash: &str) -> (grant: Option<Grant>)
    ensures
        match grant {
            Some(g) => key_with_hash(set@, hash@) matches Some(key) && key.scopes == g@,
            None => key_with_hash(set@, hash@) is None,
        },
{
    let mut matched: Option<usize> = None;
    for i in 0..set.keys.len()
        invariant
            match matched {
                Some(j) => j < set@.len() && key_with_hash(set@.take(i as int), hash@) == Some(
                    set@[j as int],
                ),
                None => key_with_hash(set@.take(i as int), hash@) is None,
            },
    {
        assert(set@.take(i + 1).drop_last() == set@.take(i as int));
        if constant_time_same(set.keys[i].hash.as_str(), hash) {
            matched = Some(i);
        }
    }
    assert(set@.take(set@.len() as int) == set@);
    match matched {
        Some(i) => Some(Grant { scopes: copy_texts(&set.keys[i].scopes) }),
        None => None,
    }
}

/// The scopes of the configured key whose secret is `presented`. Every key is compared, whether or
/// not one has matched.
pub fn configured_grant(config: &ApiConfig, presented: &str) -> (grant: Option<Grant>)
    ensures
        match grant {
            Some(g) => configured_key(config@.keys, presented@) matches Some(key) && key.scopes
                == g@,
            None => configured_key(config@.keys, presented@) is None,
        },
{
    let ghost keys = config@.keys;
    let mut matched: Option<usize> = None;
    for i in 0..config.keys.len()
        invariant
            keys == config@.keys,
            match matched {
                Some(j) => j < keys.len() && configured_key(keys.take(i as int), presented@) == Some(
                    keys[j as int],
                ),
                None => configured_key(keys.take(i as int), presented@) is None,
            },
    {
        assert(keys.take(i + 1).drop_last() == keys.take(i as int));
        if constant_time_same(config.keys[i].key.as_str(), presented) {
            matched = Some(i);
        }
    }
    assert(keys.take(keys.len() as int) == keys);
    match matched {
        Some(i) => Some(Grant { scopes: copy_texts(&config.keys[i].scopes) }),
        None => None,
    }
}

/// Authenticates a request by the key that its headers present, `loaded` being the managed set if
/// one has been made. The key is hashed, and its hash compared with those that are kept. While none
/// are, it is compared with the configured secrets.
pub fn authenticate(
    config: &ApiConfig,
    loaded: &Option<ManagedSet>,
    headers: &StringMap,
) -> (grant: Option<Grant>)
    ensures
        match grant {
            Some(g) => granted(config@, set_model(*loaded), headers@) == Some(g@),
            None => granted(config@, set_model(*loaded), headers@) is None,
        },
{
    let presented = match presented_key(headers) {
        Some(presented) => presented,
        None => {
            return None;
        },
    };
    if is_bootstrap(config, presented.as_str()) {
        let mut scopes: Vec<String> = Vec::new();
        scopes.push(SCOPE_READ.to_owned());
        scopes.push(SCOPE_WRITE.to_owned());
        scopes.push(SCOPE_ADMIN.to_owned());
        assert(texts(scopes@) =~= all_scopes());
        return Some(Grant { scopes });
    }
    match loaded {
        Some(set) => managed_grant(set, sha256_hex(presented.as_str()).as_str()),
        None => configured_grant(config, presented.as_str()),
    }
}

} // verus!
