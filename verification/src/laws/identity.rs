//! Whose request it is.

use crate::auth::{
    all_scopes, authenticate, bearer_key, config_in_force, configured_key, granted, is_known_scope,
    key_from_authorization, key_presented, key_with_hash, no_config, presented_key, secret_grants,
    ApiConfig, ApiKey, ConfigModel, Grant, KeyModel,
};
use crate::hashing::hash_of;
use crate::laws::access::{lemma_found_key, lemma_last_configured, lemma_last_of_a_hash};
use crate::laws::terms::{
    are_granted, are_strangers, bears, blank, caseless, grants, hashes, is_configured, is_managed,
    presents, same_letter, trims_to, white,
};
use crate::laws::texts::{law_capitals, law_hash, law_splitting, law_trimming};
use crate::managed::{set_model, ManagedKey, ManagedModel, ManagedSet};
use crate::string_map::StringMap;
use crate::text::{split_at_first, texts, trimmed};
use vstd::prelude::*;

verus! {

/// The key of a request is the one that its headers present: a bearer token, or where they bear none
/// an `X-API-Key`, of whatever length.
pub proof fn law_presented_key(headers: Map<Seq<char>, Seq<char>>, key: Seq<char>)
    ensures
        key_presented(headers) == Some(key) <==> presents(headers, key),
{
    lemma_bears(headers, key);
    assert forall|token: Seq<char>|
        key_from_authorization(headers) == Some(token) <==> #[trigger] bears(headers, token) by {
        lemma_bears(headers, token);
    }
    if headers.contains_key("x-api-key"@) {
        law_trimming(headers["x-api-key"@], key);
    }
    if let Some(token) = key_from_authorization(headers) {
        assert(bears(headers, token));
    }
}

proof fn lemma_bears(headers: Map<Seq<char>, Seq<char>>, key: Seq<char>)
    ensures
        key_from_authorization(headers) == Some(key) <==> bears(headers, key),
{
    if headers.contains_key("authorization"@) {
        let header = headers["authorization"@];
        if bearer_key(header) == Some(key) {
            let (scheme, rest) = split_at_first(trimmed(header), ' ')->0;
            law_splitting(trimmed(header), ' ', scheme, rest);
            law_trimming(header, scheme + seq![' '] + rest);
            law_capitals(scheme, "bearer"@);
            law_trimming(rest, key);
            assert(trims_to(header, scheme + seq![' '] + rest));
        }
        if bears(headers, key) {
            let (scheme, rest) = choose|scheme: Seq<char>, rest: Seq<char>|
                trims_to(header, #[trigger] (scheme + seq![' '] + rest)) && !scheme.contains(' ')
                    && caseless(scheme, "bearer"@) && trims_to(rest, key);
            law_trimming(header, scheme + seq![' '] + rest);
            law_splitting(trimmed(header), ' ', scheme, rest);
            law_capitals(scheme, "bearer"@);
            law_trimming(rest, key);
        }
    }
}

/// A request with a header `Authorization: Bearer <key>` presents that key, whatever its length,
/// whatever the case of the scheme, and whatever other headers it has.
pub proof fn law_bearer_token_is_presented(
    headers: Map<Seq<char>, Seq<char>>,
    scheme: Seq<char>,
    key: Seq<char>,
)
    requires
        headers.contains_key("authorization"@),
        headers["authorization"@] == scheme + seq![' '] + key,
        caseless(scheme, "bearer"@),
        key.len() > 0,
        trims_to(key, key),
    ensures
        key_presented(headers) == Some(key),
{
    let header = headers["authorization"@];
    let none = Seq::<char>::empty();
    reveal_strlit("bearer");
    assert("bearer"@.len() == 6);
    assert forall|i: int| 0 <= i < 6 implies scheme[i] != ' ' && !white(
        scheme[i],
    ) by {
        assert(same_letter(scheme[i], "bearer"@[i]));
    }
    assert(!scheme.contains(' '));
    assert(header[0] == scheme[0] && header.last() == key.last());
    assert(blank(none));
    assert(header =~= (none + header) + none);
    assert(trims_to(header, scheme + seq![' '] + key));
    assert(bears(headers, key));
    law_presented_key(headers, key);
}

/// What a request is granted is what the key grants that it presents, just that.
pub proof fn law_granted_scopes(
    config: ConfigModel,
    loaded: Option<Seq<ManagedModel>>,
    headers: Map<Seq<char>, Seq<char>>,
    scopes: Seq<Seq<char>>,
)
    ensures
        granted(config, loaded, headers) == Some(scopes) <==> are_granted(
            config,
            loaded,
            headers,
            scopes,
        ),
{
    if let Some(secret) = key_presented(headers) {
        law_presented_key(headers, secret);
        lemma_grants(config, loaded, secret, scopes);
    }
    assert forall|secret: Seq<char>| #[trigger] presents(headers, secret) implies key_presented(
        headers,
    ) == Some(secret) by {
        law_presented_key(headers, secret);
    }
}

/// A request is a stranger's just where nothing is granted to it.
pub proof fn law_strangers(
    config: ConfigModel,
    loaded: Option<Seq<ManagedModel>>,
    headers: Map<Seq<char>, Seq<char>>,
)
    ensures
        granted(config, loaded, headers) is None <==> are_strangers(config, loaded, headers),
{
    if let Some(scopes) = granted(config, loaded, headers) {
        law_granted_scopes(config, loaded, headers, scopes);
    }
    assert forall|scopes: Seq<Seq<char>>| #[trigger] are_granted(config, loaded, headers, scopes)
        implies granted(config, loaded, headers) == Some(scopes) by {
        law_granted_scopes(config, loaded, headers, scopes);
    }
}

proof fn lemma_grants(
    config: ConfigModel,
    loaded: Option<Seq<ManagedModel>>,
    secret: Seq<char>,
    scopes: Seq<Seq<char>>,
)
    ensures
        secret_grants(config, loaded, secret) == Some(scopes) <==> grants(
            config,
            loaded,
            secret,
            scopes,
        ),
{
    assert(all_scopes() =~= seq!["read"@, "write"@, "admin"@]);
    if config.bootstrap_admin_key != Some(secret) {
        match loaded {
            Some(set) => {
                lemma_last_hash(set, hash_of(secret));
                assert forall|hash: Seq<char>| hash_of(secret) == hash <==> #[trigger] hashes(
                    secret,
                    hash,
                ) by {
                    law_hash(secret, hash);
                }
                assert forall|i: int| #[trigger] is_managed(set, i, secret) implies key_with_hash(
                    set,
                    hash_of(secret),
                ) == Some(set[i]) by {
                    lemma_last_of_a_hash(set, i);
                }
                if let Some(key) = key_with_hash(set, hash_of(secret)) {
                    let i = choose|i: int| #[trigger] last_hash_at(set, i, hash_of(secret)) && set[i]
                        == key;
                    assert(is_managed(set, i, secret));
                }
            },
            None => {
                lemma_last_secret(config.keys, secret);
                assert forall|i: int| #[trigger] is_configured(config.keys, i, secret) implies
                    configured_key(config.keys, secret) == Some(config.keys[i]) by {
                    lemma_last_configured(config.keys, i);
                }
            },
        }
    }
}

spec fn last_hash_at(set: Seq<ManagedModel>, i: int, hash: Seq<char>) -> bool {
    &&& 0 <= i < set.len()
    &&& set[i].hash == hash
    &&& forall|j: int| i < j < set.len() ==> (#[trigger] set[j]).hash != hash
}

proof fn lemma_last_hash(set: Seq<ManagedModel>, hash: Seq<char>)
    ensures
        key_with_hash(set, hash) matches Some(key) ==> exists|i: int|
            #[trigger] last_hash_at(set, i, hash) && set[i] == key,
    decreases set.len(),
{
    if set.len() > 0 {
        let before = set.drop_last();
        if set.last().hash == hash {
            assert(last_hash_at(set, set.len() - 1, hash));
        } else {
            lemma_last_hash(before, hash);
            if let Some(key) = key_with_hash(set, hash) {
                let i = choose|i: int| #[trigger] last_hash_at(before, i, hash) && before[i] == key;
                assert forall|j: int| i < j < set.len() implies (#[trigger] set[j]).hash != hash by {
                    if j < before.len() {
                        assert(before[j] == set[j]);
                    }
                }
                assert(last_hash_at(set, i, hash));
            }
        }
    }
}

proof fn lemma_last_secret(keys: Seq<KeyModel>, secret: Seq<char>)
    ensures
        configured_key(keys, secret) matches Some(key) ==> exists|i: int|
            #[trigger] is_configured(keys, i, secret) && keys[i] == key,
    decreases keys.len(),
{
    if keys.len() > 0 {
        let before = keys.drop_last();
        if keys.last().key == secret {
            assert(is_configured(keys, keys.len() - 1, secret));
        } else {
            lemma_last_secret(before, secret);
            if let Some(key) = configured_key(keys, secret) {
                let i = choose|i: int| #[trigger] is_configured(before, i, secret) && before[i]
                    == key;
                assert forall|j: int| i < j < keys.len() implies (#[trigger] keys[j]).key != secret by {
                    if j < before.len() {
                        assert(before[j] == keys[j]);
                    }
                }
                assert(is_configured(keys, i, secret));
            }
        }
    }
}

/// The managed key of a hash is the last that is kept as it, and there is none where none is.
pub proof fn law_key_by_hash(set: Seq<ManagedModel>, hash: Seq<char>, i: int)
    ensures
        0 <= i < set.len() && set[i].hash == hash && (forall|j: int|
            i < j < set.len() ==> (#[trigger] set[j]).hash != hash) ==> key_with_hash(set, hash)
            == Some(set[i]),
        (forall|j: int| 0 <= j < set.len() ==> (#[trigger] set[j]).hash != hash) <==> key_with_hash(
            set,
            hash,
        ) is None,
{
    if 0 <= i < set.len() && set[i].hash == hash && (forall|j: int|
        i < j < set.len() ==> (#[trigger] set[j]).hash != hash) {
        lemma_last_of_a_hash(set, i);
    }
    lemma_last_hash(set, hash);
    lemma_found_key(set, hash);
    if key_with_hash(set, hash) is None {
        lemma_none_found(set, hash);
    }
}

proof fn lemma_none_found(set: Seq<ManagedModel>, hash: Seq<char>)
    requires
        key_with_hash(set, hash) is None,
    ensures
        forall|j: int| 0 <= j < set.len() ==> (#[trigger] set[j]).hash != hash,
    decreases set.len(),
{
    if set.len() > 0 {
        let before = set.drop_last();
        lemma_none_found(before, hash);
        assert forall|j: int| 0 <= j < set.len() implies (#[trigger] set[j]).hash != hash by {
            if j < before.len() {
                assert(before[j].hash != hash);
            }
        }
    }
}

/// There are three scopes.
pub proof fn law_scopes(scope: Seq<char>)
    ensures
        is_known_scope(scope) <==> scope == "read"@ || scope == "write"@ || scope == "admin"@,
{
}

/// What a configured key says is what its fields hold.
pub proof fn law_key_fields(key: ApiKey, i: int)
    ensures
        key@.key == key.key@,
        key@.scopes.len() == key.scopes@.len(),
        0 <= i < key.scopes@.len() ==> key@.scopes[i] == key.scopes@[i]@,
        match key.label {
            Some(label) => key@.label == Some(label@),
            None => key@.label is None,
        },
{
}

/// What a managed key says is what its fields hold.
pub proof fn law_managed_fields(key: ManagedKey, set: ManagedSet, i: int)
    ensures
        key@.id == key.id@,
        match key.label {
            Some(label) => key@.label == Some(label@),
            None => key@.label is None,
        },
        key@.scopes.len() == key.scopes@.len(),
        0 <= i < key.scopes@.len() ==> key@.scopes[i] == key.scopes@[i]@,
        key@.created == key.created,
        key@.masked == key.masked@,
        key@.hash == key.hash@,
        set@.len() == set.keys@.len(),
        0 <= i < set.keys@.len() ==> set@[i] == set.keys@[i]@,
        set_model(Some(set)) == Some(set@),
        set_model(None) is None,
{
}

/// The configuration in force is the one that has been stored, key by key, and without one there are
/// no keys and no bootstrap secret.
pub proof fn law_configuration_in_force(config: ApiConfig, i: int)
    ensures
        config_in_force(Some(config)).keys.len() == config.keys@.len(),
        0 <= i < config.keys@.len() ==> config_in_force(Some(config)).keys[i] == config.keys@[i]@,
        match config.bootstrap_admin_key {
            Some(secret) => config_in_force(Some(config)).bootstrap_admin_key == Some(secret@),
            None => config_in_force(Some(config)).bootstrap_admin_key is None,
        },
        config@ == config_in_force(Some(config)),
        config_in_force(None).keys.len() == 0,
        config_in_force(None).bootstrap_admin_key is None,
        no_config() == config_in_force(None),
{
}

/// A call of `presented_key` returns the key that the headers present, and nothing where they
/// present none.
pub proof fn law_presented_key_call(headers: &StringMap, key: Option<String>)
    requires
        call_ensures(presented_key, (headers,), key),
    ensures
        match key {
            Some(k) => presents(headers@, k@),
            None => forall|k: Seq<char>| !presents(headers@, k),
        },
{
    if let Some(k) = key {
        law_presented_key(headers@, k@);
    }
    assert forall|k: Seq<char>| #[trigger] presents(headers@, k) implies key_presented(headers@)
        == Some(k) by {
        law_presented_key(headers@, k);
    }
}

/// A call of `authenticate` returns the scopes that the headers are granted, and nothing to a
/// stranger.
pub proof fn law_authenticate_call(
    config: &ApiConfig,
    loaded: &Option<ManagedSet>,
    headers: &StringMap,
    grant: Option<Grant>,
)
    requires
        call_ensures(authenticate, (config, loaded, headers), grant),
    ensures
        match grant {
            Some(g) => are_granted(config@, set_model(*loaded), headers@, g@),
            None => are_strangers(config@, set_model(*loaded), headers@),
        },
{
    law_strangers(config@, set_model(*loaded), headers@);
    if let Some(g) = grant {
        law_granted_scopes(config@, set_model(*loaded), headers@, g@);
    }
}

/// A key or a grant has a scope just where it is one of those it lists.
pub proof fn law_has_scope_call(key: &ApiKey, grant: &Grant, scope: &str, has: bool, given: bool)
    requires
        call_ensures(ApiKey::has_scope, (key, scope), has),
        call_ensures(Grant::has_scope, (grant, scope), given),
    ensures
        has <==> exists|i: int| 0 <= i < key.scopes@.len() && (#[trigger] key.scopes@[i])@ == scope@,
        given <==> exists|i: int|
            0 <= i < grant.scopes@.len() && (#[trigger] grant.scopes@[i])@ == scope@,
{
    lemma_listed(key.scopes@, scope@);
    lemma_listed(grant.scopes@, scope@);
}

proof fn lemma_listed(strings: Seq<String>, s: Seq<char>)
    ensures
        texts(strings).contains(s) <==> exists|i: int|
            0 <= i < strings.len() && (#[trigger] strings[i])@ == s,
{
    let all = texts(strings);
    if all.contains(s) {
        let i = choose|i: int| 0 <= i < all.len() && all[i] == s;
        assert(strings[i]@ == s);
    }
    assert forall|i: int| 0 <= i < strings.len() && (#[trigger] strings[i])@ == s implies
        all.contains(s) by {
        assert(all[i] == s);
    }
}

} // verus!
