//! Who is served what.

use crate::auth::{
    all_scopes, bearer_key, config_in_force, configured_key, granted, is_known_scope,
    key_from_authorization, key_presented, key_with_hash, ApiConfig, ConfigModel, KeyModel,
    SCOPE_ADMIN, SCOPE_READ, SCOPE_WRITE,
};
use crate::hashing::{hash_of, hex, hex_digit, sha256};
use crate::json::json_parse;
use crate::keys::key_list;
use crate::managed::{has_key_id, seeded_set, shown_members, ManagedModel};
use crate::minting::Facts;
use crate::plugin::{
    data_after, endpoint_action, forbidden_reply, health_reply, hook_action, loaded_action,
    open_reply, refusal, request_action, resumed_action, scope_of, set_in_force, setting_of,
};
use crate::response::unauthorized_reply;
use crate::routes::{route_of, RequestModel, Route};
use crate::steps::{Action, After, HostFunction, Next, Step};
use crate::text::{
    ascii_upper, ascii_uppercase, first_index, is_white_space, lemma_first_index_after, trimmed,
};
use vstd::prelude::*;
use vstd::utf8::encode_utf8;

verus! {

/// The endpoint that a request names.
pub open spec fn route(request: RequestModel) -> Route {
    route_of(request.method, request.path)
}

/// How a request ends, once what is to be kept has been kept. One that waits for the managed set has
/// no end yet.
pub open spec fn end_of(action: Action) -> Option<After> {
    match action {
        Action::Now(after) => Some(after),
        Action::Seed(_, after) => Some(after),
        Action::Save(_, after) => Some(after),
        Action::Load => None,
    }
}

/// What a step goes on with.
pub open spec fn next_of(step: Step) -> Option<Next> {
    match step {
        Step::Now(next) => Some(next),
        Step::Seed(_, next) => Some(next),
        Step::Save(_, next) => Some(next),
        Step::Load(_) => None,
    }
}

/// What the host has kept, where that can be read: a managed set, or none yet.
pub open spec fn kept(outcome: Result<Seq<char>, Seq<char>>) -> Option<Option<Seq<ManagedModel>>> {
    match outcome {
        Ok(out) => match setting_of(json_parse(out)) {
            Ok(loaded) => Some(loaded),
            Err(_) => None,
        },
        Err(_) => None,
    }
}

/// Whether two different texts have one SHA-256.
pub open spec fn collide(a: Seq<char>, b: Seq<char>) -> bool {
    a != b && sha256(encode_utf8(a)) == sha256(encode_utf8(b))
}

/// The scope that a call of the host takes.
pub open spec fn scope_of_call(function: HostFunction) -> Seq<char> {
    match function {
        HostFunction::ListProjects => SCOPE_READ@,
        HostFunction::ListCards => SCOPE_READ@,
        HostFunction::CreateCard => SCOPE_WRITE@,
    }
}

/// The health check is answered with 200 whatever the request presents, a key or none, and whatever
/// the host returns: where it does not hand out what it has kept, as before the managed set has been
/// made.
pub proof fn law_health_is_open(
    config: ConfigModel,
    outcome: Result<Seq<char>, Seq<char>>,
    request: RequestModel,
    facts: Option<Facts>,
)
    requires
        route(request) == Route::Health,
    ensures
        request_action(request) == Action::Load,
        resumed_action(config, outcome, request, facts) == Action::Now(
            After::Reply(
                health_reply(
                    config,
                    match kept(outcome) {
                        Some(loaded) => loaded,
                        None => None,
                    },
                ),
            ),
        ),
{
}

/// The management page, its files, the preflight and what is no endpoint are answered at once,
/// whatever the request presents, whatever keys there are and whatever the host returns.
pub proof fn law_page_is_open(
    config: ConfigModel,
    outcome: Result<Seq<char>, Seq<char>>,
    request: RequestModel,
    facts: Option<Facts>,
)
    requires
        open_reply(route(request)) is Some,
    ensures
        request_action(request) == Action::Now(After::Reply(open_reply(route(request))->0)),
        resumed_action(config, outcome, request, facts) == request_action(request),
{
}

/// An endpoint is open to all, or the health check, or asks for a scope.
pub proof fn law_every_other_endpoint_asks_for_a_scope(route: Route)
    ensures
        open_reply(route) is None && route != Route::Health <==> scope_of(route) is Some,
{
}

/// Where an endpoint asks for a scope, a request that presents no key is answered with 401 and the
/// challenge. The host is not even asked for the keys.
pub proof fn law_no_key_is_unauthorized(
    config: ConfigModel,
    outcome: Result<Seq<char>, Seq<char>>,
    request: RequestModel,
    facts: Option<Facts>,
)
    requires
        scope_of(route(request)) is Some,
        key_presented(request.headers) is None,
    ensures
        request_action(request) == Action::Now(After::Reply(unauthorized_reply())),
        resumed_action(config, outcome, request, facts) == request_action(request),
{
}

/// Whether a secret is known: it is the bootstrap secret, or that of a key in force.
pub open spec fn is_known(
    config: ConfigModel,
    loaded: Option<Seq<ManagedModel>>,
    secret: Seq<char>,
) -> bool {
    ||| config.bootstrap_admin_key == Some(secret)
    ||| match loaded {
        Some(set) => exists|i: int| 0 <= i < set.len() && (#[trigger] set[i]).hash == hash_of(secret),
        None => exists|i: int| 0 <= i < config.keys.len() && (#[trigger] config.keys[i]).key == secret,
    }
}

/// A request is authenticated just where it presents a key that is known.
pub proof fn law_known_keys_authenticate(
    config: ConfigModel,
    loaded: Option<Seq<ManagedModel>>,
    headers: Map<Seq<char>, Seq<char>>,
)
    ensures
        granted(config, loaded, headers) is Some <==> (key_presented(headers) matches Some(secret)
            && is_known(config, loaded, secret)),
{
    if let Some(secret) = key_presented(headers) {
        match loaded {
            Some(set) => {
                lemma_found_key(set, hash_of(secret));
                assert forall|i: int|
                    0 <= i < set.len() && (#[trigger] set[i]).hash == hash_of(secret) implies key_with_hash(
                    set,
                    hash_of(secret),
                ) is Some by {
                    lemma_some_key_found(set, i);
                }
            },
            None => {
                lemma_configured_key(config.keys, secret);
            },
        }
    }
}

/// Until the managed set has been made, a request that presents a configured secret is granted the
/// scopes of the last configured key that has it, unless it is the bootstrap secret.
pub proof fn law_configured_keys_authenticate(
    config: ConfigModel,
    headers: Map<Seq<char>, Seq<char>>,
    i: int,
)
    requires
        0 <= i < config.keys.len(),
        key_presented(headers) == Some(config.keys[i].key),
        forall|j: int|
            i < j < config.keys.len() ==> (#[trigger] config.keys[j]).key != config.keys[i].key,
        config.bootstrap_admin_key != key_presented(headers),
    ensures
        granted(config, None, headers) == Some(config.keys[i].scopes),
{
    lemma_last_configured(config.keys, i);
}

proof fn lemma_configured_key(keys: Seq<KeyModel>, secret: Seq<char>)
    ensures
        configured_key(keys, secret) is Some <==> exists|i: int|
            0 <= i < keys.len() && (#[trigger] keys[i]).key == secret,
    decreases keys.len(),
{
    if keys.len() > 0 {
        lemma_configured_key(keys.drop_last(), secret);
        if keys.last().key == secret {
            assert(keys[keys.len() - 1].key == secret);
        }
        assert forall|i: int| 0 <= i < keys.len() && (#[trigger] keys[i]).key == secret implies
            configured_key(keys, secret) is Some by {
            if i < keys.len() - 1 {
                assert(keys.drop_last()[i].key == secret);
            }
        }
        if configured_key(keys, secret) is Some && keys.last().key != secret {
            let i = choose|i: int|
                0 <= i < keys.len() - 1 && (#[trigger] keys.drop_last()[i]).key == secret;
            assert(keys[i].key == secret);
        }
    }
}

pub(crate) proof fn lemma_last_configured(keys: Seq<KeyModel>, i: int)
    requires
        0 <= i < keys.len(),
        forall|j: int| i < j < keys.len() ==> (#[trigger] keys[j]).key != keys[i].key,
    ensures
        configured_key(keys, keys[i].key) == Some(keys[i]),
    decreases keys.len(),
{
    if i < keys.len() - 1 {
        assert(keys[keys.len() - 1].key != keys[i].key);
        assert(keys.drop_last()[i] == keys[i]);
        lemma_last_configured(keys.drop_last(), i);
    }
}

/// The answer to a request with an unknown key is the one to a request without a key, whatever their
/// endpoints ask for. It tells nothing of the key, and nothing is kept.
pub proof fn law_unknown_key_is_answered_as_none(
    config: ConfigModel,
    loaded: Option<Seq<ManagedModel>>,
    keyless: RequestModel,
    request: RequestModel,
    facts: Option<Facts>,
    scope: Seq<char>,
    other: Seq<char>,
)
    requires
        key_presented(keyless.headers) is None,
        key_presented(request.headers) matches Some(secret) && !is_known(config, loaded, secret),
    ensures
        refusal(config, loaded, keyless.headers, scope) == Some(unauthorized_reply()),
        refusal(config, loaded, request.headers, other) == Some(unauthorized_reply()),
        scope_of(route(keyless)) is Some && scope_of(route(request)) is Some ==> loaded_action(
            config,
            loaded,
            request,
            facts,
        ) == request_action(keyless),
{
    law_known_keys_authenticate(config, loaded, request.headers);
}

/// A known key that does not grant the scope of the endpoint is answered with 403, whatever other
/// scopes it grants.
pub proof fn law_missing_scope_is_forbidden(
    config: ConfigModel,
    loaded: Option<Seq<ManagedModel>>,
    request: RequestModel,
    facts: Option<Facts>,
)
    requires
        scope_of(route(request)) is Some,
        granted(config, loaded, request.headers) matches Some(scopes) && !scopes.contains(
            scope_of(route(request))->0,
        ),
    ensures
        end_of(loaded_action(config, loaded, request, facts)) == Some(
            After::Reply(forbidden_reply(scope_of(route(request))->0)),
        ),
{
}

/// A known key that grants the scope of the endpoint is served.
pub proof fn law_granted_scope_is_served(
    config: ConfigModel,
    loaded: Option<Seq<ManagedModel>>,
    request: RequestModel,
    facts: Option<Facts>,
)
    requires
        scope_of(route(request)) is Some,
        granted(config, loaded, request.headers) matches Some(scopes) && scopes.contains(
            scope_of(route(request))->0,
        ),
    ensures
        set_in_force(config, loaded, facts) matches Some(set) ==> end_of(
            loaded_action(config, loaded, request, facts),
        ) == end_of(endpoint_action(set, request, facts)),
        loaded matches Some(set) ==> loaded_action(config, loaded, request, facts)
            == endpoint_action(set, request, facts),
        data_after(request) matches Some(after) ==> end_of(
            loaded_action(config, loaded, request, facts),
        ) == Some(after),
{
}

/// A request that has just arrived has no data read and nothing saved.
pub proof fn law_arrival_touches_nothing(
    hook: Seq<char>,
    payload: Result<RequestModel, Seq<char>>,
    step: Step,
)
    requires
        step.performs(hook_action(hook, payload)),
    ensures
        step is Load || (step matches Step::Now(next) && next is Reply),
{
}

/// The host is called for data only for a request with a key in force, and that key grants the
/// scope that the call takes. Where it cannot be read which keys are in force, only the bootstrap
/// secret is let in.
pub proof fn law_host_calls_are_authorized(
    config: ConfigModel,
    outcome: Result<Seq<char>, Seq<char>>,
    request: RequestModel,
    facts: Option<Facts>,
    step: Step,
)
    requires
        step.performs(resumed_action(config, outcome, request, facts)),
        next_of(step) matches Some(next) && next is Call,
    ensures
        match kept(outcome) {
            Some(loaded) => granted(config, loaded, request.headers) matches Some(scopes)
                && scopes.contains(scope_of_call(next_of(step)->0->Call_0)),
            None => key_presented(request.headers) is Some && config.bootstrap_admin_key
                == key_presented(request.headers),
        },
{
}

/// The managed set is touched only for a request with a key in force. What is seeded is made of the
/// configured keys, and only where there is no set; and what is saved is saved for a key that grants
/// the scope that managing keys takes.
pub proof fn law_changes_are_authorized(
    config: ConfigModel,
    outcome: Result<Seq<char>, Seq<char>>,
    request: RequestModel,
    facts: Option<Facts>,
)
    ensures
        match resumed_action(config, outcome, request, facts) {
            Action::Seed(set, _) => {
                &&& kept(outcome) == Some(None::<Seq<ManagedModel>>)
                &&& granted(config, None, request.headers) is Some
                &&& facts matches Some(f) && set == seeded_set(config.keys, f.now)
            },
            Action::Save(_, _) => kept(outcome) matches Some(loaded) && granted(
                config,
                loaded,
                request.headers,
            ) matches Some(scopes) && scopes.contains(SCOPE_ADMIN@),
            _ => true,
        },
{
}

/// The first request with a valid key has the managed set made: the configured keys, or what
/// managing those comes to.
pub proof fn law_first_valid_request_seeds(
    config: ConfigModel,
    request: RequestModel,
    facts: Facts,
)
    requires
        scope_of(route(request)) is Some,
        granted(config, None, request.headers) is Some,
    ensures
        match loaded_action(config, None, request, Some(facts)) {
            Action::Seed(set, _) => set == seeded_set(config.keys, facts.now),
            Action::Save(_, _) => route(request) == Route::CreateKey || route(request)
                == Route::DeleteKey,
            _ => false,
        },
{
}

/// Once the managed set has been made, only the endpoints that create and revoke keys change it.
pub proof fn law_managed_set_stays(
    config: ConfigModel,
    set: Seq<ManagedModel>,
    request: RequestModel,
    facts: Option<Facts>,
)
    requires
        route(request) != Route::CreateKey,
        route(request) != Route::DeleteKey,
    ensures
        loaded_action(config, Some(set), request, facts) is Now,
{
}

/// Once the managed set has been made, the configured keys make no difference. Only the bootstrap
/// secret still does.
pub proof fn law_managed_set_is_authoritative(
    config: ConfigModel,
    other: ConfigModel,
    set: Seq<ManagedModel>,
    request: RequestModel,
    facts: Option<Facts>,
)
    requires
        config.bootstrap_admin_key == other.bootstrap_admin_key,
    ensures
        loaded_action(config, Some(set), request, facts) == loaded_action(
            other,
            Some(set),
            request,
            facts,
        ),
{
}

/// Once the managed set has been made of the keys of one configuration, every later configuration
/// lets the same keys in: a key of the first keeps its scopes, unless a later one of the first has
/// its hash, or it is the bootstrap secret.
pub proof fn law_seeded_key_outlives_its_configuration(
    config: ConfigModel,
    later: ConfigModel,
    now: u64,
    headers: Map<Seq<char>, Seq<char>>,
    i: int,
)
    requires
        0 <= i < config.keys.len(),
        forall|j: int|
            i < j < config.keys.len() ==> hash_of((#[trigger] config.keys[j]).key) != hash_of(
                config.keys[i].key,
            ),
        key_presented(headers) == Some(config.keys[i].key),
        later.bootstrap_admin_key != key_presented(headers),
    ensures
        granted(later, Some(seeded_set(config.keys, now)), headers) == Some(config.keys[i].scopes),
{
    let set = seeded_set(config.keys, now);
    assert forall|j: int| i < j < set.len() implies (#[trigger] set[j]).hash != set[i].hash by {
        assert(hash_of(config.keys[j].key) != hash_of(config.keys[i].key));
    }
    lemma_last_of_a_hash(set, i);
}

/// Once the managed set has been made of the keys of one configuration, a later one lets no other
/// key in, though it holds it: a key that is not of the first is unauthorized, unless it is the
/// bootstrap secret, or a key of the first is a different text with the same SHA-256.
pub proof fn law_later_configuration_lets_no_key_in(
    config: ConfigModel,
    later: ConfigModel,
    now: u64,
    headers: Map<Seq<char>, Seq<char>>,
    secret: Seq<char>,
    scope: Seq<char>,
)
    requires
        key_presented(headers) == Some(secret),
        forall|i: int| 0 <= i < config.keys.len() ==> (#[trigger] config.keys[i]).key != secret,
        later.bootstrap_admin_key != Some(secret),
    ensures
        refusal(later, Some(seeded_set(config.keys, now)), headers, scope) == Some(
            unauthorized_reply(),
        ) || exists|i: int|
            0 <= i < config.keys.len() && collide((#[trigger] config.keys[i]).key, secret),
{
    let set = seeded_set(config.keys, now);
    law_known_keys_authenticate(later, Some(set), headers);
    if is_known(later, Some(set), secret) {
        let i = choose|i: int| 0 <= i < set.len() && (#[trigger] set[i]).hash == hash_of(secret);
        lemma_same_hash(config.keys[i].key, secret);
        assert(collide(config.keys[i].key, secret));
    }
}

/// A request that was let in before the managed set was made is let in by the set that it had made.
pub proof fn law_seeding_keeps_access(
    config: ConfigModel,
    now: u64,
    headers: Map<Seq<char>, Seq<char>>,
)
    requires
        granted(config, None, headers) is Some,
    ensures
        granted(config, Some(seeded_set(config.keys, now)), headers) is Some,
{
    let set = seeded_set(config.keys, now);
    let secret = key_presented(headers)->0;
    law_known_keys_authenticate(config, None, headers);
    law_known_keys_authenticate(config, Some(set), headers);
    if config.bootstrap_admin_key != Some(secret) {
        let i = choose|i: int| 0 <= i < config.keys.len() && (#[trigger] config.keys[i]).key == secret;
        assert(set[i].hash == hash_of(secret));
    }
}

/// Texts of one hash have one SHA-256.
proof fn lemma_same_hash(a: Seq<char>, b: Seq<char>)
    requires
        hash_of(a) == hash_of(b),
    ensures
        sha256(encode_utf8(a)) == sha256(encode_utf8(b)),
{
    lemma_same_hex(sha256(encode_utf8(a)), sha256(encode_utf8(b)));
}

/// Bytes of the same digits are the same.
pub(crate) proof fn lemma_same_hex(a: Seq<u8>, b: Seq<u8>)
    requires
        hex(a) == hex(b),
    ensures
        a == b,
{
    assert(hex(a).len() == 2 * a.len());
    assert(hex(b).len() == 2 * b.len());
    assert forall|i: int| 0 <= i < a.len() implies a[i] == b[i] by {
        assert((2 * i) / 2 == i && (2 * i + 1) / 2 == i);
        assert((2 * i) % 2 == 0 && (2 * i + 1) % 2 == 1);
        assert(hex(a)[2 * i] == hex_digit(a[i] / 16));
        assert(hex(b)[2 * i] == hex_digit(b[i] / 16));
        assert(hex(a)[2 * i + 1] == hex_digit(a[i] % 16));
        assert(hex(b)[2 * i + 1] == hex_digit(b[i] % 16));
    }
    assert(a =~= b);
}

/// A key that is empty, or has white space at an end, is presented by no request: configured, it
/// authenticates none.
pub proof fn law_unpresentable_key_is_useless(
    headers: Map<Seq<char>, Seq<char>>,
    secret: Seq<char>,
)
    requires
        secret.len() == 0 || trimmed(secret) != secret,
    ensures
        key_presented(headers) != Some(secret),
{
    if headers.contains_key("authorization"@) {
        let header = trimmed(headers["authorization"@]);
        lemma_trimmed_twice(header.subrange(first_index(header, ' ') + 1, header.len() as int));
    }
    if headers.contains_key("x-api-key"@) {
        lemma_trimmed_twice(headers["x-api-key"@]);
    }
}

proof fn lemma_trimmed_twice(s: Seq<char>)
    ensures
        trimmed(trimmed(s)) == trimmed(s),
    decreases s.len(),
{
    if s.len() > 0 {
        lemma_trimmed_twice(s.drop_first());
        lemma_trimmed_twice(s.drop_last());
    }
}

/// The bootstrap secret is valid at all times, whatever managed set there is, and grants every
/// scope.
pub proof fn law_bootstrap_key_is_always_valid(
    config: ConfigModel,
    loaded: Option<Seq<ManagedModel>>,
    headers: Map<Seq<char>, Seq<char>>,
    scope: Seq<char>,
)
    requires
        config.bootstrap_admin_key is Some,
        key_presented(headers) == config.bootstrap_admin_key,
        is_known_scope(scope),
    ensures
        granted(config, loaded, headers) == Some(all_scopes()),
        refusal(config, loaded, headers, scope) is None,
{
    assert(all_scopes()[0] == SCOPE_READ@);
    assert(all_scopes()[1] == SCOPE_WRITE@);
    assert(all_scopes()[2] == SCOPE_ADMIN@);
}

/// The bootstrap secret reaches the data whatever the host has kept, and also where that cannot be
/// read.
pub proof fn law_bootstrap_key_reaches_the_data(
    config: ConfigModel,
    outcome: Result<Seq<char>, Seq<char>>,
    request: RequestModel,
    facts: Option<Facts>,
)
    requires
        config.bootstrap_admin_key is Some,
        key_presented(request.headers) == config.bootstrap_admin_key,
        data_after(request) is Some,
    ensures
        end_of(resumed_action(config, outcome, request, facts)) == data_after(request),
{
    law_bootstrap_key_is_always_valid(
        config,
        match kept(outcome) {
            Some(loaded) => loaded,
            None => None,
        },
        request.headers,
        scope_of(route(request))->0,
    );
}

/// Without configured keys, a bootstrap secret and a managed set, every endpoint that asks for a
/// scope is answered with 401.
pub proof fn law_without_keys_all_is_unauthorized(
    stored: Option<ApiConfig>,
    request: RequestModel,
    facts: Option<Facts>,
)
    requires
        config_in_force(stored).keys.len() == 0,
        config_in_force(stored).bootstrap_admin_key is None,
        scope_of(route(request)) is Some,
    ensures
        loaded_action(config_in_force(stored), None, request, facts) == Action::Now(
            After::Reply(unauthorized_reply()),
        ),
{
}

/// Whether two keys look alike to whoever may see them, whatever their secrets.
pub open spec fn look_alike(key: ManagedModel, other: ManagedModel) -> bool {
    key == ManagedModel { hash: key.hash, ..other }
}

/// Of the keys in force, a request is told what may be shown of them and what its own key grants.
/// Their secrets and hashes make no difference to how it ends.
pub proof fn law_answers_tell_no_secrets(
    config: ConfigModel,
    other: ConfigModel,
    set: Seq<ManagedModel>,
    others: Seq<ManagedModel>,
    request: RequestModel,
    facts: Option<Facts>,
)
    requires
        set.len() == others.len(),
        forall|i: int| 0 <= i < set.len() ==> look_alike(#[trigger] set[i], others[i]),
        granted(config, Some(set), request.headers) == granted(
            other,
            Some(others),
            request.headers,
        ),
    ensures
        end_of(loaded_action(config, Some(set), request, facts)) == end_of(
            loaded_action(other, Some(others), request, facts),
        ),
{
    assert(key_list(set) == key_list(others)) by {
        assert forall|i: int| 0 <= i < set.len() implies shown_members(#[trigger] set[i])
            == shown_members(others[i]) by {
            assert(look_alike(set[i], others[i]));
        }
        assert(key_list(set)->Object_0["keys"@]->Array_0
            =~= key_list(others)->Object_0["keys"@]->Array_0);
    }
    assert forall|id: Seq<char>| has_key_id(set, id) == has_key_id(others, id) by {
        if has_key_id(set, id) {
            let i = choose|i: int| 0 <= i < set.len() && (#[trigger] set[i]).id == id;
            assert(look_alike(set[i], others[i]));
            assert(others[i].id == id);
        }
        if has_key_id(others, id) {
            let i = choose|i: int| 0 <= i < others.len() && (#[trigger] others[i]).id == id;
            assert(look_alike(set[i], others[i]));
            assert(set[i].id == id);
        }
    }
}

/// The case in which the letters of the method are written makes no difference.
pub proof fn law_method_case_is_ignored(
    config: ConfigModel,
    outcome: Result<Seq<char>, Seq<char>>,
    request: RequestModel,
    method: Seq<char>,
    facts: Option<Facts>,
)
    requires
        ascii_uppercase(method) == ascii_uppercase(request.method),
    ensures
        request_action(RequestModel { method, ..request }) == request_action(request),
        resumed_action(config, outcome, RequestModel { method, ..request }, facts)
            == resumed_action(config, outcome, request, facts),
{
}

pub(crate) proof fn lemma_found_key(set: Seq<ManagedModel>, hash: Seq<char>)
    ensures
        key_with_hash(set, hash) matches Some(key) ==> exists|i: int|
            0 <= i < set.len() && #[trigger] set[i] == key && key.hash == hash,
    decreases set.len(),
{
    if set.len() > 0 {
        if set.last().hash == hash {
            assert(set[set.len() - 1] == set.last());
        } else {
            lemma_found_key(set.drop_last(), hash);
            if let Some(key) = key_with_hash(set, hash) {
                let i = choose|i: int| 0 <= i < set.len() - 1 && #[trigger] set.drop_last()[i] == key;
                assert(set[i] == key);
            }
        }
    }
}

proof fn lemma_some_key_found(set: Seq<ManagedModel>, i: int)
    requires
        0 <= i < set.len(),
    ensures
        key_with_hash(set, set[i].hash) is Some,
    decreases set.len(),
{
    if set.last().hash != set[i].hash {
        assert(set.drop_last()[i] == set[i]);
        lemma_some_key_found(set.drop_last(), i);
    }
}

pub(crate) proof fn lemma_last_of_a_hash(set: Seq<ManagedModel>, i: int)
    requires
        0 <= i < set.len(),
        forall|j: int| i < j < set.len() ==> (#[trigger] set[j]).hash != set[i].hash,
    ensures
        key_with_hash(set, set[i].hash) == Some(set[i]),
    decreases set.len(),
{
    if i < set.len() - 1 {
        assert(set[set.len() - 1].hash != set[i].hash);
        assert(set.drop_last()[i] == set[i]);
        lemma_last_of_a_hash(set.drop_last(), i);
    }
}

/// Where several managed keys have one hash, the last of them counts, unless the key presented is
/// the bootstrap secret.
pub proof fn law_last_key_of_a_hash_counts(
    config: ConfigModel,
    set: Seq<ManagedModel>,
    headers: Map<Seq<char>, Seq<char>>,
    i: int,
)
    requires
        0 <= i < set.len(),
        key_presented(headers) matches Some(secret) && hash_of(secret) == set[i].hash,
        config.bootstrap_admin_key != key_presented(headers),
        forall|j: int| i < j < set.len() ==> (#[trigger] set[j]).hash != set[i].hash,
    ensures
        granted(config, Some(set), headers) == Some(set[i].scopes),
{
    lemma_last_of_a_hash(set, i);
}

/// A bearer token counts before an `X-API-Key`, which is not even looked at.
pub proof fn law_bearer_wins(headers: Map<Seq<char>, Seq<char>>, other: Seq<char>)
    requires
        key_from_authorization(headers) is Some,
    ensures
        key_presented(headers) == key_from_authorization(headers),
        key_presented(headers.insert("x-api-key"@, other)) == key_presented(headers),
{
    reveal_strlit("authorization");
    reveal_strlit("x-api-key");
    assert("authorization"@.len() != "x-api-key"@.len());
}

/// A header `Authorization: Bearer <key>` presents the key, whatever the case of the scheme. (A key
/// with white space at an end, or a blank one, cannot be presented.)
pub proof fn law_bearer_header_presents_its_key(scheme: Seq<char>, key: Seq<char>)
    requires
        ascii_uppercase(scheme) == ascii_uppercase("bearer"@),
        key.len() > 0,
        trimmed(key) == key,
    ensures
        bearer_key(scheme + " "@ + key) == Some(key),
{
    reveal_strlit("bearer");
    reveal_strlit(" ");
    let header = scheme + " "@ + key;
    assert("bearer"@.len() == 6);
    assert(scheme.len() == 6) by {
        assert(ascii_uppercase(scheme).len() == scheme.len());
        assert(ascii_uppercase("bearer"@).len() == 6);
    }
    assert forall|i: int| 0 <= i < 6 implies scheme[i] != ' ' && !is_white_space(scheme[i]) by {
        let bearer = "bearer"@;
        assert(ascii_uppercase(scheme)[i] == ascii_upper(scheme[i]));
        assert(ascii_uppercase(bearer)[i] == ascii_upper(bearer[i]));
    }
    lemma_trimmed_ends(key);
    assert(header[0] == scheme[0]);
    assert(header.last() == key.last());
    assert(trimmed(header) == header);
    lemma_first_index_after(scheme, ' ', " "@ + key);
    assert(scheme + (" "@ + key) == header);
    assert((" "@ + key)[0] == ' ');
    assert(first_index(header, ' ') == 6);
    assert(header.subrange(0, 6) == scheme);
    assert(header.subrange(7, header.len() as int) == key);
}

/// A text that trimming leaves as it is has no white space at its ends.
proof fn lemma_trimmed_ends(s: Seq<char>)
    requires
        s.len() > 0,
        trimmed(s) == s,
    ensures
        !is_white_space(s[0]),
        !is_white_space(s.last()),
{
    lemma_trimmed_len(s.drop_first());
    lemma_trimmed_len(s.drop_last());
}

proof fn lemma_trimmed_len(s: Seq<char>)
    ensures
        trimmed(s).len() <= s.len(),
    decreases s.len(),
{
    if s.len() > 0 {
        lemma_trimmed_len(s.drop_first());
        lemma_trimmed_len(s.drop_last());
    }
}

/// A header `X-API-Key: <key>` presents the key where no bearer token does.
pub proof fn law_x_api_key_header_presents_its_key(
    headers: Map<Seq<char>, Seq<char>>,
    key: Seq<char>,
)
    requires
        key_from_authorization(headers) is None,
        key.len() > 0,
        trimmed(key) == key,
    ensures
        key_presented(headers.insert("x-api-key"@, key)) == Some(key),
{
    reveal_strlit("authorization");
    reveal_strlit("x-api-key");
    assert("authorization"@.len() != "x-api-key"@.len());
}

} // verus!
