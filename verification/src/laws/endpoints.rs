//! What each endpoint does, from the request to the end.

use crate::assets::{PAGE, PAGE_POLICY, SCRIPT, STYLESHEET};
use crate::auth::{key_presented, ConfigModel};
use crate::json::{json_parse, Tree};
use crate::keys::{key_list, new_key_body, unknown_scope, wanted_key, Wanted};
use crate::laws::access::end_of;
use crate::laws::identity::{law_granted_scopes, law_presented_key, law_strangers};
use crate::laws::routes::lemma_methods_differ;
use crate::laws::store::{law_setting, law_string_list, law_without};
use crate::laws::terms::{
    are_granted, are_strangers, asks, asks_for_nothing, blank, call_project, calls, caseless,
    challenge, failure, forbidden, gives, hands_out, hashes, is_let_in, is_preflight, keeps_back,
    labels, letter, lists, masks, names_key, needs, plain, presents, shared, shared_failure,
    tells_missing_project, trims_to, verdict, white, writes_bytes,
};
use crate::laws::texts::{law_capitals, law_hash, law_mask, law_new_secret, law_trimming};
use crate::managed::{masked, seeded_set, string_list, ManagedModel};
use crate::minting::Facts;
use crate::plugin::{
    body_field, data_after, endpoint_action, follows, forbidden_reply, host_reply_tree, refusal,
    request_action, resumed_action, says_nothing, scope_of, setting_of,
};
use crate::query::query_params;
use crate::response::{
    cors_error_reply, cors_reply, error_reply, is_card_part, is_word, names_missing_project, reply,
    says_not_found, singleton, speaks_of_project, unauthorized_reply,
};
use crate::routes::{begins_with, key_id, route_of, RequestModel, Route, KEY_PREFIX, PREFIX};
use crate::steps::{Action, After, HostFunction, Next};
use crate::text::{ascii_uppercase, trimmed, words};
use vstd::prelude::*;

verus! {

/// Every response is the verdict that carries its status, its headers and its body, and no more.
pub proof fn law_responses(status: int, body: Tree, message: Seq<char>)
    ensures
        reply(status, body) == plain(status, body),
        error_reply(status, message) == failure(status, message),
        cors_reply(status, body) == shared(status, body),
        cors_error_reply(status, message) == shared_failure(status, message),
        unauthorized_reply() == challenge(),
        forbidden_reply(message) == forbidden(message),
        singleton(message, body) == Tree::Object(map![message => body]),
{
}

/// The name of a key is what follows in its path.
pub proof fn law_key_path(path: Seq<char>, id: Seq<char>)
    ensures
        key_id(path) == Some(id) <==> names_key(path, id),
{
    let n = KEY_PREFIX@.len() as int;
    if begins_with(path, KEY_PREFIX@) {
        assert(path =~= KEY_PREFIX@ + path.subrange(n, path.len() as int));
    }
    if path == KEY_PREFIX@ + id {
        assert(path.subrange(0, n) =~= KEY_PREFIX@);
        assert(path.subrange(n, path.len() as int) =~= id);
    }
}

proof fn lemma_method(method: Seq<char>)
    ensures
        ascii_uppercase(method) == "GET"@ <==> caseless(method, "GET"@),
        ascii_uppercase(method) == "POST"@ <==> caseless(method, "POST"@),
        ascii_uppercase(method) == "DELETE"@ <==> caseless(method, "DELETE"@),
        ascii_uppercase(method) == "OPTIONS"@ <==> caseless(method, "OPTIONS"@),
{
    reveal_strlit("GET");
    reveal_strlit("POST");
    reveal_strlit("DELETE");
    reveal_strlit("OPTIONS");
    assert(ascii_uppercase("GET"@) =~= "GET"@);
    assert(ascii_uppercase("POST"@) =~= "POST"@);
    assert(ascii_uppercase("DELETE"@) =~= "DELETE"@);
    assert(ascii_uppercase("OPTIONS"@) =~= "OPTIONS"@);
    law_capitals(method, "GET"@);
    law_capitals(method, "POST"@);
    law_capitals(method, "DELETE"@);
    law_capitals(method, "OPTIONS"@);
}

/// An endpoint is named by its method and its path, and by nothing else.
pub proof fn law_endpoints(request: RequestModel)
    ensures
        ({
            let route = route_of(request.method, request.path);
            &&& route == Route::Health <==> asks(request, "GET"@, "/plugin-api/v1/health"@)
            &&& route == Route::ListProjects <==> asks(request, "GET"@, "/plugin-api/v1/projects"@)
            &&& route == Route::ListCards <==> asks(request, "GET"@, "/plugin-api/v1/cards"@)
            &&& route == Route::CreateCard <==> asks(request, "POST"@, "/plugin-api/v1/cards"@)
            &&& route == Route::ListKeys <==> asks(request, "GET"@, "/plugin-api/v1/keys"@)
            &&& route == Route::CreateKey <==> asks(request, "POST"@, "/plugin-api/v1/keys"@)
            &&& route == Route::DeleteKey <==> caseless(request.method, "DELETE"@) && exists|
                id: Seq<char>,
            | names_key(request.path, id)
            &&& route == Route::Page <==> asks(request, "GET"@, "/plugin-api/v1/admin"@)
            &&& route == Route::Stylesheet <==> asks(request, "GET"@, "/plugin-api/v1/admin.css"@)
            &&& route == Route::Script <==> asks(request, "GET"@, "/plugin-api/v1/admin.js"@)
            &&& route == Route::Preflight <==> is_preflight(request)
            &&& route == Route::Unknown <==> asks_for_nothing(request)
        }),
{
    let path = request.path;
    lemma_method(request.method);
    lemma_methods_differ();
    lemma_paths_differ();
    if let Some(id) = key_id(path) {
        law_key_path(path, id);
    }
    assert forall|id: Seq<char>| #[trigger] names_key(path, id) implies key_id(path) == Some(id) by {
        law_key_path(path, id);
    }
    let n = PREFIX@.len() as int;
    if begins_with(path, PREFIX@) {
        assert(path =~= PREFIX@ + path.subrange(n, path.len() as int));
    }
    assert forall|rest: Seq<char>| path == #[trigger] ("/plugin-api/v1/"@ + rest) implies begins_with(
        path,
        PREFIX@,
    ) by {
        assert(path.subrange(0, n) =~= PREFIX@);
    }
    assert(scope_of(route_of(request.method, request.path)) matches Some(scope) ==> needs(
        request,
        scope,
    ));
}

proof fn lemma_paths_differ()
    ensures
        "/plugin-api/v1/health"@ != "/plugin-api/v1/projects"@,
        "/plugin-api/v1/health"@ != "/plugin-api/v1/cards"@,
        "/plugin-api/v1/health"@ != "/plugin-api/v1/keys"@,
        "/plugin-api/v1/health"@ != "/plugin-api/v1/admin"@,
        "/plugin-api/v1/health"@ != "/plugin-api/v1/admin.css"@,
        "/plugin-api/v1/health"@ != "/plugin-api/v1/admin.js"@,
        "/plugin-api/v1/projects"@ != "/plugin-api/v1/cards"@,
        "/plugin-api/v1/projects"@ != "/plugin-api/v1/keys"@,
        "/plugin-api/v1/projects"@ != "/plugin-api/v1/admin"@,
        "/plugin-api/v1/projects"@ != "/plugin-api/v1/admin.css"@,
        "/plugin-api/v1/projects"@ != "/plugin-api/v1/admin.js"@,
        "/plugin-api/v1/cards"@ != "/plugin-api/v1/keys"@,
        "/plugin-api/v1/cards"@ != "/plugin-api/v1/admin"@,
        "/plugin-api/v1/cards"@ != "/plugin-api/v1/admin.css"@,
        "/plugin-api/v1/cards"@ != "/plugin-api/v1/admin.js"@,
        "/plugin-api/v1/keys"@ != "/plugin-api/v1/admin"@,
        "/plugin-api/v1/keys"@ != "/plugin-api/v1/admin.css"@,
        "/plugin-api/v1/keys"@ != "/plugin-api/v1/admin.js"@,
        "/plugin-api/v1/admin"@ != "/plugin-api/v1/admin.css"@,
        "/plugin-api/v1/admin"@ != "/plugin-api/v1/admin.js"@,
        "/plugin-api/v1/admin.css"@ != "/plugin-api/v1/admin.js"@,
{
    reveal_strlit("/plugin-api/v1/health");
    reveal_strlit("/plugin-api/v1/projects");
    reveal_strlit("/plugin-api/v1/cards");
    reveal_strlit("/plugin-api/v1/keys");
    reveal_strlit("/plugin-api/v1/admin");
    reveal_strlit("/plugin-api/v1/admin.css");
    reveal_strlit("/plugin-api/v1/admin.js");
    assert("/plugin-api/v1/health"@.len() == 21);
    assert("/plugin-api/v1/projects"@.len() == 23);
    assert("/plugin-api/v1/cards"@.len() == 20);
    assert("/plugin-api/v1/keys"@.len() == 19);
    assert("/plugin-api/v1/admin"@.len() == 20);
    assert("/plugin-api/v1/admin.css"@.len() == 24);
    assert("/plugin-api/v1/admin.js"@.len() == 23);
    assert("/plugin-api/v1/projects"@[15] != "/plugin-api/v1/admin.js"@[15]);
    assert("/plugin-api/v1/cards"@[15] != "/plugin-api/v1/admin"@[15]);
}

/// The scope of an endpoint is the one that it takes.
pub proof fn law_scope_of_endpoint(request: RequestModel, scope: Seq<char>)
    ensures
        scope_of(route_of(request.method, request.path)) == Some(scope) <==> needs(request, scope),
{
    law_endpoints(request);
    lemma_paths_differ();
    lemma_method(request.method);
    lemma_methods_differ();
    if let Some(s) = scope_of(route_of(request.method, request.path)) {
        assert(needs(request, s));
    }
    if needs(request, scope) {
        lemma_scopes_differ();
    }
}

proof fn lemma_scopes_differ()
    ensures
        "read"@ != "write"@,
        "read"@ != "admin"@,
        "write"@ != "admin"@,
{
    reveal_strlit("read");
    reveal_strlit("write");
    reveal_strlit("admin");
    assert("read"@.len() == 4 && "write"@.len() == 5 && "admin"@.len() == 5);
    assert("write"@[0] != "admin"@[0]);
}

/// A request is answered at once where its answer is always the same, or it presents no key where one
/// is needed. All else waits for what the host has kept.
pub proof fn law_arrival(request: RequestModel, scope: Seq<char>)
    ensures
        asks(request, "GET"@, "/plugin-api/v1/health"@) ==> request_action(request)
            == Action::Load,
        needs(request, scope) && (exists|key: Seq<char>| presents(request.headers, key))
            ==> request_action(request) == Action::Load,
        needs(request, scope) && (forall|key: Seq<char>| !presents(request.headers, key))
            ==> request_action(request) == Action::Now(After::Reply(challenge())),
        asks(request, "GET"@, "/plugin-api/v1/admin"@) ==> request_action(request) == Action::Now(
            After::Reply(
                verdict(
                    200,
                    map![
                        "content-type"@ => Tree::Str("text/html; charset=utf-8"@),
                        "content-security-policy"@ => Tree::Str(PAGE_POLICY@)
                    ],
                    Tree::Str(PAGE@),
                ),
            ),
        ),
        asks(request, "GET"@, "/plugin-api/v1/admin.css"@) ==> request_action(request)
            == Action::Now(
            After::Reply(
                verdict(
                    200,
                    map!["content-type"@ => Tree::Str("text/css; charset=utf-8"@)],
                    Tree::Str(STYLESHEET@),
                ),
            ),
        ),
        asks(request, "GET"@, "/plugin-api/v1/admin.js"@) ==> request_action(request)
            == Action::Now(
            After::Reply(
                verdict(
                    200,
                    map!["content-type"@ => Tree::Str("text/javascript; charset=utf-8"@)],
                    Tree::Str(SCRIPT@),
                ),
            ),
        ),
        is_preflight(request) ==> request_action(request) == Action::Now(
            After::Reply(
                verdict(
                    204,
                    map![
                        "access-control-allow-origin"@ => Tree::Str("*"@),
                        "access-control-allow-methods"@ => Tree::Str("GET, POST, DELETE, OPTIONS"@),
                        "access-control-allow-headers"@ => Tree::Str(
                            "authorization, x-api-key, content-type"@,
                        )
                    ],
                    Tree::Null,
                ),
            ),
        ),
        asks_for_nothing(request) ==> request_action(request) == Action::Now(
            After::Reply(failure(404, "not found"@)),
        ),
{
    law_endpoints(request);
    law_scope_of_endpoint(request, scope);
    law_responses(404, Tree::Null, "not found"@);
    lemma_presented(request.headers);
}

proof fn lemma_presented(headers: Map<Seq<char>, Seq<char>>)
    ensures
        key_presented(headers) is Some <==> exists|key: Seq<char>| presents(headers, key),
{
    if let Some(key) = key_presented(headers) {
        law_presented_key(headers, key);
    }
    assert forall|key: Seq<char>| #[trigger] presents(headers, key) implies key_presented(headers)
        == Some(key) by {
        law_presented_key(headers, key);
    }
}

/// Whatever the scope, it is asked of the key that a request presents, and a request is turned away
/// just where that key is unknown or does not grant it.
pub proof fn law_refusals(
    config: ConfigModel,
    loaded: Option<Seq<ManagedModel>>,
    headers: Map<Seq<char>, Seq<char>>,
    scopes: Seq<Seq<char>>,
    scope: Seq<char>,
)
    ensures
        are_strangers(config, loaded, headers) ==> refusal(config, loaded, headers, scope) == Some(
            challenge(),
        ),
        are_granted(config, loaded, headers, scopes) ==> refusal(config, loaded, headers, scope)
            == if scopes.contains(scope) {
            None
        } else {
            Some(forbidden(scope))
        },
{
    law_strangers(config, loaded, headers);
    law_granted_scopes(config, loaded, headers, scopes);
}

/// What is answered at once is answered the same once the host has been asked.
pub proof fn law_open_to_all(
    config: ConfigModel,
    outcome: Result<Seq<char>, Seq<char>>,
    request: RequestModel,
    facts: Option<Facts>,
)
    requires
        forall|scope: Seq<char>| !needs(request, scope),
        !asks(request, "GET"@, "/plugin-api/v1/health"@),
    ensures
        resumed_action(config, outcome, request, facts) == request_action(request),
        request_action(request) is Now,
{
    law_endpoints(request);
    if let Some(scope) = scope_of(route_of(request.method, request.path)) {
        law_scope_of_endpoint(request, scope);
    }
}

proof fn lemma_handed_out(
    outcome: Result<Seq<char>, Seq<char>>,
    loaded: Option<Seq<ManagedModel>>,
)
    requires
        hands_out(outcome, loaded),
    ensures
        setting_of(json_parse(outcome->Ok_0)) == Ok::<Option<Seq<ManagedModel>>, Tree>(loaded),
{
    law_setting(outcome, loaded, Tree::Null);
}

/// Where nothing is handed out, nothing can be read.
proof fn lemma_kept_back(outcome: Result<Seq<char>, Seq<char>>)
    requires
        forall|loaded: Option<Seq<ManagedModel>>| !hands_out(outcome, loaded),
    ensures
        outcome is Ok ==> setting_of(json_parse(outcome->Ok_0)) is Err,
{
    if outcome is Ok {
        if let Ok(loaded) = setting_of(json_parse(outcome->Ok_0)) {
            law_setting(outcome, loaded, Tree::Null);
            assert(hands_out(outcome, loaded));
        }
    }
}

/// The health check says how many keys there are and whether the managed set has been made. Where
/// that cannot be read, it says so as if it had not.
pub proof fn law_health(
    config: ConfigModel,
    outcome: Result<Seq<char>, Seq<char>>,
    loaded: Option<Seq<ManagedModel>>,
    request: RequestModel,
    facts: Option<Facts>,
)
    requires
        asks(request, "GET"@, "/plugin-api/v1/health"@),
        hands_out(outcome, loaded) || (loaded is None && forall|other: Option<Seq<ManagedModel>>|
            !hands_out(outcome, other)),
    ensures
        resumed_action(config, outcome, request, facts) == Action::Now(
            After::Reply(
                plain(
                    200,
                    Tree::Object(
                        map![
                            "status"@ => Tree::Str("ok"@),
                            "plugin"@ => Tree::Str("api"@),
                            "version"@ => Tree::Str("0.2.0"@),
                            "keys"@ => Tree::Int(
                                match loaded {
                                    Some(set) => set.len() as int,
                                    None => config.keys.len() as int,
                                },
                            ),
                            "seeded"@ => Tree::Bool(loaded is Some)
                        ],
                    ),
                ),
            ),
        ),
{
    law_endpoints(request);
    if hands_out(outcome, loaded) {
        lemma_handed_out(outcome, loaded);
    } else {
        lemma_kept_back(outcome);
    }
}

/// Whoever presents no key that is known is answered with the challenge, and nothing is kept.
pub proof fn law_strangers_are_challenged(
    config: ConfigModel,
    outcome: Result<Seq<char>, Seq<char>>,
    loaded: Option<Seq<ManagedModel>>,
    request: RequestModel,
    facts: Option<Facts>,
    scope: Seq<char>,
)
    requires
        needs(request, scope),
        hands_out(outcome, loaded),
        are_strangers(config, loaded, request.headers),
    ensures
        resumed_action(config, outcome, request, facts) == Action::Now(After::Reply(challenge())),
{
    law_endpoints(request);
    law_scope_of_endpoint(request, scope);
    lemma_handed_out(outcome, loaded);
    law_strangers(config, loaded, request.headers);
}

/// The action that ends so, with the managed set made first where there was none and it can be.
pub open spec fn first_seeding(
    config: ConfigModel,
    loaded: Option<Seq<ManagedModel>>,
    facts: Option<Facts>,
    after: After,
) -> Action {
    match (loaded, facts) {
        (None, Some(f)) => Action::Seed(seeded_set(config.keys, f.now), after),
        _ => Action::Now(after),
    }
}

/// Whoever presents a key that does not grant the scope is told which scope that is.
pub proof fn law_outsiders_are_forbidden(
    config: ConfigModel,
    outcome: Result<Seq<char>, Seq<char>>,
    loaded: Option<Seq<ManagedModel>>,
    request: RequestModel,
    facts: Option<Facts>,
    scopes: Seq<Seq<char>>,
    scope: Seq<char>,
)
    requires
        needs(request, scope),
        hands_out(outcome, loaded),
        are_granted(config, loaded, request.headers, scopes),
        !scopes.contains(scope),
    ensures
        resumed_action(config, outcome, request, facts) == first_seeding(
            config,
            loaded,
            facts,
            After::Reply(forbidden(scope)),
        ),
{
    law_endpoints(request);
    law_scope_of_endpoint(request, scope);
    lemma_handed_out(outcome, loaded);
    law_granted_scopes(config, loaded, request.headers, scopes);
}

proof fn lemma_let_in(
    config: ConfigModel,
    outcome: Result<Seq<char>, Seq<char>>,
    request: RequestModel,
    facts: Option<Facts>,
    scope: Seq<char>,
)
    requires
        needs(request, scope),
        is_let_in(config, outcome, request.headers, scope),
        data_after(request) is Some,
    ensures
        end_of(resumed_action(config, outcome, request, facts)) == data_after(request),
{
    law_scope_of_endpoint(request, scope);
    if exists|loaded: Option<Seq<ManagedModel>>, scopes: Seq<Seq<char>>|
        hands_out(outcome, loaded) && #[trigger] are_granted(
            config,
            loaded,
            request.headers,
            scopes,
        ) && scopes.contains(scope) {
        let (loaded, scopes) = choose|
            loaded: Option<Seq<ManagedModel>>,
            scopes: Seq<Seq<char>>,
        |
            hands_out(outcome, loaded) && #[trigger] are_granted(
                config,
                loaded,
                request.headers,
                scopes,
            ) && scopes.contains(scope);
        lemma_handed_out(outcome, loaded);
        law_granted_scopes(config, loaded, request.headers, scopes);
    } else {
        lemma_kept_back(outcome);
        law_presented_key(request.headers, config.bootstrap_admin_key->0);
    }
}

/// Whoever is let in to the projects has them listed.
pub proof fn law_projects_are_listed(
    config: ConfigModel,
    outcome: Result<Seq<char>, Seq<char>>,
    request: RequestModel,
    facts: Option<Facts>,
)
    requires
        asks(request, "GET"@, "/plugin-api/v1/projects"@),
        is_let_in(config, outcome, request.headers, "read"@),
    ensures
        end_of(resumed_action(config, outcome, request, facts)) == Some(After::ListProjects),
{
    law_endpoints(request);
    lemma_let_in(config, outcome, request, facts, "read"@);
}

/// Whoever is let in to the cards has those listed that pass the filters of the query: the project
/// and the step, where it gives them, and no other.
pub proof fn law_cards_are_listed(
    config: ConfigModel,
    outcome: Result<Seq<char>, Seq<char>>,
    request: RequestModel,
    facts: Option<Facts>,
    name: Seq<char>,
)
    requires
        asks(request, "GET"@, "/plugin-api/v1/cards"@),
        is_let_in(config, outcome, request.headers, "read"@),
    ensures
        end_of(resumed_action(config, outcome, request, facts)) matches Some(
            After::ListCards(Tree::Object(filters)),
        ) && {
            let params = query_params(request.query);
            &&& filters.contains_key(name) <==> (name == "project_id"@ || name == "step"@)
                && params.contains_key(name)
            &&& filters.contains_key(name) ==> filters[name] == Tree::Str(params[name])
        },
{
    law_endpoints(request);
    lemma_let_in(config, outcome, request, facts, "read"@);
    reveal_strlit("project_id");
    reveal_strlit("step");
    assert("project_id"@.len() == 10 && "step"@.len() == 4);
}

/// Whoever is let in to create a card has it created from the whole body, where that is an object
/// that gives a title and a project. Any other body is refused, and the reply says why.
pub proof fn law_card_is_created(
    config: ConfigModel,
    outcome: Result<Seq<char>, Seq<char>>,
    request: RequestModel,
    facts: Option<Facts>,
    text: Seq<char>,
)
    requires
        asks(request, "POST"@, "/plugin-api/v1/cards"@),
        is_let_in(config, outcome, request.headers, "write"@),
        trims_to(request.body, text),
    ensures
        end_of(resumed_action(config, outcome, request, facts)) == Some(
            match json_parse(text) {
                Err(message) => After::Reply(failure(400, "invalid JSON body: "@ + message)),
                Ok(body) => if !(body is Object) {
                    After::Reply(failure(400, "request body must be a JSON object"@))
                } else if !gives(body, "title"@) {
                    After::Reply(failure(400, "title is required"@))
                } else if !gives(body, "project_id"@) {
                    After::Reply(failure(400, "project_id is required"@))
                } else {
                    After::CreateCard(body)
                },
            },
        ),
{
    law_endpoints(request);
    law_trimming(request.body, text);
    lemma_let_in(config, outcome, request, facts, "write"@);
    if let Ok(body) = json_parse(text) {
        lemma_gives(body, "title"@);
        lemma_gives(body, "project_id"@);
    }
}

/// A field of a body is the string that it gives without the white space around it, and empty where
/// it gives none.
pub proof fn law_body_field(body: Tree, name: Seq<char>, field: Seq<char>)
    ensures
        body.member(name) matches Some(Tree::Str(s)) ==> (body_field(body, name) == field <==>
            trims_to(s, field)),
        !(body.member(name) matches Some(Tree::Str(_))) ==> body_field(body, name).len() == 0,
{
    if let Some(Tree::Str(s)) = body.member(name) {
        law_trimming(s, field);
    }
}

proof fn lemma_gives(body: Tree, name: Seq<char>)
    ensures
        body_field(body, name).len() > 0 <==> gives(body, name),
{
    if let Some(s) = body.str_member(name) {
        lemma_blank(s);
    }
}

proof fn lemma_blank(s: Seq<char>)
    ensures
        trimmed(s).len() == 0 <==> blank(s),
{
    let none = Seq::<char>::empty();
    law_trimming(s, trimmed(s));
    law_trimming(s, none);
    if blank(s) {
        assert(blank(none));
        assert(s =~= (s + none) + none);
        assert(trims_to(s, none));
    }
    if trimmed(s).len() == 0 {
        assert(trimmed(s) =~= none);
        let (before, after) = choose|before: Seq<char>, after: Seq<char>|
            blank(before) && blank(after) && s == #[trigger] ((before + none) + after);
        assert forall|i: int| 0 <= i < s.len() implies white(#[trigger] s[i]) by {
            if i < before.len() {
                assert(s[i] == before[i]);
            } else {
                assert(s[i] == after[i - before.len()]);
            }
        }
    }
}

/// Whether a request may manage the keys of a set: its key grants that, and the set is the one that
/// has been made, or that is made now of the configured keys.
pub open spec fn may_manage(
    config: ConfigModel,
    outcome: Result<Seq<char>, Seq<char>>,
    loaded: Option<Seq<ManagedModel>>,
    headers: Map<Seq<char>, Seq<char>>,
    facts: Option<Facts>,
    set: Seq<ManagedModel>,
) -> bool {
    &&& hands_out(outcome, loaded)
    &&& exists|scopes: Seq<Seq<char>>| #[trigger]
        are_granted(config, loaded, headers, scopes) && scopes.contains("admin"@)
    &&& match (loaded, facts) {
        (Some(made), _) => set == made,
        (None, Some(f)) => set == seeded_set(config.keys, f.now),
        (None, None) => false,
    }
}

proof fn lemma_may_manage(
    config: ConfigModel,
    outcome: Result<Seq<char>, Seq<char>>,
    loaded: Option<Seq<ManagedModel>>,
    request: RequestModel,
    facts: Option<Facts>,
    set: Seq<ManagedModel>,
)
    requires
        needs(request, "admin"@),
        may_manage(config, outcome, loaded, request.headers, facts, set),
    ensures
        resumed_action(config, outcome, request, facts) == match endpoint_action(
            set,
            request,
            facts,
        ) {
            Action::Now(after) => first_seeding(config, loaded, facts, after),
            other => other,
        },
{
    law_endpoints(request);
    law_scope_of_endpoint(request, "admin"@);
    lemma_handed_out(outcome, loaded);
    let scopes = choose|scopes: Seq<Seq<char>>| #[trigger]
        are_granted(config, loaded, request.headers, scopes) && scopes.contains("admin"@);
    law_granted_scopes(config, loaded, request.headers, scopes);
}

/// Whoever may manage keys has them listed.
pub proof fn law_keys_are_listed(
    config: ConfigModel,
    outcome: Result<Seq<char>, Seq<char>>,
    loaded: Option<Seq<ManagedModel>>,
    request: RequestModel,
    facts: Option<Facts>,
    set: Seq<ManagedModel>,
)
    requires
        asks(request, "GET"@, "/plugin-api/v1/keys"@),
        may_manage(config, outcome, loaded, request.headers, facts, set),
    ensures
        resumed_action(config, outcome, request, facts) == first_seeding(
            config,
            loaded,
            facts,
            After::Reply(shared(200, key_list(set))),
        ),
{
    law_endpoints(request);
    lemma_may_manage(config, outcome, loaded, request, facts, set);
}

/// Whoever may manage keys revokes the one that the path names: what is left are the keys of other
/// names. Where no key has the name, that is a 404.
pub proof fn law_key_is_revoked(
    config: ConfigModel,
    outcome: Result<Seq<char>, Seq<char>>,
    loaded: Option<Seq<ManagedModel>>,
    request: RequestModel,
    facts: Option<Facts>,
    set: Seq<ManagedModel>,
    id: Seq<char>,
)
    requires
        caseless(request.method, "DELETE"@),
        names_key(request.path, id),
        may_manage(config, outcome, loaded, request.headers, facts, set),
    ensures
        resumed_action(config, outcome, request, facts) == if exists|i: int|
            0 <= i < set.len() && (#[trigger] set[i]).id == id {
            Action::Save(
                set.filter(|key: ManagedModel| key.id != id),
                After::Reply(shared(200, Tree::Object(map!["deleted"@ => Tree::Str(id)]))),
            )
        } else {
            first_seeding(
                config,
                loaded,
                facts,
                After::Reply(shared_failure(404, "no key has that id"@)),
            )
        },
{
    law_endpoints(request);
    law_key_path(request.path, id);
    law_without(set, id);
    lemma_may_manage(config, outcome, loaded, request, facts, set);
}

/// Whether a body lists just these scopes.
pub open spec fn has_scopes(body: Tree, scopes: Seq<Seq<char>>) -> bool {
    body.member("scopes"@) matches Some(value) && lists(value, scopes)
}

/// Whether a body asks for a key with this label and just these scopes: one or more, all known.
pub open spec fn wants(body: Tree, label: Option<Seq<char>>, scopes: Seq<Seq<char>>) -> bool {
    &&& body is Object
    &&& labels(body.member("label"@), label)
    &&& has_scopes(body, scopes)
    &&& scopes.len() > 0
    &&& forall|i: int|
        0 <= i < scopes.len() ==> #[trigger] scopes[i] == "read"@ || scopes[i] == "write"@
            || scopes[i] == "admin"@
}

/// Whoever may manage keys has one made that has just the label and the scopes that the body asks
/// for. It is added behind the others, and its secret told; where its name is taken, it is not made.
pub proof fn law_key_is_made(
    config: ConfigModel,
    outcome: Result<Seq<char>, Seq<char>>,
    loaded: Option<Seq<ManagedModel>>,
    request: RequestModel,
    facts: Facts,
    set: Seq<ManagedModel>,
    text: Seq<char>,
    body: Tree,
    key: ManagedModel,
    digits: Seq<char>,
)
    requires
        asks(request, "POST"@, "/plugin-api/v1/keys"@),
        may_manage(config, outcome, loaded, request.headers, Some(facts), set),
        trims_to(request.body, text),
        json_parse(text) == Ok::<Tree, Seq<char>>(body),
        wants(body, key.label, key.scopes),
        writes_bytes(digits, facts.entropy@.take(24)),
        writes_bytes(key.id, facts.entropy@.skip(24)),
        key.created == facts.now,
        hashes(seq!['p', 'b', 'a', '_'] + digits, key.hash),
        masks(seq!['p', 'b', 'a', '_'] + digits, key.masked),
    ensures
        resumed_action(config, outcome, request, Some(facts)) == if exists|i: int|
            0 <= i < set.len() && (#[trigger] set[i]).id == key.id {
            first_seeding(
                config,
                loaded,
                Some(facts),
                After::Reply(shared_failure(500, "key id is taken"@)),
            )
        } else {
            Action::Save(
                set.push(key),
                After::Reply(
                    shared(201, new_key_body(key, seq!['p', 'b', 'a', '_'] + digits)),
                ),
            )
        },
{
    let secret = seq!['p', 'b', 'a', '_'] + digits;
    law_endpoints(request);
    law_trimming(request.body, text);
    lemma_may_manage(config, outcome, loaded, request, Some(facts), set);
    lemma_wanted(body, key.label, key.scopes);
    law_new_secret(facts.entropy@, digits, key.id);
    law_hash(secret, key.hash);
    lemma_masks(secret, key.masked);
    law_without(set, key.id);
}

proof fn lemma_masks(secret: Seq<char>, mask: Seq<char>)
    requires
        masks(secret, mask),
    ensures
        masked(secret) == mask,
{
    law_mask(secret, mask.len() - 1);
}

proof fn lemma_wanted(body: Tree, label: Option<Seq<char>>, scopes: Seq<Seq<char>>)
    requires
        wants(body, label, scopes),
    ensures
        wanted_key(Ok(body)) == Ok::<Wanted, Seq<char>>(
            Wanted { label, scopes },
        ),
{
    law_string_list(body.member("scopes"@)->0, scopes);
    lemma_first_unknown(scopes, scopes.len() as int);
}

/// The first unknown scope is the one that has only known ones before it.
proof fn lemma_first_unknown(scopes: Seq<Seq<char>>, n: int)
    requires
        0 <= n <= scopes.len(),
        forall|i: int|
            0 <= i < n ==> #[trigger] scopes[i] == "read"@ || scopes[i] == "write"@ || scopes[i]
                == "admin"@,
        n < scopes.len() ==> scopes[n] != "read"@ && scopes[n] != "write"@ && scopes[n] != "admin"@,
    ensures
        n == scopes.len() ==> unknown_scope(scopes) is None,
        n < scopes.len() ==> unknown_scope(scopes) == Some(scopes[n]),
    decreases scopes.len(),
{
    if scopes.len() > 0 && n > 0 {
        let rest = scopes.drop_first();
        assert(scopes[0] == "read"@ || scopes[0] == "write"@ || scopes[0] == "admin"@);
        assert forall|i: int| 0 <= i < n - 1 implies #[trigger] rest[i] == "read"@ || rest[i]
            == "write"@ || rest[i] == "admin"@ by {
            assert(rest[i] == scopes[i + 1]);
        }
        lemma_first_unknown(rest, n - 1);
    }
}

/// Why a body does not ask for a key, where it does not.
pub open spec fn objection(parsed: Result<Tree, Seq<char>>, message: Seq<char>) -> bool {
    match parsed {
        Err(said) => message == "invalid JSON body: "@ + said,
        Ok(body) => if !(body is Object) {
            message == "request body must be a JSON object"@
        } else if !(body.member("label"@) is None || body.member("label"@) == Some(Tree::Null)
            || (body.member("label"@) matches Some(Tree::Str(_)))) {
            message == "label must be a string"@
        } else {
            ||| message == "scopes must be a list of strings"@ && forall|scopes: Seq<Seq<char>>|
                !has_scopes(body, scopes)
            ||| body.member("scopes"@) == Some(Tree::Array(Seq::empty())) && message
                == "at least one scope is required"@
            ||| exists|scopes: Seq<Seq<char>>, n: int|
                has_scopes(body, scopes) && #[trigger] is_first_unknown(scopes, n) && message
                    == "unknown scope '"@ + scopes[n] + "'"@
        },
    }
}

/// Whether a scope is the first that is unknown.
pub open spec fn is_first_unknown(scopes: Seq<Seq<char>>, n: int) -> bool {
    &&& 0 <= n < scopes.len()
    &&& scopes[n] != "read"@ && scopes[n] != "write"@ && scopes[n] != "admin"@
    &&& forall|i: int|
        0 <= i < n ==> #[trigger] scopes[i] == "read"@ || scopes[i] == "write"@ || scopes[i]
            == "admin"@
}

/// Whoever may manage keys and asks for one that cannot be made is told why, and no key is made.
pub proof fn law_key_is_refused(
    config: ConfigModel,
    outcome: Result<Seq<char>, Seq<char>>,
    loaded: Option<Seq<ManagedModel>>,
    request: RequestModel,
    facts: Option<Facts>,
    set: Seq<ManagedModel>,
    text: Seq<char>,
    message: Seq<char>,
)
    requires
        asks(request, "POST"@, "/plugin-api/v1/keys"@),
        may_manage(config, outcome, loaded, request.headers, facts, set),
        trims_to(request.body, text),
        objection(json_parse(text), message),
    ensures
        resumed_action(config, outcome, request, facts) == first_seeding(
            config,
            loaded,
            facts,
            After::Reply(shared_failure(400, message)),
        ),
{
    law_endpoints(request);
    law_trimming(request.body, text);
    lemma_may_manage(config, outcome, loaded, request, facts, set);
    if let Ok(body) = json_parse(text) {
        if let Some(value) = body.member("scopes"@) {
            if let Some(scopes) = string_list(value) {
                law_string_list(value, scopes);
                assert(has_scopes(body, scopes));
            }
            if body.member("scopes"@) == Some(Tree::Array(Seq::empty())) {
                law_string_list(value, Seq::empty());
                assert(lists(value, Seq::empty()));
            }
            assert forall|scopes: Seq<Seq<char>>, n: int|
                has_scopes(body, scopes) && #[trigger] is_first_unknown(
                    scopes,
                    n,
                ) implies string_list(
                value,
            ) == Some(scopes) && unknown_scope(scopes) == Some(scopes[n]) by {
                law_string_list(value, scopes);
                lemma_first_unknown(scopes, n);
            }
        }
    }
}

/// Without random bytes and the time no key is made; and without a managed set none is listed or
/// revoked either.
pub proof fn law_keys_need_the_world(
    config: ConfigModel,
    outcome: Result<Seq<char>, Seq<char>>,
    loaded: Option<Seq<ManagedModel>>,
    request: RequestModel,
    scopes: Seq<Seq<char>>,
    text: Seq<char>,
    body: Tree,
    label: Option<Seq<char>>,
    wanted: Seq<Seq<char>>,
)
    requires
        needs(request, "admin"@),
        hands_out(outcome, loaded),
        are_granted(config, loaded, request.headers, scopes),
        scopes.contains("admin"@),
        trims_to(request.body, text),
    ensures
        loaded is None ==> resumed_action(config, outcome, request, None) == Action::Now(
            After::Reply(failure(500, "no random bytes or time"@)),
        ),
        loaded is Some && asks(request, "POST"@, "/plugin-api/v1/keys"@) && json_parse(text) == Ok::<
            Tree,
            Seq<char>,
        >(body) && wants(body, label, wanted) ==> resumed_action(config, outcome, request, None)
            == Action::Now(After::Reply(shared_failure(500, "no random bytes or time"@))),
{
    law_endpoints(request);
    law_scope_of_endpoint(request, "admin"@);
    law_trimming(request.body, text);
    lemma_handed_out(outcome, loaded);
    law_granted_scopes(config, loaded, request.headers, scopes);
    lemma_paths_differ();
    lemma_method(request.method);
    lemma_methods_differ();
    lemma_scopes_differ();
    if wants(body, label, wanted) {
        lemma_wanted(body, label, wanted);
    }
}

/// Where what the host has kept cannot be read, the reply says so to every key, but that the
/// bootstrap secret is let in to the data. Nothing is kept.
pub proof fn law_unread(
    config: ConfigModel,
    outcome: Result<Seq<char>, Seq<char>>,
    request: RequestModel,
    facts: Option<Facts>,
    scope: Seq<char>,
    key: Seq<char>,
    reply: Tree,
)
    requires
        needs(request, scope),
        keeps_back(outcome, reply),
        presents(request.headers, key),
        config.bootstrap_admin_key != Some(key) || scope == "admin"@,
    ensures
        resumed_action(config, outcome, request, facts) == Action::Now(After::Reply(reply)),
{
    law_endpoints(request);
    law_scope_of_endpoint(request, scope);
    law_presented_key(request.headers, key);
    lemma_paths_differ();
    lemma_method(request.method);
    lemma_methods_differ();
    lemma_scopes_differ();
    if outcome is Ok {
        law_setting(outcome, None, reply);
    }
}

/// Every body asks for a key, or there is an objection to it.
pub proof fn law_every_body_is_judged(parsed: Result<Tree, Seq<char>>)
    ensures
        (exists|message: Seq<char>| #[trigger] objection(parsed, message)) || (parsed matches Ok(
            body,
        ) && exists|label: Option<Seq<char>>, scopes: Seq<Seq<char>>| #[trigger]
            wants(body, label, scopes)),
{
    match parsed {
        Err(said) => {
            assert(objection(parsed, "invalid JSON body: "@ + said));
        },
        Ok(body) => {
            assert(objection(parsed, "request body must be a JSON object"@) || body is Object);
            assert(objection(parsed, "label must be a string"@) || body.member("label"@) is None
                || body.member("label"@) == Some(Tree::Null) || (body.member("label"@) matches Some(
                Tree::Str(_),
            )));
            if body is Object && !objection(parsed, "label must be a string"@) {
                if exists|scopes: Seq<Seq<char>>| has_scopes(body, scopes) {
                    let scopes = choose|scopes: Seq<Seq<char>>| has_scopes(body, scopes);
                    if scopes.len() == 0 {
                        assert(body.member("scopes"@)->0->Array_0 =~= Seq::<Tree>::empty());
                        assert(objection(parsed, "at least one scope is required"@));
                    } else if exists|n: int| is_first_unknown(scopes, n) {
                        let n = choose|n: int| is_first_unknown(scopes, n);
                        assert(objection(parsed, "unknown scope '"@ + scopes[n] + "'"@));
                    } else {
                        lemma_all_known(scopes, 0);
                        let label = match body.member("label"@) {
                            Some(Tree::Str(text)) => Some(text),
                            _ => None,
                        };
                        assert(wants(body, label, scopes));
                    }
                } else {
                    assert(objection(parsed, "scopes must be a list of strings"@));
                }
            }
        },
    }
}

proof fn lemma_all_known(scopes: Seq<Seq<char>>, n: int)
    requires
        0 <= n <= scopes.len(),
        forall|i: int| !is_first_unknown(scopes, i),
        forall|i: int|
            0 <= i < n ==> #[trigger] scopes[i] == "read"@ || scopes[i] == "write"@ || scopes[i]
                == "admin"@,
    ensures
        forall|i: int|
            0 <= i < scopes.len() ==> #[trigger] scopes[i] == "read"@ || scopes[i] == "write"@
                || scopes[i] == "admin"@,
    decreases scopes.len() - n,
{
    if n < scopes.len() {
        assert(!is_first_unknown(scopes, n));
        lemma_all_known(scopes, n + 1);
    }
}

proof fn lemma_word(word: Seq<char>, name: Seq<char>)
    ensures
        is_word(word, name) <==> calls(word, name),
{
    if word.len() >= name.len() {
        assert(word.subrange(0, name.len() as int) =~= word.take(name.len() as int));
        law_capitals(word.take(name.len() as int), name);
    }
}

proof fn lemma_project(list: Seq<Seq<char>>)
    ensures
        speaks_of_project(list) <==> exists|i: int| call_project(list, i),
{
    assert forall|i: int| 0 <= i < list.len() implies (is_word(#[trigger] list[i], "project"@)
        <==> calls(list[i], "project"@)) && (is_card_part(list[i]) <==> calls(list[i], "workflow"@)
        || calls(list[i], "priority"@) || calls(list[i], "title"@)) by {
        lemma_word(list[i], "project"@);
        lemma_word(list[i], "workflow"@);
        lemma_word(list[i], "priority"@);
        lemma_word(list[i], "title"@);
    }
    if speaks_of_project(list) {
        let i = choose|i: int|
            0 <= i < list.len() && is_word(#[trigger] list[i], "project"@) && forall|j: int|
                i < j < list.len() ==> !is_card_part(#[trigger] list[j]);
        assert(call_project(list, i));
    }
    assert forall|i: int| #[trigger] call_project(list, i) implies speaks_of_project(list) by {
        assert(is_word(list[i], "project"@));
    }
}

/// An error names a missing project just where its message says so.
pub proof fn law_missing_project(message: Seq<char>)
    ensures
        names_missing_project(message) <==> tells_missing_project(message),
{
    reveal_strlit("not found");
    let words_of = "not found"@;
    assert(words_of.len() == 9);
    if names_missing_project(message) {
        let at = choose|at: int| #[trigger]
            says_not_found(message, at) && speaks_of_project(words(message.subrange(0, at)));
        let before = message.subrange(0, at);
        let after = message.subrange(at + 9, message.len() as int);
        assert(message =~= (before + words_of) + after);
        lemma_project(words(before));
        let i = choose|i: int| call_project(words(before), i);
        assert(call_project(words(before), i));
    }
    if tells_missing_project(message) {
        let (before, after, i) = choose|before: Seq<char>, after: Seq<char>, i: int|
            #![trigger (before + "not found"@) + after, call_project(words(before), i)]
            message == (before + "not found"@) + after && (after.len() > 0 ==> !letter(after[0]))
                && call_project(words(before), i);
        let at = before.len() as int;
        assert(message.subrange(at, at + 9) =~= words_of);
        assert(message.subrange(0, at) =~= before);
        if at + 9 < message.len() {
            assert(message[at + 9] == after[0]);
        }
        lemma_project(words(before));
        assert(says_not_found(message, at));
    }
}

/// What the host returns is what the client gets: data with 200, a card with 201, and an error with
/// the status that it deserves.
pub proof fn law_host_answers(function: HostFunction, outcome: Result<Seq<char>, Seq<char>>)
    ensures
        host_reply_tree(function, outcome) == match outcome {
            Err(message) => failure(500, "host error: "@ + message),
            Ok(out) => match json_parse(out) {
                Err(message) => failure(500, "host returned invalid json: "@ + message),
                Ok(value) => match value.member("error"@) {
                    None => if function == HostFunction::CreateCard {
                        plain(201, value)
                    } else {
                        plain(200, value)
                    },
                    Some(error) => if function != HostFunction::CreateCard {
                        plain(500, value)
                    } else {
                        match error {
                            Tree::Str(message) => if tells_missing_project(message) {
                                failure(404, message)
                            } else {
                                failure(400, message)
                            },
                            _ => plain(400, value),
                        }
                    },
                },
            },
        },
{
    if let Ok(out) = outcome {
        if let Ok(value) = json_parse(out) {
            if let Some(Tree::Str(message)) = value.member("error"@) {
                law_missing_project(message);
            }
        }
    }
}

/// A request goes on as it was to where the host has saved the managed set, and else it ends with
/// what went wrong.
pub proof fn law_saving(then: Next, next: Next, outcome: Result<Seq<char>, Seq<char>>)
    requires
        follows(then, next, outcome),
    ensures
        match outcome {
            Err(message) => then.performs(
                After::Reply(failure(500, "host error: "@ + message)),
            ),
            Ok(out) => match json_parse(out) {
                Err(message) => then.performs(
                    After::Reply(failure(500, "host returned invalid json: "@ + message)),
                ),
                Ok(answer) => if answer.member("error"@) is Some {
                    then.performs(After::Reply(plain(500, answer)))
                } else {
                    then == next
                },
            },
        },
{
}

/// A configuration text says nothing just where it is blank, or is an object without members but for
/// white space around it.
pub proof fn law_empty_configuration(config: Seq<char>)
    ensures
        says_nothing(config) <==> blank(config) || trims_to(config, seq!['{', '}']),
{
    lemma_blank(config);
    reveal_strlit("{}");
    assert("{}"@ =~= seq!['{', '}']);
    law_trimming(config, seq!['{', '}']);
}

} // verus!
