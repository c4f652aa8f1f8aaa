//! The plugin: what it declares, how it is configured, and how it serves a request.
//!
//! A request is served in steps. [`handle`] has the reply at once, or has the managed set loaded
//! for [`resume`]. From there the request ends, or has the managed set seeded or saved first;
//! [`saved`] waits for the latter. One that ends with a call of the host is answered by [`host_reply`].

use crate::assets::{SCRIPT, STYLESHEET};
use crate::auth::{
    authenticate, config_in_force, config_snapshot, granted, is_bootstrap, key_presented, no_config,
    presented_key, ApiConfig, ConfigModel, SCOPE_ADMIN, SCOPE_READ, SCOPE_WRITE,
};
use crate::json::{array, boolean, json_parse, number, string, Json, Members, Tree};
use crate::keys::{create_key, delete_key, key_list, list_keys, mint_action, revoke_action};
use crate::managed::{
    read_set, seed, seeded_set, set_model, set_of_tree, ManagedModel, ManagedSet,
};
use crate::minting::Facts;
use crate::query::{parse_query, query_params};
use crate::response::{
    asset, asset_reply, cors_reply, create_card_response, create_reply, error_reply, error_response,
    host_read_response, is_text_of, ok_response, page, page_reply, parsed_tree, preflight,
    preflight_reply, read_reply, reply, response, singleton, unauthorized, unauthorized_reply,
};
use crate::routes::{
    find_route, route_of, routes, HttpRequest, RequestModel, Route, PAGE_PATH, ROUTES,
};
use crate::steps::{load_step, reply_step, seed_step, Action, After, HostFunction, Next, Step};
use crate::text::{joined, same_text, trim, trimmed};
use vstd::prelude::*;

verus! {

/// The version that the health check reports: that of the package.
pub const VERSION: &'static str = "0.2.0";

/// The hook through which requests arrive.
pub const REQUEST_HOOK: &'static str = "http.request.before";

/// What a payload says: a request, or why it is none.
pub open spec fn payload_model(payload: Result<HttpRequest, String>) -> Result<
    RequestModel,
    Seq<char>,
> {
    match payload {
        Ok(request) => Ok(request@),
        Err(message) => Err(message@),
    }
}

/// The panel that the plugin has the host show: the management page.
pub open spec fn panel_tree() -> Tree {
    Tree::Object(
        Map::empty().insert("id"@, Tree::Str("api-keys"@)).insert(
            "title"@,
            Tree::Str("API Keys"@),
        ).insert("path"@, Tree::Str(PAGE_PATH@)),
    )
}

/// The manifest: the hook that is handled, the routes that are owned, and the panel.
pub open spec fn manifest_tree() -> Tree {
    Tree::Object(
        Map::empty().insert("hooks"@, Tree::Array(seq![Tree::Str(REQUEST_HOOK@)])).insert(
            "http_routes"@,
            Tree::Array(Seq::new(11, |i: int| Tree::Str(routes()[i]))),
        ).insert("ui_panels"@, Tree::Array(seq![panel_tree()])),
    )
}

/// Whether a configuration text says nothing.
pub open spec fn says_nothing(config: Seq<char>) -> bool {
    trimmed(config).len() == 0 || trimmed(config) == "{}"@
}

/// What is reported of a configuration with `count` keys.
pub open spec fn configured_tree(count: int) -> Tree {
    Tree::Object(
        Map::empty().insert("ok"@, Tree::Bool(true)).insert("keys"@, Tree::Int(count)),
    )
}

/// What is reported of a configuration that cannot be read.
pub open spec fn misconfigured_tree(message: Seq<char>) -> Tree {
    Tree::Object(
        Map::empty().insert("ok"@, Tree::Bool(false)).insert(
            "error"@,
            Tree::Str("invalid plugin config: "@ + message),
        ),
    )
}

/// The body of the health check: how many keys there are, and whether the managed set has been
/// made yet.
pub open spec fn health_body(key_count: int, seeded: bool) -> Tree {
    Tree::Object(
        Map::empty().insert("status"@, Tree::Str("ok"@)).insert(
            "plugin"@,
            Tree::Str("api"@),
        ).insert("version"@, Tree::Str(VERSION@)).insert("keys"@, Tree::Int(key_count)).insert(
            "seeded"@,
            Tree::Bool(seeded),
        ),
    )
}

/// The health of a plugin with this configuration and this managed set, if one has been made:
/// until then the keys are those that it will be made of.
pub open spec fn health_reply(config: ConfigModel, loaded: Option<Seq<ManagedModel>>) -> Tree {
    match loaded {
        Some(set) => reply(200, health_body(set.len() as int, true)),
        None => reply(200, health_body(config.keys.len() as int, false)),
    }
}

/// The verdict on a request whose key does not grant `scope`.
pub open spec fn forbidden_reply(scope: Seq<char>) -> Tree {
    error_reply(403, "api key is not authorized for scope '"@ + scope + "'"@)
}

/// Why a request with these headers is refused where `scope` is required, if it is, `loaded` being
/// the managed set if one has been made.
pub open spec fn refusal(
    config: ConfigModel,
    loaded: Option<Seq<ManagedModel>>,
    headers: Map<Seq<char>, Seq<char>>,
    scope: Seq<char>,
) -> Option<Tree> {
    match granted(config, loaded, headers) {
        Some(scopes) => if scopes.contains(scope) {
            None
        } else {
            Some(forbidden_reply(scope))
        },
        None => Some(unauthorized_reply()),
    }
}

/// The reply of an endpoint that is open to all and the same at all times.
pub open spec fn open_reply(route: Route) -> Option<Tree> {
    match route {
        Route::Page => Some(page_reply()),
        Route::Stylesheet => Some(asset_reply("text/css; charset=utf-8"@, STYLESHEET@)),
        Route::Script => Some(asset_reply("text/javascript; charset=utf-8"@, SCRIPT@)),
        Route::Preflight => Some(preflight_reply()),
        Route::Unknown => Some(error_reply(404, "not found"@)),
        _ => None,
    }
}

/// The scope that an endpoint asks for, if it asks for one.
pub open spec fn scope_of(route: Route) -> Option<Seq<char>> {
    match route {
        Route::ListProjects => Some(SCOPE_READ@),
        Route::ListCards => Some(SCOPE_READ@),
        Route::CreateCard => Some(SCOPE_WRITE@),
        Route::ListKeys => Some(SCOPE_ADMIN@),
        Route::CreateKey => Some(SCOPE_ADMIN@),
        Route::DeleteKey => Some(SCOPE_ADMIN@),
        _ => None,
    }
}

/// `members` with `name` as `params` has it, if they do.
pub open spec fn with_param(
    members: Map<Seq<char>, Tree>,
    params: Map<Seq<char>, Seq<char>>,
    name: Seq<char>,
) -> Map<Seq<char>, Tree> {
    if params.contains_key(name) {
        members.insert(name, Tree::Str(params[name]))
    } else {
        members
    }
}

/// The filters that a query sets on the cards.
pub open spec fn card_filters(query: Seq<char>) -> Tree {
    let params = query_params(query);
    Tree::Object(
        with_param(with_param(Map::empty(), params, "project_id"@), params, "step"@),
    )
}

/// The member `name` of a body without the white space at its ends; empty where it is no string.
pub open spec fn body_field(body: Tree, name: Seq<char>) -> Seq<char> {
    match body.str_member(name) {
        Some(s) => trimmed(s),
        None => seq![],
    }
}

/// What is to be done about a body that a card is to be made of.
pub open spec fn card_after(parsed: Result<Tree, Seq<char>>) -> After {
    match parsed {
        Ok(body) => if !(body is Object) {
            After::Reply(error_reply(400, "request body must be a JSON object"@))
        } else if body_field(body, "title"@).len() == 0 {
            After::Reply(error_reply(400, "title is required"@))
        } else if body_field(body, "project_id"@).len() == 0 {
            After::Reply(error_reply(400, "project_id is required"@))
        } else {
            After::CreateCard(body)
        },
        Err(message) => After::Reply(error_reply(400, "invalid JSON body: "@ + message)),
    }
}

/// What is to be done about a request as it arrives.
pub open spec fn request_action(request: RequestModel) -> Action {
    let route = route_of(request.method, request.path);
    match open_reply(route) {
        Some(tree) => Action::Now(After::Reply(tree)),
        None => if route == Route::Health || key_presented(request.headers) is Some {
            Action::Load
        } else {
            Action::Now(After::Reply(unauthorized_reply()))
        },
    }
}

/// What is to be done about a payload.
pub open spec fn payload_action(payload: Result<RequestModel, Seq<char>>) -> Action {
    match payload {
        Ok(request) => request_action(request),
        Err(message) => Action::Now(
            After::Reply(error_reply(400, "malformed request: "@ + message)),
        ),
    }
}

/// What is to be done when a hook is called.
pub open spec fn hook_action(hook: Seq<char>, payload: Result<RequestModel, Seq<char>>) -> Action {
    if hook == REQUEST_HOOK@ {
        payload_action(payload)
    } else {
        Action::Now(After::Reply(singleton("verdict"@, Tree::Str("skip"@))))
    }
}

/// The managed set that the host has kept, if there is one, or the reply to a request for which it
/// cannot be had.
pub open spec fn setting_of(parsed: Result<Tree, Seq<char>>) -> Result<
    Option<Seq<ManagedModel>>,
    Tree,
> {
    match parsed {
        Ok(out) => if out.member("error"@) is Some {
            Err(reply(500, out))
        } else {
            match out.member("value"@) {
                Some(Tree::Null) => Ok(None),
                Some(value) => match set_of_tree(value) {
                    Some(set) => Ok(Some(set)),
                    None => Err(error_reply(500, "stored keys cannot be read"@)),
                },
                None => Err(error_reply(500, "stored keys cannot be read"@)),
            }
        },
        Err(message) => Err(error_reply(500, "host returned invalid json: "@ + message)),
    }
}

/// The managed set that is in force: the one that has been made, or the one that is made of the
/// configured keys now. Without the time none can be made.
pub open spec fn set_in_force(
    config: ConfigModel,
    loaded: Option<Seq<ManagedModel>>,
    facts: Option<Facts>,
) -> Option<Seq<ManagedModel>> {
    match (loaded, facts) {
        (Some(set), _) => Some(set),
        (None, Some(facts)) => Some(seeded_set(config.keys, facts.now)),
        (None, None) => None,
    }
}

/// What an endpoint for data does about a request that has its scope. The managed set makes no
/// difference to it.
pub open spec fn data_after(request: RequestModel) -> Option<After> {
    match route_of(request.method, request.path) {
        Route::ListProjects => Some(After::ListProjects),
        Route::ListCards => Some(After::ListCards(card_filters(request.query))),
        Route::CreateCard => Some(card_after(json_parse(trimmed(request.body)))),
        _ => None,
    }
}

/// What an endpoint that asks for a scope does about a request that has it.
pub open spec fn endpoint_action(
    set: Seq<ManagedModel>,
    request: RequestModel,
    facts: Option<Facts>,
) -> Action {
    match data_after(request) {
        Some(after) => Action::Now(after),
        None => match route_of(request.method, request.path) {
            Route::ListKeys => Action::Now(After::Reply(cors_reply(200, key_list(set)))),
            Route::CreateKey => mint_action(set, json_parse(trimmed(request.body)), facts),
            _ => revoke_action(set, request.path),
        },
    }
}

/// What an endpoint that asks for a scope does about a request that has it, where no managed set is
/// to be had: an endpoint for data needs none, and one for keys fails with `failure`.
pub open spec fn setless_after(request: RequestModel, failure: Tree) -> After {
    match data_after(request) {
        Some(after) => after,
        None => After::Reply(failure),
    }
}

/// `action`, but that the managed set is seeded where it has just been made.
pub open spec fn seeding(
    loaded: Option<Seq<ManagedModel>>,
    set: Seq<ManagedModel>,
    action: Action,
) -> Action {
    match (loaded, action) {
        (None, Action::Now(after)) => Action::Seed(set, after),
        _ => action,
    }
}

/// What is to be done about a request with a valid key that grants `scopes`, where the endpoint asks
/// for `scope`.
pub open spec fn valid_action(
    config: ConfigModel,
    loaded: Option<Seq<ManagedModel>>,
    request: RequestModel,
    facts: Option<Facts>,
    scopes: Seq<Seq<char>>,
    scope: Seq<char>,
) -> Action {
    match set_in_force(config, loaded, facts) {
        Some(set) => seeding(
            loaded,
            set,
            if scopes.contains(scope) {
                endpoint_action(set, request, facts)
            } else {
                Action::Now(After::Reply(forbidden_reply(scope)))
            },
        ),
        None => Action::Now(
            if scopes.contains(scope) {
                setless_after(request, error_reply(500, "no random bytes or time"@))
            } else {
                After::Reply(forbidden_reply(scope))
            },
        ),
    }
}

/// What is to be done about a request once it is known which managed set has been made, if one has.
/// The first request with a valid key has the set made of the configured keys.
pub open spec fn loaded_action(
    config: ConfigModel,
    loaded: Option<Seq<ManagedModel>>,
    request: RequestModel,
    facts: Option<Facts>,
) -> Action {
    let route = route_of(request.method, request.path);
    match (open_reply(route), scope_of(route)) {
        (Some(tree), _) => Action::Now(After::Reply(tree)),
        (None, Some(scope)) => match granted(config, loaded, request.headers) {
            Some(scopes) => valid_action(config, loaded, request, facts, scopes, scope),
            None => Action::Now(After::Reply(unauthorized_reply())),
        },
        (None, None) => Action::Now(After::Reply(health_reply(config, loaded))),
    }
}

/// What is to be done about a request where the managed set cannot be had, `failure` being the reply
/// that says so. The endpoints that need no set are served all the same: those that are open to all,
/// the health check, and those for data to the bootstrap secret.
pub open spec fn unread_action(config: ConfigModel, request: RequestModel, failure: Tree) -> Action {
    let route = route_of(request.method, request.path);
    Action::Now(
        match (open_reply(route), scope_of(route)) {
            (Some(tree), _) => After::Reply(tree),
            (None, Some(_)) => match key_presented(request.headers) {
                Some(secret) => if config.bootstrap_admin_key == Some(secret) {
                    setless_after(request, failure)
                } else {
                    After::Reply(failure)
                },
                None => After::Reply(unauthorized_reply()),
            },
            (None, None) => After::Reply(health_reply(config, None)),
        },
    )
}

/// What is to be done about a request once the host has returned the setting.
pub open spec fn parsed_action(
    config: ConfigModel,
    parsed: Result<Tree, Seq<char>>,
    request: RequestModel,
    facts: Option<Facts>,
) -> Action {
    match setting_of(parsed) {
        Ok(loaded) => loaded_action(config, loaded, request, facts),
        Err(tree) => unread_action(config, request, tree),
    }
}

/// What is to be done about a request once the host has been asked for the setting.
pub open spec fn resumed_action(
    config: ConfigModel,
    outcome: Result<Seq<char>, Seq<char>>,
    request: RequestModel,
    facts: Option<Facts>,
) -> Action {
    match outcome {
        Ok(out) => parsed_action(config, json_parse(out), request, facts),
        Err(message) => unread_action(config, request, error_reply(500, "host error: "@ + message)),
    }
}

/// The reply to a request for which the managed set could not be saved, if it could not.
pub open spec fn save_failure(parsed: Result<Tree, Seq<char>>) -> Option<Tree> {
    match parsed {
        Ok(out) => if out.member("error"@) is Some {
            Some(reply(500, out))
        } else {
            None
        },
        Err(message) => Some(error_reply(500, "host returned invalid json: "@ + message)),
    }
}

/// What a request goes on with once the host has been asked to save the managed set: what was to
/// follow, unless that failed.
pub open spec fn follows(
    then: Next,
    next: Next,
    outcome: Result<Seq<char>, Seq<char>>,
) -> bool {
    match outcome {
        Ok(out) => match save_failure(json_parse(out)) {
            Some(tree) => then.performs(After::Reply(tree)),
            None => then == next,
        },
        Err(message) => then.performs(After::Reply(error_reply(500, "host error: "@ + message))),
    }
}

/// What the client is told when the host has been called.
pub open spec fn host_reply_tree(
    function: HostFunction,
    outcome: Result<Seq<char>, Seq<char>>,
) -> Tree {
    match outcome {
        Ok(out) => match function {
            HostFunction::CreateCard => create_reply(json_parse(out)),
            _ => read_reply(json_parse(out)),
        },
        Err(message) => error_reply(500, "host error: "@ + message),
    }
}

/// The views of the two sides of a host call's outcome.
pub open spec fn outcome_model(outcome: Result<String, String>) -> Result<Seq<char>, Seq<char>> {
    match outcome {
        Ok(out) => Ok(out@),
        Err(message) => Err(message@),
    }
}

/// Declares the hook that is handled, the routes that are owned, and the panel.
pub fn manifest() -> (text: String)
    ensures
        is_text_of(text@, manifest_tree()),
{
    let mut hooks: Vec<Json> = Vec::new();
    hooks.push(string(REQUEST_HOOK));
    let declared = ROUTES;
    let mut http_routes: Vec<Json> = Vec::new();
    for i in 0..declared.len()
        invariant
            declared == ROUTES,
            http_routes@.len() == i,
            forall|j: int| 0 <= j < i ==> (#[trigger] http_routes@[j])@ == Tree::Str(routes()[j]),
    {
        http_routes.push(string(declared[i]));
    }
    let mut panels: Vec<Json> = Vec::new();
    panels.push(
        Members::new().with("id", string("api-keys")).with("title", string("API Keys")).with(
            "path",
            string(PAGE_PATH),
        ).object(),
    );
    let hooks = array(hooks);
    let http_routes = array(http_routes);
    let panels = array(panels);
    assert(hooks@->Array_0 =~= seq![Tree::Str(REQUEST_HOOK@)]);
    assert(http_routes@->Array_0 =~= Seq::new(11, |i: int| Tree::Str(routes()[i])));
    assert(panels@->Array_0 =~= seq![panel_tree()]);
    Members::new().with("hooks", hooks).with("http_routes", http_routes).with(
        "ui_panels",
        panels,
    ).object().to_text()
}

/// Takes the configuration text that the host passes in, `parsed` being what it reads as. A text
/// that says nothing sets no keys. One that cannot be read is reported, and changes nothing.
pub fn init(
    stored: &mut Option<ApiConfig>,
    config: &str,
    parsed: Result<ApiConfig, String>,
) -> (text: String)
    ensures
        says_nothing(config@) ==> *final(stored) is Some && config_in_force(*final(stored))
            == no_config() && is_text_of(text@, configured_tree(0)),
        !says_nothing(config@) ==> match parsed {
            Ok(read) => *final(stored) == Some(read) && is_text_of(
                text@,
                configured_tree(read@.keys.len() as int),
            ),
            Err(message) => *final(stored) == *old(stored) && is_text_of(
                text@,
                misconfigured_tree(message@),
            ),
        },
{
    let trimmed = trim(config);
    let read = if trimmed.as_str().is_empty() || same_text(trimmed.as_str(), "{}") {
        ApiConfig::default()
    } else {
        match parsed {
            Ok(read) => read,
            Err(message) => {
                return Members::new().with("ok", boolean(false)).with(
                    "error",
                    string(joined("invalid plugin config: ", message.as_str()).as_str()),
                ).object().to_text();
            },
        }
    };
    let key_count: usize = read.keys.len();
    assert(read@.keys.len() == key_count);
    *stored = Some(read);
    Members::new().with("ok", boolean(true)).with(
        "keys",
        number(key_count as u64),
    ).object().to_text()
}

/// Serves a hook call. Requests arrive through one hook; on any other the plugin has no opinion.
pub fn handle(hook: &str, payload: &Result<HttpRequest, String>) -> (step: Step)
    ensures
        step.performs(hook_action(hook@, payload_model(*payload))),
{
    if same_text(hook, REQUEST_HOOK) {
        serve_http(payload)
    } else {
        reply_step(Members::new().with("verdict", string("skip")).object().to_text())
    }
}

/// Serves a request as it arrives: the endpoints that are the same at all times have their reply,
/// and so has a request that presents no key where one is asked for. All else waits for the
/// managed set.
pub fn serve_http(payload: &Result<HttpRequest, String>) -> (step: Step)
    ensures
        step.performs(payload_action(payload_model(*payload))),
{
    let request = match payload {
        Ok(request) => request,
        Err(message) => {
            return reply_step(
                error_response(400, joined("malformed request: ", message.as_str()).as_str()),
            );
        },
    };
    let route = find_route(request);
    if let Some(text) = open_response(route) {
        return reply_step(text);
    }
    if route == Route::Health || presented_key(&request.headers).is_some() {
        load_step()
    } else {
        reply_step(unauthorized())
    }
}

/// The reply of an endpoint that is open to all and the same at all times.
pub fn open_response(route: Route) -> (text: Option<String>)
    ensures
        match text {
            Some(t) => open_reply(route) matches Some(tree) && is_text_of(t@, tree),
            None => open_reply(route) is None,
        },
{
    match route {
        Route::Page => Some(page()),
        Route::Stylesheet => Some(asset("text/css; charset=utf-8", STYLESHEET)),
        Route::Script => Some(asset("text/javascript; charset=utf-8", SCRIPT)),
        Route::Preflight => Some(preflight()),
        Route::Unknown => Some(error_response(404, "not found")),
        _ => None,
    }
}

/// Goes on with a request once the host has been asked for the managed set. There are no `facts`
/// where the outside world did not give them.
pub fn resume(
    stored: &Option<ApiConfig>,
    request: &HttpRequest,
    facts: &Option<Facts>,
    outcome: Result<String, String>,
) -> (step: Step)
    ensures
        step.performs(
            resumed_action(config_in_force(*stored), outcome_model(outcome), request@, *facts),
        ),
{
    match outcome {
        Ok(out) => resume_parsed(stored, request, facts, Json::parse(out.as_str())),
        Err(message) => serve_unread(
            stored,
            request,
            error_response(500, joined("host error: ", message.as_str()).as_str()),
        ),
    }
}

/// Goes on with a request once what the host returned has been parsed.
pub fn resume_parsed(
    stored: &Option<ApiConfig>,
    request: &HttpRequest,
    facts: &Option<Facts>,
    parsed: Result<Json, String>,
) -> (step: Step)
    ensures
        step.performs(
            parsed_action(config_in_force(*stored), parsed_tree(parsed), request@, *facts),
        ),
{
    match read_setting(parsed) {
        Ok(loaded) => serve_loaded(stored, &loaded, request, facts),
        Err(text) => serve_unread(stored, request, text),
    }
}

/// Reads the managed set from what the host returned, once parsed. An error is not taken for a set
/// that has not been made yet, nor is a value that is no managed set.
pub fn read_setting(parsed: Result<Json, String>) -> (setting: Result<Option<ManagedSet>, String>)
    ensures
        match setting {
            Ok(loaded) => setting_of(parsed_tree(parsed)) matches Ok(set) && set == set_model(loaded),
            Err(text) => setting_of(parsed_tree(parsed)) matches Err(tree) && is_text_of(
                text@,
                tree,
            ),
        },
{
    let out = match parsed {
        Ok(out) => out,
        Err(message) => {
            return Err(
                error_response(
                    500,
                    joined("host returned invalid json: ", message.as_str()).as_str(),
                ),
            );
        },
    };
    if out.has_member("error") {
        return Err(response(500, out));
    }
    match out.as_ref().member("value") {
        Some(value) => if value.is_null() {
            Ok(None)
        } else {
            match read_set(value) {
                Some(set) => Ok(Some(set)),
                None => Err(error_response(500, "stored keys cannot be read")),
            }
        },
        None => Err(error_response(500, "stored keys cannot be read")),
    }
}

/// Serves a request once it is known which managed set has been made, if one has: asks a key with
/// the scope of the endpoint, and has the set made of the configured keys on the first request that
/// has a valid key.
pub fn serve_loaded(
    stored: &Option<ApiConfig>,
    loaded: &Option<ManagedSet>,
    request: &HttpRequest,
    facts: &Option<Facts>,
) -> (step: Step)
    ensures
        step.performs(
            loaded_action(config_in_force(*stored), set_model(*loaded), request@, *facts),
        ),
{
    let route = find_route(request);
    if let Some(text) = open_response(route) {
        return reply_step(text);
    }
    let scope = match required_scope(route) {
        Some(scope) => scope,
        None => {
            return reply_step(health(stored, loaded));
        },
    };
    let config = config_snapshot(stored);
    let set = match (loaded, facts) {
        (Some(set), _) => set.copy(),
        (None, Some(facts)) => seed(&config, facts.now),
        (None, None) => {
            let handler = |request: &HttpRequest| -> (step: Step)
                ensures
                    step.performs(
                        Action::Now(
                            setless_after(
                                request@,
                                error_reply(500, "no random bytes or time"@),
                            ),
                        ),
                    ),
                { setless(request, error_response(500, "no random bytes or time")) };
            return guard(stored, loaded, request, scope, handler);
        },
    };
    let handler = |request: &HttpRequest| -> (step: Step)
        ensures
            step.performs(endpoint_action(set@, request@, *facts)),
        { endpoint(&set, request, facts) };
    let step = guard(stored, loaded, request, scope, handler);
    if loaded.is_some() || authenticate(&config, loaded, &request.headers).is_none() {
        return step;
    }
    match step {
        Step::Now(next) => seed_step(&set, next),
        other => other,
    }
}

/// Serves a request where the managed set cannot be had, `failure` being the reply that says so.
pub fn serve_unread(
    stored: &Option<ApiConfig>,
    request: &HttpRequest,
    failure: String,
) -> (step: Step)
    ensures
        forall|tree: Tree| #[trigger]
            is_text_of(failure@, tree) ==> step.performs(
                unread_action(config_in_force(*stored), request@, tree),
            ),
{
    let route = find_route(request);
    if let Some(text) = open_response(route) {
        return reply_step(text);
    }
    if route == Route::Health {
        return reply_step(health(stored, &None));
    }
    let presented = match presented_key(&request.headers) {
        Some(presented) => presented,
        None => {
            return reply_step(unauthorized());
        },
    };
    if is_bootstrap(&config_snapshot(stored), presented.as_str()) {
        setless(request, failure)
    } else {
        reply_step(failure)
    }
}

/// Serves a request that has the scope of its endpoint where no managed set is to be had, `failure`
/// being the reply that says so.
fn setless(request: &HttpRequest, failure: String) -> (step: Step)
    ensures
        forall|tree: Tree| #[trigger]
            is_text_of(failure@, tree) ==> step.performs(Action::Now(setless_after(request@, tree))),
{
    match find_route(request) {
        Route::ListProjects => list_projects(),
        Route::ListCards => list_cards(request),
        Route::CreateCard => create_card(request),
        _ => reply_step(failure),
    }
}

/// Serves a request that has the scope of its endpoint.
fn endpoint(set: &ManagedSet, request: &HttpRequest, facts: &Option<Facts>) -> (step: Step)
    ensures
        step.performs(endpoint_action(set@, request@, *facts)),
{
    match find_route(request) {
        Route::ListProjects => list_projects(),
        Route::ListCards => list_cards(request),
        Route::CreateCard => create_card(request),
        Route::ListKeys => list_keys(set),
        Route::CreateKey => create_key(set, request, facts),
        _ => delete_key(set, request),
    }
}

/// The scope that an endpoint asks for, if it asks for one.
pub fn required_scope(route: Route) -> (scope: Option<&'static str>)
    ensures
        match scope {
            Some(s) => scope_of(route) == Some(s@),
            None => scope_of(route) is None,
        },
{
    match route {
        Route::ListProjects | Route::ListCards => Some(SCOPE_READ),
        Route::CreateCard => Some(SCOPE_WRITE),
        Route::ListKeys | Route::CreateKey | Route::DeleteKey => Some(SCOPE_ADMIN),
        _ => None,
    }
}

/// Asks a key that grants `scope` of the request, `loaded` being the managed set if one has been
/// made, and then hands it to `handler`.
pub fn guard<F: FnOnce(&HttpRequest) -> Step>(
    stored: &Option<ApiConfig>,
    loaded: &Option<ManagedSet>,
    request: &HttpRequest,
    scope: &str,
    handler: F,
) -> (step: Step)
    requires
        call_requires(handler, (request,)),
    ensures
        match refusal(config_in_force(*stored), set_model(*loaded), request@.headers, scope@) {
            Some(tree) => step.performs(Action::Now(After::Reply(tree))),
            None => call_ensures(handler, (request,), step),
        },
{
    let config = config_snapshot(stored);
    let grant = match authenticate(&config, loaded, &request.headers) {
        Some(grant) => grant,
        None => {
            return reply_step(unauthorized());
        },
    };
    if !grant.has_scope(scope) {
        let message = joined(joined("api key is not authorized for scope '", scope).as_str(), "'");
        return reply_step(error_response(403, message.as_str()));
    }
    handler(request)
}

/// Goes on with a request once the host has been asked to save the managed set. If that failed, the
/// request fails.
pub fn saved(next: Next, outcome: Result<String, String>) -> (then: Next)
    ensures
        follows(then, next, outcome_model(outcome)),
{
    match outcome {
        Ok(out) => saved_parsed(next, Json::parse(out.as_str())),
        Err(message) => Next::Reply(
            error_response(500, joined("host error: ", message.as_str()).as_str()),
        ),
    }
}

/// Goes on with a request once what the host returned has been parsed.
pub fn saved_parsed(next: Next, parsed: Result<Json, String>) -> (then: Next)
    ensures
        match save_failure(parsed_tree(parsed)) {
            Some(tree) => then.performs(After::Reply(tree)),
            None => then == next,
        },
{
    match parsed {
        Ok(out) => if out.has_member("error") {
            Next::Reply(response(500, out))
        } else {
            next
        },
        Err(message) => Next::Reply(
            error_response(500, joined("host returned invalid json: ", message.as_str()).as_str()),
        ),
    }
}

/// The health check, open to all.
pub fn health(stored: &Option<ApiConfig>, loaded: &Option<ManagedSet>) -> (text: String)
    ensures
        is_text_of(text@, health_reply(config_in_force(*stored), set_model(*loaded))),
{
    let config = config_snapshot(stored);
    let (key_count, seeded): (usize, bool) = match loaded {
        Some(set) => (set.keys.len(), true),
        None => (config.keys.len(), false),
    };
    ok_response(
        Members::new().with("status", string("ok")).with("plugin", string("api")).with(
            "version",
            string(VERSION),
        ).with("keys", number(key_count as u64)).with("seeded", boolean(seeded)).object(),
    )
}

/// Lists the projects.
pub fn list_projects() -> (step: Step)
    ensures
        step.performs(Action::Now(After::ListProjects)),
{
    Step::Now(Next::Call(HostFunction::ListProjects, "{}".to_owned()))
}

/// Lists the cards, of the project and the step that the query may name.
pub fn list_cards(request: &HttpRequest) -> (step: Step)
    ensures
        step.performs(Action::Now(After::ListCards(card_filters(request@.query)))),
{
    let params = parse_query(request.query.as_str());
    let mut filters = Members::new();
    if let Some(project_id) = params.get("project_id") {
        filters = filters.with("project_id", string(project_id.as_str()));
    }
    if let Some(step) = params.get("step") {
        filters = filters.with("step", string(step.as_str()));
    }
    Step::Now(Next::Call(HostFunction::ListCards, filters.object().to_text()))
}

/// Creates a card from the body of the request.
pub fn create_card(request: &HttpRequest) -> (step: Step)
    ensures
        step.performs(Action::Now(card_after(json_parse(trimmed(request@.body))))),
{
    create_card_from(Json::parse(trim(request.body.as_str()).as_str()))
}

/// Creates a card from a body, once parsed: a JSON object with a title and a project.
pub fn create_card_from(parsed: Result<Json, String>) -> (step: Step)
    ensures
        step.performs(Action::Now(card_after(parsed_tree(parsed)))),
{
    let body = match parsed {
        Ok(body) => body,
        Err(message) => {
            return reply_step(
                error_response(400, joined("invalid JSON body: ", message.as_str()).as_str()),
            );
        },
    };
    if !body.is_object() {
        return reply_step(error_response(400, "request body must be a JSON object"));
    }
    if field_str(&body, "title").as_str().is_empty() {
        return reply_step(error_response(400, "title is required"));
    }
    if field_str(&body, "project_id").as_str().is_empty() {
        return reply_step(error_response(400, "project_id is required"));
    }
    Step::Now(Next::Call(HostFunction::CreateCard, body.to_text()))
}

/// The member `name` without the white space at its ends; empty where it is missing or no string.
pub fn field_str(body: &Json, name: &str) -> (field: String)
    ensures
        field@ == body_field(body@, name@),
{
    match body.str_member(name) {
        Some(s) => trim(s),
        None => String::new(),
    }
}

/// The reply to a request for which the host has been called.
pub fn host_reply(function: HostFunction, outcome: Result<String, String>) -> (text: String)
    ensures
        is_text_of(text@, host_reply_tree(function, outcome_model(outcome))),
{
    match outcome {
        Ok(out) => match function {
            HostFunction::CreateCard => create_card_response(out.as_str()),
            _ => host_read_response(out.as_str()),
        },
        Err(message) => error_response(500, joined("host error: ", message.as_str()).as_str()),
    }
}

/// Nothing is held that would have to be released.
pub fn shutdown() -> (text: String)
    ensures
        text@ == "{}"@,
{
    "{}".to_owned()
}

} // verus!
