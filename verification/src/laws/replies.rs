//! What replies and host inputs say to those who read them.

use crate::assets::{PAGE, PAGE_POLICY};
use crate::auth::{key_presented, ConfigModel};
use crate::json::{json_parse, Tree, MAX_LEVELS};
use crate::keys::{key_list, new_key, new_key_body, wanted_key};
use crate::laws::access::{end_of, kept, next_of, route};
use crate::laws::routes::{law_declared_routes_are_served, route_covers};
use crate::managed::{shown_members, strings_tree, ManagedModel};
use crate::minting::{secret_of, Facts};
use crate::plugin::{
    body_field, card_after, card_filters, configured_tree, endpoint_action, follows, health_body,
    host_reply_tree, loaded_action, manifest_tree, misconfigured_tree, open_reply, panel_tree,
    payload_action, request_action, resumed_action, save_failure, scope_of, set_in_force, setting_of,
    REQUEST_HOOK, VERSION,
};
use crate::query::query_params;
use crate::response::{
    allow_verdict, cors_error_reply, cors_headers, cors_reply, error_reply, is_text_of, json_headers,
    names_missing_project, page_reply, preflight_reply, reply, singleton, unauthorized_reply,
};
use crate::routes::{key_id, routes, RequestModel, Route};
use crate::steps::{Action, After, HostFunction, Next, Step};
use crate::text::{ascii_uppercase, trimmed};
use vstd::prelude::*;

verus! {

/// The member `name` of the payload of a verdict.
pub open spec fn payload_member(verdict: Tree, name: Seq<char>) -> Option<Tree> {
    match verdict.member("payload"@) {
        Some(payload) => payload.member(name),
        None => None,
    }
}

/// Whether a verdict answers with `status`, the JSON `body`, and the header that says so.
pub open spec fn answers(verdict: Tree, status: int, body: Tree) -> bool {
    &&& verdict.str_member("verdict"@) == Some("allow"@)
    &&& payload_member(verdict, "status"@) == Some(Tree::Int(status))
    &&& payload_member(verdict, "body"@) == Some(body)
    &&& payload_member(verdict, "headers"@) matches Some(headers) && headers.str_member(
        "content-type"@,
    ) == Some("application/json"@)
}

/// Whether a body is an object with an error message.
pub open spec fn is_error(body: Tree) -> bool {
    body.str_member("error"@) is Some
}

proof fn lemma_names_differ()
    ensures
        "verdict"@ != "payload"@,
        "status"@ != "headers"@,
        "status"@ != "body"@,
        "headers"@ != "body"@,
        "content-type"@ != "www-authenticate"@,
        "content-type"@ != "access-control-allow-origin"@,
        "content-type"@ != "content-security-policy"@,
        "access-control-allow-origin"@ != "www-authenticate"@,
        "access-control-allow-methods"@ != "www-authenticate"@,
        "access-control-allow-headers"@ != "www-authenticate"@,
        "content-security-policy"@ != "www-authenticate"@,
        "access-control-allow-methods"@ != "access-control-allow-origin"@,
        "access-control-allow-methods"@ != "access-control-allow-headers"@,
        "access-control-allow-headers"@ != "access-control-allow-origin"@,
        "project_id"@ != "step"@,
        "ok"@ != "keys"@,
        "ok"@ != "error"@,
        "status"@ != "plugin"@,
        "status"@ != "version"@,
        "status"@ != "keys"@,
        "status"@ != "seeded"@,
        "plugin"@ != "version"@,
        "plugin"@ != "keys"@,
        "plugin"@ != "seeded"@,
        "version"@ != "keys"@,
        "version"@ != "seeded"@,
        "keys"@ != "seeded"@,
        "error"@ != "status"@,
        "error"@ != "plugin"@,
        "error"@ != "version"@,
        "error"@ != "keys"@,
        "error"@ != "seeded"@,
        "error"@ != "deleted"@,
        "error"@ != "id"@,
        "error"@ != "label"@,
        "error"@ != "scopes"@,
        "error"@ != "created"@,
        "error"@ != "masked"@,
        "error"@ != "key"@,
        "hooks"@ != "http_routes"@,
        "hooks"@ != "ui_panels"@,
        "http_routes"@ != "ui_panels"@,
{
    reveal_strlit("verdict");
    reveal_strlit("payload");
    reveal_strlit("status");
    reveal_strlit("headers");
    reveal_strlit("body");
    reveal_strlit("content-type");
    reveal_strlit("www-authenticate");
    reveal_strlit("access-control-allow-origin");
    reveal_strlit("content-security-policy");
    reveal_strlit("access-control-allow-methods");
    reveal_strlit("access-control-allow-headers");
    reveal_strlit("project_id");
    reveal_strlit("step");
    reveal_strlit("ok");
    reveal_strlit("keys");
    reveal_strlit("error");
    reveal_strlit("plugin");
    reveal_strlit("version");
    reveal_strlit("seeded");
    reveal_strlit("deleted");
    reveal_strlit("id");
    reveal_strlit("label");
    reveal_strlit("scopes");
    reveal_strlit("created");
    reveal_strlit("masked");
    reveal_strlit("key");
    reveal_strlit("hooks");
    reveal_strlit("http_routes");
    reveal_strlit("ui_panels");
    assert("verdict"@.len() == 7);
    assert("payload"@.len() == 7);
    assert("status"@.len() == 6);
    assert("headers"@.len() == 7);
    assert("body"@.len() == 4);
    assert("content-type"@.len() == 12);
    assert("www-authenticate"@.len() == 16);
    assert("access-control-allow-origin"@.len() == 27);
    assert("content-security-policy"@.len() == 23);
    assert("access-control-allow-methods"@.len() == 28);
    assert("access-control-allow-headers"@.len() == 28);
    assert("access-control-allow-methods"@[21] != "access-control-allow-headers"@[21]);
    assert("project_id"@.len() == 10);
    assert("step"@.len() == 4);
    assert("ok"@.len() == 2);
    assert("keys"@.len() == 4);
    assert("error"@.len() == 5);
    assert("plugin"@.len() == 6);
    assert("version"@.len() == 7);
    assert("seeded"@.len() == 6);
    assert("deleted"@.len() == 7);
    assert("id"@.len() == 2);
    assert("label"@.len() == 5);
    assert("scopes"@.len() == 6);
    assert("created"@.len() == 7);
    assert("masked"@.len() == 6);
    assert("key"@.len() == 3);
    assert("hooks"@.len() == 5);
    assert("http_routes"@.len() == 11);
    assert("ui_panels"@.len() == 9);
    assert("verdict"@[0] != "payload"@[0]);
    assert("status"@[0] != "plugin"@[0]);
    assert("status"@[1] != "seeded"@[1]);
    assert("plugin"@[0] != "seeded"@[0]);
    assert("error"@[0] != "label"@[0]);
}

/// A reply says its status and its body.
pub proof fn law_reply_answers(status: int, body: Tree)
    ensures
        answers(reply(status, body), status, body),
{
    lemma_names_differ();
}

/// An error is a status and a body `{"error": message}`, which has no other member.
pub proof fn law_error_reply_answers(status: int, message: Seq<char>)
    ensures
        answers(error_reply(status, message), status, singleton("error"@, Tree::Str(message))),
        singleton("error"@, Tree::Str(message)).str_member("error"@) == Some(message),
        forall|name: Seq<char>|
            name != "error"@ ==> (#[trigger] singleton("error"@, Tree::Str(message)).member(name))
                is None,
{
    law_reply_answers(status, singleton("error"@, Tree::Str(message)));
}

/// The answer to a request without a valid key is a 401 with an error and the bearer challenge.
pub proof fn law_unauthorized_challenges()
    ensures
        answers(
            unauthorized_reply(),
            401,
            singleton("error"@, Tree::Str("missing or invalid API key"@)),
        ),
        payload_member(unauthorized_reply(), "headers"@) matches Some(headers)
            && headers.str_member("www-authenticate"@) == Some("Bearer realm=\"plugin-api\""@),
{
    lemma_names_differ();
}

/// A verdict nests its body two levels deeper.
proof fn lemma_verdict_fits(
    status: int,
    headers: Map<Seq<char>, Tree>,
    body: Tree,
    levels: nat,
)
    requires
        body.fits(levels),
        levels > 0,
        forall|name: Seq<char>| headers.contains_key(name) ==> (#[trigger] headers[name]) is Str,
    ensures
        allow_verdict(status, headers, body).fits(levels + 2),
{
    let payload = Map::empty().insert("status"@, Tree::Int(status)).insert(
        "headers"@,
        Tree::Object(headers),
    ).insert("body"@, body);
    assert(Tree::Object(headers).fits(levels)) by {
        assert forall|name: Seq<char>| headers.contains_key(name) implies (
        #[trigger] headers[name]).fits((levels - 1) as nat) by {
            assert(headers[name] is Str);
        }
    }
    assert forall|name: Seq<char>| payload.contains_key(name) implies (#[trigger] payload[name]).fits(
        levels,
    ) by {
    }
    assert(Tree::Object(payload).fits(levels + 1));
    let verdict = Map::empty().insert("verdict"@, Tree::Str("allow"@)).insert(
        "payload"@,
        Tree::Object(payload),
    );
    assert forall|name: Seq<char>| verdict.contains_key(name) implies (#[trigger] verdict[name]).fits(
        levels + 1,
    ) by {
    }
}

/// Whoever reads a reply gets its status and its body back, provided that the body holds no
/// fraction and leaves the parser two levels for the verdict around it.
pub proof fn law_reply_reads_back(text: Seq<char>, status: int, body: Tree)
    requires
        is_text_of(text, reply(status, body)),
        body.fits((MAX_LEVELS - 2) as nat),
    ensures
        json_parse(text) matches Ok(verdict) && answers(verdict, status, body),
{
    law_reply_answers(status, body);
    lemma_verdict_fits(status, json_headers(), body, (MAX_LEVELS - 2) as nat);
}

/// Whoever reads an error gets its status and its message back.
pub proof fn law_error_reads_back(text: Seq<char>, status: int, message: Seq<char>)
    requires
        is_text_of(text, error_reply(status, message)),
    ensures
        json_parse(text) matches Ok(verdict) && answers(
            verdict,
            status,
            singleton("error"@, Tree::Str(message)),
        ),
{
    let body = singleton("error"@, Tree::Str(message));
    lemma_flat_object_fits(
        Map::empty().insert("error"@, Tree::Str(message)),
        (MAX_LEVELS - 2) as nat,
    );
    law_reply_reads_back(text, status, body);
}

/// Whoever reads the answer to a request without a valid key gets the 401 and the challenge back.
pub proof fn law_unauthorized_reads_back(text: Seq<char>)
    requires
        is_text_of(text, unauthorized_reply()),
    ensures
        json_parse(text) == Ok::<Tree, Seq<char>>(unauthorized_reply()),
{
    let message = Tree::Str("missing or invalid API key"@);
    lemma_flat_object_fits(Map::empty().insert("error"@, message), (MAX_LEVELS - 2) as nat);
    lemma_verdict_fits(
        401,
        json_headers().insert("www-authenticate"@, Tree::Str("Bearer realm=\"plugin-api\""@)),
        singleton("error"@, message),
        (MAX_LEVELS - 2) as nat,
    );
}

proof fn lemma_flat_object_fits(members: Map<Seq<char>, Tree>, levels: nat)
    requires
        levels > 0,
        forall|name: Seq<char>|
            members.contains_key(name) ==> !((#[trigger] members[name]) is Float
                || members[name] is Array || members[name] is Object),
    ensures
        Tree::Object(members).fits(levels),
{
    assert forall|name: Seq<char>| members.contains_key(name) implies (
    #[trigger] members[name]).fits((levels - 1) as nat) by {
    }
}

/// A reply that an endpoint for keys makes to an admin key says its status and its body, and a page
/// of any origin may read it.
pub proof fn law_key_reply_answers(status: int, body: Tree)
    ensures
        answers(cors_reply(status, body), status, body),
        payload_member(cors_reply(status, body), "headers"@) matches Some(headers)
            && headers.str_member("access-control-allow-origin"@) == Some("*"@),
{
    lemma_names_differ();
}

/// Whoever reads such a reply gets its status and its body back, provided that the body holds no
/// fraction and leaves the parser two levels for the verdict around it.
pub proof fn law_key_reply_reads_back(text: Seq<char>, status: int, body: Tree)
    requires
        is_text_of(text, cors_reply(status, body)),
        body.fits((MAX_LEVELS - 2) as nat),
    ensures
        json_parse(text) matches Ok(verdict) && answers(verdict, status, body),
{
    law_key_reply_answers(status, body);
    lemma_verdict_fits(status, cors_headers(), body, (MAX_LEVELS - 2) as nat);
}

proof fn lemma_shown_fits(members: Map<Seq<char>, Tree>, scopes: Seq<Seq<char>>)
    requires
        forall|name: Seq<char>|
            members.contains_key(name) ==> !((#[trigger] members[name]) is Float
                || members[name] is Array || members[name] is Object) || members[name]
                == strings_tree(scopes),
    ensures
        Tree::Object(members).fits((MAX_LEVELS - 4) as nat),
        Tree::Object(members).fits((MAX_LEVELS - 2) as nat),
{
    let items = strings_tree(scopes)->Array_0;
    assert forall|i: int| 0 <= i < items.len() implies (#[trigger] items[i]).fits(
        (MAX_LEVELS - 6) as nat,
    ) && items[i].fits((MAX_LEVELS - 4) as nat) by {
        assert(items[i] is Str);
    }
    assert(strings_tree(scopes).fits((MAX_LEVELS - 5) as nat));
    assert(strings_tree(scopes).fits((MAX_LEVELS - 3) as nat));
    assert forall|name: Seq<char>| members.contains_key(name) implies (
    #[trigger] members[name]).fits((MAX_LEVELS - 5) as nat) by {
    }
    assert forall|name: Seq<char>| members.contains_key(name) implies (
    #[trigger] members[name]).fits((MAX_LEVELS - 3) as nat) by {
    }
}

/// Whoever reads the list of keys gets it as it is.
pub proof fn law_key_list_reads_back(text: Seq<char>, set: Seq<ManagedModel>)
    requires
        is_text_of(text, cors_reply(200, key_list(set))),
    ensures
        json_parse(text) matches Ok(verdict) && answers(verdict, 200, key_list(set)),
{
    let items = key_list(set)->Object_0["keys"@]->Array_0;
    assert forall|i: int| 0 <= i < items.len() implies (#[trigger] items[i]).fits(
        (MAX_LEVELS - 4) as nat,
    ) by {
        assert(items[i] == Tree::Object(shown_members(set[i])));
        lemma_shown_fits(shown_members(set[i]), set[i].scopes);
    }
    let members = key_list(set)->Object_0;
    assert(Tree::Array(items).fits((MAX_LEVELS - 3) as nat));
    assert forall|name: Seq<char>| members.contains_key(name) implies (
    #[trigger] members[name]).fits((MAX_LEVELS - 3) as nat) by {
    }
    law_key_reply_reads_back(text, 200, key_list(set));
}

/// Whoever reads the answer to a request that a key was made for gets its secret.
pub proof fn law_new_key_reads_back(text: Seq<char>, key: ManagedModel, secret: Seq<char>)
    requires
        is_text_of(text, cors_reply(201, new_key_body(key, secret))),
    ensures
        json_parse(text) matches Ok(verdict) && answers(verdict, 201, new_key_body(key, secret)),
{
    lemma_shown_fits(new_key_body(key, secret)->Object_0, key.scopes);
    law_key_reply_reads_back(text, 201, new_key_body(key, secret));
}

/// The health check says that all is well, which plugin and version it is, how many keys there are
/// and whether the managed set has been made, and nothing else.
pub proof fn law_health_says(key_count: int, seeded: bool, name: Seq<char>)
    ensures
        ({
            let body = health_body(key_count, seeded);
            &&& body.member("status"@) == Some(Tree::Str("ok"@))
            &&& body.member("plugin"@) == Some(Tree::Str("api"@))
            &&& body.member("version"@) == Some(Tree::Str(VERSION@))
            &&& body.member("keys"@) == Some(Tree::Int(key_count))
            &&& body.member("seeded"@) == Some(Tree::Bool(seeded))
            &&& body.member(name) is Some ==> name == "status"@ || name == "plugin"@ || name
                == "version"@ || name == "keys"@ || name == "seeded"@
        }),
{
    lemma_names_differ();
}

/// Whoever reads the manifest gets the hook, the routes and the panel.
pub proof fn law_manifest_reads_back(text: Seq<char>)
    requires
        is_text_of(text, manifest_tree()),
    ensures
        json_parse(text) matches Ok(manifest) && {
            &&& manifest.member("hooks"@) == Some(Tree::Array(seq![Tree::Str(REQUEST_HOOK@)]))
            &&& manifest.member("http_routes"@) matches Some(Tree::Array(declared))
                && declared.len() == routes().len() && forall|i: int|
                0 <= i < routes().len() ==> #[trigger] declared[i] == Tree::Str(routes()[i])
            &&& manifest.member("ui_panels"@) == Some(Tree::Array(seq![panel_tree()]))
        },
{
    lemma_names_differ();
    let members = manifest_tree()->Object_0;
    let hooks = seq![Tree::Str(REQUEST_HOOK@)];
    let declared = Seq::new(11, |i: int| Tree::Str(routes()[i]));
    let panels = seq![panel_tree()];
    lemma_texts_fit(hooks);
    lemma_texts_fit(declared);
    assert(members["http_routes"@] == Tree::Array(declared));
    let panel = panel_tree()->Object_0;
    lemma_flat_object_fits(panel, (MAX_LEVELS - 2) as nat);
    assert(panel_tree().fits((MAX_LEVELS - 2) as nat));
    assert forall|i: int| 0 <= i < panels.len() implies (#[trigger] panels[i]).fits(
        (MAX_LEVELS - 2) as nat,
    ) by {
    }
    assert(Tree::Array(panels).fits((MAX_LEVELS - 1) as nat));
    assert forall|name: Seq<char>| members.contains_key(name) implies (
    #[trigger] members[name]).fits((MAX_LEVELS - 1) as nat) by {
    }
    assert(manifest_tree().fits(MAX_LEVELS as nat));
}

proof fn lemma_texts_fit(items: Seq<Tree>)
    requires
        forall|i: int| 0 <= i < items.len() ==> (#[trigger] items[i]) is Str,
    ensures
        Tree::Array(items).fits((MAX_LEVELS - 1) as nat),
{
    assert forall|i: int| 0 <= i < items.len() implies (#[trigger] items[i]).fits(
        (MAX_LEVELS - 2) as nat,
    ) by {
        assert(items[i] is Str);
    }
}

/// Whoever reads what is reported of a configuration gets the number of its keys back.
pub proof fn law_configured_reads_back(text: Seq<char>, count: int)
    requires
        is_text_of(text, configured_tree(count)),
    ensures
        json_parse(text) matches Ok(report) && report.member("ok"@) == Some(Tree::Bool(true))
            && report.member("keys"@) == Some(Tree::Int(count)),
{
    lemma_names_differ();
    lemma_flat_object_fits(configured_tree(count)->Object_0, MAX_LEVELS as nat);
}

/// Whoever reads what is reported of a configuration that cannot be read learns why.
pub proof fn law_misconfigured_reads_back(text: Seq<char>, message: Seq<char>)
    requires
        is_text_of(text, misconfigured_tree(message)),
    ensures
        json_parse(text) matches Ok(report) && report.member("ok"@) == Some(Tree::Bool(false))
            && report.str_member("error"@) == Some("invalid plugin config: "@ + message),
{
    lemma_names_differ();
    lemma_flat_object_fits(misconfigured_tree(message)->Object_0, MAX_LEVELS as nat);
}

/// The endpoints that are open to all answer with 200 for the page and its files, 204 for the
/// preflight, and 404 for what is no endpoint.
pub proof fn law_open_endpoints_have_their_status(route: Route)
    requires
        open_reply(route) is Some,
    ensures
        payload_member(open_reply(route)->0, "status"@) == Some(
            Tree::Int(
                if route == Route::Preflight {
                    204
                } else if route == Route::Unknown {
                    404
                } else {
                    200
                },
            ),
        ),
{
    lemma_names_differ();
}

/// The management page comes as HTML under a policy of its own, which says what it may load and who
/// may frame it.
pub proof fn law_page_carries_its_policy()
    ensures
        PAGE_POLICY@
            == "default-src 'none'; script-src 'self'; style-src 'self'; connect-src 'self'; frame-ancestors 'self'"@,
        payload_member(page_reply(), "body"@) == Some(Tree::Str(PAGE@)),
        payload_member(page_reply(), "headers"@) matches Some(headers) && headers.str_member(
            "content-security-policy"@,
        ) == Some(PAGE_POLICY@) && headers.str_member("content-type"@) == Some(
            "text/html; charset=utf-8"@,
        ),
{
    lemma_names_differ();
}

/// Whether a text holds another.
pub open spec fn holds_text(s: Seq<char>, part: Seq<char>) -> bool {
    exists|i: int|
        0 <= i <= s.len() - part.len() && #[trigger] s.subrange(i, i + part.len()) == part
}

/// The management page links its stylesheet and its script, which the plugin serves.
pub proof fn law_page_links_its_files()
    ensures
        holds_text(PAGE@, "href=\"/plugin-api/v1/admin.css\""@),
        holds_text(PAGE@, "src=\"/plugin-api/v1/admin.js\""@),
{
    reveal_strlit(
        "<!doctype html>
<html lang=\"en\">
<head>
<meta charset=\"utf-8\">
<title>API Keys</title>
<link rel=\"stylesheet\" href=\"/plugin-api/v1/admin.css\">
<script src=\"/plugin-api/v1/admin.js\" defer></script>
</head>
<body>
<h1>API Keys</h1>
<form id=\"connect\">
<input id=\"secret\" type=\"password\" placeholder=\"admin key\" autocomplete=\"off\">
<button>Connect</button>
</form>
<p id=\"message\"></p>
<table><tbody id=\"keys\"></tbody></table>
<form id=\"create\">
<input id=\"label\" placeholder=\"label\">
<label><input type=\"checkbox\" name=\"scope\" value=\"read\">read</label>
<label><input type=\"checkbox\" name=\"scope\" value=\"write\">write</label>
<label><input type=\"checkbox\" name=\"scope\" value=\"admin\">admin</label>
<button>Create</button>
</form>
</body>
</html>
",
    );
    reveal_strlit("href=\"/plugin-api/v1/admin.css\"");
    reveal_strlit("src=\"/plugin-api/v1/admin.js\"");
    assert("href=\"/plugin-api/v1/admin.css\""@.len() == 31);
    assert("src=\"/plugin-api/v1/admin.js\""@.len() == 29);
    assert(PAGE@.len() == 741);
    let sheet: Seq<char> = "href=\"/plugin-api/v1/admin.css\""@;
    assert(PAGE@.subrange(110int, 110int + sheet.len()) =~= sheet);
    let script: Seq<char> = "src=\"/plugin-api/v1/admin.js\""@;
    assert(PAGE@.subrange(151int, 151int + script.len()) =~= script);
}

/// The preflight allows the methods of the plugin to a page of any origin.
pub proof fn law_preflight_allows_any_origin()
    ensures
        payload_member(preflight_reply(), "headers"@) matches Some(headers) && headers.str_member(
            "access-control-allow-origin"@,
        ) == Some("*"@) && headers.str_member("access-control-allow-methods"@) == Some(
            "GET, POST, DELETE, OPTIONS"@,
        ) && headers.str_member("access-control-allow-headers"@) == Some(
            "authorization, x-api-key, content-type"@,
        ),
{
    lemma_names_differ();
}

/// Whether a verdict is a response as the client gets it: it has one of the statuses, it is JSON, it
/// challenges just where it is a 401, and it has an error just where the status is one.
pub open spec fn is_json_response(verdict: Tree) -> bool {
    &&& verdict.str_member("verdict"@) == Some("allow"@)
    &&& match (
        payload_member(verdict, "status"@),
        payload_member(verdict, "headers"@),
        payload_member(verdict, "body"@),
    ) {
        (Some(Tree::Int(status)), Some(headers), Some(body)) => {
            &&& status == 200 || status == 201 || status == 400 || status == 401 || status == 403
                || status == 404 || status == 500
            &&& headers.str_member("content-type"@) == Some("application/json"@)
            &&& headers.member("www-authenticate"@) is Some <==> status == 401
            &&& body.member("error"@) is Some <==> status >= 400
        },
        _ => false,
    }
}

/// Whether a verdict is the management page, one of its files, or the answer to a preflight: a 200
/// or a 204 without a challenge.
pub open spec fn is_page_response(verdict: Tree, route: Route) -> bool {
    &&& route == Route::Page || route == Route::Stylesheet || route == Route::Script || route
        == Route::Preflight
    &&& open_reply(route) == Some(verdict)
    &&& verdict.str_member("verdict"@) == Some("allow"@)
    &&& payload_member(verdict, "status"@) == Some(
        Tree::Int(
            if route == Route::Preflight {
                204
            } else {
                200
            },
        ),
    )
    &&& payload_member(verdict, "headers"@) matches Some(headers) && headers.member(
        "www-authenticate"@,
    ) is None
}

proof fn lemma_reply_is_response(status: int, body: Tree)
    requires
        status == 200 || status == 201 || status == 400 || status == 403 || status == 404 || status
            == 500,
        body.member("error"@) is Some <==> status >= 400,
    ensures
        is_json_response(reply(status, body)),
        is_json_response(cors_reply(status, body)),
{
    lemma_names_differ();
}

proof fn lemma_error_is_response(status: int, message: Seq<char>)
    requires
        status == 400 || status == 403 || status == 404 || status == 500,
    ensures
        is_json_response(error_reply(status, message)),
        is_json_response(cors_error_reply(status, message)),
{
    lemma_reply_is_response(status, singleton("error"@, Tree::Str(message)));
}

proof fn lemma_open_is_response(route: Route)
    requires
        open_reply(route) is Some,
    ensures
        is_json_response(open_reply(route)->0) || is_page_response(open_reply(route)->0, route),
{
    lemma_names_differ();
    lemma_error_is_response(404, "not found"@);
}

proof fn lemma_unauthorized_is_response()
    ensures
        is_json_response(unauthorized_reply()),
{
    lemma_names_differ();
    assert(singleton("error"@, Tree::Str("missing or invalid API key"@)).member("error"@) is Some);
}

/// Every reply that is made as a request arrives is a response in JSON, or the management page, one
/// of its files, or the answer to a preflight. A payload that is no request is a 400.
pub proof fn law_arrival_replies(request: RequestModel, message: Seq<char>)
    ensures
        request_action(request) matches Action::Now(After::Reply(verdict)) ==> is_json_response(
            verdict,
        ) || is_page_response(verdict, route(request)),
        payload_action(Err(message)) matches Action::Now(After::Reply(verdict)) && is_json_response(
            verdict,
        ) && payload_member(verdict, "status"@) == Some(Tree::Int(400)),
{
    lemma_names_differ();
    lemma_unauthorized_is_response();
    lemma_error_is_response(400, "malformed request: "@ + message);
    if open_reply(route(request)) is Some {
        lemma_open_is_response(route(request));
    }
}

proof fn lemma_card_replies(parsed: Result<Tree, Seq<char>>)
    ensures
        card_after(parsed) matches After::Reply(verdict) ==> is_json_response(verdict),
{
    lemma_error_is_response(400, "request body must be a JSON object"@);
    lemma_error_is_response(400, "title is required"@);
    lemma_error_is_response(400, "project_id is required"@);
    if let Err(message) = parsed {
        lemma_error_is_response(400, "invalid JSON body: "@ + message);
    }
}

proof fn lemma_endpoint_replies(set: Seq<ManagedModel>, request: RequestModel, facts: Option<Facts>)
    ensures
        end_of(endpoint_action(set, request, facts)) matches Some(After::Reply(verdict))
            ==> is_json_response(verdict),
{
    lemma_names_differ();
    let parsed = json_parse(trimmed(request.body));
    lemma_card_replies(parsed);
    lemma_reply_is_response(200, key_list(set));
    lemma_error_is_response(500, "key id is taken"@);
    lemma_error_is_response(500, "no random bytes or time"@);
    lemma_error_is_response(404, "no key has that id"@);
    if let Err(message) = wanted_key(parsed) {
        lemma_error_is_response(400, message);
    }
    if let (Ok(wanted), Some(f)) = (wanted_key(parsed), facts) {
        lemma_reply_is_response(201, new_key_body(new_key(wanted, f), secret_of(f.entropy@)));
    }
    if let Some(id) = key_id(request.path) {
        lemma_reply_is_response(200, singleton("deleted"@, Tree::Str(id)));
    }
}

proof fn lemma_setting_failure(parsed: Result<Tree, Seq<char>>)
    ensures
        setting_of(parsed) matches Err(verdict) ==> is_json_response(verdict) && payload_member(
            verdict,
            "status"@,
        ) == Some(Tree::Int(500)),
{
    lemma_names_differ();
    lemma_error_is_response(500, "stored keys cannot be read"@);
    match parsed {
        Ok(out) => {
            if out.member("error"@) is Some {
                lemma_reply_is_response(500, out);
            }
        },
        Err(message) => {
            lemma_error_is_response(500, "host returned invalid json: "@ + message);
        },
    }
}

/// Every reply that is made once the host has been asked for what it has kept is a response in JSON,
/// or the management page, one of its files, or the answer to a preflight.
pub proof fn law_own_replies(
    config: ConfigModel,
    outcome: Result<Seq<char>, Seq<char>>,
    request: RequestModel,
    facts: Option<Facts>,
)
    ensures
        end_of(resumed_action(config, outcome, request, facts)) matches Some(After::Reply(verdict))
            ==> is_json_response(verdict) || is_page_response(verdict, route(request)),
{
    lemma_names_differ();
    lemma_unauthorized_is_response();
    lemma_error_is_response(500, "no random bytes or time"@);
    lemma_card_replies(json_parse(trimmed(request.body)));
    if open_reply(route(request)) is Some {
        lemma_open_is_response(route(request));
    }
    if let Some(scope) = scope_of(route(request)) {
        lemma_error_is_response(403, "api key is not authorized for scope '"@ + scope + "'"@);
    }
    lemma_reply_is_response(200, health_body(config.keys.len() as int, false));
    match outcome {
        Ok(out) => {
            lemma_setting_failure(json_parse(out));
            if let Ok(loaded) = setting_of(json_parse(out)) {
                if let Some(set) = loaded {
                    lemma_reply_is_response(200, health_body(set.len() as int, true));
                }
                if let Some(set) = set_in_force(config, loaded, facts) {
                    lemma_endpoint_replies(set, request, facts);
                }
            }
        },
        Err(message) => {
            lemma_error_is_response(500, "host error: "@ + message);
        },
    }
}

/// Where the host does not hand out what it has kept, or that is no managed set, an endpoint that
/// asks for a scope is a 500 to every key but the bootstrap secret, and nothing is kept. It is never
/// taken for a host that has kept no set yet.
pub proof fn law_unreadable_set_is_500(
    config: ConfigModel,
    outcome: Result<Seq<char>, Seq<char>>,
    request: RequestModel,
    facts: Option<Facts>,
)
    requires
        kept(outcome) is None,
        scope_of(route(request)) is Some,
        key_presented(request.headers) is Some,
        key_presented(request.headers) != config.bootstrap_admin_key,
    ensures
        resumed_action(config, outcome, request, facts) matches Action::Now(After::Reply(verdict))
            && payload_member(verdict, "status"@) == Some(Tree::Int(500)),
{
    lemma_names_differ();
    if let Ok(out) = outcome {
        lemma_setting_failure(json_parse(out));
    }
}

/// Without a key, a request is a 404 just where no declared route covers it, and a 401 just where its
/// endpoint asks for a scope. The health check waits for what the host has kept, and the page, its
/// files and the preflight are answered with 200 and 204.
pub proof fn law_keyless_requests(request: RequestModel)
    requires
        key_presented(request.headers) is None,
    ensures
        ({
            let covered = exists|i: int|
                0 <= i < routes().len() && route_covers(
                    #[trigger] routes()[i],
                    ascii_uppercase(request.method),
                    request.path,
                );
            &&& !covered <==> request_action(request) == Action::Now(
                After::Reply(error_reply(404, "not found"@)),
            )
            &&& scope_of(route(request)) is Some <==> request_action(request) == Action::Now(
                After::Reply(unauthorized_reply()),
            )
            &&& route(request) == Route::Health <==> request_action(request) == Action::Load
            &&& covered && scope_of(route(request)) is None && route(request) != Route::Health <==> (
            request_action(request) matches Action::Now(After::Reply(verdict)) && is_page_response(
                verdict,
                route(request),
            ))
        }),
{
    lemma_names_differ();
    law_declared_routes_are_served(request.method, request.path);
    law_unauthorized_challenges();
    if open_reply(route(request)) is Some {
        law_open_endpoints_have_their_status(route(request));
        lemma_open_is_response(route(request));
    }
    law_reply_answers(404, singleton("error"@, Tree::Str("not found"@)));
}

/// A host that does not save the managed set is a 500, whatever was to follow.
pub proof fn law_failed_save_is_500(
    then: Next,
    next: Next,
    outcome: Result<Seq<char>, Seq<char>>,
)
    requires
        follows(then, next, outcome),
        outcome is Err || save_failure(json_parse(outcome->Ok_0)) is Some,
    ensures
        exists|verdict: Tree| #[trigger]
            then.performs(After::Reply(verdict)) && is_json_response(verdict) && payload_member(
                verdict,
                "status"@,
            ) == Some(Tree::Int(500)),
{
    lemma_names_differ();
    let verdict = match outcome {
        Ok(out) => save_failure(json_parse(out))->0,
        Err(message) => error_reply(500, "host error: "@ + message),
    };
    match outcome {
        Ok(out) => match json_parse(out) {
            Ok(value) => {
                lemma_reply_is_response(500, value);
            },
            Err(message) => {
                lemma_error_is_response(500, "host returned invalid json: "@ + message);
            },
        },
        Err(message) => {
            lemma_error_is_response(500, "host error: "@ + message);
        },
    }
    assert(then.performs(After::Reply(verdict)));
}

/// What a status says of the host call that it answers, and of the body it comes with.
pub open spec fn status_suits(
    function: HostFunction,
    outcome: Result<Seq<char>, Seq<char>>,
    status: int,
    body: Tree,
) -> bool {
    let creation = function == HostFunction::CreateCard;
    let returned = outcome is Ok && json_parse(outcome->Ok_0) == Ok::<Tree, Seq<char>>(body);
    if status == 200 {
        !creation && returned && body.member("error"@) is None
    } else if status == 201 {
        creation && returned && body.member("error"@) is None
    } else if status == 400 {
        creation && (body.str_member("error"@) matches Some(message) ==> !names_missing_project(
            message,
        )) && body.member("error"@) is Some
    } else if status == 404 {
        creation && is_error(body) && names_missing_project(body.str_member("error"@)->0)
    } else {
        status == 500 && body.member("error"@) is Some
    }
}

/// Every reply that is made of a host call has the status 200, 201, 400, 404 or 500. Only 200 and
/// 201 come without an error, and they carry what the host returned.
pub proof fn law_host_replies(function: HostFunction, outcome: Result<Seq<char>, Seq<char>>)
    ensures
        exists|status: int, body: Tree| #[trigger]
            answers(host_reply_tree(function, outcome), status, body) && status_suits(
                function,
                outcome,
                status,
                body,
            ),
{
    assert forall|status: int, body: Tree| answers(#[trigger] reply(status, body), status, body) by {
        law_reply_answers(status, body);
    }
    assert forall|status: int, message: Seq<char>| answers(
        #[trigger] error_reply(status, message),
        status,
        singleton("error"@, Tree::Str(message)),
    ) && singleton("error"@, Tree::Str(message)).str_member("error"@) == Some(message) by {
        law_error_reply_answers(status, message);
    }
}

/// Every reply that is made of a host call is a response in JSON.
pub proof fn law_host_replies_are_responses(
    function: HostFunction,
    outcome: Result<Seq<char>, Seq<char>>,
)
    ensures
        is_json_response(host_reply_tree(function, outcome)),
{
    match outcome {
        Ok(out) => match json_parse(out) {
            Ok(value) => {
                if value.member("error"@) is Some {
                    lemma_reply_is_response(500, value);
                    lemma_reply_is_response(400, value);
                } else {
                    lemma_reply_is_response(200, value);
                    lemma_reply_is_response(201, value);
                }
                if let Some(message) = value.str_member("error"@) {
                    lemma_error_is_response(404, message);
                    lemma_error_is_response(400, message);
                }
            },
            Err(message) => {
                lemma_error_is_response(500, "host returned invalid json: "@ + message);
            },
        },
        Err(message) => {
            lemma_error_is_response(500, "host error: "@ + message);
        },
    }
}

/// A host that fails, or returns what is not JSON, is a 500, whatever it was called for.
pub proof fn law_host_failure_is_500(function: HostFunction, outcome: Result<Seq<char>, Seq<char>>)
    requires
        outcome is Err || json_parse(outcome->Ok_0) is Err,
    ensures
        exists|message: Seq<char>|
            host_reply_tree(function, outcome) == #[trigger] error_reply(500, message),
{
    let message = match outcome {
        Ok(out) => "host returned invalid json: "@ + json_parse(out)->Err_0,
        Err(said) => "host error: "@ + said,
    };
    assert(host_reply_tree(function, outcome) == error_reply(500, message));
}

/// The host is asked to create a card from what the client sent, all of it, and only where that is
/// an object with a title and a project that are not blank. The input that it gets reads as that
/// body, unless the body holds a fraction or nests deeper than the parser follows.
pub proof fn law_card_is_what_the_client_sent(
    config: ConfigModel,
    loaded: Option<Seq<ManagedModel>>,
    request: RequestModel,
    facts: Option<Facts>,
    step: Step,
)
    requires
        end_of(loaded_action(config, loaded, request, facts)) matches Some(after)
            && after is CreateCard,
        step.performs(loaded_action(config, loaded, request, facts)),
    ensures
        ({
            let body = end_of(loaded_action(config, loaded, request, facts))->0->CreateCard_0;
            &&& json_parse(trimmed(request.body)) == Ok::<Tree, Seq<char>>(body)
            &&& body is Object
            &&& body_field(body, "title"@).len() > 0
            &&& body_field(body, "project_id"@).len() > 0
            &&& next_of(step) matches Some(Next::Call(HostFunction::CreateCard, input)) && (
            body.fits(MAX_LEVELS as nat) ==> json_parse(input@) == Ok::<Tree, Seq<char>>(body))
        }),
{
}

/// The host is asked for the cards of the project and the step that the query names, and gets no
/// other filter.
pub proof fn law_filters_are_what_the_query_says(query: Seq<char>, name: Seq<char>)
    ensures
        card_filters(query) is Object,
        name == "project_id"@ || name == "step"@ ==> card_filters(query).str_member(name) == (
        if query_params(query).contains_key(name) {
            Some(query_params(query)[name])
        } else {
            None
        }),
        name != "project_id"@ && name != "step"@ ==> card_filters(query).member(name) is None,
{
    lemma_names_differ();
}

} // verus!
