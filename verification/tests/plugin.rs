use peckboard_api_plugin::auth::{ApiConfig, ApiKey};
use peckboard_api_plugin::json::Json;
use peckboard_api_plugin::minting::Facts;
use peckboard_api_plugin::plugin::{
    create_card_from, field_str, handle, host_reply, init, manifest, resume, saved, shutdown,
};
use peckboard_api_plugin::response::{
    create_card_response, error_response, host_read_response, ok_response, response, unauthorized,
};
use peckboard_api_plugin::routes::HttpRequest;
use peckboard_api_plugin::steps::{HostFunction, Next, Step};
use peckboard_api_plugin::string_map::StringMap;

const HOOK: &str = "http.request.before";

const UNAUTHORIZED: &str = "{\"payload\":{\"body\":{\"error\":\"missing or invalid API key\"},\"headers\":{\"content-type\":\"application/json\",\"www-authenticate\":\"Bearer realm=\\\"plugin-api\\\"\"},\"status\":401},\"verdict\":\"allow\"}";

fn reply(status: u16, body: &str) -> String {
    format!(
        "{{\"payload\":{{\"body\":{},\"headers\":{{\"content-type\":\"application/json\"}},\"status\":{}}},\"verdict\":\"allow\"}}",
        body, status
    )
}

fn error(status: u16, message: &str) -> String {
    reply(status, &format!("{{\"error\":\"{}\"}}", message))
}

fn config() -> Option<ApiConfig> {
    let key = |secret: &str, scopes: &[&str]| ApiKey {
        key: secret.to_string(),
        scopes: scopes.iter().map(|s| s.to_string()).collect(),
        label: None,
    };
    Some(ApiConfig {
        keys: vec![
            key("reader", &["read"]),
            key("writer", &["write"]),
            key("both", &["read", "write"]),
            key("admin", &["admin"]),
        ],
        bootstrap_admin_key: None,
    })
}

fn request(method: &str, path: &str, query: &str, key: Option<&str>, body: &str) -> HttpRequest {
    let mut headers = StringMap::new();
    if let Some(key) = key {
        headers.insert("authorization".to_string(), format!("Bearer {}", key));
    }
    HttpRequest {
        method: method.to_string(),
        path: path.to_string(),
        query: query.to_string(),
        headers,
        body: body.to_string(),
    }
}

/// Serves a request of which the host has kept no managed set yet, and saves what it is given.
fn serve_with(stored: &Option<ApiConfig>, request: HttpRequest) -> Next {
    let facts = Some(Facts { entropy: [7; 32], now: 1 });
    let payload = Ok(request);
    let mut step = handle(HOOK, &payload);
    if let Step::Load(input) = &step {
        assert_eq!(input, "{\"key\":\"managed_keys\"}");
        let kept = Ok("{\"value\":null}".to_string());
        step = resume(stored, payload.as_ref().unwrap(), &facts, kept);
    }
    match step {
        Step::Now(next) => next,
        Step::Seed(_, next) => next,
        Step::Save(_, next) => saved(next, Ok("{\"ok\":true}".to_string())),
        Step::Load(input) => panic!("loaded {}", input),
    }
}

fn serve(request: HttpRequest) -> Next {
    serve_with(&config(), request)
}

fn text_of(next: Next) -> String {
    match next {
        Next::Reply(text) => text,
        Next::Call(function, input) => panic!("called {:?} with {}", function, input),
    }
}

fn reply_of(step: Step) -> String {
    match step {
        Step::Now(next) => text_of(next),
        other => panic!("no end: {:?}", other),
    }
}

fn call_of(next: Next) -> (HostFunction, String) {
    match next {
        Next::Reply(text) => panic!("replied {}", text),
        Next::Call(function, input) => (function, input),
    }
}

#[test]
fn manifest_declares_hook_routes_and_panel() {
    assert_eq!(
        manifest(),
        "{\"hooks\":[\"http.request.before\"],\"http_routes\":[\"GET /plugin-api/v1/health\",\"GET /plugin-api/v1/projects\",\"GET /plugin-api/v1/cards\",\"POST /plugin-api/v1/cards\",\"GET /plugin-api/v1/keys\",\"POST /plugin-api/v1/keys\",\"DELETE /plugin-api/v1/keys/:id\",\"GET /plugin-api/v1/admin\",\"GET /plugin-api/v1/admin.css\",\"GET /plugin-api/v1/admin.js\",\"OPTIONS /plugin-api/v1/*\"],\"ui_panels\":[{\"id\":\"api-keys\",\"path\":\"/plugin-api/v1/admin\",\"title\":\"API Keys\"}]}"
    );
}

#[test]
fn shutdown_returns_an_empty_object() {
    assert_eq!(shutdown(), "{}");
}

#[test]
fn init_stores_the_keys() {
    let mut stored = None;
    let text = init(&mut stored, " {\"keys\": []} ", Ok(config().unwrap()));
    assert_eq!(text, "{\"keys\":4,\"ok\":true}");
    assert_eq!(stored.unwrap().keys.len(), 4);
}

#[test]
fn init_without_configuration_sets_no_keys() {
    for text in ["", "  \n", "{}", " {} "] {
        let mut stored = config();
        let reply = init(&mut stored, text, Err("unread".to_string()));
        assert_eq!(reply, "{\"keys\":0,\"ok\":true}");
        assert_eq!(stored.unwrap().keys.len(), 0);
    }
}

#[test]
fn init_reports_an_unreadable_configuration() {
    let mut stored = config();
    let text = init(&mut stored, "{", Err("EOF".to_string()));
    assert_eq!(text, "{\"error\":\"invalid plugin config: EOF\",\"ok\":false}");
    assert_eq!(stored.unwrap().keys.len(), 4);
}

#[test]
fn other_hooks_are_skipped() {
    let payload = Ok(request("GET", "/plugin-api/v1/health", "", None, ""));
    assert_eq!(
        reply_of(handle("card.created", &payload)),
        "{\"verdict\":\"skip\"}"
    );
}

#[test]
fn malformed_payload_is_a_400() {
    assert_eq!(
        reply_of(handle(HOOK, &Err("invalid type".to_string()))),
        error(400, "malformed request: invalid type")
    );
}

#[test]
fn health_is_open() {
    let health = request("GET", "/plugin-api/v1/health", "", None, "");
    assert_eq!(
        text_of(serve(health)),
        reply(
            200,
            "{\"keys\":4,\"plugin\":\"api\",\"seeded\":false,\"status\":\"ok\",\"version\":\"0.2.0\"}"
        )
    );
    let health = request("get", "/plugin-api/v1/health", "", Some("wrong"), "");
    assert_eq!(
        text_of(serve_with(&None, health)),
        reply(
            200,
            "{\"keys\":0,\"plugin\":\"api\",\"seeded\":false,\"status\":\"ok\",\"version\":\"0.2.0\"}"
        )
    );
}

#[test]
fn request_without_a_valid_key_is_a_401() {
    for (method, path) in [
        ("GET", "/plugin-api/v1/projects"),
        ("GET", "/plugin-api/v1/cards"),
        ("POST", "/plugin-api/v1/cards"),
        ("GET", "/plugin-api/v1/keys"),
        ("POST", "/plugin-api/v1/keys"),
        ("DELETE", "/plugin-api/v1/keys/config-1"),
    ] {
        assert_eq!(text_of(serve(request(method, path, "", None, ""))), UNAUTHORIZED);
        assert_eq!(text_of(serve(request(method, path, "", Some("wrong"), ""))), UNAUTHORIZED);
        assert_eq!(
            text_of(serve_with(&None, request(method, path, "", Some("reader"), ""))),
            UNAUTHORIZED
        );
    }
    assert_eq!(unauthorized(), UNAUTHORIZED);
}

#[test]
fn key_without_the_scope_is_a_403() {
    let read = error(403, "api key is not authorized for scope 'read'");
    let write = error(403, "api key is not authorized for scope 'write'");
    for key in ["writer", "admin"] {
        let projects = request("GET", "/plugin-api/v1/projects", "", Some(key), "");
        assert_eq!(text_of(serve(projects)), read);
        let cards = request("GET", "/plugin-api/v1/cards", "", Some(key), "");
        assert_eq!(text_of(serve(cards)), read);
    }
    for key in ["reader", "admin"] {
        let cards = request("POST", "/plugin-api/v1/cards", "", Some(key), "{}");
        assert_eq!(text_of(serve(cards)), write);
    }
    let admin = error(403, "api key is not authorized for scope 'admin'");
    for key in ["reader", "writer", "both"] {
        for (method, path) in [
            ("GET", "/plugin-api/v1/keys"),
            ("POST", "/plugin-api/v1/keys"),
            ("DELETE", "/plugin-api/v1/keys/config-1"),
        ] {
            assert_eq!(text_of(serve(request(method, path, "", Some(key), ""))), admin);
        }
    }
}

#[test]
fn unknown_routes_are_a_404() {
    for (method, path) in [
        ("DELETE", "/plugin-api/v1/cards"),
        ("POST", "/plugin-api/v1/projects"),
        ("POST", "/plugin-api/v1/health"),
        ("GET", "/plugin-api/v1/cards/"),
        ("DELETE", "/plugin-api/v1/keys"),
        ("DELETE", "/plugin-api/v1/keys/"),
        ("DELETE", "/plugin-api/v1/keys/a/b"),
        ("GET", "/plugin-api/v1/keys/a"),
        ("OPTIONS", "/plugin-api/v1"),
        ("OPTIONS", "/api/v1/keys"),
        ("GET", ""),
        ("", ""),
    ] {
        assert_eq!(
            text_of(serve(request(method, path, "", Some("both"), ""))),
            error(404, "not found")
        );
    }
}

#[test]
fn projects_are_listed() {
    for method in ["GET", "get", "Get"] {
        let projects = request(method, "/plugin-api/v1/projects", "", Some("reader"), "");
        assert_eq!(call_of(serve(projects)), (HostFunction::ListProjects, "{}".to_string()));
    }
}

#[test]
fn cards_are_listed_with_filters() {
    let list = |query: &str| {
        call_of(serve(request("GET", "/plugin-api/v1/cards", query, Some("both"), "")))
    };
    assert_eq!(list(""), (HostFunction::ListCards, "{}".to_string()));
    assert_eq!(
        list("step=in%20progress&project_id=p1&other=x"),
        (HostFunction::ListCards, "{\"project_id\":\"p1\",\"step\":\"in progress\"}".to_string())
    );
    assert_eq!(list("step"), (HostFunction::ListCards, "{\"step\":\"\"}".to_string()));
}

#[test]
fn card_is_created_from_the_body() {
    let body = " { \"title\": \" My card \", \"project_id\": \"p1\", \"priority\": 1, \"model\": null, \"x\": [1.5, true] } ";
    let step = serve(request("POST", "/plugin-api/v1/cards", "", Some("writer"), body));
    assert_eq!(
        call_of(step),
        (
            HostFunction::CreateCard,
            "{\"model\":null,\"priority\":1,\"project_id\":\"p1\",\"title\":\" My card \",\"x\":[1.5,true]}".to_string()
        )
    );
}

#[test]
fn card_body_is_checked() {
    let create = |body: &str| {
        text_of(serve(request("POST", "/plugin-api/v1/cards", "", Some("writer"), body)))
    };
    assert_eq!(
        create(""),
        error(400, "invalid JSON body: EOF while parsing a value at line 1 column 0")
    );
    assert_eq!(create("[1]"), error(400, "request body must be a JSON object"));
    assert_eq!(create("\"title\""), error(400, "request body must be a JSON object"));
    assert_eq!(create("{}"), error(400, "title is required"));
    assert_eq!(
        create("{\"title\": \"  \", \"project_id\": \"p1\"}"),
        error(400, "title is required")
    );
    assert_eq!(
        create("{\"title\": 5, \"project_id\": \"p1\"}"),
        error(400, "title is required")
    );
    assert_eq!(create("{\"title\": \"t\"}"), error(400, "project_id is required"));
    assert_eq!(
        create("{\"title\": \"t\", \"project_id\": null}"),
        error(400, "project_id is required")
    );
}

#[test]
fn parsed_body_is_checked() {
    assert_eq!(
        reply_of(create_card_from(Err("bad".to_string()))),
        error(400, "invalid JSON body: bad")
    );
    assert_eq!(
        reply_of(create_card_from(Ok(Json::parse("3").unwrap()))),
        error(400, "request body must be a JSON object")
    );
}

#[test]
fn fields_are_trimmed_strings() {
    let body = Json::parse("{\"a\": \" x \", \"b\": 1}").unwrap();
    assert_eq!(field_str(&body, "a"), "x");
    assert_eq!(field_str(&body, "b"), "");
    assert_eq!(field_str(&body, "c"), "");
    assert_eq!(field_str(&Json::parse("[\"a\"]").unwrap(), "a"), "");
}

#[test]
fn reads_are_answered() {
    assert_eq!(
        host_read_response("{\"projects\": [ {\"id\": \"p1\"} ]}"),
        reply(200, "{\"projects\":[{\"id\":\"p1\"}]}")
    );
    assert_eq!(host_read_response("[\"error\"]"), reply(200, "[\"error\"]"));
    assert_eq!(host_read_response("{\"error\": \"db\"}"), reply(500, "{\"error\":\"db\"}"));
    assert_eq!(host_read_response("{\"error\": null}"), reply(500, "{\"error\":null}"));
    assert_eq!(
        host_read_response("nope"),
        error(500, "host returned invalid json: expected ident at line 1 column 2")
    );
}

#[test]
fn creations_are_answered() {
    assert_eq!(create_card_response("{\"card\": {\"id\": 7}}"), reply(201, "{\"card\":{\"id\":7}}"));
    assert_eq!(
        create_card_response("{\"error\": \"project not found\"}"),
        error(404, "project not found")
    );
    assert_eq!(create_card_response("{\"error\": \"bad priority\"}"), error(400, "bad priority"));
    for message in [
        "Project not found",
        "project p1 not found",
        "card not created: project 'p1' not found.",
        "project not found: p1",
        "project is not found",
        "project with id p1 not found",
        "the project: p1 of the card was not found",
        "workflow of project p1 not found",
    ] {
        let out = format!("{{\"error\": \"{}\"}}", message);
        assert_eq!(create_card_response(&out), error(404, message));
    }
    for message in [
        "workflow not found",
        "project workflow not found",
        "not found",
        "project not foundation",
        "not found: project",
        "project not  found",
        "project p1 has a workflow, which was not found",
        "projects not found",
    ] {
        let out = format!("{{\"error\": \"{}\"}}", message);
        assert_eq!(create_card_response(&out), error(400, message));
    }
    assert_eq!(create_card_response("{\"error\": 5}"), reply(400, "{\"error\":5}"));
    assert_eq!(create_card_response("{\"error\": null}"), reply(400, "{\"error\":null}"));
    assert_eq!(
        create_card_response(""),
        error(500, "host returned invalid json: EOF while parsing a value at line 1 column 0")
    );
}

#[test]
fn host_results_are_answered_by_function() {
    let ok = |text: &str| Ok(text.to_string());
    let not_found = "{\"error\":\"not found\"}";
    assert_eq!(host_reply(HostFunction::ListProjects, ok(not_found)), error(500, "not found"));
    assert_eq!(host_reply(HostFunction::ListCards, ok(not_found)), error(500, "not found"));
    assert_eq!(host_reply(HostFunction::CreateCard, ok(not_found)), error(400, "not found"));
    assert_eq!(host_reply(HostFunction::ListCards, ok("{}")), reply(200, "{}"));
    assert_eq!(host_reply(HostFunction::CreateCard, ok("{}")), reply(201, "{}"));
    for function in [HostFunction::ListProjects, HostFunction::ListCards, HostFunction::CreateCard] {
        assert_eq!(
            host_reply(function, Err("trap".to_string())),
            error(500, "host error: trap")
        );
    }
}

#[test]
fn responses_are_verdicts() {
    assert_eq!(response(204, Json::parse("null").unwrap()), reply(204, "null"));
    assert_eq!(ok_response(Json::parse("[ ]").unwrap()), reply(200, "[]"));
    assert_eq!(error_response(418, "a \"b\"\n"), error(418, "a \\\"b\\\"\\n"));
}
