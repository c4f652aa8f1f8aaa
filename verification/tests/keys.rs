use peckboard_api_plugin::auth::{ApiConfig, ApiKey};
use peckboard_api_plugin::hashing::sha256_hex;
use peckboard_api_plugin::json::Json;
use peckboard_api_plugin::keys::{admit_key, create_key_from};
use peckboard_api_plugin::managed::{decimal_text, mask, read_set, seed, take_over, ManagedSet};
use peckboard_api_plugin::minting::{minted_id, minted_secret, Facts};
use peckboard_api_plugin::plugin::{guard, handle, init, resume, saved};
use peckboard_api_plugin::response::unauthorized;
use peckboard_api_plugin::routes::HttpRequest;
use peckboard_api_plugin::steps::{HostFunction, Next, Step};
use peckboard_api_plugin::string_map::StringMap;

const HOOK: &str = "http.request.before";

fn key(secret: &str, scopes: &[&str]) -> ApiKey {
    ApiKey {
        key: secret.to_string(),
        scopes: scopes.iter().map(|s| s.to_string()).collect(),
        label: Some(format!("the {}", secret)),
    }
}

fn request(method: &str, path: &str, key: &str, body: &str) -> HttpRequest {
    let mut headers = StringMap::new();
    headers.insert("x-api-key".to_string(), key.to_string());
    HttpRequest {
        method: method.to_string(),
        path: format!("/plugin-api/v1{}", path),
        query: String::new(),
        headers,
        body: body.to_string(),
    }
}

/// A host that keeps one setting, and the plugin in it.
struct World {
    stored: Option<ApiConfig>,
    kept: String,
    seed: u8,
    saves: usize,
}

impl World {
    fn new(keys: Vec<ApiKey>) -> World {
        let stored = Some(ApiConfig { keys, bootstrap_admin_key: Some("root".to_string()) });
        World { stored, kept: "null".to_string(), seed: 0, saves: 0 }
    }

    fn configure(&mut self, keys: Vec<ApiKey>) {
        let config = ApiConfig { keys, bootstrap_admin_key: Some("root".to_string()) };
        init(&mut self.stored, "{\"keys\": [1]}", Ok(config));
    }

    fn facts(&mut self) -> Option<Facts> {
        self.seed += 1;
        Some(Facts { entropy: [self.seed; 32], now: 1700000000 })
    }

    fn keep(&mut self, input: &str) {
        let start = "{\"key\":\"managed_keys\",\"value\":";
        assert!(input.starts_with(start));
        self.kept = input[start.len()..input.len() - 1].to_string();
        self.saves += 1;
    }

    fn serve(&mut self, request: HttpRequest) -> Next {
        let facts = self.facts();
        let payload = Ok(request);
        let mut step = handle(HOOK, &payload);
        if let Step::Load(_) = step {
            let outcome = Ok(format!("{{\"value\":{}}}", self.kept));
            step = resume(&self.stored, payload.as_ref().unwrap(), &facts, outcome);
        }
        match step {
            Step::Now(next) => next,
            Step::Seed(input, next) => {
                self.keep(&input);
                next
            }
            Step::Save(input, next) => {
                self.keep(&input);
                saved(next, Ok("{\"ok\":true}".to_string()))
            }
            Step::Load(_) => panic!("loaded twice"),
        }
    }

    /// The status and the body of the reply to a request.
    fn ask(&mut self, method: &str, path: &str, key: &str, body: &str) -> (u64, String) {
        match self.serve(request(method, path, key, body)) {
            Next::Reply(text) => answer(&text),
            Next::Call(function, _) => (0, format!("{:?}", function)),
        }
    }

    fn set(&self) -> ManagedSet {
        read_set(Json::parse(&self.kept).unwrap().as_ref()).unwrap()
    }
}

fn answer(text: &str) -> (u64, String) {
    let verdict = Json::parse(text).unwrap();
    let payload = verdict.as_ref().member("payload").unwrap();
    let status = payload.member("status").unwrap().unsigned().unwrap();
    let start = text.find("\"body\":").unwrap() + "\"body\":".len();
    let end = text.rfind(",\"headers\":").unwrap();
    (status, text[start..end].to_string())
}

fn world() -> World {
    World::new(vec![key("reader", &["read"]), key("administrator-key", &["admin"])])
}

#[test]
fn first_valid_request_seeds_the_managed_set() {
    let mut world = world();
    assert_eq!(world.ask("GET", "/projects", "nobody", "").0, 401);
    assert_eq!(world.saves, 0);
    assert_eq!(world.ask("GET", "/projects", "reader", ""), (0, "ListProjects".to_string()));
    assert_eq!(world.saves, 1);
    assert_eq!(
        world.kept,
        format!(
            "[{{\"created\":1700000000,\"hash\":\"{}\",\"id\":\"config-1\",\"label\":\"the reader\",\"masked\":\"r\u{2026}\",\"scopes\":[\"read\"]}},{{\"created\":1700000000,\"hash\":\"{}\",\"id\":\"config-2\",\"label\":\"the administrator-key\",\"masked\":\"admi\u{2026}\",\"scopes\":[\"admin\"]}}]",
            "3d0941964aa3ebdcb00ccef58b1bb399f9f898465e9886d5aec7f31090a0fb30",
            "520a2542b1c23e2dddfea7d17fe040fe9c4916cc79c94058ff95d9fe8aa95c6b"
        )
    );
    assert_eq!(world.ask("GET", "/projects", "reader", ""), (0, "ListProjects".to_string()));
    assert_eq!(world.saves, 1);
}

#[test]
fn key_without_the_scope_seeds_too() {
    let mut world = world();
    assert_eq!(world.ask("POST", "/cards", "reader", "{}").0, 403);
    assert_eq!(world.saves, 1);
    assert_eq!(world.set().keys.len(), 2);
}

#[test]
fn configured_keys_change_nothing_once_seeded() {
    let mut world = World::new(vec![key("k1", &["read"])]);
    assert_eq!(world.ask("GET", "/projects", "k1", ""), (0, "ListProjects".to_string()));
    world.configure(vec![key("k2", &["read"])]);
    assert_eq!(world.ask("GET", "/projects", "k1", ""), (0, "ListProjects".to_string()));
    assert_eq!(world.ask("GET", "/projects", "k2", "").0, 401);

    let set = Some(world.set());
    let call = |secret: &str| {
        let request = request("GET", "/projects", secret, "");
        guard(&world.stored, &set, &request, "read", |_: &HttpRequest| {
            Step::Now(Next::Reply("called".to_string()))
        })
    };
    assert!(matches!(call("k1"), Step::Now(Next::Reply(text)) if text == "called"));
    assert!(matches!(call("k2"), Step::Now(Next::Reply(text)) if text == unauthorized()));
}

#[test]
fn empty_store_is_seeded_again() {
    let mut world = World::new(vec![key("k1", &["read"])]);
    world.ask("GET", "/projects", "k1", "");
    world.configure(vec![key("k2", &["read"])]);
    world.kept = "null".to_string();
    assert_eq!(world.ask("GET", "/projects", "k1", "").0, 401);
    assert_eq!(world.ask("GET", "/projects", "k2", ""), (0, "ListProjects".to_string()));
    assert_eq!(world.saves, 2);
}

#[test]
fn health_counts_the_managed_keys() {
    let mut world = world();
    let health = |keys: u64, seeded: bool| {
        let body = format!(
            "{{\"keys\":{},\"plugin\":\"api\",\"seeded\":{},\"status\":\"ok\",\"version\":\"0.2.0\"}}",
            keys, seeded
        );
        (200, body)
    };
    assert_eq!(world.ask("GET", "/health", "", ""), health(2, false));
    assert_eq!(world.saves, 0);
    world.ask("POST", "/keys", "root", "{\"scopes\":[\"read\"]}");
    assert_eq!(world.ask("GET", "/health", "", ""), health(3, true));
    world.configure(vec![]);
    assert_eq!(world.ask("GET", "/health", "", ""), health(3, true));
}

#[test]
fn keys_are_listed_without_secrets() {
    let mut world = world();
    let (status, body) = world.ask("GET", "/keys", "administrator-key", "");
    assert_eq!(status, 200);
    assert_eq!(
        body,
        "{\"keys\":[{\"created\":1700000000,\"id\":\"config-1\",\"label\":\"the reader\",\"masked\":\"r\u{2026}\",\"scopes\":[\"read\"]},{\"created\":1700000000,\"id\":\"config-2\",\"label\":\"the administrator-key\",\"masked\":\"admi\u{2026}\",\"scopes\":[\"admin\"]}]}"
    );
}

#[test]
fn created_key_is_told_once_and_works() {
    let mut world = world();
    let (status, body) =
        world.ask("POST", "/keys", "administrator-key", " {\"label\":\"ci\",\"scopes\":[\"write\",\"read\"]} ");
    assert_eq!(status, 201);
    let secret = format!("pba_{}", "01".repeat(24));
    assert_eq!(
        body,
        format!(
            "{{\"created\":1700000000,\"id\":\"{}\",\"key\":\"{}\",\"label\":\"ci\",\"masked\":\"pba_0101\u{2026}\",\"scopes\":[\"write\",\"read\"]}}",
            "01".repeat(8),
            secret
        )
    );
    assert!(!world.kept.contains(&secret));
    assert!(world.kept.contains("d70f5ea3a6049b3bce542f9e51980d4da5ee72866c32704836ebdd10b7df8047"));
    assert_eq!(world.set().keys.len(), 3);
    assert_eq!(world.ask("GET", "/projects", &secret, ""), (0, "ListProjects".to_string()));
    assert_eq!(world.ask("GET", "/keys", &secret, "").0, 403);
    assert!(!world.ask("GET", "/keys", "administrator-key", "").1.contains(&secret));
}

#[test]
fn label_may_be_left_out() {
    let mut world = world();
    let (status, body) = world.ask("POST", "/keys", "root", "{\"scopes\":[\"admin\"]}");
    assert_eq!(status, 201);
    assert!(body.contains("\"label\":null"));
    let (status, _) = world.ask("POST", "/keys", "root", "{\"label\":null,\"scopes\":[\"admin\"]}");
    assert_eq!(status, 201);
}

#[test]
fn bad_requests_for_a_key_are_a_400() {
    let mut world = world();
    let error = |message: &str| (400, format!("{{\"error\":\"{}\"}}", message));
    for (body, message) in [
        ("", "invalid JSON body: EOF while parsing a value at line 1 column 0"),
        ("[]", "request body must be a JSON object"),
        ("{\"label\":5,\"scopes\":[\"read\"]}", "label must be a string"),
        ("{}", "scopes must be a list of strings"),
        ("{\"scopes\":\"read\"}", "scopes must be a list of strings"),
        ("{\"scopes\":[\"read\",5]}", "scopes must be a list of strings"),
        ("{\"scopes\":[]}", "at least one scope is required"),
        ("{\"scopes\":[\"read\",\"root\",\"x\"]}", "unknown scope 'root'"),
        ("{\"scopes\":[\"Read\"]}", "unknown scope 'Read'"),
    ] {
        assert_eq!(world.ask("POST", "/keys", "root", body), error(message));
    }
    assert_eq!(world.set().keys.len(), 2);
}

#[test]
fn key_id_is_not_given_twice() {
    let mut world = world();
    assert_eq!(world.ask("POST", "/keys", "root", "{\"scopes\":[\"read\"]}").0, 201);
    world.seed = 0;
    assert_eq!(
        world.ask("POST", "/keys", "root", "{\"scopes\":[\"read\"]}"),
        (500, "{\"error\":\"key id is taken\"}".to_string())
    );
}

#[test]
fn parsed_body_of_a_key_is_checked() {
    let mut world = world();
    let facts = world.facts();
    let set = ManagedSet { keys: vec![] };
    let step = create_key_from(&set, Err("bad".to_string()), &facts);
    let text = match step {
        Step::Now(Next::Reply(text)) => text,
        other => panic!("{:?}", other),
    };
    assert_eq!(answer(&text), (400, "{\"error\":\"invalid JSON body: bad\"}".to_string()));
}

#[test]
fn revoked_key_stops_at_once() {
    let mut world = world();
    assert_eq!(world.ask("GET", "/projects", "reader", ""), (0, "ListProjects".to_string()));
    assert_eq!(
        world.ask("DELETE", "/keys/config-1", "administrator-key", ""),
        (200, "{\"deleted\":\"config-1\"}".to_string())
    );
    assert_eq!(world.ask("GET", "/projects", "reader", "").0, 401);
    assert_eq!(
        world.ask("DELETE", "/keys/config-1", "administrator-key", ""),
        (404, "{\"error\":\"no key has that id\"}".to_string())
    );
    assert_eq!(world.set().keys.len(), 1);
    assert_eq!(world.set().keys[0].id, "config-2");
}

#[test]
fn bootstrap_key_works_when_every_key_is_gone() {
    let mut world = world();
    world.ask("DELETE", "/keys/config-1", "root", "");
    world.ask("DELETE", "/keys/config-2", "root", "");
    assert_eq!(world.kept, "[]");
    assert_eq!(world.ask("GET", "/keys", "root", ""), (200, "{\"keys\":[]}".to_string()));
    assert_eq!(world.ask("GET", "/projects", "root", ""), (0, "ListProjects".to_string()));
    assert_eq!(world.ask("GET", "/keys", "administrator-key", "").0, 401);
    assert_eq!(world.saves, 2);
}

#[test]
fn page_and_preflight_are_open() {
    let open = |method: &str, path: &str| {
        let mut asked = request(method, path, "", "");
        asked.headers = StringMap::new();
        match handle(HOOK, &Ok(asked)) {
            Step::Now(Next::Reply(text)) => text,
            other => panic!("{:?}", other),
        }
    };
    for path in ["/admin", "/admin.css", "/admin.js"] {
        assert_eq!(answer(&open("GET", path)).0, 200);
    }
    assert!(open("GET", "/admin").contains("frame-ancestors 'self'"));
    assert!(open("GET", "/admin").contains("\"content-type\":\"text/html; charset=utf-8\""));
    for path in ["/", "/keys", "/keys/a/b"] {
        let text = open("options", path);
        assert_eq!(answer(&text), (204, "null".to_string()));
        assert!(text.contains("\"access-control-allow-origin\":\"*\""));
    }
}

#[test]
fn key_replies_may_be_read_by_any_page() {
    let mut world = world();
    match world.serve(request("GET", "/keys", "root", "")) {
        Next::Reply(text) => assert!(text.contains("\"access-control-allow-origin\":\"*\"")),
        other => panic!("{:?}", other),
    }
}

#[test]
fn unreadable_settings_are_a_500() {
    let mut world = world();
    let facts = world.facts();
    let resumed = |outcome: Result<&str, &str>| {
        let outcome = outcome.map(|s| s.to_string()).map_err(|s| s.to_string());
        let asked = request("GET", "/projects", "reader", "");
        match resume(&world.stored, &asked, &facts, outcome) {
            Step::Now(Next::Reply(text)) => answer(&text),
            other => panic!("{:?}", other),
        }
    };
    let error = |message: &str| (500, format!("{{\"error\":\"{}\"}}", message));
    assert_eq!(resumed(Err("trap")), error("host error: trap"));
    assert_eq!(
        resumed(Ok("nope")),
        error("host returned invalid json: expected ident at line 1 column 2")
    );
    assert_eq!(resumed(Ok("{\"error\":\"db\"}")), error("db"));
    for out in ["{}", "[]", "{\"value\":5}", "{\"value\":[{}]}", "{\"value\":{\"keys\":[]}}"] {
        assert_eq!(resumed(Ok(out)), error("stored keys cannot be read"));
    }
}

/// What a request comes to where the settings cannot be read.
fn unread(key: &str, method: &str, path: &str) -> (u64, String) {
    let mut world = world();
    let facts = world.facts();
    let asked = request(method, path, key, "{\"title\":\"t\",\"project_id\":\"p\"}");
    let answers: Vec<(u64, String)> = ["nope", "{\"error\":\"db\"}", "{}", "{\"value\":5}"]
        .iter()
        .map(|out| Ok(out.to_string()))
        .chain([Err("trap".to_string())])
        .map(|outcome| match resume(&world.stored, &asked, &facts, outcome) {
            Step::Now(Next::Reply(text)) => answer(&text),
            Step::Now(Next::Call(function, _)) => (0, format!("{:?}", function)),
            other => panic!("{:?}", other),
        })
        .collect();
    assert!(answers.iter().all(|answer| answer.0 == answers[0].0));
    answers[0].clone()
}

#[test]
fn health_is_answered_without_settings() {
    for key in ["", "nobody", "reader", "root"] {
        assert_eq!(
            unread(key, "GET", "/health"),
            (
                200,
                "{\"keys\":2,\"plugin\":\"api\",\"seeded\":false,\"status\":\"ok\",\"version\":\"0.2.0\"}"
                    .to_string()
            )
        );
    }
}

#[test]
fn bootstrap_key_reaches_the_data_without_settings() {
    assert_eq!(unread("root", "GET", "/projects"), (0, "ListProjects".to_string()));
    assert_eq!(unread("root", "GET", "/cards"), (0, "ListCards".to_string()));
    assert_eq!(unread("root", "POST", "/cards"), (0, "CreateCard".to_string()));
    assert_eq!(unread("root", "GET", "/keys").0, 500);
    assert_eq!(unread("reader", "GET", "/projects").0, 500);
    assert_eq!(unread("", "GET", "/projects").0, 401);
    assert_eq!(unread("reader", "GET", "/nowhere").0, 404);
}

#[test]
fn requests_are_served_without_randomness_and_time() {
    let world = world();
    let serve = |method: &str, path: &str, key: &str, body: &str, kept: &str| {
        let kept = Ok(format!("{{\"value\":{}}}", kept));
        match resume(&world.stored, &request(method, path, key, body), &None, kept) {
            Step::Now(Next::Reply(text)) => answer(&text),
            Step::Now(Next::Call(function, _)) => (0, format!("{:?}", function)),
            other => panic!("{:?}", other),
        }
    };
    let failure = (500, "{\"error\":\"no random bytes or time\"}".to_string());
    assert_eq!(serve("GET", "/health", "", "", "null").0, 200);
    assert_eq!(serve("GET", "/projects", "reader", "", "null"), (0, "ListProjects".to_string()));
    assert_eq!(serve("GET", "/projects", "nobody", "", "null").0, 401);
    assert_eq!(serve("POST", "/cards", "reader", "", "null").0, 403);
    assert_eq!(serve("GET", "/keys", "root", "", "null"), failure);
    assert_eq!(serve("GET", "/keys", "root", "", "[]"), (200, "{\"keys\":[]}".to_string()));
    assert_eq!(serve("POST", "/keys", "root", "{\"scopes\":[\"read\"]}", "[]"), failure);
    assert_eq!(serve("POST", "/keys", "root", "{}", "[]").0, 400);
}

#[test]
fn new_key_can_be_revoked() {
    let mut world = world();
    world.ask("GET", "/keys", "root", "");
    let before = world.kept.clone();
    world.seed = 4;
    assert_eq!(world.ask("POST", "/keys", "root", "{\"scopes\":[\"read\"]}").0, 201);
    let secret = format!("pba_{}", "05".repeat(24));
    let id = "05".repeat(8);
    assert_eq!(world.ask("GET", "/projects", &secret, ""), (0, "ListProjects".to_string()));
    assert_eq!(
        world.ask("DELETE", &format!("/keys/{}", id), "root", ""),
        (200, format!("{{\"deleted\":\"{}\"}}", id))
    );
    assert_eq!(world.kept, before);
    assert_eq!(world.ask("GET", "/projects", &secret, "").0, 401);
    assert_eq!(world.ask("DELETE", &format!("/keys/{}", id), "root", "").0, 404);
}

#[test]
fn key_is_taken_over_with_its_hash() {
    let taken = take_over(&key("secret-secret", &["read"]), 12, 34, "hash".to_string());
    assert_eq!(taken.id, "config-12");
    assert_eq!(taken.label, Some("the secret-secret".to_string()));
    assert_eq!(taken.scopes, vec!["read".to_string()]);
    assert_eq!(taken.created, 34);
    assert_eq!(taken.masked, "sec\u{2026}");
    assert_eq!(taken.hash, "hash");
    let set = ManagedSet { keys: vec![take_over(&key("x", &[]), 12, 0, "h".to_string())] };
    match admit_key(&set, taken, "told") {
        Step::Now(Next::Reply(text)) => assert_eq!(answer(&text).0, 500),
        other => panic!("{:?}", other),
    }
}

#[test]
fn failed_save_is_a_500() {
    let next = || Next::Call(HostFunction::ListProjects, "{}".to_string());
    let text = |next: Next| match next {
        Next::Reply(text) => answer(&text),
        other => panic!("{:?}", other),
    };
    let error = |message: &str| (500, format!("{{\"error\":\"{}\"}}", message));
    assert_eq!(text(saved(next(), Err("trap".to_string()))), error("host error: trap"));
    assert_eq!(text(saved(next(), Ok("{\"error\":\"db\"}".to_string()))), error("db"));
    assert_eq!(
        text(saved(next(), Ok("nope".to_string()))),
        error("host returned invalid json: expected ident at line 1 column 2")
    );
    let then = saved(next(), Ok("{\"ok\":true}".to_string()));
    assert!(matches!(then, Next::Call(HostFunction::ListProjects, input) if input == "{}"));
}

#[test]
fn kept_set_reads_back() {
    let world = world();
    let set = seed(world.stored.as_ref().unwrap(), u64::MAX);
    let text = set.to_json().to_text();
    let back = read_set(Json::parse(&text).unwrap().as_ref()).unwrap();
    assert_eq!(back.keys.len(), 2);
    assert_eq!(back.keys[1].id, "config-2");
    assert_eq!(back.keys[1].label, Some("the administrator-key".to_string()));
    assert_eq!(back.keys[1].scopes, vec!["admin".to_string()]);
    assert_eq!(back.keys[1].created, u64::MAX);
    assert_eq!(back.keys[1].hash, sha256_hex("administrator-key"));
    assert_eq!(back.to_json().to_text(), text);
}

#[test]
fn secrets_and_names_are_made_of_random_bytes() {
    let mut entropy = [0u8; 32];
    for (i, byte) in entropy.iter_mut().enumerate() {
        *byte = (i * 9) as u8;
    }
    let secret = minted_secret(&entropy);
    assert_eq!(secret, "pba_0009121b242d363f48515a636c757e879099a2abb4bdc6cf");
    assert_eq!(secret.len(), 52);
    assert_eq!(minted_id(&entropy), "d8e1eaf3fc050e17");
}

#[test]
fn mask_shows_a_short_prefix() {
    assert_eq!(mask("pba_de72aaaaaaaaaaaaaaaaaaaaaaaaaaaaaaaaaaaaaaaaaaaaa"), "pba_de72\u{2026}");
    assert_eq!(mask("abcdefghijklmnop"), "abcd\u{2026}");
    assert_eq!(mask("abc"), "\u{2026}");
    assert_eq!(mask(""), "\u{2026}");
}

#[test]
fn numbers_are_written_in_decimal() {
    for n in [0, 9, 10, 99, 100, 1234567890, u64::MAX] {
        assert_eq!(decimal_text(n), n.to_string());
    }
}
