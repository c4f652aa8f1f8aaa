//! Requests, and the endpoints that they name.

use crate::string_map::StringMap;
use crate::text::{ascii_uppercase, chars_of, same_text, string_of, to_ascii_uppercase};
use vstd::prelude::*;

verus! {

/// What every path of the plugin begins with.
pub const PREFIX: &'static str = "/plugin-api/v1/";

pub const HEALTH_PATH: &'static str = "/plugin-api/v1/health";

pub const PROJECTS_PATH: &'static str = "/plugin-api/v1/projects";

pub const CARDS_PATH: &'static str = "/plugin-api/v1/cards";

pub const KEYS_PATH: &'static str = "/plugin-api/v1/keys";

/// What the path of a single key begins with; the name of the key follows.
pub const KEY_PREFIX: &'static str = "/plugin-api/v1/keys/";

pub const PAGE_PATH: &'static str = "/plugin-api/v1/admin";

pub const STYLESHEET_PATH: &'static str = "/plugin-api/v1/admin.css";

pub const SCRIPT_PATH: &'static str = "/plugin-api/v1/admin.js";

/// The routes that the plugin owns, each as `METHOD PATH`. In a path `:id` stands for one segment,
/// and `*` for all that follows.
pub const ROUTES: [&'static str; 11] = [
    "GET /plugin-api/v1/health",
    "GET /plugin-api/v1/projects",
    "GET /plugin-api/v1/cards",
    "POST /plugin-api/v1/cards",
    "GET /plugin-api/v1/keys",
    "POST /plugin-api/v1/keys",
    "DELETE /plugin-api/v1/keys/:id",
    "GET /plugin-api/v1/admin",
    "GET /plugin-api/v1/admin.css",
    "GET /plugin-api/v1/admin.js",
    "OPTIONS /plugin-api/v1/*",
];

/// The declared routes, as texts.
pub open spec fn routes() -> Seq<Seq<char>> {
    Seq::new(11, |i: int| ROUTES@[i]@)
}

/// A request, as the host hands it over. The names of the headers are in small letters.
pub struct HttpRequest {
    pub method: String,
    pub path: String,
    pub query: String,
    pub headers: StringMap,
    pub body: String,
}

/// What an [`HttpRequest`] says.
pub struct RequestModel {
    pub method: Seq<char>,
    pub path: Seq<char>,
    pub query: Seq<char>,
    pub headers: Map<Seq<char>, Seq<char>>,
    pub body: Seq<char>,
}

impl View for HttpRequest {
    type V = RequestModel;

    open spec fn view(&self) -> RequestModel {
        RequestModel {
            method: self.method@,
            path: self.path@,
            query: self.query@,
            headers: self.headers@,
            body: self.body@,
        }
    }
}

/// The endpoints.
#[derive(Clone, Copy, Debug, PartialEq, Eq, Structural)]
pub enum Route {
    Health,
    ListProjects,
    ListCards,
    CreateCard,
    ListKeys,
    CreateKey,
    DeleteKey,
    Page,
    Stylesheet,
    Script,
    Preflight,
    Unknown,
}

/// Whether a text begins with `prefix`.
pub open spec fn begins_with(s: Seq<char>, prefix: Seq<char>) -> bool {
    prefix.len() <= s.len() && s.subrange(0, prefix.len() as int) == prefix
}

/// The name of the key that a path is of, where it is the path of a key: one segment.
pub open spec fn key_id(path: Seq<char>) -> Option<Seq<char>> {
    if begins_with(path, KEY_PREFIX@) {
        let id = path.subrange(KEY_PREFIX@.len() as int, path.len() as int);
        if id.len() > 0 && !id.contains('/') {
            Some(id)
        } else {
            None
        }
    } else {
        None
    }
}

/// The endpoint that a method and a path name. The method may be written in either case.
pub open spec fn route_of(method: Seq<char>, path: Seq<char>) -> Route {
    let method = ascii_uppercase(method);
    if method == "GET"@ {
        if path == HEALTH_PATH@ {
            Route::Health
        } else if path == PROJECTS_PATH@ {
            Route::ListProjects
        } else if path == CARDS_PATH@ {
            Route::ListCards
        } else if path == KEYS_PATH@ {
            Route::ListKeys
        } else if path == PAGE_PATH@ {
            Route::Page
        } else if path == STYLESHEET_PATH@ {
            Route::Stylesheet
        } else if path == SCRIPT_PATH@ {
            Route::Script
        } else {
            Route::Unknown
        }
    } else if method == "POST"@ {
        if path == CARDS_PATH@ {
            Route::CreateCard
        } else if path == KEYS_PATH@ {
            Route::CreateKey
        } else {
            Route::Unknown
        }
    } else if method == "DELETE"@ {
        if key_id(path) is Some {
            Route::DeleteKey
        } else {
            Route::Unknown
        }
    } else if method == "OPTIONS"@ {
        if begins_with(path, PREFIX@) {
            Route::Preflight
        } else {
            Route::Unknown
        }
    } else {
        Route::Unknown
    }
}

/// What follows `prefix` in a text that begins with it.
pub fn after_prefix(s: &str, prefix: &str) -> (rest: Option<String>)
    ensures
        match rest {
            Some(r) => begins_with(s@, prefix@) && r@ == s@.subrange(
                prefix@.len() as int,
                s@.len() as int,
            ),
            None => !begins_with(s@, prefix@),
        },
{
    let chars = chars_of(s);
    let wanted = chars_of(prefix);
    if chars.len() < wanted.len() {
        return None;
    }
    if same_text(string_of(&chars, 0, wanted.len()).as_str(), prefix) {
        Some(string_of(&chars, wanted.len(), chars.len()))
    } else {
        None
    }
}

/// The name of the key that a path is of, where it is the path of a key.
pub fn key_id_of(path: &str) -> (id: Option<String>)
    ensures
        match id {
            Some(i) => key_id(path@) == Some(i@),
            None => key_id(path@) is None,
        },
{
    let id = match after_prefix(path, KEY_PREFIX) {
        Some(id) => id,
        None => {
            return None;
        },
    };
    let chars = chars_of(id.as_str());
    for i in 0..chars.len()
        invariant
            begins_with(path@, KEY_PREFIX@),
            id@ == path@.subrange(KEY_PREFIX@.len() as int, path@.len() as int),
            chars@ == id@,
            forall|j: int| 0 <= j < i ==> chars@[j] != '/',
    {
        if chars[i] == '/' {
            assert(id@[i as int] == '/');
            return None;
        }
    }
    if chars.len() > 0 {
        Some(id)
    } else {
        None
    }
}

/// The endpoint that a request names.
pub fn find_route(request: &HttpRequest) -> (route: Route)
    ensures
        route == route_of(request@.method, request@.path),
{
    let method = to_ascii_uppercase(request.method.as_str());
    let path = request.path.as_str();
    if same_text(method.as_str(), "GET") {
        if same_text(path, HEALTH_PATH) {
            Route::Health
        } else if same_text(path, PROJECTS_PATH) {
            Route::ListProjects
        } else if same_text(path, CARDS_PATH) {
            Route::ListCards
        } else if same_text(path, KEYS_PATH) {
            Route::ListKeys
        } else if same_text(path, PAGE_PATH) {
            Route::Page
        } else if same_text(path, STYLESHEET_PATH) {
            Route::Stylesheet
        } else if same_text(path, SCRIPT_PATH) {
            Route::Script
        } else {
            Route::Unknown
        }
    } else if same_text(method.as_str(), "POST") {
        if same_text(path, CARDS_PATH) {
            Route::CreateCard
        } else if same_text(path, KEYS_PATH) {
            Route::CreateKey
        } else {
            Route::Unknown
        }
    } else if same_text(method.as_str(), "DELETE") {
        if key_id_of(path).is_some() {
            Route::DeleteKey
        } else {
            Route::Unknown
        }
    } else if same_text(method.as_str(), "OPTIONS") {
        if after_prefix(path, PREFIX).is_some() {
            Route::Preflight
        } else {
            Route::Unknown
        }
    } else {
        Route::Unknown
    }
}

} // verus!
