use peckboard_api_plugin::routes::{after_prefix, find_route, key_id_of, HttpRequest, Route, ROUTES};
use peckboard_api_plugin::string_map::StringMap;

fn route(method: &str, path: &str) -> Route {
    find_route(&HttpRequest {
        method: method.to_string(),
        path: path.to_string(),
        query: String::new(),
        headers: StringMap::new(),
        body: String::new(),
    })
}

#[test]
fn declared_routes_are_served() {
    let served = [
        Route::Health,
        Route::ListProjects,
        Route::ListCards,
        Route::CreateCard,
        Route::ListKeys,
        Route::CreateKey,
        Route::DeleteKey,
        Route::Page,
        Route::Stylesheet,
        Route::Script,
        Route::Preflight,
    ];
    for (declared, expected) in ROUTES.iter().zip(served) {
        let (method, path) = declared.split_once(' ').unwrap();
        let path = path.replace(":id", "some-id").replace('*', "any/thing");
        assert_eq!(route(method, &path), expected);
        assert_eq!(route(&method.to_lowercase(), &path), expected);
        assert_eq!(route("PATCH", &path), Route::Unknown);
    }
}

#[test]
fn key_path_names_one_segment() {
    assert_eq!(key_id_of("/plugin-api/v1/keys/config-1"), Some("config-1".to_string()));
    assert_eq!(key_id_of("/plugin-api/v1/keys/"), None);
    assert_eq!(key_id_of("/plugin-api/v1/keys"), None);
    assert_eq!(key_id_of("/plugin-api/v1/keys/a/b"), None);
    assert_eq!(key_id_of("/plugin-api/v2/keys/a"), None);
}

#[test]
fn prefix_is_taken_off() {
    assert_eq!(after_prefix("abc", "ab"), Some("c".to_string()));
    assert_eq!(after_prefix("abc", "abc"), Some(String::new()));
    assert_eq!(after_prefix("ab", "abc"), None);
    assert_eq!(after_prefix("abc", "b"), None);
}
