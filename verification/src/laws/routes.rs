//! Which requests are the plugin's own.

use crate::routes::{
    begins_with, key_id, route_of, routes, Route, CARDS_PATH, HEALTH_PATH, KEYS_PATH, KEY_PREFIX,
    PAGE_PATH, PREFIX, PROJECTS_PATH, SCRIPT_PATH, STYLESHEET_PATH,
};
use crate::text::{ascii_uppercase, lemma_first_index_after, split_at_first};
use vstd::prelude::*;

verus! {

/// Whether the path of a declared route covers a path: `:id` at its end stands for one segment, and
/// `*` for all that follows.
pub open spec fn path_covered(declared: Seq<char>, path: Seq<char>) -> bool {
    let n = declared.len() as int;
    if n >= 1 && declared.last() == '*' {
        begins_with(path, declared.drop_last())
    } else if n >= 3 && declared.subrange(n - 3, n) == ":id"@ {
        let stem = declared.subrange(0, n - 3);
        let rest = path.subrange(n - 3, path.len() as int);
        begins_with(path, stem) && rest.len() > 0 && !rest.contains('/')
    } else {
        path == declared
    }
}

/// Whether a declared route covers a method and a path.
pub open spec fn route_covers(declared: Seq<char>, method: Seq<char>, path: Seq<char>) -> bool {
    split_at_first(declared, ' ') matches Some((verb, covered)) && verb == method && path_covered(
        covered,
        path,
    )
}

/// The routes that the manifest declares are those that are served: one of them covers the method
/// and the path of a request just where they name an endpoint.
pub proof fn law_declared_routes_are_served(method: Seq<char>, path: Seq<char>)
    ensures
        (exists|i: int|
            0 <= i < routes().len() && route_covers(
                #[trigger] routes()[i],
                ascii_uppercase(method),
                path,
            )) <==> route_of(method, path) != Route::Unknown,
{
    let upper = ascii_uppercase(method);
    lemma_exact_routes(upper, path);
    lemma_key_route(upper, path);
    lemma_preflight_route(upper, path);
    if route_of(method, path) != Route::Unknown {
        let i: int = match route_of(method, path) {
            Route::Health => 0,
            Route::ListProjects => 1,
            Route::ListCards => 2,
            Route::CreateCard => 3,
            Route::ListKeys => 4,
            Route::CreateKey => 5,
            Route::DeleteKey => 6,
            Route::Page => 7,
            Route::Stylesheet => 8,
            Route::Script => 9,
            _ => 10,
        };
        assert(route_covers(routes()[i], upper, path));
    }
    lemma_methods_differ();
}

pub(crate) proof fn lemma_methods_differ()
    ensures
        "GET"@ != "POST"@,
        "GET"@ != "DELETE"@,
        "GET"@ != "OPTIONS"@,
        "POST"@ != "DELETE"@,
        "POST"@ != "OPTIONS"@,
        "DELETE"@ != "OPTIONS"@,
{
    reveal_strlit("GET");
    reveal_strlit("POST");
    reveal_strlit("DELETE");
    reveal_strlit("OPTIONS");
    assert("GET"@.len() == 3);
    assert("POST"@.len() == 4);
    assert("DELETE"@.len() == 6);
    assert("OPTIONS"@.len() == 7);
}

/// A declared route without `:id` and `*` covers its own method and path alone.
proof fn lemma_exact_route(
    declared: Seq<char>,
    verb: Seq<char>,
    covered: Seq<char>,
    method: Seq<char>,
    path: Seq<char>,
)
    requires
        declared == verb + seq![' '] + covered,
        forall|i: int| 0 <= i < verb.len() ==> verb[i] != ' ',
        covered.len() >= 3,
        covered.last() != '*',
        covered[covered.len() - 3] != ':',
    ensures
        route_covers(declared, method, path) <==> method == verb && path == covered,
{
    lemma_split(declared, verb, covered);
    reveal_strlit(":id");
    let n = covered.len() as int;
    assert(covered.subrange(n - 3, n)[0] == covered[n - 3]);
    assert(":id"@[0] == ':');
}

proof fn lemma_split(declared: Seq<char>, verb: Seq<char>, covered: Seq<char>)
    requires
        declared == verb + seq![' '] + covered,
        forall|i: int| 0 <= i < verb.len() ==> verb[i] != ' ',
    ensures
        split_at_first(declared, ' ') == Some((verb, covered)),
{
    let rest = seq![' '] + covered;
    assert(verb + rest =~= declared);
    assert(rest[0] == ' ');
    lemma_first_index_after(verb, ' ', rest);
    let n = verb.len() as int;
    assert(declared.subrange(0, n) =~= verb);
    assert(declared.subrange(n + 1, declared.len() as int) =~= covered);
}

proof fn lemma_exact_routes(method: Seq<char>, path: Seq<char>)
    ensures
        route_covers(routes()[0], method, path) <==> method == "GET"@ && path == HEALTH_PATH@,
        route_covers(routes()[1], method, path) <==> method == "GET"@ && path == PROJECTS_PATH@,
        route_covers(routes()[2], method, path) <==> method == "GET"@ && path == CARDS_PATH@,
        route_covers(routes()[3], method, path) <==> method == "POST"@ && path == CARDS_PATH@,
        route_covers(routes()[4], method, path) <==> method == "GET"@ && path == KEYS_PATH@,
        route_covers(routes()[5], method, path) <==> method == "POST"@ && path == KEYS_PATH@,
        route_covers(routes()[7], method, path) <==> method == "GET"@ && path == PAGE_PATH@,
        route_covers(routes()[8], method, path) <==> method == "GET"@ && path == STYLESHEET_PATH@,
        route_covers(routes()[9], method, path) <==> method == "GET"@ && path == SCRIPT_PATH@,
{
    reveal_strlit("GET");
    reveal_strlit("POST");
    reveal_strlit("/plugin-api/v1/health");
    reveal_strlit("/plugin-api/v1/projects");
    reveal_strlit("/plugin-api/v1/cards");
    reveal_strlit("/plugin-api/v1/keys");
    reveal_strlit("/plugin-api/v1/admin");
    reveal_strlit("/plugin-api/v1/admin.css");
    reveal_strlit("/plugin-api/v1/admin.js");
    reveal_strlit("GET /plugin-api/v1/health");
    reveal_strlit("GET /plugin-api/v1/projects");
    reveal_strlit("GET /plugin-api/v1/cards");
    reveal_strlit("POST /plugin-api/v1/cards");
    reveal_strlit("GET /plugin-api/v1/keys");
    reveal_strlit("POST /plugin-api/v1/keys");
    reveal_strlit("GET /plugin-api/v1/admin");
    reveal_strlit("GET /plugin-api/v1/admin.css");
    reveal_strlit("GET /plugin-api/v1/admin.js");
    assert(routes()[0] =~= "GET"@ + seq![' '] + HEALTH_PATH@);
    assert(routes()[1] =~= "GET"@ + seq![' '] + PROJECTS_PATH@);
    assert(routes()[2] =~= "GET"@ + seq![' '] + CARDS_PATH@);
    assert(routes()[3] =~= "POST"@ + seq![' '] + CARDS_PATH@);
    assert(routes()[4] =~= "GET"@ + seq![' '] + KEYS_PATH@);
    assert(routes()[5] =~= "POST"@ + seq![' '] + KEYS_PATH@);
    assert(routes()[7] =~= "GET"@ + seq![' '] + PAGE_PATH@);
    assert(routes()[8] =~= "GET"@ + seq![' '] + STYLESHEET_PATH@);
    assert(routes()[9] =~= "GET"@ + seq![' '] + SCRIPT_PATH@);
    lemma_exact_route(routes()[0], "GET"@, HEALTH_PATH@, method, path);
    lemma_exact_route(routes()[1], "GET"@, PROJECTS_PATH@, method, path);
    lemma_exact_route(routes()[2], "GET"@, CARDS_PATH@, method, path);
    lemma_exact_route(routes()[3], "POST"@, CARDS_PATH@, method, path);
    lemma_exact_route(routes()[4], "GET"@, KEYS_PATH@, method, path);
    lemma_exact_route(routes()[5], "POST"@, KEYS_PATH@, method, path);
    lemma_exact_route(routes()[7], "GET"@, PAGE_PATH@, method, path);
    lemma_exact_route(routes()[8], "GET"@, STYLESHEET_PATH@, method, path);
    lemma_exact_route(routes()[9], "GET"@, SCRIPT_PATH@, method, path);
}

proof fn lemma_key_route(method: Seq<char>, path: Seq<char>)
    ensures
        route_covers(routes()[6], method, path) <==> method == "DELETE"@ && key_id(path) is Some,
{
    reveal_strlit("DELETE");
    reveal_strlit(":id");
    reveal_strlit("/plugin-api/v1/keys/");
    reveal_strlit("DELETE /plugin-api/v1/keys/:id");
    let covered = KEY_PREFIX@ + ":id"@;
    assert(routes()[6] =~= "DELETE"@ + seq![' '] + covered);
    lemma_split(routes()[6], "DELETE"@, covered);
    assert(covered.subrange(covered.len() - 3, covered.len() as int) =~= ":id"@);
    assert(covered.subrange(0, covered.len() - 3) =~= KEY_PREFIX@);
    assert(covered.last() == 'd');
}

proof fn lemma_preflight_route(method: Seq<char>, path: Seq<char>)
    ensures
        route_covers(routes()[10], method, path) <==> method == "OPTIONS"@ && begins_with(
            path,
            PREFIX@,
        ),
{
    reveal_strlit("OPTIONS");
    reveal_strlit("/plugin-api/v1/");
    reveal_strlit("OPTIONS /plugin-api/v1/*");
    let covered = PREFIX@ + seq!['*'];
    assert(routes()[10] =~= "OPTIONS"@ + seq![' '] + covered);
    lemma_split(routes()[10], "OPTIONS"@, covered);
    assert(covered.drop_last() =~= PREFIX@);
}

} // verus!
