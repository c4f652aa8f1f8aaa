//! The words that the laws are stated in: what the plugin is for, said without its own terms.

use crate::auth::{ConfigModel, KeyModel};
use crate::hashing::sha256;
use crate::json::{json_parse, Tree};
use crate::managed::ManagedModel;
use crate::routes::RequestModel;
use crate::text::words;
use vstd::prelude::*;
use vstd::utf8::encode_utf8;

verus! {

/// Whether a character is white space, by its code.
pub open spec fn white(c: char) -> bool {
    let n = c as u32;
    ||| 0x9 <= n && n <= 0xd
    ||| n == 0x20
    ||| n == 0x85
    ||| n == 0xa0
    ||| n == 0x1680
    ||| 0x2000 <= n && n <= 0x200a
    ||| n == 0x2028
    ||| n == 0x2029
    ||| n == 0x202f
    ||| n == 0x205f
    ||| n == 0x3000
}

/// Whether a text is nothing but white space.
pub open spec fn blank(s: Seq<char>) -> bool {
    forall|i: int| 0 <= i < s.len() ==> white(#[trigger] s[i])
}

/// Whether `t` is what `s` holds between two stretches of white space, and has none at its ends.
pub open spec fn trims_to(s: Seq<char>, t: Seq<char>) -> bool {
    &&& t.len() > 0 ==> !white(t[0]) && !white(t.last())
    &&& exists|before: Seq<char>, after: Seq<char>|
        blank(before) && blank(after) && s == #[trigger] ((before + t) + after)
}

/// Whether two characters are the same, but for the case of an ASCII letter.
pub open spec fn same_letter(a: char, b: char) -> bool {
    ||| a == b
    ||| 'a' <= a && a <= 'z' && a as int == b as int + 32
    ||| 'a' <= b && b <= 'z' && b as int == a as int + 32
}

/// Whether two texts are the same, but for the case of ASCII letters.
pub open spec fn caseless(a: Seq<char>, b: Seq<char>) -> bool {
    a.len() == b.len() && forall|i: int|
        0 <= i < a.len() ==> same_letter(#[trigger] a[i], b[i])
}

/// The value of a hexadecimal digit in small letters.
pub open spec fn digit_value(c: char) -> int {
    if '0' <= c && c <= '9' {
        c as int - '0' as int
    } else {
        c as int - 'a' as int + 10
    }
}

/// Whether a text writes bytes as hexadecimal digits in small letters.
pub open spec fn writes_bytes(s: Seq<char>, bytes: Seq<u8>) -> bool {
    &&& s.len() == 2 * bytes.len()
    &&& forall|i: int|
        0 <= i < s.len() ==> '0' <= #[trigger] s[i] && s[i] <= '9' || 'a' <= s[i] && s[i] <= 'f'
    &&& forall|i: int|
        0 <= i < bytes.len() ==> #[trigger] bytes[i] as int == 16 * digit_value(s[2 * i])
            + digit_value(s[2 * i + 1])
}

/// Whether a text is what a secret is to be kept as.
pub open spec fn hashes(secret: Seq<char>, hash: Seq<char>) -> bool {
    writes_bytes(hash, sha256(encode_utf8(secret)))
}

/// The number that decimal digits write.
pub open spec fn number_of(digits: Seq<char>) -> int
    decreases digits.len(),
{
    if digits.len() == 0 {
        0
    } else {
        10 * number_of(digits.drop_last()) + (digits.last() as int - '0' as int)
    }
}

/// Whether the headers bear a token: `Bearer`, in letters of either case, a space, and the token.
pub open spec fn bears(headers: Map<Seq<char>, Seq<char>>, key: Seq<char>) -> bool {
    &&& headers.contains_key("authorization"@)
    &&& key.len() > 0
    &&& exists|scheme: Seq<char>, rest: Seq<char>|
        trims_to(headers["authorization"@], #[trigger] (scheme + seq![' '] + rest))
            && !scheme.contains(' ') && caseless(scheme, "bearer"@) && trims_to(rest, key)
}

/// Whether the headers present a key: as a bearer token, or where they bear none as `X-API-Key`.
pub open spec fn presents(headers: Map<Seq<char>, Seq<char>>, key: Seq<char>) -> bool {
    ||| bears(headers, key)
    ||| {
        &&& forall|token: Seq<char>| !bears(headers, token)
        &&& headers.contains_key("x-api-key"@)
        &&& key.len() > 0
        &&& trims_to(headers["x-api-key"@], key)
    }
}

/// Whether a managed key is the last that is kept as the hash of a secret.
pub open spec fn is_managed(set: Seq<ManagedModel>, i: int, secret: Seq<char>) -> bool {
    &&& 0 <= i < set.len()
    &&& hashes(secret, set[i].hash)
    &&& forall|j: int| i < j < set.len() ==> !hashes(secret, (#[trigger] set[j]).hash)
}

/// Whether a configured key is the last that has a secret.
pub open spec fn is_configured(keys: Seq<KeyModel>, i: int, secret: Seq<char>) -> bool {
    &&& 0 <= i < keys.len()
    &&& keys[i].key == secret
    &&& forall|j: int| i < j < keys.len() ==> (#[trigger] keys[j]).key != secret
}

/// Whether a secret grants just these scopes: all of them as the bootstrap secret, and else those of
/// the key that it is of, a managed one where the managed set has been made.
pub open spec fn grants(
    config: ConfigModel,
    loaded: Option<Seq<ManagedModel>>,
    secret: Seq<char>,
    scopes: Seq<Seq<char>>,
) -> bool {
    if config.bootstrap_admin_key == Some(secret) {
        scopes == seq!["read"@, "write"@, "admin"@]
    } else {
        match loaded {
            Some(set) => exists|i: int|
                #[trigger] is_managed(set, i, secret) && scopes == set[i].scopes,
            None => exists|i: int|
                #[trigger] is_configured(config.keys, i, secret) && scopes
                    == config.keys[i].scopes,
        }
    }
}

/// Whether headers present a key that grants just these scopes.
pub open spec fn are_granted(
    config: ConfigModel,
    loaded: Option<Seq<ManagedModel>>,
    headers: Map<Seq<char>, Seq<char>>,
    scopes: Seq<Seq<char>>,
) -> bool {
    exists|secret: Seq<char>| #[trigger]
        presents(headers, secret) && grants(config, loaded, secret, scopes)
}

/// Whether headers present no key that grants anything.
pub open spec fn are_strangers(
    config: ConfigModel,
    loaded: Option<Seq<ManagedModel>>,
    headers: Map<Seq<char>, Seq<char>>,
) -> bool {
    forall|scopes: Seq<Seq<char>>| !are_granted(config, loaded, headers, scopes)
}

/// Whether a request names a method, in letters of either case, and a path.
pub open spec fn asks(request: RequestModel, method: Seq<char>, path: Seq<char>) -> bool {
    caseless(request.method, method) && request.path == path
}

/// Whether a value is a list of these strings.
pub open spec fn lists(value: Tree, strings: Seq<Seq<char>>) -> bool {
    value matches Tree::Array(items) && items.len() == strings.len() && forall|i: int|
        0 <= i < items.len() ==> #[trigger] items[i] == Tree::Str(strings[i])
}

/// Whether a member says this label: a string, or null or nothing where there is none.
pub open spec fn labels(member: Option<Tree>, label: Option<Seq<char>>) -> bool {
    match label {
        Some(text) => member == Some(Tree::Str(text)),
        None => member is None || member == Some(Tree::Null),
    }
}

/// Whether a value that the host has kept says this key.
pub open spec fn says_key(value: Tree, key: ManagedModel) -> bool {
    &&& value.member("id"@) == Some(Tree::Str(key.id))
    &&& labels(value.member("label"@), key.label)
    &&& value.member("scopes"@) is Some
    &&& lists(value.member("scopes"@)->0, key.scopes)
    &&& value.member("created"@) == Some(Tree::Int(key.created as int))
    &&& value.member("masked"@) == Some(Tree::Str(key.masked))
    &&& value.member("hash"@) == Some(Tree::Str(key.hash))
}

/// Whether a value that the host has kept says this managed set.
pub open spec fn says_set(value: Tree, set: Seq<ManagedModel>) -> bool {
    value matches Tree::Array(items) && items.len() == set.len() && forall|i: int|
        0 <= i < items.len() ==> says_key(#[trigger] items[i], set[i])
}

/// Whether the host has handed out what it has kept: null before there is a managed set, and then
/// that set.
pub open spec fn hands_out(
    outcome: Result<Seq<char>, Seq<char>>,
    loaded: Option<Seq<ManagedModel>>,
) -> bool {
    &&& outcome is Ok
    &&& json_parse(outcome->Ok_0) matches Ok(answer)
    &&& answer.member("error"@) is None
    &&& answer.member("value"@) matches Some(value)
    &&& match loaded {
        Some(set) => says_set(value, set),
        None => value is Null,
    }
}

/// The reply that says why the host has not handed out what it has kept, where it has not.
pub open spec fn keeps_back(outcome: Result<Seq<char>, Seq<char>>, reply: Tree) -> bool {
    match outcome {
        Ok(out) => match json_parse(out) {
            Ok(answer) => if answer.member("error"@) is Some {
                reply == plain(500, answer)
            } else {
                &&& reply == failure(500, "stored keys cannot be read"@)
                &&& answer.member("value"@) matches Some(value) ==> !(value is Null) && forall|
                    set: Seq<ManagedModel>,
                | !says_set(value, set)
            },
            Err(message) => reply == failure(500, "host returned invalid json: "@ + message),
        },
        Err(message) => reply == failure(500, "host error: "@ + message),
    }
}

/// Whether a text is what may be shown of a secret: its beginning, eight characters or a quarter of
/// it, and an ellipsis.
pub open spec fn masks(secret: Seq<char>, mask: Seq<char>) -> bool {
    let shown = mask.len() - 1;
    &&& 0 <= shown <= 8
    &&& 4 * shown <= secret.len()
    &&& shown == 8 || secret.len() < 4 * (shown + 1)
    &&& mask == secret.take(shown) + seq!['\u{2026}']
}

/// Whether a managed set is what configured keys become: each with the number of its place, its
/// label and its scopes, and its secret kept as a hash.
pub open spec fn becomes(keys: Seq<KeyModel>, now: u64, set: Seq<ManagedModel>) -> bool {
    set.len() == keys.len() && forall|i: int|
        0 <= i < keys.len() ==> {
            let key = #[trigger] set[i];
            &&& key.label == keys[i].label
            &&& key.scopes == keys[i].scopes
            &&& key.created == now
            &&& hashes(keys[i].key, key.hash)
            &&& masks(keys[i].key, key.masked)
            &&& key.id.len() > 7
            &&& key.id.take(7) == "config-"@
            &&& key.id[7] != '0'
            &&& number_of(key.id.skip(7)) == i + 1
        }
}

/// Whether a path is that of the key of a name.
pub open spec fn names_key(path: Seq<char>, id: Seq<char>) -> bool {
    path == "/plugin-api/v1/keys/"@ + id && id.len() > 0 && !id.contains('/')
}

/// Whether a request asks for an endpoint that takes a scope.
pub open spec fn needs(request: RequestModel, scope: Seq<char>) -> bool {
    ||| scope == "read"@ && asks(request, "GET"@, "/plugin-api/v1/projects"@)
    ||| scope == "read"@ && asks(request, "GET"@, "/plugin-api/v1/cards"@)
    ||| scope == "write"@ && asks(request, "POST"@, "/plugin-api/v1/cards"@)
    ||| scope == "admin"@ && asks(request, "GET"@, "/plugin-api/v1/keys"@)
    ||| scope == "admin"@ && asks(request, "POST"@, "/plugin-api/v1/keys"@)
    ||| scope == "admin"@ && caseless(request.method, "DELETE"@) && exists|id: Seq<char>|
        names_key(request.path, id)
}

/// Whether a request asks for nothing that there is.
pub open spec fn asks_for_nothing(request: RequestModel) -> bool {
    &&& forall|scope: Seq<char>| !needs(request, scope)
    &&& !asks(request, "GET"@, "/plugin-api/v1/health"@)
    &&& !asks(request, "GET"@, "/plugin-api/v1/admin"@)
    &&& !asks(request, "GET"@, "/plugin-api/v1/admin.css"@)
    &&& !asks(request, "GET"@, "/plugin-api/v1/admin.js"@)
    &&& !is_preflight(request)
}

/// Whether a request is a preflight for a path of the plugin.
pub open spec fn is_preflight(request: RequestModel) -> bool {
    caseless(request.method, "OPTIONS"@) && exists|rest: Seq<char>|
        request.path == #[trigger] ("/plugin-api/v1/"@ + rest)
}

/// Whether a request is let in to an endpoint for data: its key grants the scope, or it is the
/// bootstrap secret while what the host has kept cannot be read.
pub open spec fn is_let_in(
    config: ConfigModel,
    outcome: Result<Seq<char>, Seq<char>>,
    headers: Map<Seq<char>, Seq<char>>,
    scope: Seq<char>,
) -> bool {
    ||| exists|loaded: Option<Seq<ManagedModel>>, scopes: Seq<Seq<char>>|
        hands_out(outcome, loaded) && #[trigger] are_granted(config, loaded, headers, scopes)
            && scopes.contains(scope)
    ||| {
        &&& forall|loaded: Option<Seq<ManagedModel>>| !hands_out(outcome, loaded)
        &&& config.bootstrap_admin_key matches Some(secret) && presents(headers, secret)
    }
}

/// Whether a body gives a string for a member that is not blank.
pub open spec fn gives(body: Tree, name: Seq<char>) -> bool {
    body.member(name) matches Some(Tree::Str(s)) && !blank(s)
}

/// Whether a character is an ASCII letter.
pub open spec fn letter(c: char) -> bool {
    'a' <= c && c <= 'z' || 'A' <= c && c <= 'Z'
}

/// Whether a word is a name, in letters of either case, with no letter behind it.
pub open spec fn calls(word: Seq<char>, name: Seq<char>) -> bool {
    &&& word.len() >= name.len()
    &&& caseless(word.take(name.len() as int), name)
    &&& word.len() > name.len() ==> !letter(word[name.len() as int])
}

/// Whether words call something a project, and nothing behind it a part of a card.
pub open spec fn call_project(list: Seq<Seq<char>>, i: int) -> bool {
    &&& 0 <= i < list.len()
    &&& calls(list[i], "project"@)
    &&& forall|j: int|
        i < j < list.len() ==> !calls(#[trigger] list[j], "workflow"@) && !calls(
            list[j],
            "priority"@,
        ) && !calls(list[j], "title"@)
}

/// Whether a message says of a project that it was not found.
pub open spec fn tells_missing_project(message: Seq<char>) -> bool {
    exists|before: Seq<char>, after: Seq<char>, i: int|
        #![trigger (before + "not found"@) + after, call_project(words(before), i)]
        message == (before + "not found"@) + after && (after.len() > 0 ==> !letter(after[0]))
            && call_project(words(before), i)
}

/// The verdict that is a response.
pub open spec fn verdict(status: int, headers: Map<Seq<char>, Tree>, body: Tree) -> Tree {
    Tree::Object(
        map![
            "verdict"@ => Tree::Str("allow"@),
            "payload"@ => Tree::Object(
                map![
                    "status"@ => Tree::Int(status),
                    "headers"@ => Tree::Object(headers),
                    "body"@ => body
                ],
            )
        ],
    )
}

/// The response that is a JSON body.
pub open spec fn plain(status: int, body: Tree) -> Tree {
    verdict(status, map!["content-type"@ => Tree::Str("application/json"@)], body)
}

/// The response that is an error.
pub open spec fn failure(status: int, message: Seq<char>) -> Tree {
    plain(status, Tree::Object(map!["error"@ => Tree::Str(message)]))
}

/// The response that is a JSON body for a page of any origin.
pub open spec fn shared(status: int, body: Tree) -> Tree {
    verdict(
        status,
        map![
            "content-type"@ => Tree::Str("application/json"@),
            "access-control-allow-origin"@ => Tree::Str("*"@)
        ],
        body,
    )
}

/// The response that is an error for a page of any origin.
pub open spec fn shared_failure(status: int, message: Seq<char>) -> Tree {
    shared(status, Tree::Object(map!["error"@ => Tree::Str(message)]))
}

/// The response to a request without a valid key.
pub open spec fn challenge() -> Tree {
    verdict(
        401,
        map![
            "content-type"@ => Tree::Str("application/json"@),
            "www-authenticate"@ => Tree::Str("Bearer realm=\"plugin-api\""@)
        ],
        Tree::Object(map!["error"@ => Tree::Str("missing or invalid API key"@)]),
    )
}

/// The response to a request whose key does not grant a scope.
pub open spec fn forbidden(scope: Seq<char>) -> Tree {
    failure(403, "api key is not authorized for scope '"@ + scope + "'"@)
}

} // verus!
