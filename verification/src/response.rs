//! The replies: verdicts that carry an HTTP response, and what the host's results become.

use crate::assets::{PAGE, PAGE_POLICY};
use crate::json::{json_parse, json_text, null, number, reads_back, string, Json, Members, Tree};
use crate::text::{
    ascii_uppercase, chars_of, eq_ignore_ascii_case, joined, same_text, split_words, string_of, texts,
    words,
};
use vstd::prelude::*;

verus! {

/// The object that has the one member `name`.
pub open spec fn singleton(name: Seq<char>, value: Tree) -> Tree {
    Tree::Object(Map::empty().insert(name, value))
}

/// The headers that every response has.
pub open spec fn json_headers() -> Map<Seq<char>, Tree> {
    Map::empty().insert("content-type"@, Tree::Str("application/json"@))
}

/// The verdict that answers a request with a response.
pub open spec fn allow_verdict(status: int, headers: Map<Seq<char>, Tree>, body: Tree) -> Tree {
    Tree::Object(
        Map::empty().insert("verdict"@, Tree::Str("allow"@)).insert(
            "payload"@,
            Tree::Object(
                Map::empty().insert("status"@, Tree::Int(status)).insert(
                    "headers"@,
                    Tree::Object(headers),
                ).insert("body"@, body),
            ),
        ),
    )
}

/// The verdict that answers with `status` and the JSON `body`.
pub open spec fn reply(status: int, body: Tree) -> Tree {
    allow_verdict(status, json_headers(), body)
}

/// The verdict that answers with `status` and the body `{"error": message}`.
pub open spec fn error_reply(status: int, message: Seq<char>) -> Tree {
    reply(status, singleton("error"@, Tree::Str(message)))
}

/// The verdict that answers a request without a valid key: 401, with a challenge.
pub open spec fn unauthorized_reply() -> Tree {
    allow_verdict(
        401,
        json_headers().insert("www-authenticate"@, Tree::Str("Bearer realm=\"plugin-api\""@)),
        singleton("error"@, Tree::Str("missing or invalid API key"@)),
    )
}

/// The headers of a response that a page of any origin may read.
pub open spec fn cors_headers() -> Map<Seq<char>, Tree> {
    json_headers().insert("access-control-allow-origin"@, Tree::Str("*"@))
}

/// The verdict that answers with `status` and the JSON `body`, for a page of any origin to read.
pub open spec fn cors_reply(status: int, body: Tree) -> Tree {
    allow_verdict(status, cors_headers(), body)
}

/// The verdict that answers with `status` and the body `{"error": message}`, for a page of any
/// origin to read.
pub open spec fn cors_error_reply(status: int, message: Seq<char>) -> Tree {
    cors_reply(status, singleton("error"@, Tree::Str(message)))
}

/// The verdict that answers a preflight: 204, every method and the headers that a key and a body
/// take being allowed to a page of any origin.
pub open spec fn preflight_reply() -> Tree {
    allow_verdict(
        204,
        Map::empty().insert("access-control-allow-origin"@, Tree::Str("*"@)).insert(
            "access-control-allow-methods"@,
            Tree::Str("GET, POST, DELETE, OPTIONS"@),
        ).insert(
            "access-control-allow-headers"@,
            Tree::Str("authorization, x-api-key, content-type"@),
        ),
        Tree::Null,
    )
}

/// The verdict that answers with a file of the management page.
pub open spec fn asset_reply(content_type: Seq<char>, text: Seq<char>) -> Tree {
    allow_verdict(
        200,
        Map::empty().insert("content-type"@, Tree::Str(content_type)),
        Tree::Str(text),
    )
}

/// The verdict that answers with the management page, under a policy of its own.
pub open spec fn page_reply() -> Tree {
    allow_verdict(
        200,
        Map::empty().insert("content-type"@, Tree::Str("text/html; charset=utf-8"@)).insert(
            "content-security-policy"@,
            Tree::Str(PAGE_POLICY@),
        ),
        Tree::Str(PAGE@),
    )
}

/// What the client is told of the outcome of a read.
pub open spec fn read_reply(parsed: Result<Tree, Seq<char>>) -> Tree {
    match parsed {
        Ok(value) => if value.member("error"@) is Some {
            reply(500, value)
        } else {
            reply(200, value)
        },
        Err(message) => error_reply(500, "host returned invalid json: "@ + message),
    }
}

/// Whether a character is an ASCII letter.
pub open spec fn is_letter(c: char) -> bool {
    'a' <= c <= 'z' || 'A' <= c <= 'Z'
}

/// Whether a word is `name` in letters of either case, but for what may follow its letters.
pub open spec fn is_word(word: Seq<char>, name: Seq<char>) -> bool {
    &&& word.len() >= name.len()
    &&& ascii_uppercase(word.subrange(0, name.len() as int)) == ascii_uppercase(name)
    &&& word.len() > name.len() ==> !is_letter(word[name.len() as int])
}

/// Whether a word names something of a card that is no project.
pub open spec fn is_card_part(word: Seq<char>) -> bool {
    is_word(word, "workflow"@) || is_word(word, "priority"@) || is_word(word, "title"@)
}

/// Whether the words name a project, and after it nothing else of a card.
pub open spec fn speaks_of_project(words: Seq<Seq<char>>) -> bool {
    exists|i: int|
        0 <= i < words.len() && is_word(#[trigger] words[i], "project"@) && forall|j: int|
            i < j < words.len() ==> !is_card_part(#[trigger] words[j])
}

/// Whether a message says `not found` at `at`, and the word ends there.
pub open spec fn says_not_found(message: Seq<char>, at: int) -> bool {
    &&& 0 <= at <= message.len() - 9
    &&& message.subrange(at, at + 9) == "not found"@
    &&& at + 9 < message.len() ==> !is_letter(message[at + 9])
}

/// Whether an error message says that a project is what was not found: it says `not found`, and what
/// comes before speaks of a project.
pub open spec fn names_missing_project(message: Seq<char>) -> bool {
    exists|at: int| #[trigger]
        says_not_found(message, at) && speaks_of_project(words(message.subrange(0, at)))
}

/// What the client is told of the outcome of the creation of a card. An error never passes for a
/// card, even where it is no message.
pub open spec fn create_reply(parsed: Result<Tree, Seq<char>>) -> Tree {
    match parsed {
        Ok(value) => match value.str_member("error"@) {
            Some(message) => error_reply(
                if names_missing_project(message) {
                    404
                } else {
                    400
                },
                message,
            ),
            None => if value.member("error"@) is Some {
                reply(400, value)
            } else {
                reply(201, value)
            },
        },
        Err(message) => error_reply(500, "host returned invalid json: "@ + message),
    }
}

/// Whether `text` is the text of `tree`, and reads as it.
pub open spec fn is_text_of(text: Seq<char>, tree: Tree) -> bool {
    text == json_text(tree) && reads_back(tree, text)
}

/// What `parsed` holds, or the message of the error it is.
pub open spec fn parsed_tree(parsed: Result<Json, String>) -> Result<Tree, Seq<char>> {
    match parsed {
        Ok(json) => Ok(json@),
        Err(message) => Err(message@),
    }
}

fn verdict(status: u16, headers: Members, body: Json) -> (text: String)
    ensures
        is_text_of(text@, allow_verdict(status as int, headers@, body@)),
{
    let payload = Members::new().with("status", number(status as u64)).with(
        "headers",
        headers.object(),
    ).with("body", body);
    Members::new().with("verdict", string("allow")).with(
        "payload",
        payload.object(),
    ).object().to_text()
}

/// The verdict that answers with `status` and the JSON `body`.
pub fn response(status: u16, body: Json) -> (text: String)
    ensures
        is_text_of(text@, reply(status as int, body@)),
{
    verdict(status, Members::new().with("content-type", string("application/json")), body)
}

/// The verdict that answers with 200 and the JSON `body`.
pub fn ok_response(body: Json) -> (text: String)
    ensures
        is_text_of(text@, reply(200, body@)),
{
    response(200, body)
}

/// The verdict that answers with `status` and the body `{"error": message}`.
pub fn error_response(status: u16, message: &str) -> (text: String)
    ensures
        is_text_of(text@, error_reply(status as int, message@)),
{
    response(status, Members::new().with("error", string(message)).object())
}

/// The verdict that answers a request without a valid key: 401, with a challenge.
pub fn unauthorized() -> (text: String)
    ensures
        is_text_of(text@, unauthorized_reply()),
{
    let headers = Members::new().with("content-type", string("application/json")).with(
        "www-authenticate",
        string("Bearer realm=\"plugin-api\""),
    );
    let body = Members::new().with("error", string("missing or invalid API key"));
    verdict(401, headers, body.object())
}

/// The verdict that answers with `status` and the JSON `body`, for a page of any origin to read.
pub fn cors_response(status: u16, body: Json) -> (text: String)
    ensures
        is_text_of(text@, cors_reply(status as int, body@)),
{
    let headers = Members::new().with("content-type", string("application/json")).with(
        "access-control-allow-origin",
        string("*"),
    );
    verdict(status, headers, body)
}

/// The verdict that answers with `status` and the body `{"error": message}`, for a page of any
/// origin to read.
pub fn cors_error_response(status: u16, message: &str) -> (text: String)
    ensures
        is_text_of(text@, cors_error_reply(status as int, message@)),
{
    cors_response(status, Members::new().with("error", string(message)).object())
}

/// The verdict that answers a preflight.
pub fn preflight() -> (text: String)
    ensures
        is_text_of(text@, preflight_reply()),
{
    let headers = Members::new().with("access-control-allow-origin", string("*")).with(
        "access-control-allow-methods",
        string("GET, POST, DELETE, OPTIONS"),
    ).with("access-control-allow-headers", string("authorization, x-api-key, content-type"));
    verdict(204, headers, null())
}

/// The verdict that answers with a file of the management page.
pub fn asset(content_type: &str, file: &str) -> (text: String)
    ensures
        is_text_of(text@, asset_reply(content_type@, file@)),
{
    verdict(200, Members::new().with("content-type", string(content_type)), string(file))
}

/// The verdict that answers with the management page.
pub fn page() -> (text: String)
    ensures
        is_text_of(text@, page_reply()),
{
    let headers = Members::new().with("content-type", string("text/html; charset=utf-8")).with(
        "content-security-policy",
        string(PAGE_POLICY),
    );
    verdict(200, headers, string(PAGE))
}

/// Answers a read with what the host returned, once parsed: data is a 200, an error or a text
/// that is not JSON a 500.
pub fn host_read_result(parsed: Result<Json, String>) -> (text: String)
    ensures
        is_text_of(text@, read_reply(parsed_tree(parsed))),
{
    match parsed {
        Ok(value) => if value.has_member("error") {
            response(500, value)
        } else {
            response(200, value)
        },
        Err(message) => error_response(
            500,
            joined("host returned invalid json: ", message.as_str()).as_str(),
        ),
    }
}

/// Answers a read with what the host returned.
pub fn host_read_response(out: &str) -> (text: String)
    ensures
        is_text_of(text@, read_reply(json_parse(out@))),
{
    host_read_result(Json::parse(out))
}

fn letter(c: char) -> (is: bool)
    ensures
        is == is_letter(c),
{
    ('a' <= c && c <= 'z') || ('A' <= c && c <= 'Z')
}

/// Whether a word is `name` in letters of either case, but for what may follow its letters.
fn word_is(word: &str, name: &str) -> (is: bool)
    ensures
        is == is_word(word@, name@),
{
    let chars = chars_of(word);
    let length = chars_of(name).len();
    chars.len() >= length && eq_ignore_ascii_case(string_of(&chars, 0, length).as_str(), name)
        && !(chars.len() > length && letter(chars[length]))
}

/// Whether a word names something of a card that is no project.
fn card_part(word: &str) -> (is: bool)
    ensures
        is == is_card_part(word@),
{
    word_is(word, "workflow") || word_is(word, "priority") || word_is(word, "title")
}

/// Whether the words name a project, and after it nothing else of a card.
fn project_spoken_of(list: &Vec<String>) -> (is: bool)
    ensures
        is == speaks_of_project(texts(list@)),
{
    let mut spoken = false;
    let ghost all = texts(list@);
    for i in 0..list.len()
        invariant
            all == texts(list@),
            spoken == speaks_of_project(all.take(i as int)),
    {
        let ghost before = all.take(i as int);
        let ghost after = all.take(i + 1);
        let ghost last = list@[i as int]@;
        assert(after == before.push(last));
        let word = list[i].as_str();
        let is_project = word_is(word, "project");
        let is_part = card_part(word);
        proof {
            if is_project {
                assert(is_word(after[i as int], "project"@));
                assert(speaks_of_project(after));
            } else {
                if speaks_of_project(before) && !is_part {
                    let k = choose|k: int|
                        0 <= k < before.len() && is_word(#[trigger] before[k], "project"@)
                            && forall|j: int|
                            k < j < before.len() ==> !is_card_part(#[trigger] before[j]);
                    assert(is_word(after[k], "project"@));
                    assert forall|j: int| k < j < after.len() implies !is_card_part(
                        #[trigger] after[j],
                    ) by {
                        if j < before.len() {
                            assert(after[j] == before[j]);
                        }
                    }
                }
                if speaks_of_project(after) {
                    let k = choose|k: int|
                        0 <= k < after.len() && is_word(#[trigger] after[k], "project"@)
                            && forall|j: int|
                            k < j < after.len() ==> !is_card_part(#[trigger] after[j]);
                    assert(k < i);
                    assert(before[k] == after[k]);
                    assert forall|j: int| k < j < before.len() implies !is_card_part(
                        #[trigger] before[j],
                    ) by {
                        assert(after[j] == before[j]);
                    }
                    assert(!is_card_part(after[i as int]));
                }
            }
        }
        spoken = is_project || (spoken && !is_part);
    }
    assert(all.take(all.len() as int) == all);
    spoken
}

/// Whether an error message says that a project is what was not found.
pub fn missing_project(message: &str) -> (is: bool)
    ensures
        is == names_missing_project(message@),
{
    let chars = chars_of(message);
    for at in 0..chars.len()
        invariant
            chars@ == message@,
            forall|j: int|
                j < at && #[trigger] says_not_found(message@, j) ==> !speaks_of_project(
                    words(message@.subrange(0, j)),
                ),
    {
        if chars.len() - at >= 9 && same_text(string_of(&chars, at, at + 9).as_str(), "not found")
            && !(chars.len() - at > 9 && letter(chars[at + 9])) {
            assert(says_not_found(message@, at as int));
            if project_spoken_of(&split_words(string_of(&chars, 0, at).as_str())) {
                return true;
            }
        }
    }
    false
}

/// Answers the creation of a card with what the host returned, once parsed: a card is a 201, an
/// error that says that a project was not found a 404, any other error a 400, and a text that is
/// not JSON a 500.
pub fn create_card_result(parsed: Result<Json, String>) -> (text: String)
    ensures
        is_text_of(text@, create_reply(parsed_tree(parsed))),
{
    match parsed {
        Ok(value) => {
            match value.str_member("error") {
                Some(message) => {
                    let status: u16 = if missing_project(message) {
                        404
                    } else {
                        400
                    };
                    error_response(status, message)
                },
                None => if value.has_member("error") {
                    response(400, value)
                } else {
                    response(201, value)
                },
            }
        },
        Err(message) => error_response(
            500,
            joined("host returned invalid json: ", message.as_str()).as_str(),
        ),
    }
}

/// Answers the creation of a card with what the host returned.
pub fn create_card_response(out: &str) -> (text: String)
    ensures
        is_text_of(text@, create_reply(json_parse(out@))),
{
    create_card_result(Json::parse(out))
}

} // verus!
