//! What calls of the plugin return and do.

use crate::auth::{config_in_force, ApiConfig};
use crate::hashing::sha256_hex;
use crate::json::{json_parse, json_text, Json, Tree};
use crate::laws::endpoints::{
    law_body_field, law_empty_configuration, law_missing_project, law_refusals,
};
use crate::laws::store::{law_masked, law_seeded_set};
use crate::laws::terms::{
    are_granted, are_strangers, becomes, blank, caseless, challenge, failure, forbidden, hashes,
    masks, plain, shared, tells_missing_project, trims_to,
};
use crate::laws::texts::{law_capitals, law_hash, law_splitting, law_trimming};
use crate::managed::{seed, set_model, ManagedModel, ManagedSet};
use crate::minting::{id_of, minted_id, minted_secret, secret_of, Facts};
use crate::plugin::{
    field_str, guard, handle, host_reply, host_reply_tree, init, manifest, request_action, resume,
    resumed_action, saved, shutdown,
};
use crate::response::{
    cors_response, create_card_response, error_response, host_read_response, missing_project,
    ok_response, response, unauthorized,
};
use crate::routes::{routes, HttpRequest};
use crate::steps::{load_input, save_input, Action, After, HostFunction, Next, Step};
use crate::text::{
    eq_ignore_ascii_case, same_text, split_once, split_words, texts, to_ascii_uppercase, trim, words,
};
use vstd::prelude::*;

verus! {

/// Whether a text is that of a value: the one that the printer gives, which reads as the value again
/// unless it nests too deep or holds a fraction.
pub open spec fn prints(text: Seq<char>, tree: Tree) -> bool {
    text == json_text(tree) && (tree.fits(127) ==> json_parse(text) == Ok::<Tree, Seq<char>>(tree))
}

/// What ends a request is the text of its reply, or a call of the function that has the data, with
/// the input that says what is wanted.
pub proof fn law_ends(next: Next, tree: Tree)
    ensures
        next.performs(After::Reply(tree)) <==> (next matches Next::Reply(text) && prints(
            text@,
            tree,
        )),
        next.performs(After::ListProjects) <==> (next matches Next::Call(
            HostFunction::ListProjects,
            input,
        ) && input@ == "{}"@),
        next.performs(After::ListCards(tree)) <==> (next matches Next::Call(
            HostFunction::ListCards,
            input,
        ) && prints(input@, tree)),
        next.performs(After::CreateCard(tree)) <==> (next matches Next::Call(
            HostFunction::CreateCard,
            input,
        ) && prints(input@, tree)),
{
}

/// A step does what it stands for: it ends the request, asks for the setting, or has a managed set
/// kept and goes on.
pub proof fn law_steps(step: Step, after: After, set: Seq<ManagedModel>)
    ensures
        step.performs(Action::Now(after)) <==> (step matches Step::Now(next) && next.performs(after)),
        step.performs(Action::Load) <==> (step matches Step::Load(input) && prints(
            input@,
            load_input(),
        )),
        step.performs(Action::Seed(set, after)) <==> (step matches Step::Seed(input, next) && prints(
            input@,
            save_input(set),
        ) && next.performs(after)),
        step.performs(Action::Save(set, after)) <==> (step matches Step::Save(input, next) && prints(
            input@,
            save_input(set),
        ) && next.performs(after)),
{
}

/// What a request says is what its fields hold.
pub proof fn law_request_fields(request: HttpRequest)
    ensures
        request@.method == request.method@,
        request@.path == request.path@,
        request@.query == request.query@,
        request@.headers == request.headers@,
        request@.body == request.body@,
{
}

/// A call of `manifest` returns the hook, the routes and the panel of the plugin.
pub proof fn law_manifest_call(text: String)
    requires
        call_ensures(manifest, (), text),
    ensures
        prints(
            text@,
            Tree::Object(
                map![
                    "hooks"@ => Tree::Array(seq![Tree::Str("http.request.before"@)]),
                    "http_routes"@ => Tree::Array(
                        seq![
                            Tree::Str("GET /plugin-api/v1/health"@),
                            Tree::Str("GET /plugin-api/v1/projects"@),
                            Tree::Str("GET /plugin-api/v1/cards"@),
                            Tree::Str("POST /plugin-api/v1/cards"@),
                            Tree::Str("GET /plugin-api/v1/keys"@),
                            Tree::Str("POST /plugin-api/v1/keys"@),
                            Tree::Str("DELETE /plugin-api/v1/keys/:id"@),
                            Tree::Str("GET /plugin-api/v1/admin"@),
                            Tree::Str("GET /plugin-api/v1/admin.css"@),
                            Tree::Str("GET /plugin-api/v1/admin.js"@),
                            Tree::Str("OPTIONS /plugin-api/v1/*"@),
                        ],
                    ),
                    "ui_panels"@ => Tree::Array(
                        seq![
                            Tree::Object(
                                map![
                                    "id"@ => Tree::Str("api-keys"@),
                                    "title"@ => Tree::Str("API Keys"@),
                                    "path"@ => Tree::Str("/plugin-api/v1/admin"@)
                                ],
                            ),
                        ],
                    )
                ],
            ),
        ),
{
    let declared = Seq::new(11, |i: int| Tree::Str(routes()[i]));
    assert(declared =~= seq![
        Tree::Str("GET /plugin-api/v1/health"@),
        Tree::Str("GET /plugin-api/v1/projects"@),
        Tree::Str("GET /plugin-api/v1/cards"@),
        Tree::Str("POST /plugin-api/v1/cards"@),
        Tree::Str("GET /plugin-api/v1/keys"@),
        Tree::Str("POST /plugin-api/v1/keys"@),
        Tree::Str("DELETE /plugin-api/v1/keys/:id"@),
        Tree::Str("GET /plugin-api/v1/admin"@),
        Tree::Str("GET /plugin-api/v1/admin.css"@),
        Tree::Str("GET /plugin-api/v1/admin.js"@),
        Tree::Str("OPTIONS /plugin-api/v1/*"@),
    ]);
}

/// A call of `init` with a text that says anything stores the configuration that it parses to, all
/// of it, and reports how many keys that has. One that does not parse is reported, and what was
/// stored stays. A text that says nothing stores a configuration without keys.
pub proof fn law_init_call(
    stored: &mut Option<ApiConfig>,
    config: &str,
    parsed: Result<ApiConfig, String>,
    text: String,
)
    requires
        call_ensures(init, (stored, config, parsed), text),
    ensures
        ({
            let empty = blank(config@) || trims_to(config@, seq!['{', '}']);
            &&& !empty ==> match parsed {
                Ok(read) => *final(stored) == Some(read) && prints(
                    text@,
                    Tree::Object(
                        map![
                            "ok"@ => Tree::Bool(true),
                            "keys"@ => Tree::Int(read.keys@.len() as int)
                        ],
                    ),
                ),
                Err(message) => *final(stored) == *old(stored) && prints(
                    text@,
                    Tree::Object(
                        map![
                            "ok"@ => Tree::Bool(false),
                            "error"@ => Tree::Str("invalid plugin config: "@ + message@)
                        ],
                    ),
                ),
            }
            &&& empty ==> {
                &&& *final(stored) is Some
                &&& config_in_force(*final(stored)).keys.len() == 0
                &&& config_in_force(*final(stored)).bootstrap_admin_key is None
                &&& prints(
                    text@,
                    Tree::Object(map!["ok"@ => Tree::Bool(true), "keys"@ => Tree::Int(0)]),
                )
            }
        }),
{
    law_empty_configuration(config@);
}

/// A call of `handle` serves the requests that come through the hook of the plugin, refuses what is
/// no request, and skips every other hook.
pub proof fn law_handle_call(hook: &str, payload: &Result<HttpRequest, String>, step: Step)
    requires
        call_ensures(handle, (hook, payload), step),
    ensures
        hook@ != "http.request.before"@ ==> (step matches Step::Now(Next::Reply(text)) && prints(
            text@,
            Tree::Object(map!["verdict"@ => Tree::Str("skip"@)]),
        )),
        hook@ == "http.request.before"@ ==> match payload {
            Ok(request) => step.performs(request_action(request@)),
            Err(message) => step matches Step::Now(Next::Reply(text)) && prints(
                text@,
                failure(400, "malformed request: "@ + message@),
            ),
        },
{
}

/// A call of `resume` goes on with a request as the laws on the endpoints say, by the stored
/// configuration and what the host returned.
pub proof fn law_resume_call(
    stored: &Option<ApiConfig>,
    request: &HttpRequest,
    facts: &Option<Facts>,
    outcome: Result<String, String>,
    step: Step,
)
    requires
        call_ensures(resume, (stored, request, facts, outcome), step),
    ensures
        step.performs(
            resumed_action(
                config_in_force(*stored),
                match outcome {
                    Ok(out) => Ok(out@),
                    Err(message) => Err(message@),
                },
                request@,
                *facts,
            ),
        ),
{
}

/// A call of `saved` goes on where the host has saved, and ends with what went wrong where it has
/// not.
pub proof fn law_saved_call(next: Next, outcome: Result<String, String>, then: Next)
    requires
        call_ensures(saved, (next, outcome), then),
    ensures
        match outcome {
            Err(message) => then matches Next::Reply(text) && prints(
                text@,
                failure(500, "host error: "@ + message@),
            ),
            Ok(out) => match json_parse(out@) {
                Err(message) => then matches Next::Reply(text) && prints(
                    text@,
                    failure(500, "host returned invalid json: "@ + message),
                ),
                Ok(answer) => if answer.member("error"@) is Some {
                    then matches Next::Reply(text) && prints(
                        text@,
                        plain(500, answer),
                    )
                } else {
                    then == next
                },
            },
        },
{
}

/// A call of `host_reply` returns the text of what the client is to get.
pub proof fn law_host_reply_call(
    function: HostFunction,
    outcome: Result<String, String>,
    text: String,
)
    requires
        call_ensures(host_reply, (function, outcome), text),
    ensures
        prints(
            text@,
            host_reply_tree(
                function,
                match outcome {
                    Ok(out) => Ok(out@),
                    Err(message) => Err(message@),
                },
            ),
        ),
{
}

/// A call of `shutdown` returns an empty object.
pub proof fn law_shutdown_call(text: String)
    requires
        call_ensures(shutdown, (), text),
    ensures
        text@ == "{}"@,
{
}

/// A call of `guard` hands the request on just where its key grants the scope, whatever that is, and
/// else answers it.
pub proof fn law_guard_call<F: FnOnce(&HttpRequest) -> Step>(
    stored: &Option<ApiConfig>,
    loaded: &Option<ManagedSet>,
    request: &HttpRequest,
    scope: &str,
    handler: F,
    step: Step,
    scopes: Seq<Seq<char>>,
)
    requires
        call_ensures(guard::<F>, (stored, loaded, request, scope, handler), step),
    ensures
        ({
            let config = config_in_force(*stored);
            let set = set_model(*loaded);
            let headers = request.headers@;
            &&& are_strangers(config, set, headers) ==> (step matches Step::Now(Next::Reply(text))
                && prints(text@, challenge()))
            &&& are_granted(config, set, headers, scopes) && !scopes.contains(scope@) ==> (
            step matches Step::Now(Next::Reply(text)) && prints(text@, forbidden(scope@)))
            &&& are_granted(config, set, headers, scopes) && scopes.contains(scope@)
                ==> call_ensures(handler, (request,), step)
        }),
{
    law_refusals(config_in_force(*stored), set_model(*loaded), request@.headers, scopes, scope@);
}

/// Calls that make a reply return the text of the response with that status and body.
pub proof fn law_reply_calls(
    status: u16,
    body: Json,
    message: &str,
    one: String,
    two: String,
    three: String,
    four: String,
    five: String,
)
    requires
        call_ensures(response, (status, body), one),
        call_ensures(ok_response, (body,), two),
        call_ensures(error_response, (status, message), three),
        call_ensures(unauthorized, (), four),
        call_ensures(cors_response, (status, body), five),
    ensures
        prints(one@, plain(status as int, body@)),
        prints(two@, plain(200, body@)),
        prints(three@, failure(status as int, message@)),
        prints(four@, challenge()),
        prints(five@, shared(status as int, body@)),
{
}

/// Calls that turn what the host returned into a reply return the text of what the client is to get.
pub proof fn law_host_result_calls(out: &str, read: String, created: String, message: &str, is: bool)
    requires
        call_ensures(host_read_response, (out,), read),
        call_ensures(create_card_response, (out,), created),
        call_ensures(missing_project, (message,), is),
    ensures
        prints(read@, host_reply_tree(HostFunction::ListCards, Ok(out@))),
        prints(created@, host_reply_tree(HostFunction::CreateCard, Ok(out@))),
        is <==> tells_missing_project(message@),
{
    law_missing_project(message@);
}

/// Calls on text return what is left without white space, what is a capital, what stands around a
/// mark, and whether texts are the same.
pub proof fn law_text_calls(
    s: &str,
    t: &str,
    mark: char,
    trimmed: String,
    capitals: String,
    alike: bool,
    halves: Option<(String, String)>,
    list: Vec<String>,
    same: bool,
)
    requires
        call_ensures(trim, (s,), trimmed),
        call_ensures(to_ascii_uppercase, (s,), capitals),
        call_ensures(eq_ignore_ascii_case, (s, t), alike),
        call_ensures(split_once, (s, mark), halves),
        call_ensures(split_words, (s,), list),
        call_ensures(same_text, (s, t), same),
    ensures
        trims_to(s@, trimmed@),
        caseless(capitals@, s@),
        forall|i: int| 0 <= i < capitals@.len() ==> !('a' <= #[trigger] capitals@[i] <= 'z'),
        alike <==> caseless(s@, t@),
        match halves {
            Some((a, b)) => s@ == a@ + seq![mark] + b@ && !a@.contains(mark),
            None => !s@.contains(mark),
        },
        texts(list@) == words(s@),
        same <==> s@ == t@,
{
    law_trimming(s@, trimmed@);
    law_capitals(s@, t@);
    match halves {
        Some((a, b)) => law_splitting(s@, mark, a@, b@),
        None => law_splitting(s@, mark, s@, s@),
    }
}

/// Calls that make keys return what their parts say: the secret and the name of random bytes, the
/// mask and the hash of a secret, and the set that configured keys become.
pub proof fn law_key_calls(
    entropy: &[u8; 32],
    secret: &str,
    config: &ApiConfig,
    now: u64,
    minted: String,
    id: String,
    mask: String,
    hash: String,
    set: ManagedSet,
)
    requires
        call_ensures(minted_secret, (entropy,), minted),
        call_ensures(minted_id, (entropy,), id),
        call_ensures(crate::managed::mask, (secret,), mask),
        call_ensures(sha256_hex, (secret,), hash),
        call_ensures(seed, (config, now), set),
    ensures
        minted@ == secret_of(entropy@),
        id@ == id_of(entropy@),
        masks(secret@, mask@),
        hashes(secret@, hash@),
        becomes(config@.keys, now, set@),
{
    law_masked(secret@);
    law_hash(secret@, hash@);
    law_seeded_set(config@.keys, now);
}

/// A call of `field_str` returns a string of a body without the white space around it, and nothing
/// where there is none.
pub proof fn law_field_call(body: &Json, name: &str, field: String)
    requires
        call_ensures(field_str, (body, name), field),
    ensures
        body@.member(name@) matches Some(Tree::Str(s)) ==> trims_to(s, field@),
        !(body@.member(name@) matches Some(Tree::Str(_))) ==> field@.len() == 0,
{
    law_body_field(body@, name@, field@);
}

} // verus!
