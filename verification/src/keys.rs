//! The endpoints that manage keys.

use crate::auth::{is_known_scope, SCOPE_ADMIN, SCOPE_READ, SCOPE_WRITE};
use crate::hashing::{hash_of, sha256_hex};
use crate::json::{array, json_parse, string, Json, Members, Tree};
use crate::managed::{
    has_key_id, label_of, masked, mask, read_label, read_strings, shown_members, string_list,
    without_id, ManagedKey, ManagedModel, ManagedSet,
};
use crate::minting::{id_of, minted_id, minted_secret, secret_of, Facts};
use crate::response::{
    cors_error_reply, cors_error_response, cors_reply, cors_response, parsed_tree, singleton,
};
use crate::routes::{key_id, key_id_of, HttpRequest};
use crate::steps::{reply_step, save_step, Action, After, Next, Step};
use crate::text::{joined, same_text, texts, trim, trimmed};
use vstd::prelude::*;

verus! {

/// The body of the list of keys: what may be shown of each.
pub open spec fn key_list(set: Seq<ManagedModel>) -> Tree {
    singleton(
        "keys"@,
        Tree::Array(Seq::new(set.len(), |i: int| Tree::Object(shown_members(set[i])))),
    )
}

/// What a request for a new key asks for.
pub struct Wanted {
    pub label: Option<Seq<char>>,
    pub scopes: Seq<Seq<char>>,
}

/// The first of the scopes that is not one of those there are.
pub open spec fn unknown_scope(scopes: Seq<Seq<char>>) -> Option<Seq<char>>
    decreases scopes.len(),
{
    if scopes.len() == 0 {
        None
    } else if !is_known_scope(scopes[0]) {
        Some(scopes[0])
    } else {
        unknown_scope(scopes.drop_first())
    }
}

/// What a body asks for, or why it is refused: it is to be an object with one known scope or more,
/// and its label a string if it has one.
pub open spec fn wanted_key(parsed: Result<Tree, Seq<char>>) -> Result<Wanted, Seq<char>> {
    match parsed {
        Ok(body) => if !(body is Object) {
            Err("request body must be a JSON object"@)
        } else {
            match (
                label_of(body.member("label"@)),
                match body.member("scopes"@) {
                    Some(scopes) => string_list(scopes),
                    None => None,
                },
            ) {
                (None, _) => Err("label must be a string"@),
                (_, None) => Err("scopes must be a list of strings"@),
                (Some(label), Some(scopes)) => if scopes.len() == 0 {
                    Err("at least one scope is required"@)
                } else {
                    match unknown_scope(scopes) {
                        Some(scope) => Err("unknown scope '"@ + scope + "'"@),
                        None => Ok(Wanted { label, scopes }),
                    }
                },
            }
        },
        Err(message) => Err("invalid JSON body: "@ + message),
    }
}

/// The key that is made for a request.
pub open spec fn new_key(wanted: Wanted, facts: Facts) -> ManagedModel {
    ManagedModel {
        id: id_of(facts.entropy@),
        label: wanted.label,
        scopes: wanted.scopes,
        created: facts.now,
        masked: masked(secret_of(facts.entropy@)),
        hash: hash_of(secret_of(facts.entropy@)),
    }
}

/// The body that tells of a new key: what may be shown of it, and this once its secret.
pub open spec fn new_key_body(key: ManagedModel, secret: Seq<char>) -> Tree {
    Tree::Object(shown_members(key).insert("key"@, Tree::Str(secret)))
}

/// What is to be done about a new key whose secret is `secret`: it is added to the others, unless one
/// of them has its name.
pub open spec fn admit_action(
    set: Seq<ManagedModel>,
    key: ManagedModel,
    secret: Seq<char>,
) -> Action {
    if has_key_id(set, key.id) {
        Action::Now(After::Reply(cors_error_reply(500, "key id is taken"@)))
    } else {
        Action::Save(set.push(key), After::Reply(cors_reply(201, new_key_body(key, secret))))
    }
}

/// What is to be done about a body that a key is to be made of. Without random bytes and the time no
/// key can be made.
pub open spec fn mint_action(
    set: Seq<ManagedModel>,
    parsed: Result<Tree, Seq<char>>,
    facts: Option<Facts>,
) -> Action {
    match (wanted_key(parsed), facts) {
        (Ok(wanted), Some(facts)) => admit_action(
            set,
            new_key(wanted, facts),
            secret_of(facts.entropy@),
        ),
        (Ok(_), None) => Action::Now(
            After::Reply(cors_error_reply(500, "no random bytes or time"@)),
        ),
        (Err(message), _) => Action::Now(After::Reply(cors_error_reply(400, message))),
    }
}

/// What is to be done about the path of a key that is to be revoked.
pub open spec fn revoke_action(set: Seq<ManagedModel>, path: Seq<char>) -> Action {
    match key_id(path) {
        Some(id) => if has_key_id(set, id) {
            Action::Save(
                without_id(set, id),
                After::Reply(cors_reply(200, singleton("deleted"@, Tree::Str(id)))),
            )
        } else {
            Action::Now(After::Reply(cors_error_reply(404, "no key has that id"@)))
        },
        None => Action::Now(After::Reply(cors_error_reply(404, "no key has that id"@))),
    }
}

/// Lists the keys. Secrets and hashes are not shown.
pub fn list_keys(set: &ManagedSet) -> (step: Step)
    ensures
        step.performs(Action::Now(After::Reply(cors_reply(200, key_list(set@))))),
{
    let mut items: Vec<Json> = Vec::new();
    for i in 0..set.keys.len()
        invariant
            items@.len() == i,
            forall|j: int|
                0 <= j < i ==> (#[trigger] items@[j])@ == Tree::Object(shown_members(set@[j])),
    {
        items.push(set.keys[i].shown().object());
    }
    let items = array(items);
    assert(items@->Array_0 =~= key_list(set@)->Object_0["keys"@]->Array_0);
    reply_step(cors_response(200, Members::new().with("keys", items).object()))
}

/// The first of the scopes that is not one of those there are.
fn find_unknown(scopes: &Vec<String>) -> (unknown: Option<usize>)
    ensures
        match unknown {
            Some(i) => i < scopes@.len() && unknown_scope(texts(scopes@)) == Some(scopes@[i as int]@),
            None => unknown_scope(texts(scopes@)) is None,
        },
{
    let ghost all = texts(scopes@);
    assert(all.skip(0) == all);
    for i in 0..scopes.len()
        invariant
            all == texts(scopes@),
            unknown_scope(all) == unknown_scope(all.skip(i as int)),
    {
        assert(all.skip(i as int).drop_first() == all.skip(i + 1));
        assert(all.skip(i as int)[0] == scopes@[i as int]@);
        let scope = scopes[i].as_str();
        if !same_text(scope, SCOPE_READ) && !same_text(scope, SCOPE_WRITE) && !same_text(
            scope,
            SCOPE_ADMIN,
        ) {
            return Some(i);
        }
    }
    None
}

/// Makes a key from the body of the request.
pub fn create_key(set: &ManagedSet, request: &HttpRequest, facts: &Option<Facts>) -> (step: Step)
    ensures
        step.performs(mint_action(set@, json_parse(trimmed(request@.body)), *facts)),
{
    create_key_from(set, Json::parse(trim(request.body.as_str()).as_str()), facts)
}

/// Makes a key from a body, once parsed. The secret is told this once, and only its hash is kept.
pub fn create_key_from(
    set: &ManagedSet,
    parsed: Result<Json, String>,
    facts: &Option<Facts>,
) -> (step: Step)
    ensures
        step.performs(mint_action(set@, parsed_tree(parsed), *facts)),
{
    let body = match parsed {
        Ok(body) => body,
        Err(message) => {
            return reply_step(
                cors_error_response(400, joined("invalid JSON body: ", message.as_str()).as_str()),
            );
        },
    };
    if !body.is_object() {
        return reply_step(cors_error_response(400, "request body must be a JSON object"));
    }
    let label = match read_label(body.as_ref().member("label")) {
        Some(label) => label,
        None => {
            return reply_step(cors_error_response(400, "label must be a string"));
        },
    };
    let scopes = match body.as_ref().member("scopes") {
        Some(member) => read_strings(member),
        None => None,
    };
    let scopes = match scopes {
        Some(scopes) => scopes,
        None => {
            return reply_step(cors_error_response(400, "scopes must be a list of strings"));
        },
    };
    if scopes.len() == 0 {
        return reply_step(cors_error_response(400, "at least one scope is required"));
    }
    if let Some(i) = find_unknown(&scopes) {
        let message = joined(joined("unknown scope '", scopes[i].as_str()).as_str(), "'");
        return reply_step(cors_error_response(400, message.as_str()));
    }
    let facts = match facts {
        Some(facts) => facts,
        None => {
            return reply_step(cors_error_response(500, "no random bytes or time"));
        },
    };
    let secret = minted_secret(&facts.entropy);
    let key = ManagedKey {
        id: minted_id(&facts.entropy),
        label,
        scopes,
        created: facts.now,
        masked: mask(secret.as_str()),
        hash: sha256_hex(secret.as_str()),
    };
    admit_key(set, key, secret.as_str())
}

/// Adds a new key to the others. Its secret is told this once.
pub fn admit_key(set: &ManagedSet, key: ManagedKey, secret: &str) -> (step: Step)
    ensures
        step.performs(admit_action(set@, key@, secret@)),
{
    if set.has_id(key.id.as_str()) {
        return reply_step(cors_error_response(500, "key id is taken"));
    }
    let ghost model = key@;
    let told = key.shown().with("key", string(secret)).object();
    let mut larger = set.copy();
    larger.keys.push(key);
    assert(larger@ =~= set@.push(model));
    save_step(&larger, Next::Reply(cors_response(201, told)))
}

/// Revokes the key that the path names.
pub fn delete_key(set: &ManagedSet, request: &HttpRequest) -> (step: Step)
    ensures
        step.performs(revoke_action(set@, request@.path)),
{
    let id = match key_id_of(request.path.as_str()) {
        Some(id) => id,
        None => {
            return reply_step(cors_error_response(404, "no key has that id"));
        },
    };
    if !set.has_id(id.as_str()) {
        return reply_step(cors_error_response(404, "no key has that id"));
    }
    let body = Members::new().with("deleted", string(id.as_str())).object();
    save_step(&set.without(id.as_str()), Next::Reply(cors_response(200, body)))
}

} // verus!
