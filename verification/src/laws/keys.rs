//! What managing keys comes to.

use crate::auth::{granted, is_known_scope, key_presented, ConfigModel, KeyModel};
use crate::hashing::{hash_of, hex};
use crate::json::{json_parse, Tree, MAX_LEVELS};
use crate::keys::{
    key_list, mint_action, new_key, new_key_body, revoke_action, unknown_scope, wanted_key, Wanted,
};
use crate::laws::access::{is_known, law_known_keys_authenticate, lemma_same_hex};
use crate::laws::replies::{law_key_reply_answers, payload_member};
use crate::managed::{
    decimal, has_key_id, kept_tree, key_of_tree, label_tree, masked, seeded_set, set_of_tree,
    set_tree, shown_members, strings_of, strings_tree, without_id, ManagedModel,
};
use crate::minting::{id_of, secret_of, Facts};
use crate::plugin::{refusal, setting_of};
use crate::response::{cors_error_reply, cors_reply, is_text_of, singleton, unauthorized_reply};
use crate::routes::{key_id, route_of, Route, KEY_PREFIX};
use crate::steps::{save_input, Action, After};
use crate::text::ascii_uppercase;
use vstd::prelude::*;

verus! {

/// Whether no two keys of a set have one name.
pub open spec fn distinct_ids(set: Seq<ManagedModel>) -> bool {
    forall|i: int, j: int|
        0 <= i < j < set.len() ==> (#[trigger] set[i]).id != (#[trigger] set[j]).id
}

/// Whether a character is a hexadecimal digit in small letters.
pub open spec fn is_hex_digit(c: char) -> bool {
    '0' <= c <= '9' || 'a' <= c <= 'f'
}

/// The secret of a new key is `pba_` and forty-eight hexadecimal digits.
pub proof fn law_secret_has_its_shape(entropy: Seq<u8>)
    requires
        entropy.len() == 32,
    ensures
        secret_of(entropy).len() == 52,
        secret_of(entropy).subrange(0, 4) == "pba_"@,
        forall|i: int| 4 <= i < 52 ==> is_hex_digit(#[trigger] secret_of(entropy)[i]),
{
    reveal_strlit("pba_");
    assert("pba_"@.len() == 4);
    let digits = hex(entropy.subrange(0, 24));
    assert(digits.len() == 48);
    assert(secret_of(entropy).subrange(0, 4) =~= "pba_"@);
    assert forall|i: int| 4 <= i < 52 implies is_hex_digit(#[trigger] secret_of(entropy)[i]) by {
        assert(secret_of(entropy)[i] == digits[i - 4]);
    }
}

/// Different random bytes make different secrets.
pub proof fn law_secrets_differ(entropy: Seq<u8>, other: Seq<u8>)
    requires
        entropy.len() == 32,
        other.len() == 32,
        entropy.subrange(0, 24) != other.subrange(0, 24),
    ensures
        secret_of(entropy) != secret_of(other),
{
    let a = entropy.subrange(0, 24);
    let b = other.subrange(0, 24);
    if secret_of(entropy) == secret_of(other) {
        let start = "pba_"@.len() as int;
        assert(hex(a) =~= secret_of(entropy).subrange(start, start + 48));
        assert(hex(b) =~= secret_of(other).subrange(start, start + 48));
        lemma_same_hex(a, b);
    }
}

/// The prefix that may be shown of a secret is eight characters of it at most, and never more than
/// a quarter.
pub proof fn law_mask_shows_little(secret: Seq<char>)
    ensures
        masked(secret).len() >= 1,
        masked(secret).len() - 1 <= 8,
        4 * (masked(secret).len() - 1) <= secret.len(),
        forall|other: Seq<char>|
            other.len() == secret.len() && other.subrange(0, masked(secret).len() - 1)
                == secret.subrange(0, masked(secret).len() - 1) ==> #[trigger] masked(other)
                == masked(secret),
{
    reveal_strlit("\u{2026}");
    assert("\u{2026}"@.len() == 1);
}

/// Whether a name is that of a member that is shown of every key.
pub open spec fn is_shown(name: Seq<char>) -> bool {
    ||| name == "id"@
    ||| name == "label"@
    ||| name == "scopes"@
    ||| name == "created"@
    ||| name == "masked"@
}

pub(crate) proof fn lemma_key_names()
    ensures
        "id"@ != "label"@,
        "id"@ != "scopes"@,
        "id"@ != "created"@,
        "id"@ != "masked"@,
        "id"@ != "hash"@,
        "id"@ != "key"@,
        "label"@ != "scopes"@,
        "label"@ != "created"@,
        "label"@ != "masked"@,
        "label"@ != "hash"@,
        "label"@ != "key"@,
        "scopes"@ != "created"@,
        "scopes"@ != "masked"@,
        "scopes"@ != "hash"@,
        "scopes"@ != "key"@,
        "created"@ != "masked"@,
        "created"@ != "hash"@,
        "created"@ != "key"@,
        "masked"@ != "hash"@,
        "masked"@ != "key"@,
        "hash"@ != "key"@,
{
    reveal_strlit("id");
    reveal_strlit("label");
    reveal_strlit("scopes");
    reveal_strlit("created");
    reveal_strlit("masked");
    reveal_strlit("hash");
    reveal_strlit("key");
    assert("id"@.len() == 2);
    assert("label"@.len() == 5);
    assert("scopes"@.len() == 6);
    assert("created"@.len() == 7);
    assert("masked"@.len() == 6);
    assert("hash"@.len() == 4);
    assert("key"@.len() == 3);
    assert("scopes"@[0] != "masked"@[0]);
}

/// The list of keys shows of each its name, its label, its scopes, when it was created and its
/// mask, and no other member: neither a secret nor a hash.
pub proof fn law_key_list_shows_no_secret(set: Seq<ManagedModel>, i: int, name: Seq<char>)
    requires
        0 <= i < set.len(),
    ensures
        key_list(set).member("keys"@) matches Some(Tree::Array(items)) && items.len() == set.len()
            && {
            &&& items[i].member(name) is Some <==> is_shown(name)
            &&& items[i].member("id"@) == Some(Tree::Str(set[i].id))
            &&& items[i].member("label"@) == Some(label_tree(set[i].label))
            &&& items[i].member("scopes"@) == Some(strings_tree(set[i].scopes))
            &&& items[i].member("created"@) == Some(Tree::Int(set[i].created as int))
            &&& items[i].member("masked"@) == Some(Tree::Str(set[i].masked))
        },
        !is_shown("key"@),
        !is_shown("hash"@),
{
    lemma_key_names();
}

/// The answer to the request that a key was made for shows what the list shows of it, and its
/// secret.
pub proof fn law_secret_is_told_to_its_maker(key: ManagedModel, secret: Seq<char>, name: Seq<char>)
    ensures
        new_key_body(key, secret).member("key"@) == Some(Tree::Str(secret)),
        name != "key"@ ==> new_key_body(key, secret).member(name) == Tree::Object(
            shown_members(key),
        ).member(name),
{
}

/// A new key grants at least one scope, and none that is unknown.
pub proof fn law_new_key_has_known_scopes(parsed: Result<Tree, Seq<char>>)
    requires
        wanted_key(parsed) is Ok,
    ensures
        wanted_key(parsed)->Ok_0.scopes.len() > 0,
        forall|i: int|
            0 <= i < wanted_key(parsed)->Ok_0.scopes.len() ==> is_known_scope(
                #[trigger] wanted_key(parsed)->Ok_0.scopes[i],
            ),
{
    lemma_all_known(wanted_key(parsed)->Ok_0.scopes);
}

proof fn lemma_all_known(scopes: Seq<Seq<char>>)
    requires
        unknown_scope(scopes) is None,
    ensures
        forall|i: int| 0 <= i < scopes.len() ==> is_known_scope(#[trigger] scopes[i]),
    decreases scopes.len(),
{
    if scopes.len() > 0 {
        lemma_all_known(scopes.drop_first());
        assert forall|i: int| 0 <= i < scopes.len() implies is_known_scope(#[trigger] scopes[i]) by {
            if i > 0 {
                assert(scopes[i] == scopes.drop_first()[i - 1]);
            }
        }
    }
}

/// A request for a key that asks for a scope that is unknown is a 400, and changes nothing.
pub proof fn law_unknown_scope_is_refused(
    set: Seq<ManagedModel>,
    parsed: Result<Tree, Seq<char>>,
    facts: Option<Facts>,
    i: int,
)
    requires
        parsed matches Ok(body) && body.member("scopes"@) matches Some(Tree::Array(items)) && 0 <= i
            < items.len() && (items[i] matches Tree::Str(scope) ==> !is_known_scope(scope)),
    ensures
        exists|message: Seq<char>|
            mint_action(set, parsed, facts) == Action::Now(
                After::Reply(#[trigger] cors_error_reply(400, message)),
            ),
{
    let items = parsed->Ok_0.member("scopes"@)->0->Array_0;
    if let Some(scopes) = strings_of(items) {
        lemma_strings_of_items(items);
        if unknown_scope(scopes) is None {
            lemma_all_known(scopes);
            assert(is_known_scope(scopes[i]));
        }
    }
    assert(wanted_key(parsed) is Err);
    assert(mint_action(set, parsed, facts) == Action::Now(
        After::Reply(cors_error_reply(400, wanted_key(parsed)->Err_0)),
    ));
}

proof fn lemma_strings_of_items(items: Seq<Tree>)
    requires
        strings_of(items) is Some,
    ensures
        strings_of(items)->0.len() == items.len(),
        forall|i: int|
            0 <= i < items.len() ==> #[trigger] items[i] == Tree::Str(strings_of(items)->0[i]),
    decreases items.len(),
{
    if items.len() > 0 {
        lemma_strings_of_items(items.drop_last());
        assert forall|i: int| 0 <= i < items.len() implies #[trigger] items[i] == Tree::Str(
            strings_of(items)->0[i],
        ) by {
            if i < items.len() - 1 {
                assert(items.drop_last()[i] == items[i]);
            }
        }
    }
}

/// Once it has been saved, whoever presents the secret that was told of a new key has the scopes that
/// were asked for.
pub proof fn law_told_secret_authenticates(
    config: ConfigModel,
    set: Seq<ManagedModel>,
    parsed: Result<Tree, Seq<char>>,
    facts: Facts,
    headers: Map<Seq<char>, Seq<char>>,
)
    requires
        mint_action(set, parsed, Some(facts)) is Save,
        mint_action(set, parsed, Some(facts))->Save_1 matches After::Reply(verdict)
            && payload_member(verdict, "body"@) matches Some(body) && key_presented(headers)
            == body.str_member("key"@),
        config.bootstrap_admin_key != key_presented(headers),
    ensures
        key_presented(headers) == Some(secret_of(facts.entropy@)),
        granted(config, Some(mint_action(set, parsed, Some(facts))->Save_0), headers) == Some(
            wanted_key(parsed)->Ok_0.scopes,
        ),
{
    let key = new_key(wanted_key(parsed)->Ok_0, facts);
    let body = new_key_body(key, secret_of(facts.entropy@));
    law_key_reply_answers(201, body);
    law_secret_is_told_to_its_maker(key, secret_of(facts.entropy@), "key"@);
    assert(set.push(key).last() == key);
}

/// A new key takes nothing from those there are: every other key grants what it did, unless it has
/// the hash of the new one.
pub proof fn law_new_key_leaves_the_others(
    config: ConfigModel,
    set: Seq<ManagedModel>,
    parsed: Result<Tree, Seq<char>>,
    facts: Facts,
    headers: Map<Seq<char>, Seq<char>>,
)
    requires
        mint_action(set, parsed, Some(facts)) is Save,
        key_presented(headers) matches Some(secret) ==> hash_of(secret) != hash_of(
            secret_of(facts.entropy@),
        ),
    ensures
        granted(config, Some(mint_action(set, parsed, Some(facts))->Save_0), headers) == granted(
            config,
            Some(set),
            headers,
        ),
{
    let key = new_key(wanted_key(parsed)->Ok_0, facts);
    assert(set.push(key).drop_last() == set);
}

/// What is kept of a new key is not its secret: of the members that the host is given, none but the
/// label, which the client chose before there was a secret, can be that text.
pub proof fn law_new_secret_is_not_kept(wanted: Wanted, facts: Facts, name: Seq<char>)
    requires
        name != "label"@,
    ensures
        kept_tree(new_key(wanted, facts)).member(name) != Some(
            Tree::Str(secret_of(facts.entropy@)),
        ),
        kept_tree(new_key(wanted, facts)).member("hash"@) == Some(
            Tree::Str(hash_of(secret_of(facts.entropy@))),
        ),
{
    lemma_key_names();
    let entropy = facts.entropy@;
    let secret = secret_of(entropy);
    law_secret_has_its_shape(entropy);
    law_mask_shows_little(secret);
    reveal_strlit("pba_");
    assert("pba_"@[0] == 'p');
    assert(secret[0] == 'p');
    assert(id_of(entropy).len() == 16);
    let hash = hash_of(secret);
    if hash == secret {
        assert(is_hex_digit(hash[0]));
    }
}

/// What is kept of the configured keys depends on their secrets through the hashes and the masks
/// alone.
pub proof fn law_kept_set_holds_no_secrets(keys: Seq<KeyModel>, others: Seq<KeyModel>, now: u64)
    requires
        keys.len() == others.len(),
        forall|i: int|
            0 <= i < keys.len() ==> {
                &&& (#[trigger] keys[i]).scopes == others[i].scopes
                &&& keys[i].label == others[i].label
                &&& hash_of(keys[i].key) == hash_of(others[i].key)
                &&& masked(keys[i].key) == masked(others[i].key)
            },
    ensures
        save_input(seeded_set(keys, now)) == save_input(seeded_set(others, now)),
{
    let set = seeded_set(keys, now);
    let other = seeded_set(others, now);
    assert forall|i: int| 0 <= i < set.len() implies set[i] == other[i] by {
        assert(keys[i].scopes == others[i].scopes);
    }
    assert(set =~= other);
}

/// The path of a new key names it.
proof fn lemma_new_key_path(entropy: Seq<u8>)
    requires
        entropy.len() == 32,
    ensures
        key_id(KEY_PREFIX@ + id_of(entropy)) == Some(id_of(entropy)),
{
    let id = id_of(entropy);
    let path = KEY_PREFIX@ + id;
    assert(id.len() == 16);
    assert(path.subrange(0, KEY_PREFIX@.len() as int) =~= KEY_PREFIX@);
    assert(path.subrange(KEY_PREFIX@.len() as int, path.len() as int) =~= id);
    if id.contains('/') {
        let i = choose|i: int| 0 <= i < id.len() && id[i] == '/';
        assert(is_hex_digit(id[i]));
    }
}

/// A key that is made and then revoked leaves the managed set as it was. Its revocation is answered
/// with its name, its secret is unauthorized from then on, unless it was known before, and revoking
/// it again is a 404.
pub proof fn law_new_key_can_be_revoked(
    config: ConfigModel,
    set: Seq<ManagedModel>,
    parsed: Result<Tree, Seq<char>>,
    facts: Facts,
    headers: Map<Seq<char>, Seq<char>>,
    scope: Seq<char>,
)
    requires
        mint_action(set, parsed, Some(facts)) is Save,
        key_presented(headers) == Some(secret_of(facts.entropy@)),
        !is_known(config, Some(set), secret_of(facts.entropy@)),
    ensures
        ({
            let larger = mint_action(set, parsed, Some(facts))->Save_0;
            let id = id_of(facts.entropy@);
            let path = KEY_PREFIX@ + id;
            &&& route_of("DELETE"@, path) == Route::DeleteKey
            &&& revoke_action(larger, path) == Action::Save(
                set,
                After::Reply(cors_reply(200, singleton("deleted"@, Tree::Str(id)))),
            )
            &&& refusal(config, Some(set), headers, scope) == Some(unauthorized_reply())
            &&& revoke_action(set, path) == Action::Now(
                After::Reply(cors_error_reply(404, "no key has that id"@)),
            )
        }),
{
    let key = new_key(wanted_key(parsed)->Ok_0, facts);
    let larger = set.push(key);
    let id = key.id;
    lemma_new_key_path(facts.entropy@);
    assert(larger.drop_last() =~= set);
    assert(larger.last() == key);
    lemma_without_absent(set, id);
    assert(without_id(larger, id) == set);
    assert(larger[set.len() as int].id == id);
    law_known_keys_authenticate(config, Some(set), headers);
    reveal_strlit("DELETE");
    reveal_strlit("GET");
    reveal_strlit("POST");
    assert("DELETE"@.len() == 6 && "GET"@.len() == 3 && "POST"@.len() == 4);
    assert(ascii_uppercase("DELETE"@) =~= "DELETE"@);
}

/// Where no key has a name, revoking it takes nothing away.
proof fn lemma_without_absent(set: Seq<ManagedModel>, id: Seq<char>)
    requires
        !has_key_id(set, id),
    ensures
        without_id(set, id) == set,
    decreases set.len(),
{
    if set.len() > 0 {
        let before = set.drop_last();
        assert(set[set.len() - 1].id != id);
        assert forall|i: int| 0 <= i < before.len() implies (#[trigger] before[i]).id != id by {
            assert(set[i].id != id);
        }
        lemma_without_absent(before, id);
        assert(before.push(set.last()) =~= set);
    } else {
        assert(set =~= seq![]);
    }
}

/// What is left when the keys of a name are gone are the others.
proof fn lemma_without(set: Seq<ManagedModel>, id: Seq<char>)
    ensures
        without_id(set, id).len() <= set.len(),
        forall|i: int| 0 <= i < without_id(set, id).len() ==> (#[trigger] without_id(set, id)[i]).id != id,
        forall|i: int|
            0 <= i < without_id(set, id).len() ==> set.contains(#[trigger] without_id(set, id)[i]),
        forall|i: int|
            0 <= i < set.len() && (#[trigger] set[i]).id != id ==> without_id(set, id).contains(set[i]),
    decreases set.len(),
{
    if set.len() > 0 {
        let before = set.drop_last();
        let rest = without_id(before, id);
        lemma_without(before, id);
        assert forall|i: int| 0 <= i < without_id(set, id).len() implies set.contains(
            #[trigger] without_id(set, id)[i],
        ) by {
            if i < rest.len() {
                assert(without_id(set, id)[i] == rest[i]);
                assert(before.contains(rest[i]));
                let j = choose|j: int| 0 <= j < before.len() && before[j] == rest[i];
                assert(set[j] == rest[i]);
            } else {
                assert(set[set.len() - 1] == without_id(set, id)[i]);
            }
        }
        assert forall|i: int| 0 <= i < set.len() && (#[trigger] set[i]).id != id implies without_id(
            set,
            id,
        ).contains(set[i]) by {
            if i < before.len() {
                assert(before[i] == set[i]);
                assert(rest.contains(set[i]));
                let j = choose|j: int| 0 <= j < rest.len() && rest[j] == set[i];
                assert(without_id(set, id)[j] == set[i]);
            } else {
                assert(without_id(set, id)[rest.len() as int] == set[i]);
            }
        }
    }
}

/// Revoking takes away the keys of that name, and no other.
pub proof fn law_revoked_key_is_gone(set: Seq<ManagedModel>, id: Seq<char>, key: ManagedModel)
    ensures
        !has_key_id(without_id(set, id), id),
        key.id != id ==> (without_id(set, id).contains(key) <==> set.contains(key)),
{
    lemma_without(set, id);
    let rest = without_id(set, id);
    if rest.contains(key) {
        let i = choose|i: int| 0 <= i < rest.len() && rest[i] == key;
        assert(set.contains(rest[i]));
    }
    if set.contains(key) && key.id != id {
        let i = choose|i: int| 0 <= i < set.len() && set[i] == key;
        assert(rest.contains(set[i]));
    }
}

/// A key that has been revoked cannot be revoked again: that is a 404, as for a name that no key
/// ever had, and changes nothing.
pub proof fn law_revoking_twice_is_not_found(set: Seq<ManagedModel>, path: Seq<char>)
    requires
        revoke_action(set, path) is Save,
    ensures
        revoke_action(revoke_action(set, path)->Save_0, path) == Action::Now(
            After::Reply(cors_error_reply(404, "no key has that id"@)),
        ),
{
    law_revoked_key_is_gone(set, key_id(path)->0, set[0]);
}

/// A revoked key is unauthorized from then on, unless another key has its hash or it is the bootstrap
/// secret.
pub proof fn law_revoked_key_is_unauthorized(
    config: ConfigModel,
    set: Seq<ManagedModel>,
    id: Seq<char>,
    headers: Map<Seq<char>, Seq<char>>,
    secret: Seq<char>,
    scope: Seq<char>,
)
    requires
        key_presented(headers) == Some(secret),
        forall|i: int|
            0 <= i < set.len() && (#[trigger] set[i]).hash == hash_of(secret) ==> set[i].id == id,
        config.bootstrap_admin_key != Some(secret),
    ensures
        refusal(config, Some(without_id(set, id)), headers, scope) == Some(unauthorized_reply()),
{
    let rest = without_id(set, id);
    lemma_without(set, id);
    law_known_keys_authenticate(config, Some(rest), headers);
    if is_known(config, Some(rest), secret) {
        let i = choose|i: int| 0 <= i < rest.len() && (#[trigger] rest[i]).hash == hash_of(secret);
        assert(set.contains(rest[i]));
        let j = choose|j: int| 0 <= j < set.len() && set[j] == rest[i];
        assert(set[j].hash == hash_of(secret));
    }
}

/// The digits of different numbers differ.
proof fn lemma_decimal_differs(a: nat, b: nat)
    requires
        decimal(a) == decimal(b),
    ensures
        a == b,
    decreases a,
{
    lemma_decimal_len(a);
    lemma_decimal_len(b);
    assert(decimal(a).last() == decimal(b).last());
    if a >= 10 && b >= 10 {
        assert(decimal(a).drop_last() =~= decimal(a / 10));
        assert(decimal(b).drop_last() =~= decimal(b / 10));
        lemma_decimal_differs(a / 10, b / 10);
    }
}

proof fn lemma_decimal_len(n: nat)
    ensures
        n < 10 ==> decimal(n).len() == 1,
        n >= 10 ==> decimal(n).len() >= 2,
        decimal(n).last() == ((48 + n % 10) as u8) as char,
    decreases n,
{
    if n >= 10 {
        lemma_decimal_len(n / 10);
    }
}

/// The managed set that the configured keys become names each key differently.
pub proof fn law_seeded_ids_are_distinct(keys: Seq<KeyModel>, now: u64)
    ensures
        distinct_ids(seeded_set(keys, now)),
{
    let set = seeded_set(keys, now);
    assert forall|i: int, j: int| 0 <= i < j < set.len() implies (#[trigger] set[i]).id != (
    #[trigger] set[j]).id by {
        if set[i].id == set[j].id {
            let start = "config-"@.len() as int;
            let a = decimal((i + 1) as nat);
            let b = decimal((j + 1) as nat);
            assert(set[i].id == "config-"@ + a);
            assert(set[j].id == "config-"@ + b);
            assert(a =~= set[i].id.subrange(start, set[i].id.len() as int));
            assert(b =~= set[j].id.subrange(start, set[j].id.len() as int));
            lemma_decimal_differs((i + 1) as nat, (j + 1) as nat);
        }
    }
}

/// Creating a key and revoking one keep the names of the keys distinct, so that a name revokes one
/// key.
pub proof fn law_ids_stay_distinct(
    set: Seq<ManagedModel>,
    parsed: Result<Tree, Seq<char>>,
    facts: Option<Facts>,
    path: Seq<char>,
)
    requires
        distinct_ids(set),
    ensures
        mint_action(set, parsed, facts) matches Action::Save(larger, _) ==> distinct_ids(larger)
            && larger.len() == set.len() + 1,
        revoke_action(set, path) matches Action::Save(smaller, _) ==> distinct_ids(smaller)
            && smaller.len() == set.len() - 1,
{
    if let Action::Save(larger, _) = mint_action(set, parsed, facts) {
        let key = new_key(wanted_key(parsed)->Ok_0, facts->0);
        assert(larger == set.push(key));
        assert forall|i: int, j: int| 0 <= i < j < larger.len() implies (#[trigger] larger[i]).id != (
        #[trigger] larger[j]).id by {
            assert(larger[i] == set[i]);
            if j < set.len() {
                assert(larger[j] == set[j]);
            } else {
                assert(set[i].id != key.id);
            }
        }
    }
    if revoke_action(set, path) is Save {
        lemma_without_distinct(set, key_id(path)->0);
    }
}

proof fn lemma_without_distinct(set: Seq<ManagedModel>, id: Seq<char>)
    requires
        distinct_ids(set),
    ensures
        distinct_ids(without_id(set, id)),
        has_key_id(set, id) ==> without_id(set, id).len() == set.len() - 1,
        !has_key_id(set, id) ==> without_id(set, id) == set,
    decreases set.len(),
{
    if set.len() > 0 {
        let before = set.drop_last();
        let rest = without_id(before, id);
        assert forall|i: int, j: int| 0 <= i < j < before.len() implies (#[trigger] before[i]).id != (
        #[trigger] before[j]).id by {
            assert(before[i] == set[i] && before[j] == set[j]);
        }
        lemma_without_distinct(before, id);
        lemma_without(before, id);
        if set.last().id == id {
            assert forall|i: int| 0 <= i < before.len() implies (#[trigger] before[i]).id != id by {
                assert(set[i].id != set[set.len() - 1].id);
            }
            assert(set[set.len() - 1].id == id);
        } else {
            if has_key_id(set, id) {
                let i = choose|i: int| 0 <= i < set.len() && (#[trigger] set[i]).id == id;
                assert(before[i].id == id);
            } else {
                assert forall|i: int| 0 <= i < before.len() implies (#[trigger] before[i]).id != id by {
                    assert(set[i].id != id);
                }
                assert(without_id(set, id) =~= set);
            }
            if has_key_id(before, id) {
                let i = choose|i: int| 0 <= i < before.len() && (#[trigger] before[i]).id == id;
                assert(set[i].id == id);
            }
            let all = without_id(set, id);
            assert forall|i: int, j: int| 0 <= i < j < all.len() implies (#[trigger] all[i]).id != (
            #[trigger] all[j]).id by {
                assert(all[i] == rest[i]);
                if j < rest.len() {
                    assert(all[j] == rest[j]);
                } else {
                    assert(before.contains(rest[i]));
                    let k = choose|k: int| 0 <= k < before.len() && before[k] == rest[i];
                    assert(set[k] == rest[i]);
                    assert(set[k].id != set[set.len() - 1].id);
                }
            }
        }
    }
}

proof fn lemma_strings_read_back(list: Seq<Seq<char>>)
    ensures
        strings_of(strings_tree(list)->Array_0) == Some(list),
    decreases list.len(),
{
    let items = strings_tree(list)->Array_0;
    if list.len() > 0 {
        lemma_strings_read_back(list.drop_last());
        assert(items.drop_last() =~= strings_tree(list.drop_last())->Array_0);
        assert(list.drop_last().push(list.last()) =~= list);
    } else {
        assert(list =~= seq![]);
    }
}

proof fn lemma_key_reads_back(key: ManagedModel)
    ensures
        key_of_tree(kept_tree(key)) == Some(key),
{
    lemma_key_names();
    lemma_strings_read_back(key.scopes);
}

/// A managed set that has been kept is the same set when it is read.
pub proof fn law_kept_set_reads_back(set: Seq<ManagedModel>)
    ensures
        set_of_tree(set_tree(set)) == Some(set),
    decreases set.len(),
{
    let items = set_tree(set)->Array_0;
    if set.len() > 0 {
        law_kept_set_reads_back(set.drop_last());
        lemma_key_reads_back(set.last());
        assert(items.drop_last() =~= set_tree(set.drop_last())->Array_0);
        assert(set.drop_last().push(set.last()) =~= set);
    } else {
        assert(set =~= seq![]);
    }
}

/// What the host is given to save reads as the managed set that it is to keep, and where the host
/// returns that value, the set is what a request goes by.
pub proof fn law_saved_set_comes_back(text: Seq<char>, set: Seq<ManagedModel>)
    requires
        is_text_of(text, save_input(set)),
    ensures
        json_parse(text) == Ok::<Tree, Seq<char>>(save_input(set)),
        save_input(set).member("value"@) == Some(set_tree(set)),
        setting_of(Ok(singleton("value"@, set_tree(set)))) == Ok::<
            Option<Seq<ManagedModel>>,
            Tree,
        >(Some(set)),
{
    lemma_input_fits(set);
    law_kept_set_reads_back(set);
    reveal_strlit("value");
    reveal_strlit("error");
    assert("value"@[0] != "error"@[0]);
}

proof fn lemma_input_fits(set: Seq<ManagedModel>)
    ensures
        save_input(set).fits(MAX_LEVELS as nat),
{
    let items = set_tree(set)->Array_0;
    assert forall|i: int| 0 <= i < items.len() implies (#[trigger] items[i]).fits(
        (MAX_LEVELS - 2) as nat,
    ) by {
        let members = kept_tree(set[i])->Object_0;
        let scopes = strings_tree(set[i].scopes)->Array_0;
        assert forall|j: int| 0 <= j < scopes.len() implies (#[trigger] scopes[j]).fits(
            (MAX_LEVELS - 4) as nat,
        ) by {
            assert(scopes[j] is Str);
        }
        assert(strings_tree(set[i].scopes).fits((MAX_LEVELS - 3) as nat));
        assert forall|name: Seq<char>| members.contains_key(name) implies (
        #[trigger] members[name]).fits((MAX_LEVELS - 3) as nat) by {
        }
        assert(items[i] == Tree::Object(members));
    }
    assert(set_tree(set).fits((MAX_LEVELS - 1) as nat));
    let members = save_input(set)->Object_0;
    assert forall|name: Seq<char>| members.contains_key(name) implies (#[trigger] members[name]).fits(
        (MAX_LEVELS - 1) as nat,
    ) by {
    }
}

} // verus!
