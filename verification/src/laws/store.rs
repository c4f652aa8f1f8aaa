//! What the host is given to keep, and what is made of it.

use crate::auth::KeyModel;
use crate::json::{json_parse, Tree};
use crate::keys::{admit_action, key_list, new_key_body};
use crate::laws::keys::{law_kept_set_reads_back, lemma_key_names};
use crate::laws::terms::{
    becomes, hands_out, hashes, keeps_back, lists, masks, number_of, says_key, says_set, shared,
    shared_failure,
};
use crate::laws::texts::{law_decimal, law_hash, law_mask};
use crate::managed::{
    decimal, has_key_id, key_of_tree, keys_of_trees, masked, seeded_set, set_of_tree, set_tree,
    shown_members, string_list, strings_of, taken_over, without_id, ManagedModel,
};
use crate::plugin::setting_of;
use crate::steps::{load_input, save_input, Action, After};
use vstd::prelude::*;

verus! {

/// A value is read as a list of strings just where it is one.
pub proof fn law_string_list(value: Tree, strings: Seq<Seq<char>>)
    ensures
        string_list(value) == Some(strings) <==> lists(value, strings),
{
    if let Tree::Array(items) = value {
        lemma_strings_of(items, strings);
    }
}

proof fn lemma_strings_of(items: Seq<Tree>, strings: Seq<Seq<char>>)
    ensures
        strings_of(items) == Some(strings) <==> lists(Tree::Array(items), strings),
    decreases items.len(),
{
    if items.len() == 0 {
        if strings.len() == 0 {
            assert(strings =~= Seq::<Seq<char>>::empty());
        }
    } else {
        let before = items.drop_last();
        if strings_of(items) == Some(strings) {
            let list = strings_of(before)->0;
            lemma_strings_of(before, list);
            assert forall|i: int| 0 <= i < items.len() implies #[trigger] items[i] == Tree::Str(
                strings[i],
            ) by {
                if i < before.len() {
                    assert(before[i] == Tree::Str(list[i]));
                }
            }
        }
        if lists(Tree::Array(items), strings) {
            let list = strings.drop_last();
            assert forall|i: int| 0 <= i < before.len() implies #[trigger] before[i] == Tree::Str(
                list[i],
            ) by {
                assert(items[i] == Tree::Str(strings[i]));
            }
            lemma_strings_of(before, list);
            assert(items[items.len() - 1] == Tree::Str(strings.last()));
            assert(list.push(strings.last()) =~= strings);
        }
    }
}

/// A value is read as a key just where it says one.
pub proof fn law_kept_key(value: Tree, key: ManagedModel)
    ensures
        key_of_tree(value) == Some(key) <==> says_key(value, key),
{
    if let Some(scopes) = value.member("scopes"@) {
        law_string_list(scopes, key.scopes);
    }
}

/// A value is read as a managed set just where it says one.
pub proof fn law_kept_set(value: Tree, set: Seq<ManagedModel>)
    ensures
        set_of_tree(value) == Some(set) <==> says_set(value, set),
{
    if let Tree::Array(items) = value {
        lemma_keys_of(items, set);
    }
}

proof fn lemma_keys_of(items: Seq<Tree>, set: Seq<ManagedModel>)
    ensures
        keys_of_trees(items) == Some(set) <==> says_set(Tree::Array(items), set),
    decreases items.len(),
{
    if items.len() == 0 {
        if set.len() == 0 {
            assert(set =~= Seq::<ManagedModel>::empty());
        }
    } else {
        let before = items.drop_last();
        if keys_of_trees(items) == Some(set) {
            let keys = keys_of_trees(before)->0;
            lemma_keys_of(before, keys);
            law_kept_key(items.last(), set.last());
            assert forall|i: int| 0 <= i < items.len() implies says_key(#[trigger] items[i], set[i]) by {
                if i < before.len() {
                    assert(says_key(before[i], keys[i]));
                }
            }
        }
        if says_set(Tree::Array(items), set) {
            let keys = set.drop_last();
            assert forall|i: int| 0 <= i < before.len() implies says_key(
                #[trigger] before[i],
                keys[i],
            ) by {
                assert(says_key(items[i], set[i]));
            }
            lemma_keys_of(before, keys);
            assert(says_key(items[items.len() - 1], set.last()));
            law_kept_key(items.last(), set.last());
            assert(keys.push(set.last()) =~= set);
        }
    }
}

/// What the host hands out is what a request goes by; and where it hands out nothing that can be
/// read, the reply says why.
pub proof fn law_setting(
    outcome: Result<Seq<char>, Seq<char>>,
    loaded: Option<Seq<ManagedModel>>,
    reply: Tree,
)
    requires
        outcome is Ok,
    ensures
        setting_of(json_parse(outcome->Ok_0)) == Ok::<Option<Seq<ManagedModel>>, Tree>(loaded) <==>
            hands_out(outcome, loaded),
        setting_of(json_parse(outcome->Ok_0)) == Err::<Option<Seq<ManagedModel>>, Tree>(reply) <==>
            keeps_back(outcome, reply),
{
    if let Ok(answer) = json_parse(outcome->Ok_0) {
        if let Some(value) = answer.member("value"@) {
            if let Some(set) = loaded {
                law_kept_set(value, set);
            }
            if let Some(set) = set_of_tree(value) {
                law_kept_set(value, set);
            }
            assert forall|set: Seq<ManagedModel>| #[trigger] says_set(value, set) implies set_of_tree(
                value,
            ) == Some(set) by {
                law_kept_set(value, set);
            }
        }
    }
}

/// The host is asked for the setting of the plugin, and told to keep a managed set under the same
/// name: a list of its keys, each with just the six members that say it.
pub proof fn law_settings(set: Seq<ManagedModel>, i: int, name: Seq<char>)
    ensures
        load_input() == Tree::Object(map!["key"@ => Tree::Str("managed_keys"@)]),
        save_input(set) == Tree::Object(
            map!["key"@ => Tree::Str("managed_keys"@), "value"@ => set_tree(set)],
        ),
        says_set(set_tree(set), set),
        0 <= i < set.len() ==> (set_tree(set)->Array_0[i].member(name) is Some <==> name == "id"@
            || name == "label"@ || name == "scopes"@ || name == "created"@ || name == "masked"@
            || name == "hash"@),
{
    law_kept_set_reads_back(set);
    law_kept_set(set_tree(set), set);
}

/// What is shown of a key is its name, its label, its scopes, the time and its mask; whoever made it
/// is told its secret besides.
pub proof fn law_shown_key(key: ManagedModel, secret: Seq<char>, name: Seq<char>)
    ensures
        ({
            let shown = Tree::Object(shown_members(key));
            &&& shown.member("id"@) == Some(Tree::Str(key.id))
            &&& shown.member("label"@) == Some(
                match key.label {
                    Some(label) => Tree::Str(label),
                    None => Tree::Null,
                },
            )
            &&& shown.member("scopes"@) matches Some(scopes) && lists(scopes, key.scopes)
            &&& shown.member("created"@) == Some(Tree::Int(key.created as int))
            &&& shown.member("masked"@) == Some(Tree::Str(key.masked))
            &&& shown.member(name) is Some ==> name == "id"@ || name == "label"@ || name
                == "scopes"@ || name == "created"@ || name == "masked"@
            &&& new_key_body(key, secret) == Tree::Object(
                shown_members(key).insert("key"@, Tree::Str(secret)),
            )
        }),
{
    lemma_key_names();
}

/// The list of keys is what is shown of each, in order, and nothing else.
pub proof fn law_key_list(set: Seq<ManagedModel>, i: int, name: Seq<char>)
    ensures
        key_list(set).member("keys"@) matches Some(Tree::Array(items)) && items.len() == set.len()
            && (0 <= i < set.len() ==> items[i] == Tree::Object(shown_members(set[i]))),
        key_list(set).member(name) is Some ==> name == "keys"@,
{
}

/// The managed set is made of the configured keys, one by one.
pub proof fn law_seeded_set(keys: Seq<KeyModel>, now: u64)
    ensures
        becomes(keys, now, seeded_set(keys, now)),
{
    let set = seeded_set(keys, now);
    assert forall|i: int| 0 <= i < keys.len() implies ({
        let key = #[trigger] set[i];
        &&& key.label == keys[i].label
        &&& key.scopes == keys[i].scopes
        &&& key.created == now
        &&& hashes(keys[i].key, key.hash)
        &&& masks(keys[i].key, key.masked)
        &&& key.id.len() > 7
        &&& key.id.take(7) == "config-"@
        &&& key.id[7] != '0'
        &&& number_of(key.id.skip(7)) == i + 1
    }) by {
        let key = set[i];
        let digits = decimal((i + 1) as nat);
        law_hash(keys[i].key, key.hash);
        law_masked(keys[i].key);
        reveal_strlit("config-");
        assert("config-"@.len() == 7);
        law_decimal((i + 1) as nat);
        assert(key.id.take(7) =~= "config-"@);
        assert(key.id.skip(7) =~= digits);
        assert(key.id[7] == digits[0]);
    }
}

/// A configured key becomes a managed one of that number, with its own label and scopes, kept as the
/// hash that it is given.
pub proof fn law_taken_over(
    key: KeyModel,
    number: nat,
    now: u64,
    hash: Seq<char>,
    digits: Seq<char>,
    mask: Seq<char>,
)
    requires
        digits == decimal(number),
        masks(key.key, mask),
    ensures
        taken_over(key, number, now, hash) == (ManagedModel {
            id: "config-"@ + digits,
            label: key.label,
            scopes: key.scopes,
            created: now,
            masked: mask,
            hash,
        }),
{
    law_mask(key.key, mask.len() - 1);
}

/// A new key is added behind the others and its secret told, unless one of them has its name.
pub proof fn law_admission(set: Seq<ManagedModel>, key: ManagedModel, secret: Seq<char>)
    ensures
        admit_action(set, key, secret) == if exists|i: int|
            0 <= i < set.len() && (#[trigger] set[i]).id == key.id {
            Action::Now(After::Reply(shared_failure(500, "key id is taken"@)))
        } else {
            Action::Save(
                set.push(key),
                After::Reply(shared(201, new_key_body(key, secret))),
            )
        },
{
}

/// What is shown of a secret masks it.
pub proof fn law_masked(secret: Seq<char>)
    ensures
        masks(secret, masked(secret)),
{
    let shown = if secret.len() < 32 {
        secret.len() as int / 4
    } else {
        8
    };
    law_mask(secret, shown);
}

/// What is left when a name is revoked are the keys of other names, all of them and in order.
pub proof fn law_without(set: Seq<ManagedModel>, id: Seq<char>)
    ensures
        without_id(set, id) == set.filter(|key: ManagedModel| key.id != id),
        has_key_id(set, id) <==> exists|i: int| 0 <= i < set.len() && (#[trigger] set[i]).id == id,
    decreases set.len(),
{
    reveal(Seq::filter);
    if set.len() > 0 {
        law_without(set.drop_last(), id);
    } else {
        assert(set.filter(|key: ManagedModel| key.id != id) =~= seq![]);
    }
}

} // verus!
