//! The managed set: the keys that are in force, as they are kept.
//!
//! Of a secret only its hash is kept, and a short prefix to tell keys apart by.

use crate::auth::{ApiConfig, ApiKey, KeyModel};
use crate::hashing::{hash_of, sha256_hex};
use crate::json::{array, null, number, string, Json, JsonRef, Members, Tree};
use crate::text::{
    chars_of, copy_optional, copy_texts, joined, optional_text, same_text, string_of, texts,
};
use vstd::prelude::*;

verus! {

/// What a [`ManagedKey`] says.
pub struct ManagedModel {
    pub id: Seq<char>,
    pub label: Option<Seq<char>>,
    pub scopes: Seq<Seq<char>>,
    pub created: u64,
    pub masked: Seq<char>,
    pub hash: Seq<char>,
}

/// A key of the managed set: its name, what it grants, when it was created, a prefix of its secret
/// that gives the secret away to nobody, and the hash of the secret.
#[derive(Debug)]
pub struct ManagedKey {
    pub id: String,
    pub label: Option<String>,
    pub scopes: Vec<String>,
    pub created: u64,
    pub masked: String,
    pub hash: String,
}

impl View for ManagedKey {
    type V = ManagedModel;

    open spec fn view(&self) -> ManagedModel {
        ManagedModel {
            id: self.id@,
            label: optional_text(self.label),
            scopes: texts(self.scopes@),
            created: self.created,
            masked: self.masked@,
            hash: self.hash@,
        }
    }
}

impl Clone for ManagedKey {
    fn clone(&self) -> (copy: ManagedKey)
        ensures
            copy@ == self@,
    {
        ManagedKey {
            id: self.id.clone(),
            label: copy_optional(&self.label),
            scopes: copy_texts(&self.scopes),
            created: self.created,
            masked: self.masked.clone(),
            hash: self.hash.clone(),
        }
    }
}

/// What the keys say.
pub open spec fn models(keys: Seq<ManagedKey>) -> Seq<ManagedModel> {
    Seq::new(keys.len(), |i: int| keys[i]@)
}

/// The keys that are in force.
#[derive(Debug)]
pub struct ManagedSet {
    pub keys: Vec<ManagedKey>,
}

impl View for ManagedSet {
    type V = Seq<ManagedModel>;

    open spec fn view(&self) -> Seq<ManagedModel> {
        models(self.keys@)
    }
}

/// What a managed set says, if there is one.
pub open spec fn set_model(set: Option<ManagedSet>) -> Option<Seq<ManagedModel>> {
    match set {
        Some(set) => Some(set@),
        None => None,
    }
}

/// The decimal digits of a number.
pub open spec fn decimal(n: nat) -> Seq<char>
    decreases n,
{
    if n < 10 {
        seq![((48 + n) as u8) as char]
    } else {
        decimal(n / 10).push(((48 + n % 10) as u8) as char)
    }
}

/// The decimal digits of a number.
pub fn decimal_text(n: u64) -> (s: String)
    ensures
        s@ == decimal(n as nat),
    decreases n,
{
    if n < 10 {
        let mut s = String::new();
        s.push((48 + n as u8) as char);
        s
    } else {
        let mut s = decimal_text(n / 10);
        s.push((48 + (n % 10) as u8) as char);
        s
    }
}

/// The prefix of a secret that may be shown: eight characters, or a quarter of it where that is
/// less, and an ellipsis.
pub open spec fn masked(secret: Seq<char>) -> Seq<char> {
    let shown = if secret.len() / 4 < 8 {
        secret.len() / 4
    } else {
        8
    };
    secret.subrange(0, shown as int) + "\u{2026}"@
}

/// The prefix of a secret that may be shown.
pub fn mask(secret: &str) -> (s: String)
    ensures
        s@ == masked(secret@),
{
    let chars = chars_of(secret);
    let shown: usize = if chars.len() / 4 < 8 {
        chars.len() / 4
    } else {
        8
    };
    joined(string_of(&chars, 0, shown).as_str(), "\u{2026}")
}

/// The managed key that the configured key `key` becomes, where it is the one of that number and its
/// secret is kept as `hash`.
pub open spec fn taken_over(
    key: KeyModel,
    number: nat,
    now: u64,
    hash: Seq<char>,
) -> ManagedModel {
    ManagedModel {
        id: "config-"@ + decimal(number),
        label: key.label,
        scopes: key.scopes,
        created: now,
        masked: masked(key.key),
        hash,
    }
}

/// The managed set that the configured keys become.
pub open spec fn seeded_set(keys: Seq<KeyModel>, now: u64) -> Seq<ManagedModel> {
    Seq::new(
        keys.len(),
        |i: int| taken_over(keys[i], (i + 1) as nat, now, hash_of(keys[i].key)),
    )
}

/// The managed key that a configured key becomes.
pub fn take_over(key: &ApiKey, number: u64, now: u64, hash: String) -> (managed: ManagedKey)
    ensures
        managed@ == taken_over(key@, number as nat, now, hash@),
{
    ManagedKey {
        id: joined("config-", decimal_text(number).as_str()),
        label: copy_optional(&key.label),
        scopes: copy_texts(&key.scopes),
        created: now,
        masked: mask(key.key.as_str()),
        hash,
    }
}

/// The managed set that the configured keys become. Of their secrets the hashes are kept.
pub fn seed(config: &ApiConfig, now: u64) -> (set: ManagedSet)
    ensures
        set@ == seeded_set(config@.keys, now),
{
    let mut keys: Vec<ManagedKey> = Vec::new();
    for i in 0..config.keys.len()
        invariant
            keys@.len() == i,
            forall|j: int|
                0 <= j < i ==> (#[trigger] keys@[j])@ == taken_over(
                    config@.keys[j],
                    (j + 1) as nat,
                    now,
                    hash_of(config@.keys[j].key),
                ),
    {
        let key = &config.keys[i];
        keys.push(take_over(key, i as u64 + 1, now, sha256_hex(key.key.as_str())));
    }
    let set = ManagedSet { keys };
    assert(set@ =~= seeded_set(config@.keys, now));
    set
}

/// An optional string as JSON.
pub open spec fn label_tree(label: Option<Seq<char>>) -> Tree {
    match label {
        Some(text) => Tree::Str(text),
        None => Tree::Null,
    }
}

/// A list of strings as JSON.
pub open spec fn strings_tree(list: Seq<Seq<char>>) -> Tree {
    Tree::Array(Seq::new(list.len(), |i: int| Tree::Str(list[i])))
}

/// What may be shown of a key.
pub open spec fn shown_members(key: ManagedModel) -> Map<Seq<char>, Tree> {
    Map::empty().insert("id"@, Tree::Str(key.id)).insert("label"@, label_tree(key.label)).insert(
        "scopes"@,
        strings_tree(key.scopes),
    ).insert("created"@, Tree::Int(key.created as int)).insert("masked"@, Tree::Str(key.masked))
}

/// A key as it is kept.
pub open spec fn kept_tree(key: ManagedModel) -> Tree {
    Tree::Object(shown_members(key).insert("hash"@, Tree::Str(key.hash)))
}

/// The managed set as it is kept.
pub open spec fn set_tree(set: Seq<ManagedModel>) -> Tree {
    Tree::Array(Seq::new(set.len(), |i: int| kept_tree(set[i])))
}

fn label_json(label: &Option<String>) -> (json: Json)
    ensures
        json@ == label_tree(optional_text(*label)),
{
    match label {
        Some(text) => string(text.as_str()),
        None => null(),
    }
}

fn strings_json(list: &Vec<String>) -> (json: Json)
    ensures
        json@ == strings_tree(texts(list@)),
{
    let mut items: Vec<Json> = Vec::new();
    for i in 0..list.len()
        invariant
            items@.len() == i,
            forall|j: int| 0 <= j < i ==> (#[trigger] items@[j])@ == Tree::Str(list@[j]@),
    {
        items.push(string(list[i].as_str()));
    }
    let json = array(items);
    assert(json@->Array_0 =~= strings_tree(texts(list@))->Array_0);
    json
}

impl ManagedKey {
    /// What may be shown of the key.
    pub(crate) fn shown(&self) -> (members: Members)
        ensures
            members@ == shown_members(self@),
    {
        Members::new().with("id", string(self.id.as_str())).with(
            "label",
            label_json(&self.label),
        ).with("scopes", strings_json(&self.scopes)).with("created", number(self.created)).with(
            "masked",
            string(self.masked.as_str()),
        )
    }
}

impl ManagedSet {
    /// The set as it is kept.
    pub fn to_json(&self) -> (json: Json)
        ensures
            json@ == set_tree(self@),
    {
        let mut items: Vec<Json> = Vec::new();
        for i in 0..self.keys.len()
            invariant
                items@.len() == i,
                forall|j: int| 0 <= j < i ==> (#[trigger] items@[j])@ == kept_tree(self.keys@[j]@),
        {
            let key = &self.keys[i];
            items.push(key.shown().with("hash", string(key.hash.as_str())).object());
        }
        let json = array(items);
        assert(json@->Array_0 =~= set_tree(self@)->Array_0);
        json
    }

    /// A copy of the set.
    pub fn copy(&self) -> (copy: ManagedSet)
        ensures
            copy@ == self@,
    {
        let mut keys: Vec<ManagedKey> = Vec::new();
        for i in 0..self.keys.len()
            invariant
                keys@.len() == i,
                forall|j: int| 0 <= j < i ==> (#[trigger] keys@[j])@ == self.keys@[j]@,
        {
            keys.push(self.keys[i].clone());
        }
        let copy = ManagedSet { keys };
        assert(copy@ =~= self@);
        copy
    }

    /// Whether a key has the name `id`.
    pub fn has_id(&self, id: &str) -> (has: bool)
        ensures
            has == has_key_id(self@, id@),
    {
        for i in 0..self.keys.len()
            invariant
                forall|j: int| 0 <= j < i ==> (#[trigger] self@[j]).id != id@,
        {
            if same_text(self.keys[i].id.as_str(), id) {
                assert(self@[i as int].id == id@);
                return true;
            }
        }
        false
    }

    /// The set without the keys of the name `id`.
    pub fn without(&self, id: &str) -> (rest: ManagedSet)
        ensures
            rest@ == without_id(self@, id@),
    {
        let mut keys: Vec<ManagedKey> = Vec::new();
        assert(models(keys@) =~= without_id(self@.take(0), id@));
        for i in 0..self.keys.len()
            invariant
                models(keys@) == without_id(self@.take(i as int), id@),
        {
            let ghost before = models(keys@);
            assert(self@.take(i + 1).drop_last() == self@.take(i as int));
            if !same_text(self.keys[i].id.as_str(), id) {
                keys.push(self.keys[i].clone());
                assert(models(keys@) =~= before.push(self@[i as int]));
            }
        }
        assert(self@.take(self@.len() as int) == self@);
        ManagedSet { keys }
    }
}

/// Whether a key has the name `id`.
pub open spec fn has_key_id(set: Seq<ManagedModel>, id: Seq<char>) -> bool {
    exists|i: int| 0 <= i < set.len() && (#[trigger] set[i]).id == id
}

/// The set without the keys of the name `id`.
pub open spec fn without_id(set: Seq<ManagedModel>, id: Seq<char>) -> Seq<ManagedModel>
    decreases set.len(),
{
    if set.len() == 0 {
        seq![]
    } else if set.last().id == id {
        without_id(set.drop_last(), id)
    } else {
        without_id(set.drop_last(), id).push(set.last())
    }
}

/// The strings that the items of an array are, where they are all strings.
pub open spec fn strings_of(items: Seq<Tree>) -> Option<Seq<Seq<char>>>
    decreases items.len(),
{
    if items.len() == 0 {
        Some(seq![])
    } else {
        match (strings_of(items.drop_last()), items.last()) {
            (Some(list), Tree::Str(s)) => Some(list.push(s)),
            _ => None,
        }
    }
}

/// The list of strings that a value is.
pub open spec fn string_list(tree: Tree) -> Option<Seq<Seq<char>>> {
    match tree {
        Tree::Array(items) => strings_of(items),
        _ => None,
    }
}

/// The label that a member is: a string, or none where it is null or missing.
pub open spec fn label_of(member: Option<Tree>) -> Option<Option<Seq<char>>> {
    match member {
        Some(Tree::Str(text)) => Some(Some(text)),
        Some(Tree::Null) => Some(None),
        None => Some(None),
        _ => None,
    }
}

/// The key that a value is, where it is one as it is kept.
pub open spec fn key_of_tree(tree: Tree) -> Option<ManagedModel> {
    match (
        tree.str_member("id"@),
        label_of(tree.member("label"@)),
        match tree.member("scopes"@) {
            Some(scopes) => string_list(scopes),
            None => None,
        },
        match tree.member("created"@) {
            Some(created) => created.unsigned(),
            None => None,
        },
        tree.str_member("masked"@),
        tree.str_member("hash"@),
    ) {
        (Some(id), Some(label), Some(scopes), Some(created), Some(masked), Some(hash)) => Some(
            ManagedModel { id, label, scopes, created, masked, hash },
        ),
        _ => None,
    }
}

/// The keys that the items of an array are, where they are all keys.
pub open spec fn keys_of_trees(items: Seq<Tree>) -> Option<Seq<ManagedModel>>
    decreases items.len(),
{
    if items.len() == 0 {
        Some(seq![])
    } else {
        match (keys_of_trees(items.drop_last()), key_of_tree(items.last())) {
            (Some(keys), Some(key)) => Some(keys.push(key)),
            _ => None,
        }
    }
}

/// The managed set that a value is, where it is one as it is kept.
pub open spec fn set_of_tree(tree: Tree) -> Option<Seq<ManagedModel>> {
    match tree {
        Tree::Array(items) => keys_of_trees(items),
        _ => None,
    }
}

/// A string that fails to be one makes every longer list fail.
proof fn lemma_strings_fail(items: Seq<Tree>, n: int)
    requires
        0 <= n <= items.len(),
        strings_of(items.take(n)) is None,
    ensures
        strings_of(items) is None,
    decreases items.len() - n,
{
    if n == items.len() {
        assert(items.take(n) == items);
    } else {
        assert(items.take(n + 1).drop_last() == items.take(n));
        lemma_strings_fail(items, n + 1);
    }
}

proof fn lemma_keys_fail(items: Seq<Tree>, n: int)
    requires
        0 <= n <= items.len(),
        keys_of_trees(items.take(n)) is None,
    ensures
        keys_of_trees(items) is None,
    decreases items.len() - n,
{
    if n == items.len() {
        assert(items.take(n) == items);
    } else {
        assert(items.take(n + 1).drop_last() == items.take(n));
        lemma_keys_fail(items, n + 1);
    }
}

/// Reads a list of strings.
pub fn read_strings(part: JsonRef<'_>) -> (list: Option<Vec<String>>)
    ensures
        match list {
            Some(l) => string_list(part@) == Some(texts(l@)),
            None => string_list(part@) is None,
        },
{
    let items = match part.items() {
        Some(items) => items,
        None => {
            return None;
        },
    };
    let ghost all = part@->Array_0;
    let mut list: Vec<String> = Vec::new();
    assert(texts(list@) =~= Seq::<Seq<char>>::empty());
    for i in 0..items.len()
        invariant
            part@ == Tree::Array(all),
            all.len() == items@.len(),
            forall|j: int| 0 <= j < all.len() ==> #[trigger] all[j] == items@[j]@,
            strings_of(all.take(i as int)) == Some(texts(list@)),
    {
        let ghost before = texts(list@);
        assert(all.take(i + 1).drop_last() == all.take(i as int));
        assert(all.take(i + 1).last() == items@[i as int]@);
        match items[i].text() {
            Some(text) => {
                list.push(text.to_owned());
                assert(texts(list@) =~= before.push(text@));
            },
            None => {
                proof {
                    lemma_strings_fail(all, i + 1);
                }
                return None;
            },
        }
    }
    assert(all.take(all.len() as int) == all);
    Some(list)
}

/// Reads a label.
pub fn read_label(member: Option<JsonRef<'_>>) -> (label: Option<Option<String>>)
    ensures
        ({
            let tree = match member {
                Some(part) => Some(part@),
                None => None,
            };
            match label {
                Some(l) => label_of(tree) == Some(optional_text(l)),
                None => label_of(tree) is None,
            }
        }),
{
    match member {
        Some(part) => match part.text() {
            Some(text) => Some(Some(text.to_owned())),
            None => if part.is_null() {
                Some(None)
            } else {
                None
            },
        },
        None => Some(None),
    }
}

fn read_text(part: JsonRef<'_>, name: &str) -> (text: Option<String>)
    ensures
        match text {
            Some(s) => part@.str_member(name@) == Some(s@),
            None => part@.str_member(name@) is None,
        },
{
    match part.member(name) {
        Some(member) => match member.text() {
            Some(s) => Some(s.to_owned()),
            None => None,
        },
        None => None,
    }
}

/// Reads a key as it is kept.
pub fn read_key(part: JsonRef<'_>) -> (key: Option<ManagedKey>)
    ensures
        match key {
            Some(k) => key_of_tree(part@) == Some(k@),
            None => key_of_tree(part@) is None,
        },
{
    let id = read_text(part, "id");
    let label = read_label(part.member("label"));
    let scopes = match part.member("scopes") {
        Some(member) => read_strings(member),
        None => None,
    };
    let created = match part.member("created") {
        Some(member) => member.unsigned(),
        None => None,
    };
    let masked = read_text(part, "masked");
    let hash = read_text(part, "hash");
    match (id, label, scopes, created, masked, hash) {
        (Some(id), Some(label), Some(scopes), Some(created), Some(masked), Some(hash)) => Some(
            ManagedKey { id, label, scopes, created, masked, hash },
        ),
        _ => None,
    }
}

/// Reads the managed set as it is kept.
pub fn read_set(part: JsonRef<'_>) -> (set: Option<ManagedSet>)
    ensures
        match set {
            Some(s) => set_of_tree(part@) == Some(s@),
            None => set_of_tree(part@) is None,
        },
{
    let items = match part.items() {
        Some(items) => items,
        None => {
            return None;
        },
    };
    let ghost all = part@->Array_0;
    let mut keys: Vec<ManagedKey> = Vec::new();
    assert(models(keys@) =~= Seq::<ManagedModel>::empty());
    for i in 0..items.len()
        invariant
            part@ == Tree::Array(all),
            all.len() == items@.len(),
            forall|j: int| 0 <= j < all.len() ==> #[trigger] all[j] == items@[j]@,
            keys_of_trees(all.take(i as int)) == Some(models(keys@)),
    {
        let ghost before = models(keys@);
        assert(all.take(i + 1).drop_last() == all.take(i as int));
        assert(all.take(i + 1).last() == items@[i as int]@);
        match read_key(items[i]) {
            Some(key) => {
                let ghost model = key@;
                keys.push(key);
                assert(models(keys@) =~= before.push(model));
            },
            None => {
                proof {
                    lemma_keys_fail(all, i + 1);
                }
                return None;
            },
        }
    }
    assert(all.take(all.len() as int) == all);
    Some(ManagedSet { keys })
}

} // verus!
