//! JSON values: what they hold, and how they are read and written.
//!
//! The values themselves, their parser and their printer are those of `serde_json`. This module
//! is the only one that touches them; everything else speaks of a [`Json`] and of the [`Tree`]
//! that it holds.

use vstd::prelude::*;

verus! {

/// What a JSON value holds.
pub enum Tree {
    Null,
    Bool(bool),
    /// A number that is an integer.
    Int(int),
    /// A number that is not, by the digits it is printed with.
    Float(Seq<char>),
    Str(Seq<char>),
    Array(Seq<Tree>),
    Object(Map<Seq<char>, Tree>),
}

impl Tree {
    /// Whether the tree is free of fractions and nests arrays and objects at most `levels` deep.
    pub open spec fn fits(self, levels: nat) -> bool
        decreases levels,
    {
        match self {
            Tree::Float(_) => false,
            Tree::Array(items) => levels > 0 && forall|i: int|
                0 <= i < items.len() ==> (#[trigger] items[i]).fits((levels - 1) as nat),
            Tree::Object(members) => levels > 0 && forall|name: Seq<char>|
                members.contains_key(name) ==> (#[trigger] members[name]).fits(
                    (levels - 1) as nat,
                ),
            _ => true,
        }
    }

    /// The member `name` of an object.
    pub open spec fn member(self, name: Seq<char>) -> Option<Tree> {
        match self {
            Tree::Object(members) => if members.contains_key(name) {
                Some(members[name])
            } else {
                None
            },
            _ => None,
        }
    }

    /// The number, where it is an integer of 64 bits without a sign.
    pub open spec fn unsigned(self) -> Option<u64> {
        match self {
            Tree::Int(n) => if 0 <= n <= u64::MAX {
                Some(n as u64)
            } else {
                None
            },
            _ => None,
        }
    }

    /// The member `name` of an object, where it is a string.
    pub open spec fn str_member(self, name: Seq<char>) -> Option<Seq<char>> {
        match self.member(name) {
            Some(Tree::Str(s)) => Some(s),
            _ => None,
        }
    }
}

/// How many levels of arrays and objects the parser follows.
pub const MAX_LEVELS: u64 = 127;

/// `serde_json::Value`: a JSON value as that crate holds it.
#[verifier::external_type_specification]
#[verifier::external_body]
pub struct ExValue(serde_json::Value);

/// What a `serde_json::Value` holds.
pub uninterp spec fn value_tree(value: serde_json::Value) -> Tree;

/// What `serde_json::from_str` makes of a text: the tree of the value, or the message of the error.
pub uninterp spec fn json_parse(text: Seq<char>) -> Result<Tree, Seq<char>>;

/// The compact text that `serde_json` prints for a value that holds `tree`.
pub uninterp spec fn json_text(tree: Tree) -> Seq<char>;

/// Whether `text`, read again, gives back `tree`. This is asked only of a tree that the parser
/// follows to its leaves and that it has no fraction to round in.
pub open spec fn reads_back(tree: Tree, text: Seq<char>) -> bool {
    tree.fits(MAX_LEVELS as nat) ==> json_parse(text) == Ok::<Tree, Seq<char>>(tree)
}

/// A JSON value.
pub struct Json {
    value: serde_json::Value,
}

impl View for Json {
    type V = Tree;

    closed spec fn view(&self) -> Tree {
        value_tree(self.value)
    }
}

/// The members of an object that is filled in order: of two members of one name the later stays.
pub open spec fn member_map(members: Seq<(String, Json)>) -> Map<Seq<char>, Tree>
    decreases members.len(),
{
    if members.len() == 0 {
        Map::empty()
    } else {
        member_map(members.drop_last()).insert(members.last().0@, members.last().1@)
    }
}

/// `serde_json::from_str::<Value>` reads a JSON text. What it returns is a function of the text
/// alone: a value, or an error with its message.
#[verifier::external_body]
fn parse_value(text: &str) -> (result: Result<serde_json::Value, String>)
    ensures
        match result {
            Ok(value) => json_parse(text@) matches Ok(tree) && tree == value_tree(value),
            Err(message) => json_parse(text@) matches Err(said) && said == message@,
        },
{
    match serde_json::from_str::<serde_json::Value>(text) {
        Ok(value) => Ok(value),
        Err(error) => Err(error.to_string()),
    }
}

/// `to_string` of a `serde_json::Value` prints it compactly, members sorted by name, so that the
/// text depends on what the value holds and on nothing else. Read again, the text gives back
/// what the value holds, unless it nests deeper than the parser follows, or holds a fraction,
/// which the parser may round.
#[verifier::external_body]
fn value_to_string(value: &serde_json::Value) -> (text: String)
    ensures
        text@ == json_text(value_tree(*value)),
        reads_back(value_tree(*value), text@),
{
    value.to_string()
}

/// `Value::get` with a string finds the member of that name in an object, and nothing in any
/// other value.
#[verifier::external_body]
fn value_get<'a>(value: &'a serde_json::Value, name: &str) -> (member: Option<&'a serde_json::Value>)
    ensures
        match member {
            Some(found) => value_tree(*value).member(name@) == Some(value_tree(*found)),
            None => value_tree(*value).member(name@) is None,
        },
{
    value.get(name)
}

/// `Value::as_str` gives the text of a string, and nothing for any other value.
pub assume_specification[ serde_json::Value::as_str ](value: &serde_json::Value) -> (text: Option<
    &str,
>)
    ensures
        match text {
            Some(s) => value_tree(*value) == Tree::Str(s@),
            None => !(value_tree(*value) is Str),
        },
;

/// `Value::is_object` tells an object from any other value.
pub assume_specification[ serde_json::Value::is_object ](value: &serde_json::Value) -> (is: bool)
    ensures
        is == (value_tree(*value) is Object),
;

/// `Value::is_null` tells null from any other value.
pub assume_specification[ serde_json::Value::is_null ](value: &serde_json::Value) -> (is: bool)
    ensures
        is == (value_tree(*value) is Null),
;

/// `Value::as_u64` gives the number where it is an integer that fits, and nothing for any other
/// value.
pub assume_specification[ serde_json::Value::as_u64 ](value: &serde_json::Value) -> (n: Option<u64>)
    ensures
        n == value_tree(*value).unsigned(),
;

/// `Value::as_array` gives the items of an array in order, and nothing for any other value.
pub assume_specification[ serde_json::Value::as_array ](value: &serde_json::Value) -> (items: Option<
    &Vec<serde_json::Value>,
>)
    ensures
        match items {
            Some(list) => value_tree(*value) == Tree::Array(
                Seq::new(list@.len(), |i: int| value_tree(list@[i])),
            ),
            None => !(value_tree(*value) is Array),
        },
;

/// `Value::from` makes a JSON null of the unit.
#[verifier::external_body]
pub(crate) fn null() -> (json: Json)
    ensures
        json@ == Tree::Null,
{
    Json { value: serde_json::Value::from(()) }
}

/// `Value::from` makes a JSON boolean.
#[verifier::external_body]
pub(crate) fn boolean(b: bool) -> (json: Json)
    ensures
        json@ == Tree::Bool(b),
{
    Json { value: serde_json::Value::from(b) }
}

/// `Value::from` makes a JSON number of an unsigned integer.
#[verifier::external_body]
pub(crate) fn number(n: u64) -> (json: Json)
    ensures
        json@ == Tree::Int(n as int),
{
    Json { value: serde_json::Value::from(n) }
}

/// `Value::from` makes a JSON string.
#[verifier::external_body]
pub(crate) fn string(s: &str) -> (json: Json)
    ensures
        json@ == Tree::Str(s@),
{
    Json { value: serde_json::Value::from(s) }
}

/// `Value::from_iter` makes a JSON array that holds the items in order.
#[verifier::external_body]
pub(crate) fn array(items: Vec<Json>) -> (json: Json)
    ensures
        json@ == Tree::Array(Seq::new(items@.len(), |i: int| items@[i]@)),
{
    Json { value: serde_json::Value::from_iter(items.into_iter().map(|item| item.value)) }
}

/// `Value::from_iter` over pairs makes a JSON object, inserting the members in order, so that a
/// later one takes the place of an earlier one of its name.
#[verifier::external_body]
fn object(members: Vec<(String, Json)>) -> (json: Json)
    ensures
        json@ == Tree::Object(member_map(members@)),
{
    Json {
        value: serde_json::Value::from_iter(
            members.into_iter().map(|member| (member.0, member.1.value)),
        ),
    }
}

/// The members of an object that is being put together.
pub(crate) struct Members {
    list: Vec<(String, Json)>,
}

impl View for Members {
    type V = Map<Seq<char>, Tree>;

    closed spec fn view(&self) -> Map<Seq<char>, Tree> {
        member_map(self.list@)
    }
}

impl Members {
    pub(crate) fn new() -> (members: Members)
        ensures
            members@ == Map::<Seq<char>, Tree>::empty(),
    {
        Members { list: Vec::new() }
    }

    pub(crate) fn with(self, name: &str, value: Json) -> (members: Members)
        ensures
            members@ == self@.insert(name@, value@),
    {
        let mut list = self.list;
        let ghost before = list@;
        list.push((name.to_owned(), value));
        assert(list@.drop_last() == before);
        Members { list }
    }

    pub(crate) fn object(self) -> (json: Json)
        ensures
            json@ == Tree::Object(self@),
    {
        object(self.list)
    }
}

/// A JSON value that is part of another.
#[derive(Clone, Copy)]
pub struct JsonRef<'a> {
    value: &'a serde_json::Value,
}

impl<'a> View for JsonRef<'a> {
    type V = Tree;

    closed spec fn view(&self) -> Tree {
        value_tree(*self.value)
    }
}

/// What the parts hold, in order.
pub open spec fn trees(parts: Seq<JsonRef>) -> Seq<Tree> {
    Seq::new(parts.len(), |i: int| parts[i]@)
}

impl<'a> JsonRef<'a> {
    /// The member `name`, where the value is an object that has it.
    pub fn member(&self, name: &str) -> (member: Option<JsonRef<'a>>)
        ensures
            match member {
                Some(found) => self@.member(name@) == Some(found@),
                None => self@.member(name@) is None,
            },
    {
        match value_get(self.value, name) {
            Some(value) => Some(JsonRef { value }),
            None => None,
        }
    }

    /// The text, where the value is a string.
    pub fn text(&self) -> (text: Option<&'a str>)
        ensures
            match text {
                Some(s) => self@ == Tree::Str(s@),
                None => !(self@ is Str),
            },
    {
        self.value.as_str()
    }

    /// The number, where the value is an integer of 64 bits without a sign.
    pub fn unsigned(&self) -> (n: Option<u64>)
        ensures
            n == self@.unsigned(),
    {
        self.value.as_u64()
    }

    /// Whether the value is null.
    pub fn is_null(&self) -> (is: bool)
        ensures
            is == (self@ is Null),
    {
        self.value.is_null()
    }

    /// The items, where the value is an array.
    pub fn items(&self) -> (items: Option<Vec<JsonRef<'a>>>)
        ensures
            match items {
                Some(list) => self@ == Tree::Array(trees(list@)),
                None => !(self@ is Array),
            },
    {
        match self.value.as_array() {
            Some(values) => {
                let mut list: Vec<JsonRef<'a>> = Vec::new();
                for i in 0..values.len()
                    invariant
                        list@.len() == i,
                        forall|j: int| 0 <= j < i ==> (#[trigger] list@[j])@ == value_tree(values@[j]),
                {
                    list.push(JsonRef { value: &values[i] });
                }
                assert(trees(list@) =~= Seq::new(values@.len(), |i: int| value_tree(values@[i])));
                Some(list)
            },
            None => None,
        }
    }
}

impl Json {
    /// The value, as part of itself.
    pub fn as_ref(&self) -> (part: JsonRef<'_>)
        ensures
            part@ == self@,
    {
        JsonRef { value: &self.value }
    }

    /// Reads a JSON text. A text that is not JSON gives the parser's message.
    pub fn parse(text: &str) -> (result: Result<Json, String>)
        ensures
            match result {
                Ok(json) => json_parse(text@) matches Ok(tree) && tree == json@,
                Err(message) => json_parse(text@) matches Err(said) && said == message@,
            },
    {
        match parse_value(text) {
            Ok(value) => Ok(Json { value }),
            Err(message) => Err(message),
        }
    }

    /// The compact text of the value.
    pub fn to_text(&self) -> (text: String)
        ensures
            text@ == json_text(self@),
            reads_back(self@, text@),
    {
        value_to_string(&self.value)
    }

    /// Whether the value is an object.
    pub fn is_object(&self) -> (is: bool)
        ensures
            is == (self@ is Object),
    {
        self.value.is_object()
    }

    /// Whether the value is an object with a member `name`.
    pub fn has_member(&self, name: &str) -> (has: bool)
        ensures
            has == (self@.member(name@) is Some),
    {
        value_get(&self.value, name).is_some()
    }

    /// The member `name`, where the value is an object that has it and it is a string.
    pub fn str_member(&self, name: &str) -> (member: Option<&str>)
        ensures
            match member {
                Some(s) => self@.str_member(name@) == Some(s@),
                None => self@.str_member(name@) is None,
            },
    {
        match value_get(&self.value, name) {
            Some(value) => value.as_str(),
            None => None,
        }
    }
}

} // verus!
