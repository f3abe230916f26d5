//! JSON values as trees: what a text frame holds once it has been read.

use serde_json::Value;
use vstd::prelude::*;

verus! {

/// A JSON value.
#[derive(Debug, PartialEq, Eq)]
pub enum Json {
    Null,
    Bool(bool),
    /// A number, as its decimal text.
    Number(String),
    Text(String),
    Array(Vec<Json>),
    /// The members of an object, each a name and a value.
    Object(Vec<(String, Json)>),
}

/// Mathematical value of a [`Json`].
pub enum JsonView {
    Null,
    Bool(bool),
    Number(Seq<char>),
    Text(Seq<char>),
    Array(Seq<JsonView>),
    Object(Seq<(Seq<char>, JsonView)>),
}

/// The value of a tree, node by node.
pub open spec fn tree(json: Json) -> JsonView
    decreases json,
{
    match json {
        Json::Null => JsonView::Null,
        Json::Bool(b) => JsonView::Bool(b),
        Json::Number(n) => JsonView::Number(n@),
        Json::Text(t) => JsonView::Text(t@),
        Json::Array(items) => JsonView::Array(
            Seq::new(
                items@.len(),
                |i: int|
                    if 0 <= i < items@.len() {
                        tree(items@[i])
                    } else {
                        JsonView::Null
                    },
            ),
        ),
        Json::Object(members) => JsonView::Object(
            Seq::new(
                members@.len(),
                |i: int|
                    if 0 <= i < members@.len() {
                        (members@[i].0@, tree(members@[i].1))
                    } else {
                        (Seq::empty(), JsonView::Null)
                    },
            ),
        ),
    }
}

impl View for Json {
    type V = JsonView;

    open spec fn view(&self) -> JsonView {
        tree(*self)
    }
}

impl DeepView for Json {
    type V = JsonView;

    open spec fn deep_view(&self) -> JsonView {
        self@
    }
}

/// A value of the `serde_json` crate: what that crate reads from a text.
#[verifier::external_type_specification]
#[verifier::external_body]
pub struct ExValue(Value);

/// The tree that a value of the `serde_json` crate holds: its nodes, with the
/// members of an object in the order in which the value hands them out, and a
/// number as the text that the crate writes for it.
pub uninterp spec fn value_tree(value: Value) -> JsonView;

/// The tree of the value that the `serde_json` crate reads from a text, if it
/// reads one.
pub uninterp spec fn parsed_tree(text: Seq<char>) -> Option<JsonView>;

/// Calls `serde_json::from_str` for a `Value`. The reading depends on the text
/// alone; the contract names what was read and claims nothing about which
/// texts are read.
#[verifier::external_body]
pub(crate) fn read_value(text: &str) -> (r: Option<Value>)
    ensures
        match r {
            Some(value) => parsed_tree(text@) == Some(value_tree(value)),
            None => parsed_tree(text@) is None,
        },
{
    serde_json::from_str::<Value>(text).ok()
}

/// Copies a `Value` of the `serde_json` crate node by node: one arm per
/// variant, a number by its `to_string`, the items of an array and the members
/// of an object in the order of their iterators. The contract names the copy.
#[verifier::external_body]
pub(crate) fn tree_of(value: &Value) -> (tree: Json)
    ensures
        tree@ == value_tree(*value),
{
    match value {
        Value::Null => Json::Null,
        Value::Bool(b) => Json::Bool(*b),
        Value::Number(n) => Json::Number(n.to_string()),
        Value::String(s) => Json::Text(s.clone()),
        Value::Array(items) => Json::Array(items.iter().map(tree_of).collect()),
        Value::Object(members) => Json::Object(
            members.iter().map(|(name, value)| (name.clone(), tree_of(value))).collect(),
        ),
    }
}

/// Whether the text `a` comes before the text `b` when texts are ordered
/// character by character.
pub open spec fn text_before(a: Seq<char>, b: Seq<char>) -> bool
    decreases a.len(),
{
    if b.len() == 0 {
        false
    } else if a.len() == 0 {
        true
    } else if a[0] != b[0] {
        (a[0] as int) < (b[0] as int)
    } else {
        text_before(a.drop_first(), b.drop_first())
    }
}

/// Whether a tree is one that a value of the `serde_json` crate holds as it
/// stands: it has no number, and in every object the names of the members
/// ascend, so that no name occurs twice.
pub open spec fn canonical(tree: JsonView) -> bool
    decreases tree,
{
    match tree {
        JsonView::Null => true,
        JsonView::Bool(_) => true,
        JsonView::Number(_) => false,
        JsonView::Text(_) => true,
        JsonView::Array(items) => forall|i: int|
            0 <= i < items.len() ==> canonical(#[trigger] items[i]),
        JsonView::Object(members) => {
            &&& forall|i: int| 0 <= i < members.len() ==> canonical((#[trigger] members[i]).1)
            &&& forall|i: int, j: int|
                0 <= i < j < members.len() ==> text_before(
                    (#[trigger] members[i]).0,
                    (#[trigger] members[j]).0,
                )
        },
    }
}

/// The text that the `serde_json` crate writes for a value that holds the
/// tree.
pub uninterp spec fn written_text(tree: JsonView) -> Seq<char>;

/// Builds the `Value` of the `serde_json` crate for a canonical tree, node by
/// node: one arm per variant, an object by collecting its members into the
/// crate's map. That map keeps one member per name and hands its members out
/// in ascending order of their names, or, built to preserve order, in the
/// order in which they went in; for members whose names ascend the two are
/// the same. So the tree is the tree of its value. A canonical tree has no
/// number; the arm for one is never taken.
#[verifier::external_body]
pub(crate) fn value_of(tree: &Json) -> (value: Value)
    requires
        canonical(tree@),
    ensures
        value_tree(value) == tree@,
{
    match tree {
        Json::Null => Value::Null,
        Json::Bool(b) => Value::Bool(*b),
        Json::Number(_) => Value::Null,
        Json::Text(s) => Value::String(s.clone()),
        Json::Array(items) => Value::Array(items.iter().map(value_of).collect()),
        Json::Object(members) => Value::Object(
            members.iter().map(|member| (member.0.clone(), value_of(&member.1))).collect(),
        ),
    }
}

/// Calls `serde_json::to_string` on a `Value`. The crate names two ways in
/// which that function fails: the `Serialize` of what it is given fails, or a
/// map in it has keys that are no strings. The `Serialize` of `Value` only
/// hands the nodes to the serializer, the maps of a `Value` are keyed by
/// `String`, and the serializer itself fails only where its writer does, which
/// here is a `Vec<u8>`. So a text is always written: the one named for the
/// tree of the value.
#[verifier::external_body]
pub(crate) fn write_value(value: &Value) -> (r: Option<String>)
    ensures
        r is Some,
        r matches Some(text) ==> text@ == written_text(value_tree(*value)),
{
    serde_json::to_string(value).ok()
}

/// Writes a canonical tree as a JSON text: the text that is named for it.
pub(crate) fn print(tree: &Json) -> (r: Option<String>)
    requires
        canonical(tree@),
    ensures
        r matches Some(text) && text@ == written_text(tree@),
{
    let value = value_of(tree);
    write_value(&value)
}

/// Reads a JSON text as a tree; a text that is no JSON gives none.
pub fn parse(text: &str) -> (r: Option<Json>)
    ensures
        r.deep_view() == parsed_tree(text@),
{
    match read_value(text) {
        Some(value) => Some(tree_of(&value)),
        None => None,
    }
}

/// Whether a member named `name` occurs in `members`.
pub open spec fn has_member(members: Seq<(Seq<char>, JsonView)>, name: Seq<char>) -> bool {
    exists|i: int| 0 <= i < members.len() && (#[trigger] members[i]).0 == name
}

/// The position of the first member named `name`.
pub open spec fn member_position(members: Seq<(Seq<char>, JsonView)>, name: Seq<char>) -> int {
    choose|i: int|
        0 <= i < members.len() && (#[trigger] members[i]).0 == name && forall|j: int|
            0 <= j < i ==> (#[trigger] members[j]).0 != name
}

impl JsonView {
    /// The value of the first member named `name`, for an object that has
    /// one.
    pub open spec fn member(self, name: Seq<char>) -> Option<JsonView> {
        match self {
            JsonView::Object(members) => if has_member(members, name) {
                Some(members[member_position(members, name)].1)
            } else {
                None
            },
            _ => None,
        }
    }

    /// The text, for a text.
    pub open spec fn text(self) -> Option<Seq<char>> {
        match self {
            JsonView::Text(t) => Some(t),
            _ => None,
        }
    }

    /// The items, for an array.
    pub open spec fn items(self) -> Option<Seq<JsonView>> {
        match self {
            JsonView::Array(items) => Some(items),
            _ => None,
        }
    }

    /// The name and the value of the member, for an object with exactly one.
    pub open spec fn only_member(self) -> Option<(Seq<char>, JsonView)> {
        match self {
            JsonView::Object(members) => if members.len() == 1 {
                Some(members[0])
            } else {
                None
            },
            _ => None,
        }
    }
}

/// The first member named `name` is the one at `i`.
pub proof fn lemma_member_at(members: Seq<(Seq<char>, JsonView)>, name: Seq<char>, i: int)
    requires
        0 <= i < members.len(),
        members[i].0 == name,
        forall|j: int| 0 <= j < i ==> (#[trigger] members[j]).0 != name,
    ensures
        has_member(members, name),
        member_position(members, name) == i,
        JsonView::Object(members).member(name) == Some(members[i].1),
{
}

/// Whether `name` is the text `literal`.
pub fn is_text(name: &String, literal: &str) -> (r: bool)
    ensures
        r == (name@ == literal@),
{
    *name == literal.to_owned()
}

impl Json {
    /// The text, for a text.
    pub fn as_text(&self) -> (r: Option<&String>)
        ensures
            r.deep_view() == self@.text(),
    {
        match self {
            Json::Text(t) => Some(t),
            _ => None,
        }
    }

    /// The items, for an array.
    pub fn as_items(&self) -> (r: Option<&Vec<Json>>)
        ensures
            match r {
                Some(items) => self@.items() == Some(items.deep_view()),
                None => self@.items() is None,
            },
    {
        match self {
            Json::Array(items) => {
                Some(items)
            },
            _ => None,
        }
    }

    /// The value of the first member named `name`, for an object that has
    /// one.
    pub fn member(&self, name: &str) -> (r: Option<&Json>)
        ensures
            r.deep_view() == self@.member(name@),
    {
        match self {
            Json::Object(members) => {
                let ghost all = self@->Object_0;
                let mut i: usize = 0;
                while i < members.len()
                    invariant
                        i <= members.len(),
                        self@ == JsonView::Object(all),
                        all.len() == members@.len(),
                        forall|j: int|
                            0 <= j < members@.len() ==> (#[trigger] all[j]) == (
                                members@[j].0@,
                                members@[j].1@,
                            ),
                        forall|j: int| 0 <= j < i ==> (#[trigger] all[j]).0 != name@,
                    decreases members.len() - i,
                {
                    if is_text(&members[i].0, name) {
                        proof {
                            lemma_member_at(all, name@, i as int);
                        }
                        return Some(&members[i].1);
                    }
                    i += 1;
                }
                None
            },
            _ => None,
        }
    }

    /// The name and the value of the member, for an object with exactly one.
    pub fn as_only_member(&self) -> (r: Option<(&String, &Json)>)
        ensures
            match r {
                Some(member) => self@.only_member() == Some((member.0@, member.1@)),
                None => self@.only_member() is None,
            },
    {
        match self {
            Json::Object(members) => {
                if members.len() == 1 {
                    Some((&members[0].0, &members[0].1))
                } else {
                    None
                }
            },
            _ => None,
        }
    }
}

} // verus!
