//! JSON documents as plain values, and the calls into `serde_json` that make them.

use vstd::prelude::*;
use vstd::utf8::encode_utf8;

use crate::auth::{is_standard_document, standard_auth_text, TokensView};
use crate::text;

verus! {

/// What a JSON document says: the model of [`Json`].
pub enum JsonView {
    Null,
    Bool(bool),
    /// A number, with its value where that is an integer that a `u64` can hold.
    Number(Option<u64>),
    Text(Seq<char>),
    Array(Seq<JsonView>),
    /// The members in the order in which the document is walked.
    Object(Seq<(Seq<char>, JsonView)>),
}

/// A JSON document.
pub enum Json {
    Null,
    Bool(bool),
    /// A number, with its value where that is an integer that a `u64` can hold.
    Number(Option<u64>),
    Text(String),
    Array(Vec<Json>),
    /// The members in the order in which the document is walked.
    Object(Vec<(String, Json)>),
}

/// What a document says.
pub open spec fn model(json: Json) -> JsonView
    decreases json,
{
    match json {
        Json::Null => JsonView::Null,
        Json::Bool(b) => JsonView::Bool(b),
        Json::Number(n) => JsonView::Number(n),
        Json::Text(s) => JsonView::Text(s@),
        Json::Array(items) => JsonView::Array(
            Seq::new(
                items@.len(),
                |i: int|
                    if 0 <= i < items@.len() {
                        model(items@[i])
                    } else {
                        JsonView::Null
                    },
            ),
        ),
        Json::Object(members) => JsonView::Object(
            Seq::new(
                members@.len(),
                |i: int|
                    if 0 <= i < members@.len() {
                        (members@[i].0@, model(members@[i].1))
                    } else {
                        (Seq::empty(), JsonView::Null)
                    },
            ),
        ),
    }
}

impl View for Json {
    type V = JsonView;

    open spec fn view(&self) -> JsonView {
        model(*self)
    }
}

/// The document tree of `serde_json`.
#[verifier::external_type_specification]
#[verifier::external_body]
pub struct ExValue(serde_json::Value);

/// The error of `serde_json`.
#[verifier::external_type_specification]
#[verifier::external_body]
pub struct ExJsonError(serde_json::Error);

/// What `serde_json::from_slice` reads in a text: the document, or nothing where it is refused.
pub uninterp spec fn document_of(text: Seq<u8>) -> Option<JsonView>;

/// What a tree of `serde_json` holds.
pub uninterp spec fn tree_of(value: serde_json::Value) -> JsonView;

/// One level of a tree of `serde_json`.
pub enum Node {
    Null,
    Bool(bool),
    Number(Option<u64>),
    Text(String),
    Array(Vec<serde_json::Value>),
    Object(Vec<(String, serde_json::Value)>),
}

/// The tree with the given top level.
pub open spec fn tree_of_node(node: Node) -> JsonView {
    match node {
        Node::Null => JsonView::Null,
        Node::Bool(b) => JsonView::Bool(b),
        Node::Number(n) => JsonView::Number(n),
        Node::Text(s) => JsonView::Text(s@),
        Node::Array(items) => JsonView::Array(
            Seq::new(items@.len(), |i: int| tree_of(items@[i])),
        ),
        Node::Object(members) => JsonView::Object(
            Seq::new(members@.len(), |i: int| (members@[i].0@, tree_of(members@[i].1))),
        ),
    }
}

/// The document is the one that a standard auth file spells, if the text is such a file.
pub open spec fn standard_file_is_read(text: Seq<u8>, document: Option<JsonView>) -> bool {
    forall|tokens: TokensView|
        text == #[trigger] encode_utf8(standard_auth_text(tokens)) ==> {
            &&& document is Some
            &&& is_standard_document(document->0, tokens)
        }
}

/// The document that a reader handed over.
pub open spec fn value_view(r: Result<serde_json::Value, serde_json::Error>) -> Option<JsonView> {
    match r {
        Ok(value) => Some(tree_of(value)),
        Err(_) => None,
    }
}

/// `serde_json::from_slice` into its own tree: `Ok` with the document that the bytes spell, `Err`
/// where they spell none. A standard auth file is an object with distinct names, whose string
/// literals are those of `serde_json` itself, so it is read as the document that it was made of.
#[verifier::external_body]
fn read_value(data: &[u8]) -> (r: Result<serde_json::Value, serde_json::Error>)
    ensures
        value_view(r) == document_of(data@),
        standard_file_is_read(data@, value_view(r)),
{
    serde_json::from_slice(data)
}

/// Takes a `serde_json::Value` apart by its variant. The members of an object come in the order of
/// its map, which holds no name twice; of a number, `Number::as_u64` gives the value.
#[verifier::external_body]
fn open_value(value: serde_json::Value) -> (node: Node)
    ensures
        tree_of(value) == tree_of_node(node),
{
    match value {
        serde_json::Value::Null => Node::Null,
        serde_json::Value::Bool(b) => Node::Bool(b),
        serde_json::Value::Number(n) => Node::Number(n.as_u64()),
        serde_json::Value::String(s) => Node::Text(s),
        serde_json::Value::Array(items) => Node::Array(items),
        serde_json::Value::Object(members) => Node::Object(members.into_iter().collect()),
    }
}

/// The document that a tree of `serde_json` holds.
pub fn from_value(value: serde_json::Value) -> (r: Json)
    ensures
        r@ == tree_of(value),
    decreases tree_of(value),
{
    match open_value(value) {
        Node::Null => Json::Null,
        Node::Bool(b) => Json::Bool(b),
        Node::Number(n) => Json::Number(n),
        Node::Text(s) => Json::Text(s),
        Node::Array(items) => {
            let ghost all = items@;
            let mut done: Vec<Json> = Vec::new();
            for item in it: items.into_iter()
                invariant
                    it.seq() == all,
                    tree_of(value) == JsonView::Array(
                        Seq::new(all.len(), |i: int| tree_of(all[i])),
                    ),
                    done@.len() == it.index(),
                    forall|k: int| 0 <= k < done@.len() ==> (#[trigger] done@[k])@ == tree_of(all[k]),
            {
                assert(tree_of(value)->Array_0[it.index() as int] == tree_of(item));
                assert(decreases_to!(tree_of(value) => tree_of(value)->Array_0));
                assert(decreases_to!(tree_of(value)->Array_0 => tree_of(value)->Array_0[it.index() as int]));
                done.push(from_value(item));
            }
            let r = Json::Array(done);
            assert(r@->Array_0 =~= tree_of(value)->Array_0);
            r
        },
        Node::Object(members) => {
            let ghost all = members@;
            let mut done: Vec<(String, Json)> = Vec::new();
            for member in it: members.into_iter()
                invariant
                    it.seq() == all,
                    tree_of(value) == JsonView::Object(
                        Seq::new(all.len(), |i: int| (all[i].0@, tree_of(all[i].1))),
                    ),
                    done@.len() == it.index(),
                    forall|k: int|
                        0 <= k < done@.len() ==> (#[trigger] done@[k]).0@ == all[k].0@
                            && done@[k].1@ == tree_of(all[k].1),
            {
                assert(tree_of(value)->Object_0[it.index() as int].1 == tree_of(member.1));
                assert(decreases_to!(tree_of(value) => tree_of(value)->Object_0));
                assert(decreases_to!(tree_of(value)->Object_0 => tree_of(value)->Object_0[it.index() as int]));
                assert(decreases_to!(tree_of(value)->Object_0[it.index() as int] => tree_of(value)->Object_0[it.index() as int].1));
                let (name, inner) = member;
                done.push((name, from_value(inner)));
            }
            let r = Json::Object(done);
            assert(r@->Object_0 =~= tree_of(value)->Object_0);
            r
        },
    }
}

/// Reads a JSON text.
pub fn parse(data: &[u8]) -> (r: Option<Json>)
    ensures
        match r {
            Some(document) => document_of(data@) == Some(document@),
            None => document_of(data@) is None,
        },
        standard_file_is_read(data@, document_of(data@)),
{
    match read_value(data) {
        Ok(value) => Some(from_value(value)),
        Err(_) => None,
    }
}

/// The first member of the given name.
pub open spec fn lookup(members: Seq<(Seq<char>, JsonView)>, name: Seq<char>) -> Option<JsonView>
    decreases members.len(),
{
    if members.len() == 0 {
        None
    } else if members[0].0 == name {
        Some(members[0].1)
    } else {
        lookup(members.drop_first(), name)
    }
}

impl JsonView {
    /// The member of the given name, where the document is an object that has one.
    pub open spec fn member(self, name: Seq<char>) -> Option<JsonView> {
        match self {
            JsonView::Object(members) => lookup(members, name),
            _ => None,
        }
    }

    /// The text, where the document is one.
    pub open spec fn text(self) -> Option<Seq<char>> {
        match self {
            JsonView::Text(s) => Some(s),
            _ => None,
        }
    }

    /// The text of the member of the given name.
    pub open spec fn text_member(self, name: Seq<char>) -> Option<Seq<char>> {
        match self.member(name) {
            Some(value) => value.text(),
            None => None,
        }
    }

    /// The text of the member of the given name, where it is not empty.
    pub open spec fn filled_member(self, name: Seq<char>) -> Option<Seq<char>> {
        match self.text_member(name) {
            Some(s) => if s.len() > 0 {
                Some(s)
            } else {
                None
            },
            None => None,
        }
    }
}

/// The model of an optional document.
pub open spec fn option_json_view(json: Option<&Json>) -> Option<JsonView> {
    match json {
        Some(json) => Some(json@),
        None => None,
    }
}

impl Json {
    pub fn is_object(&self) -> (r: bool)
        ensures
            r == (self@ is Object),
    {
        match self {
            Json::Object(_) => true,
            _ => false,
        }
    }

    /// `Value::get` by name, also on what is no object.
    pub fn get(&self, name: &str) -> (r: Option<&Json>)
        ensures
            option_json_view(r) == self@.member(name@),
    {
        match self {
            Json::Object(members) => {
                let ghost all = self@->Object_0;
                let mut i: usize = 0;
                assert(all.skip(0) =~= all);
                while i < members.len()
                    invariant
                        i <= members.len(),
                        self@ == JsonView::Object(all),
                        all.len() == members@.len(),
                        forall|k: int| 0 <= k < members@.len() ==> #[trigger] all[k] == (
                            members@[k].0@,
                            members@[k].1@,
                        ),
                        lookup(all, name@) == lookup(all.skip(i as int), name@),
                    decreases members.len() - i,
                {
                    assert(all.skip(i as int)[0] == all[i as int]);
                    if text::same(members[i].0.as_str(), name) {
                        return Some(&members[i].1);
                    }
                    assert(all.skip(i as int).drop_first() =~= all.skip(i as int + 1));
                    i = i + 1;
                }
                None
            },
            _ => None,
        }
    }

    /// `Value::as_str`.
    pub fn as_text(&self) -> (r: Option<&str>)
        ensures
            text::option_str_view(r) == self@.text(),
    {
        match self {
            Json::Text(s) => Some(s.as_str()),
            _ => None,
        }
    }

    /// The text of a member.
    pub fn text_member(&self, name: &str) -> (r: Option<&str>)
        ensures
            text::option_str_view(r) == self@.text_member(name@),
    {
        match self.get(name) {
            Some(value) => value.as_text(),
            None => None,
        }
    }

    /// The text of a member, where it is not empty.
    pub fn filled_member(&self, name: &str) -> (r: Option<&str>)
        ensures
            text::option_str_view(r) == self@.filled_member(name@),
    {
        match self.text_member(name) {
            Some(s) => if s.is_empty() {
                None
            } else {
                Some(s)
            },
            None => None,
        }
    }

    /// `Value::as_u64`.
    pub fn as_u64(&self) -> (r: Option<u64>)
        ensures
            r == match self@ {
                JsonView::Number(n) => n,
                _ => None,
            },
    {
        match self {
            Json::Number(n) => *n,
            _ => None,
        }
    }
}

}
