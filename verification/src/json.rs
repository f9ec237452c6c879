//! JSON documents: `serde_json` values, what they hold, and how one is read and built.

use serde_json::Value;
use vstd::prelude::*;

verus! {

/// A JSON document as a mathematical value.
pub enum Tree {
    /// `null`.
    Null,
    /// `true` or `false`.
    Bool(bool),
    /// A number that is held as an integer.
    Whole(int),
    /// A number that is held as a double, by its bit pattern.
    Double(u64),
    /// A string.
    Text(Seq<char>),
    /// An array.
    Array(Seq<Tree>),
    /// An object, by its keys.
    Object(Map<Seq<char>, Tree>),
}

impl Tree {
    /// What a string index picks: the member of an object with that key, `null` where there is none.
    pub open spec fn member(self, key: Seq<char>) -> Tree {
        match self {
            Tree::Object(members) => if members.contains_key(key) {
                members[key]
            } else {
                Tree::Null
            },
            _ => Tree::Null,
        }
    }

    /// What a number index picks: the item of an array at that place, `null` where there is none.
    pub open spec fn item(self, at: int) -> Tree {
        match self {
            Tree::Array(items) => if 0 <= at < items.len() {
                items[at]
            } else {
                Tree::Null
            },
            _ => Tree::Null,
        }
    }

    /// The text of a string; `None` for any other document.
    pub open spec fn text(self) -> Option<Seq<char>> {
        match self {
            Tree::Text(s) => Some(s),
            _ => None,
        }
    }
}

/// `serde_json::Value`, a JSON document.
#[verifier::external_type_specification]
#[verifier::external_body]
pub struct ExValue(serde_json::Value);

/// `serde_json::Map`, the members of a JSON object.
#[verifier::external_type_specification]
#[verifier::external_body]
#[verifier::reject_recursive_types(K)]
#[verifier::reject_recursive_types(V)]
pub struct ExMap<K, V>(serde_json::Map<K, V>);

/// The document that a `serde_json::Value` holds.
pub uninterp spec fn tree(v: serde_json::Value) -> Tree;

/// The members that a `serde_json::Map` holds, by their keys.
pub uninterp spec fn members(m: serde_json::Map<String, serde_json::Value>) -> Map<Seq<char>, Tree>;

/// What `serde_json::from_slice` makes of a text: the document that it holds, or how the error is
/// displayed that says why it holds none.
pub uninterp spec fn parsed(body: Seq<u8>) -> Result<Tree, Seq<char>>;

/// The compact text that `Value`'s `Display` gives for a document.
pub uninterp spec fn shown(t: Tree) -> Seq<char>;

/// The bit pattern of the double that `Duration::as_secs_f64` gives for so many nanoseconds.
pub uninterp spec fn seconds(nanos: u64) -> u64;

/// The members of an empty object.
pub open spec fn no_members() -> Map<Seq<char>, Tree> {
    Map::empty()
}

/// The documents that the values of a sequence hold.
pub open spec fn trees(items: Seq<Value>) -> Seq<Tree> {
    items.map_values(|v: Value| tree(v))
}

/// `serde_json::from_slice` into a `Value`: the document that the text holds or, where the text is
/// no JSON document, the error as it is displayed.
#[verifier::external_body]
pub(crate) fn parse(body: &[u8]) -> (r: Result<Value, String>)
    ensures
        match r {
            Ok(v) => parsed(body@) == Ok::<Tree, Seq<char>>(tree(v)),
            Err(why) => parsed(body@) == Err::<Tree, Seq<char>>(why@),
        },
{
    serde_json::from_slice(body).map_err(|e| e.to_string())
}

/// `Value`'s index by a string: the member of an object with that key, `null` where there is none.
#[verifier::external_body]
pub(crate) fn member<'a>(v: &'a Value, key: &str) -> (r: &'a Value)
    ensures
        tree(*r) == tree(*v).member(key@),
{
    &v[key]
}

/// `Value`'s index by a number: the item of an array at that place, `null` where there is none.
#[verifier::external_body]
pub(crate) fn item(v: &Value, at: usize) -> (r: &Value)
    ensures
        tree(*r) == tree(*v).item(at as int),
{
    &v[at]
}

/// `Value::as_str`: the text of a string, `None` for any other document.
#[verifier::external_body]
pub(crate) fn as_text(v: &Value) -> (r: Option<&str>)
    ensures
        (r is Some) == (tree(*v).text() is Some),
        r matches Some(s) ==> tree(*v).text() == Some(s@),
{
    v.as_str()
}

/// `Value`'s display: the compact text of the document.
#[verifier::external_body]
pub(crate) fn show(v: &Value) -> (r: String)
    ensures
        r@ == shown(tree(*v)),
{
    v.to_string()
}

/// `Value::Null`.
#[verifier::external_body]
pub(crate) fn null() -> (r: Value)
    ensures
        tree(r) == Tree::Null,
{
    Value::Null
}

/// `Value::Bool`.
#[verifier::external_body]
pub(crate) fn boolean(b: bool) -> (r: Value)
    ensures
        tree(r) == Tree::Bool(b),
{
    Value::Bool(b)
}

/// `Value::from` of a `usize`: a whole number.
#[verifier::external_body]
pub(crate) fn count(n: usize) -> (r: Value)
    ensures
        tree(r) == Tree::Whole(n as int),
{
    Value::from(n)
}

/// `Value::from` of the seconds that `Duration::as_secs_f64` gives for so many nanoseconds. The
/// seconds of a duration are finite, so the value is a number.
#[verifier::external_body]
pub(crate) fn duration(nanos: u64) -> (r: Value)
    ensures
        tree(r) == Tree::Double(seconds(nanos)),
{
    Value::from(std::time::Duration::from_nanos(nanos).as_secs_f64())
}

/// `Value::String`.
#[verifier::external_body]
pub(crate) fn text(s: &str) -> (r: Value)
    ensures
        tree(r) == Tree::Text(s@),
{
    Value::String(s.to_owned())
}

/// `Value::Array`.
#[verifier::external_body]
pub(crate) fn array(items: Vec<Value>) -> (r: Value)
    ensures
        tree(r) == Tree::Array(trees(items@)),
{
    Value::Array(items)
}

/// `Value::Object`.
#[verifier::external_body]
pub(crate) fn object(m: serde_json::Map<String, Value>) -> (r: Value)
    ensures
        tree(r) == Tree::Object(members(m)),
{
    Value::Object(m)
}

/// `serde_json::Map::new`: an object without members.
pub assume_specification [serde_json::Map::<String, serde_json::Value>::new] () -> (m: serde_json::Map<String, serde_json::Value>)
    ensures
        members(m) == no_members(),
;

/// `serde_json::Map::insert`: sets one member, leaves the others, and gives back what was there.
pub assume_specification [serde_json::Map::<String, serde_json::Value>::insert] (m: &mut serde_json::Map<String, serde_json::Value>, k: String, v: serde_json::Value) -> (r: Option<serde_json::Value>)
    ensures
        members(*final(m)) == members(*old(m)).insert(k@, tree(v)),
        (r is Some) == members(*old(m)).contains_key(k@),
        r matches Some(w) ==> tree(w) == members(*old(m))[k@],
;

/// An optional text as a document: the text, or `null`.
pub open spec fn text_or_null(o: Option<Seq<char>>) -> Tree {
    match o {
        Some(s) => Tree::Text(s),
        None => Tree::Null,
    }
}

/// The document of an optional text.
pub(crate) fn optional(o: &Option<String>) -> (r: Value)
    ensures
        tree(r) == text_or_null(crate::text::opt(*o)),
{
    match o {
        Some(s) => text(s.as_str()),
        None => null(),
    }
}

/// What is picked out of a document: the member of an object under its key, the item of an array at
/// its place, the text of a string; `null`, or no text, where there is nothing of the kind.
pub proof fn law_picking(t: Tree, key: Seq<char>, at: int)
    ensures
        t matches Tree::Object(members) ==> (members.contains_key(key) ==> t.member(key)
            == members[key]),
        t matches Tree::Object(members) ==> (!members.contains_key(key) ==> t.member(key)
            == Tree::Null),
        t !is Object ==> t.member(key) == Tree::Null,
        t matches Tree::Array(items) ==> (0 <= at < items.len() ==> t.item(at) == items[at]),
        t matches Tree::Array(items) ==> (at >= items.len() ==> t.item(at) == Tree::Null),
        t !is Array ==> t.item(at) == Tree::Null,
        t matches Tree::Text(s) ==> t.text() == Some(s),
        t !is Text ==> t.text() is None,
{
}

/// An optional text is shown as itself, and as `null` where it is not there.
pub proof fn law_missing_texts_are_null(o: Option<Seq<char>>)
    ensures
        o is Some <==> text_or_null(o).text() is Some,
        o is Some ==> text_or_null(o).text() == o,
        o is None ==> text_or_null(o) == Tree::Null,
{
}

} // verus!
