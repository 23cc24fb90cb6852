//! JSON documents as trees of plain values.

use vstd::prelude::*;
use vstd::string::StringExecFns;

use crate::error::{Error, Result};

verus! {

/// A JSON value. A number is kept as its decimal text; the members of an
/// object are kept in the order of the document.
#[derive(Debug, PartialEq)]
pub enum Json {
    /// `null`
    Null,
    /// `true` or `false`
    Bool(bool),
    /// A number, as its decimal text
    Number(String),
    /// A string
    Text(String),
    /// An array, item by item
    Array(Vec<Json>),
    /// An object, member by member, each with its name
    Object(Vec<(String, Json)>),
}

/// What a [`Json`] stands for.
pub enum JsonView {
    Null,
    Bool(bool),
    Number(Seq<char>),
    Text(Seq<char>),
    Array(Seq<JsonView>),
    Object(Seq<(Seq<char>, JsonView)>),
}

/// The tree that a [`Json`] stands for.
pub open spec fn tree_of(json: Json) -> JsonView
    decreases json,
{
    match json {
        Json::Null => JsonView::Null,
        Json::Bool(b) => JsonView::Bool(b),
        Json::Number(text) => JsonView::Number(text@),
        Json::Text(text) => JsonView::Text(text@),
        Json::Array(items) => JsonView::Array(
            Seq::new(
                items@.len(),
                |i: int|
                    if 0 <= i < items@.len() {
                        tree_of(items@[i])
                    } else {
                        JsonView::Null
                    },
            ),
        ),
        Json::Object(members) => JsonView::Object(
            Seq::new(
                members@.len(),
                |i: int|
                    if 0 <= i < members@.len() {
                        (members@[i].0@, tree_of(members@[i].1))
                    } else {
                        (Seq::empty(), JsonView::Null)
                    },
            ),
        ),
    }
}

impl View for Json {
    type V = JsonView;

    open spec fn view(&self) -> JsonView {
        tree_of(*self)
    }
}

/// The trees of a list of values, one for one.
pub open spec fn trees_of(items: Seq<Json>) -> Seq<JsonView> {
    Seq::new(items.len(), |i: int| items[i]@)
}

/// The members of an object as names and trees, one for one.
pub open spec fn members_of(members: Seq<(String, Json)>) -> Seq<(Seq<char>, JsonView)> {
    Seq::new(members.len(), |i: int| (members[i].0@, members[i].1@))
}

/// An array stands for the trees of its items.
pub(crate) proof fn lemma_array_view(json: Json)
    requires
        json is Array,
    ensures
        json@ == JsonView::Array(trees_of(json->Array_0@)),
{
    assert(json@->Array_0 =~= trees_of(json->Array_0@));
}

/// An object stands for its members, names and trees.
pub(crate) proof fn lemma_object_view(json: Json)
    requires
        json is Object,
    ensures
        json@ == JsonView::Object(members_of(json->Object_0@)),
{
    assert(json@->Object_0 =~= members_of(json->Object_0@));
}

/// What was read from each item, where every item could be read.
pub open spec fn all_read<T>(items: Seq<Option<T>>) -> Option<Seq<T>> {
    if forall|i: int| 0 <= i < items.len() ==> (#[trigger] items[i]) is Some {
        Some(Seq::new(items.len(), |i: int| items[i]->0))
    } else {
        None
    }
}

/// Every item was read, as `found` has it.
pub(crate) proof fn lemma_all_read<T>(items: Seq<Option<T>>, found: Seq<T>)
    requires
        items.len() == found.len(),
        forall|i: int| 0 <= i < items.len() ==> items[i] == Some(found[i]),
    ensures
        all_read(items) == Some(found),
{
    assert(all_read(items)->0 =~= found);
}

/// One item could not be read.
pub(crate) proof fn lemma_not_all_read<T>(items: Seq<Option<T>>, i: int)
    requires
        0 <= i < items.len(),
        items[i] is None,
    ensures
        all_read(items) is None,
{
}

/// `serde_json::Value`, carried through as the reader made it.
#[verifier::external_type_specification]
#[verifier::external_body]
pub struct ExValue(serde_json::Value);

/// The tree that a `serde_json::Value` holds: its variant, and under it the
/// boolean, the number as `serde_json::Number` displays it, the string, the
/// items in order, or the members in the order in which its map walks them.
pub uninterp spec fn value_tree(value: serde_json::Value) -> JsonView;

/// The tree that the JSON reader makes of a text, or `None` where the text
/// is no JSON document.
pub uninterp spec fn json_document(text: Seq<char>) -> Option<JsonView>;

/// The text that `serde_json::Number` displays for the number that it reads
/// from `text`, or `None` where it reads none from it.
pub uninterp spec fn number_form(text: Seq<char>) -> Option<Seq<char>>;

/// The text on one line that the JSON writer makes of a tree, or `None`
/// where it makes none.
pub uninterp spec fn compact_text(tree: JsonView) -> Option<Seq<char>>;

/// The text laid out for reading that the JSON writer makes of a tree, or
/// `None` where it makes none.
pub uninterp spec fn pretty_text(tree: JsonView) -> Option<Seq<char>>;

/// No two members have the same name.
pub open spec fn names_differ(members: Seq<(Seq<char>, JsonView)>) -> bool {
    forall|i: int, j: int|
        0 <= i < j < members.len() ==> (#[trigger] members[i]).0 != (#[trigger] members[j]).0
}

/// In no object of the tree do two members have the same name.
pub open spec fn well_named(tree: JsonView) -> bool
    decreases tree,
{
    match tree {
        JsonView::Array(items) => forall|i: int|
            0 <= i < items.len() ==> well_named(#[trigger] items[i]),
        JsonView::Object(members) => names_differ(members) && forall|i: int|
            0 <= i < members.len() ==> well_named((#[trigger] members[i]).1),
        _ => true,
    }
}

/// What each item is held as by the JSON writer.
pub open spec fn written_forms(items: Seq<JsonView>) -> Seq<Option<JsonView>>
    decreases items, 0int,
{
    Seq::new(
        items.len(),
        |i: int|
            if 0 <= i < items.len() {
                written_form(items[i])
            } else {
                None
            },
    )
}

/// What the value under each member is held as by the JSON writer.
pub open spec fn written_members(members: Seq<(Seq<char>, JsonView)>) -> Seq<Option<JsonView>>
    decreases members, 0int,
{
    Seq::new(
        members.len(),
        |i: int|
            if 0 <= i < members.len() {
                written_form(members[i].1)
            } else {
                None
            },
    )
}

/// The tree as the JSON writer holds it: every number in the form that
/// [`number_form`] gives, and all else as it is. There is none where a number
/// of the tree is none to the writer.
pub open spec fn written_form(tree: JsonView) -> Option<JsonView>
    decreases tree, 1int,
{
    match tree {
        JsonView::Number(text) => match number_form(text) {
            Some(shown) => Some(JsonView::Number(shown)),
            None => None,
        },
        JsonView::Array(items) => match all_read(written_forms(items)) {
            Some(held) => Some(JsonView::Array(held)),
            None => None,
        },
        JsonView::Object(members) => match all_read(written_members(members)) {
            Some(held) => Some(
                JsonView::Object(Seq::new(members.len(), |i: int| (members[i].0, held[i]))),
            ),
            None => None,
        },
        _ => Some(tree),
    }
}

/// The text that the JSON writer makes of a tree, on one line or laid out
/// for reading: that of the tree as it holds it, where it can hold it.
pub open spec fn document_text(tree: JsonView, pretty: bool) -> Option<Seq<char>> {
    match written_form(tree) {
        Some(held) => if pretty {
            pretty_text(held)
        } else {
            compact_text(held)
        },
        None => None,
    }
}

/// The top level of a `serde_json::Value`, with what lies under it still as
/// the reader made it.
enum Node {
    Null,
    Bool(bool),
    Number(String),
    Text(String),
    Array(Vec<serde_json::Value>),
    Object(Vec<(String, serde_json::Value)>),
}

/// The tree that a [`Node`] stands for.
spec fn node_tree(node: Node) -> JsonView {
    match node {
        Node::Null => JsonView::Null,
        Node::Bool(b) => JsonView::Bool(b),
        Node::Number(text) => JsonView::Number(text@),
        Node::Text(text) => JsonView::Text(text@),
        Node::Array(items) => JsonView::Array(
            Seq::new(items@.len(), |i: int| value_tree(items@[i])),
        ),
        Node::Object(members) => JsonView::Object(
            Seq::new(members@.len(), |i: int| (members@[i].0@, value_tree(members@[i].1))),
        ),
    }
}

/// Calls `serde_json::from_str` for a `serde_json::Value`. The contract gives
/// the outcome a name, [`json_document`]: the same text always gives the same
/// tree, or always fails. A failure carries the reader's message.
#[verifier::external_body]
fn parse_value(text: &str) -> (parsed: core::result::Result<serde_json::Value, String>)
    ensures
        match parsed {
            Ok(value) => json_document(text@) == Some(value_tree(value)),
            Err(_) => json_document(text@) is None,
        },
{
    serde_json::from_str::<serde_json::Value>(text).map_err(|e| e.to_string())
}

/// Takes a `serde_json::Value` apart, one level deep: the variant is kept, a
/// number becomes the text that `serde_json::Number` displays, the items of an
/// array and the members of an object are moved out in their order. The
/// contract says that nothing is lost: the node stands for the tree that the
/// value holds.
#[verifier::external_body]
fn unpack(value: serde_json::Value) -> (node: Node)
    ensures
        node_tree(node) == value_tree(value),
{
    match value {
        serde_json::Value::Null => Node::Null,
        serde_json::Value::Bool(b) => Node::Bool(b),
        serde_json::Value::Number(number) => Node::Number(number.to_string()),
        serde_json::Value::String(text) => Node::Text(text),
        serde_json::Value::Array(items) => Node::Array(items),
        serde_json::Value::Object(members) => Node::Object(members.into_iter().collect()),
    }
}

/// No two members of the node, where it is an object, have the same name.
spec fn node_names_differ(node: Node) -> bool {
    node matches Node::Object(members) ==> forall|i: int, j: int|
        0 <= i < j < members@.len() ==> (#[trigger] members@[i]).0@ != (#[trigger] members@[j]).0@
}

/// Puts a `serde_json::Value` together, one level deep: the variant is
/// kept, a number is read from its text by `serde_json::Number::from_str`, the
/// items of an array are moved in, and the members of an object are collected
/// into its map, which keeps them in their order (with `preserve_order`)
/// where their names differ. The contract says that the value holds the tree
/// of the node, with a number in the form that [`number_form`] names, and that
/// only a text that is no number gives `None`.
#[verifier::external_body]
fn pack(node: Node) -> (value: Option<serde_json::Value>)
    ensures
        match value {
            Some(held) => match node {
                Node::Number(text) => number_form(text@) matches Some(shown) && value_tree(held)
                    == JsonView::Number(shown),
                _ => node_names_differ(node) ==> value_tree(held) == node_tree(node),
            },
            None => node matches Node::Number(text) && number_form(text@) is None,
        },
{
    Some(
        match node {
            Node::Null => serde_json::Value::Null,
            Node::Bool(b) => serde_json::Value::Bool(b),
            Node::Number(text) => serde_json::Value::Number(text.parse().ok()?),
            Node::Text(text) => serde_json::Value::String(text),
            Node::Array(items) => serde_json::Value::Array(items),
            Node::Object(members) => serde_json::Value::Object(members.into_iter().collect()),
        },
    )
}

/// Calls `serde_json::to_string` on a `serde_json::Value`. The contract
/// gives the outcome a name, [`compact_text`]: the same tree always gives the
/// same text, or always fails. A failure carries the writer's message.
#[verifier::external_body]
fn to_compact(value: &serde_json::Value) -> (written: core::result::Result<String, String>)
    ensures
        match written {
            Ok(text) => compact_text(value_tree(*value)) == Some(text@),
            Err(_) => compact_text(value_tree(*value)) is None,
        },
{
    serde_json::to_string(value).map_err(|e| e.to_string())
}

/// Calls `serde_json::to_string_pretty` on a `serde_json::Value`. The
/// contract gives the outcome a name, [`pretty_text`]: the same tree always
/// gives the same text, or always fails. A failure carries the writer's
/// message.
#[verifier::external_body]
fn to_pretty(value: &serde_json::Value) -> (written: core::result::Result<String, String>)
    ensures
        match written {
            Ok(text) => pretty_text(value_tree(*value)) == Some(text@),
            Err(_) => pretty_text(value_tree(*value)) is None,
        },
{
    serde_json::to_string_pretty(value).map_err(|e| e.to_string())
}

/// The whole of a `serde_json::Value` as a tree of plain values.
fn from_value(value: serde_json::Value) -> (json: Json)
    ensures
        json@ == value_tree(value),
    decreases value_tree(value),
{
    let ghost whole = value_tree(value);
    match unpack(value) {
        Node::Null => Json::Null,
        Node::Bool(b) => Json::Bool(b),
        Node::Number(text) => Json::Number(text),
        Node::Text(text) => Json::Text(text),
        Node::Array(items) => {
            let ghost below = items@;
            let mut found: Vec<Json> = Vec::new();
            for item in it: items
                invariant
                    it.seq() == below,
                    whole == value_tree(value),
                    whole == JsonView::Array(Seq::new(below.len(), |i: int| value_tree(below[i]))),
                    found@.len() == it.index(),
                    forall|j: int| 0 <= j < found@.len() ==> found@[j]@ == value_tree(below[j]),
            {
                assert(whole->Array_0[it.index() as int] == value_tree(item));
                assert(decreases_to!(whole => whole->Array_0[it.index() as int]));
                found.push(from_value(item));
            }
            let json = Json::Array(found);
            proof {
                lemma_array_view(json);
                assert(trees_of(found@) =~= whole->Array_0);
            }
            json
        },
        Node::Object(members) => {
            let ghost below = members@;
            let mut found: Vec<(String, Json)> = Vec::new();
            for member in it: members
                invariant
                    it.seq() == below,
                    whole == value_tree(value),
                    whole == JsonView::Object(
                        Seq::new(below.len(), |i: int| (below[i].0@, value_tree(below[i].1))),
                    ),
                    found@.len() == it.index(),
                    forall|j: int|
                        0 <= j < found@.len() ==> found@[j].0@ == below[j].0@ && found@[j].1@
                            == value_tree(below[j].1),
            {
                assert(whole->Object_0[it.index() as int].1 == value_tree(member.1));
                assert(decreases_to!(whole => whole->Object_0[it.index() as int].1));
                let (name, under) = member;
                found.push((name, from_value(under)));
            }
            let json = Json::Object(found);
            proof {
                lemma_object_view(json);
                assert(members_of(found@) =~= whole->Object_0);
            }
            json
        },
    }
}

/// Reads a JSON document. A text that is none gives [`Error::JsonOutput`].
pub fn parse_json(text: &str) -> (parsed: Result<Json>)
    ensures
        match parsed {
            Ok(json) => json_document(text@) == Some(json@),
            Err(error) => json_document(text@) is None && error is JsonOutput,
        },
{
    match parse_value(text) {
        Ok(value) => Ok(from_value(value)),
        Err(words) => Err(Error::JsonOutput(words)),
    }
}

/// The tree as a `serde_json::Value`, or `None` where one of its numbers is
/// none to the JSON writer.
fn to_value(json: &Json) -> (value: Option<serde_json::Value>)
    ensures
        match value {
            Some(held) => well_named(json@) ==> written_form(json@) == Some(value_tree(held)),
            None => written_form(json@) is None,
        },
    decreases json,
{
    match json {
        Json::Null => pack(Node::Null),
        Json::Bool(b) => pack(Node::Bool(*b)),
        Json::Number(text) => pack(Node::Number(text.clone())),
        Json::Text(text) => pack(Node::Text(text.clone())),
        Json::Array(items) => {
            proof {
                lemma_array_view(*json);
            }
            let ghost below = written_forms(trees_of(items@));
            let mut values: Vec<serde_json::Value> = Vec::new();
            let mut i: usize = 0;
            while i < items.len()
                invariant
                    i <= items.len(),
                    values.len() == i,
                    json@ == JsonView::Array(trees_of(items@)),
                    below == written_forms(trees_of(items@)),
                    *json == Json::Array(*items),
                    forall|j: int|
                        0 <= j < i && well_named(json@) ==> below[j] == Some(
                            value_tree(#[trigger] values@[j]),
                        ),
                decreases items.len() - i,
            {
                assert(trees_of(items@)[i as int] == items@[i as int]@);
                match to_value(&items[i]) {
                    Some(value) => {
                        values.push(value);
                    },
                    None => {
                        proof {
                            lemma_not_all_read(below, i as int);
                        }
                        return None;
                    },
                }
                i += 1;
            }
            let ghost held = Seq::new(values@.len(), |i: int| value_tree(values@[i]));
            proof {
                if well_named(json@) {
                    lemma_all_read(below, held);
                }
            }
            pack(Node::Array(values))
        },
        Json::Object(members) => {
            proof {
                lemma_object_view(*json);
            }
            let ghost below = written_members(members_of(members@));
            let mut values: Vec<(String, serde_json::Value)> = Vec::new();
            let mut i: usize = 0;
            while i < members.len()
                invariant
                    i <= members.len(),
                    values.len() == i,
                    json@ == JsonView::Object(members_of(members@)),
                    below == written_members(members_of(members@)),
                    *json == Json::Object(*members),
                    forall|j: int| 0 <= j < i ==> (#[trigger] values@[j]).0@ == members@[j].0@,
                    forall|j: int|
                        0 <= j < i && well_named(json@) ==> below[j] == Some(
                            value_tree((#[trigger] values@[j]).1),
                        ),
                decreases members.len() - i,
            {
                assert(members_of(members@)[i as int].1 == members@[i as int].1@);
                match to_value(&members[i].1) {
                    Some(value) => {
                        values.push((members[i].0.clone(), value));
                    },
                    None => {
                        proof {
                            lemma_not_all_read(below, i as int);
                        }
                        return None;
                    },
                }
                i += 1;
            }
            let ghost held = Seq::new(values@.len(), |i: int| value_tree(values@[i].1));
            let ghost node = Node::Object(values);
            proof {
                if well_named(json@) {
                    lemma_all_read(below, held);
                    assert forall|a: int, b: int| 0 <= a < b < values@.len() implies (
                    #[trigger] values@[a]).0@ != (#[trigger] values@[b]).0@ by {
                        assert(members_of(members@)[a].0 == values@[a].0@);
                        assert(members_of(members@)[b].0 == values@[b].0@);
                    }
                    assert(node_names_differ(node));
                    assert(node_tree(node)->Object_0 =~= written_form(json@)->0->Object_0);
                }
            }
            pack(Node::Object(values))
        },
    }
}

/// Every item of a well-named array is well named.
proof fn lemma_well_named_item(items: Seq<JsonView>, i: int)
    requires
        0 <= i < items.len(),
        well_named(JsonView::Array(items)),
    ensures
        well_named(items[i]),
{
    let held = JsonView::Array(items);
    assert(held->Array_0 == items);
    assert(forall|k: int| 0 <= k < items.len() ==> well_named(#[trigger] items[k]));
}

/// The value under every member of a well-named object is well named.
proof fn lemma_well_named_member(members: Seq<(Seq<char>, JsonView)>, i: int)
    requires
        0 <= i < members.len(),
        well_named(JsonView::Object(members)),
    ensures
        well_named(members[i].1),
{
}

/// Whether no two members have the same name.
fn names_are_distinct(members: &Vec<(String, Json)>) -> (distinct: bool)
    ensures
        distinct == names_differ(members_of(members@)),
{
    let ghost all = members_of(members@);
    let mut j: usize = 0;
    while j < members.len()
        invariant
            j <= members.len(),
            all == members_of(members@),
            forall|a: int, b: int|
                0 <= a < b < j ==> (#[trigger] all[a]).0 != (#[trigger] all[b]).0,
        decreases members.len() - j,
    {
        let mut i: usize = 0;
        while i < j
            invariant
                i <= j,
                j < members.len(),
                all == members_of(members@),
                forall|a: int| 0 <= a < i ==> (#[trigger] all[a]).0 != all[j as int].0,
            decreases j - i,
        {
            assert(all[i as int].0 == members@[i as int].0@);
            assert(all[j as int].0 == members@[j as int].0@);
            if members[i].0 == members[j].0 {
                return false;
            }
            i += 1;
        }
        j += 1;
    }
    true
}

/// Whether in no object of the document two members have the same name.
pub fn is_well_named(json: &Json) -> (well: bool)
    ensures
        well == well_named(json@),
    decreases json,
{
    match json {
        Json::Array(items) => {
            proof {
                lemma_array_view(*json);
            }
            let mut i: usize = 0;
            while i < items.len()
                invariant
                    i <= items.len(),
                    json@ == JsonView::Array(trees_of(items@)),
                    *json == Json::Array(*items),
                    forall|k: int| 0 <= k < i ==> well_named(#[trigger] trees_of(items@)[k]),
                decreases items.len() - i,
            {
                assert(trees_of(items@)[i as int] == items@[i as int]@);
                if !is_well_named(&items[i]) {
                    assert(!well_named(json@)) by {
                        let trees = trees_of(items@);
                        assert(!well_named(trees[i as int]));
                        if well_named(JsonView::Array(trees)) {
                            lemma_well_named_item(trees, i as int);
                        }
                    }
                    return false;
                }
                i += 1;
            }
            true
        },
        Json::Object(members) => {
            proof {
                lemma_object_view(*json);
            }
            if !names_are_distinct(members) {
                return false;
            }
            let mut i: usize = 0;
            while i < members.len()
                invariant
                    i <= members.len(),
                    json@ == JsonView::Object(members_of(members@)),
                    *json == Json::Object(*members),
                    names_differ(members_of(members@)),
                    forall|k: int|
                        0 <= k < i ==> well_named((#[trigger] members_of(members@)[k]).1),
                decreases members.len() - i,
            {
                assert(members_of(members@)[i as int].1 == members@[i as int].1@);
                if !is_well_named(&members[i].1) {
                    assert(!well_named(json@)) by {
                        let held = members_of(members@);
                        assert(!well_named(held[i as int].1));
                        if well_named(JsonView::Object(held)) {
                            lemma_well_named_member(held, i as int);
                        }
                    }
                    return false;
                }
                i += 1;
            }
            true
        },
        _ => true,
    }
}

/// Writes as text a document in which no object has two members of one
/// name.
pub(crate) fn render_well_named(json: &Json, pretty: bool) -> (written: Result<String>)
    requires
        well_named(json@),
    ensures
        match written {
            Ok(text) => document_text(json@, pretty) == Some(text@),
            Err(error) => error is JsonOutput && document_text(json@, pretty) is None,
        },
{
    let value = match to_value(json) {
        Some(value) => value,
        None => {
            return Err(Error::JsonOutput(String::from_str("a number of the document is none")));
        },
    };
    let written = if pretty {
        to_pretty(&value)
    } else {
        to_compact(&value)
    };
    match written {
        Ok(text) => Ok(text),
        Err(words) => Err(Error::JsonOutput(words)),
    }
}

/// Writes a document as text, on one line or laid out for reading: the text
/// that the JSON writer makes of the document as it holds it. A document in
/// which an object has two members of one name is refused, and so is one that
/// the writer cannot hold or cannot write; both give [`Error::JsonOutput`].
pub fn render_json(json: &Json, pretty: bool) -> (written: Result<String>)
    ensures
        match written {
            Ok(text) => well_named(json@) && document_text(json@, pretty) == Some(text@),
            Err(error) => error is JsonOutput && (!well_named(json@) || document_text(
                json@,
                pretty,
            ) is None),
        },
{
    if is_well_named(json) {
        render_well_named(json, pretty)
    } else {
        Err(
            Error::JsonOutput(
                String::from_str("an object of the document has two members of one name"),
            ),
        )
    }
}

} // verus!
