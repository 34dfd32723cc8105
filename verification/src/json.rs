//! A JSON document as a tree of the library's own, and the lookups that the
//! task descriptions need.

use crate::error::Error;
use vstd::prelude::*;

verus! {

/// `serde_json::Value`, carried from the parser to the copy and never read.
#[verifier::external_type_specification]
#[verifier::external_body]
pub struct ExJsonValue(serde_json::Value);

/// The tree that a `serde_json::Value` holds.
pub uninterp spec fn value_tree(v: serde_json::Value) -> JsonView;

/// What `serde_json::from_str` makes of a text, read as a `serde_json::Value`:
/// the tree of the document, or `None` where the text is no JSON document.
pub uninterp spec fn json_parsed(text: Seq<char>) -> Option<JsonView>;

/// Calls `serde_json::from_str` for a `serde_json::Value`. The outcome depends
/// on the text alone: a value that holds the document's tree, or, where the
/// text is no JSON document, the message of the parser's error.
#[verifier::external_body]
fn value_from_str(text: &str) -> (r: Result<serde_json::Value, String>)
    ensures
        match r {
            Ok(v) => json_parsed(text@) == Some(value_tree(v)),
            Err(_) => json_parsed(text@) is None,
        },
{
    match serde_json::from_str::<serde_json::Value>(text) {
        Ok(v) => Ok(v),
        Err(e) => Err(e.to_string()),
    }
}

/// Copies a `serde_json::Value` node for node: each variant to the variant of
/// the same kind, a number as `serde_json` prints it, the items of an array
/// and the members of an object in the order in which `serde_json` walks them.
#[verifier::external_body]
fn json_from_value(v: &serde_json::Value) -> (j: Json)
    ensures
        j@ == value_tree(*v),
{
    match v {
        serde_json::Value::Null => Json::Null,
        serde_json::Value::Bool(b) => Json::Bool(*b),
        serde_json::Value::Number(n) => Json::Number(n.to_string()),
        serde_json::Value::String(s) => Json::Text(s.clone()),
        serde_json::Value::Array(a) => Json::Array(a.iter().map(json_from_value).collect()),
        serde_json::Value::Object(m) => Json::Object(
            m.iter().map(|(k, x)| (k.clone(), json_from_value(x))).collect(),
        ),
    }
}

/// A JSON value. An object keeps its members as a list of pairs; a lookup
/// takes the first member with the key.
#[derive(Debug)]
pub enum Json {
    Null,
    Bool(bool),
    /// A number, as its text.
    Number(String),
    Text(String),
    Array(Vec<Json>),
    Object(Vec<(String, Json)>),
}

/// The mathematical value of a [`Json`].
pub enum JsonView {
    Null,
    Bool(bool),
    Number(Seq<char>),
    Text(Seq<char>),
    Array(Seq<JsonView>),
    Object(Seq<(Seq<char>, JsonView)>),
}

/// The value of `j`.
pub open spec fn json_view(j: Json) -> JsonView
    decreases j, 0nat,
{
    match j {
        Json::Null => JsonView::Null,
        Json::Bool(b) => JsonView::Bool(b),
        Json::Number(n) => JsonView::Number(n@),
        Json::Text(s) => JsonView::Text(s@),
        Json::Array(items) => JsonView::Array(items_view(items, items@.len())),
        Json::Object(members) => JsonView::Object(members_view(members, members@.len())),
    }
}

/// The values of the first `n` of `items`.
pub open spec fn items_view(items: Vec<Json>, n: nat) -> Seq<JsonView>
    decreases items, n,
{
    if n == 0 || n > items@.len() {
        Seq::empty()
    } else {
        items_view(items, (n - 1) as nat).push(json_view(items@[n - 1]))
    }
}

/// The keys and values of the first `n` of `members`.
pub open spec fn members_view(members: Vec<(String, Json)>, n: nat) -> Seq<(Seq<char>, JsonView)>
    decreases members, n,
{
    if n == 0 || n > members@.len() {
        Seq::empty()
    } else {
        members_view(members, (n - 1) as nat).push(
            (members@[n - 1].0@, json_view(members@[n - 1].1)),
        )
    }
}

impl View for Json {
    type V = JsonView;

    open spec fn view(&self) -> JsonView {
        json_view(*self)
    }
}

/// An array's view holds the views of its items, in their order.
pub proof fn lemma_items_view(items: Vec<Json>, n: nat)
    requires
        n <= items@.len(),
    ensures
        items_view(items, n).len() == n,
        forall|i: int| 0 <= i < n ==> (#[trigger] items_view(items, n)[i]) == items@[i]@,
    decreases n,
{
    if n > 0 {
        lemma_items_view(items, (n - 1) as nat);
    }
}

/// An object's view holds the keys and the views of its members, in their order.
pub proof fn lemma_members_view(members: Vec<(String, Json)>, n: nat)
    requires
        n <= members@.len(),
    ensures
        members_view(members, n).len() == n,
        forall|i: int|
            0 <= i < n ==> (#[trigger] members_view(members, n)[i]) == (
                members@[i].0@,
                members@[i].1@,
            ),
    decreases n,
{
    if n > 0 {
        lemma_members_view(members, (n - 1) as nat);
    }
}

/// The values of `items`, in their order.
pub open spec fn views(items: Seq<Json>) -> Seq<JsonView> {
    Seq::new(items.len(), |i: int| items[i]@)
}

/// The value of the first member of `members` whose key is `key`.
pub open spec fn member(members: Seq<(Seq<char>, JsonView)>, key: Seq<char>) -> Option<JsonView>
    decreases members.len(),
{
    if members.len() == 0 {
        None
    } else if members[0].0 == key {
        Some(members[0].1)
    } else {
        member(members.skip(1), key)
    }
}

impl JsonView {
    /// The member `key` of an object; `None` of any other value.
    pub open spec fn get(self, key: Seq<char>) -> Option<JsonView> {
        match self {
            JsonView::Object(members) => member(members, key),
            _ => None,
        }
    }

    /// The text of a string value.
    pub open spec fn as_str(self) -> Option<Seq<char>> {
        match self {
            JsonView::Text(s) => Some(s),
            _ => None,
        }
    }

    /// The member `inner` of the member `outer`.
    pub open spec fn at2(self, outer: Seq<char>, inner: Seq<char>) -> Option<JsonView> {
        match self.get(outer) {
            Some(j) => j.get(inner),
            None => None,
        }
    }

    /// The text of the member `key`, where it is a string.
    pub open spec fn text_at(self, key: Seq<char>) -> Option<Seq<char>> {
        match self.get(key) {
            Some(j) => j.as_str(),
            None => None,
        }
    }

    /// The text of the member `inner` of the member `outer`, where it is a string.
    pub open spec fn text_at2(self, outer: Seq<char>, inner: Seq<char>) -> Option<Seq<char>> {
        match self.at2(outer, inner) {
            Some(j) => j.as_str(),
            None => None,
        }
    }

    /// The items of an array.
    pub open spec fn as_array(self) -> Option<Seq<JsonView>> {
        match self {
            JsonView::Array(items) => Some(items),
            _ => None,
        }
    }
}

impl Json {
    /// Reads a JSON document.
    pub fn parse(text: &str) -> (r: Result<Json, Error>)
        ensures
            match r {
                Ok(j) => json_parsed(text@) == Some(j@),
                Err(e) => json_parsed(text@) is None && e is JsonError,
            },
    {
        match value_from_str(text) {
            Ok(v) => Ok(json_from_value(&v)),
            Err(e) => Err(Error::JsonError(e)),
        }
    }

    /// The member `inner` of the member `outer`.
    pub fn at2(&self, outer: &str, inner: &str) -> (found: Option<&Json>)
        ensures
            match found {
                Some(j) => self@.at2(outer@, inner@) == Some(j@),
                None => self@.at2(outer@, inner@) is None,
            },
    {
        match self.get(outer) {
            Some(j) => j.get(inner),
            None => None,
        }
    }

    /// The text of the member `key`, where it is a string.
    pub fn text_at(&self, key: &str) -> (text: Option<&String>)
        ensures
            match text {
                Some(s) => self@.text_at(key@) == Some(s@),
                None => self@.text_at(key@) is None,
            },
    {
        match self.get(key) {
            Some(j) => j.as_str(),
            None => None,
        }
    }

    /// The text of the member `inner` of the member `outer`, where it is a string.
    pub fn text_at2(&self, outer: &str, inner: &str) -> (text: Option<&String>)
        ensures
            match text {
                Some(s) => self@.text_at2(outer@, inner@) == Some(s@),
                None => self@.text_at2(outer@, inner@) is None,
            },
    {
        match self.at2(outer, inner) {
            Some(j) => j.as_str(),
            None => None,
        }
    }

    /// The text of a string value; `None` of any other value.
    pub fn as_str(&self) -> (text: Option<&String>)
        ensures
            match text {
                Some(s) => self@.as_str() == Some(s@),
                None => self@.as_str() is None,
            },
    {
        match self {
            Json::Text(s) => Some(s),
            _ => None,
        }
    }

    /// The items of an array; `None` of any other value.
    pub fn as_array(&self) -> (items: Option<&Vec<Json>>)
        ensures
            match items {
                Some(v) => self@.as_array() == Some(views(v@)),
                None => self@.as_array() is None,
            },
    {
        match self {
            Json::Array(items) => {
                proof {
                    lemma_items_view(*items, items@.len());
                    assert(items_view(*items, items@.len()) =~= views(items@));
                }
                Some(items)
            },
            _ => None,
        }
    }

    /// The member `key` of an object; `None` of any other value.
    pub fn get(&self, key: &str) -> (found: Option<&Json>)
        ensures
            match found {
                Some(j) => self@.get(key@) == Some(j@),
                None => self@.get(key@) is None,
            },
    {
        match self {
            Json::Object(members) => {
                let ghost all = self@->Object_0;
                proof {
                    lemma_members_view(*members, members@.len());
                }
                assert(all.skip(0) =~= all);
                let wanted = key.to_owned();
                let mut i: usize = 0;
                while i < members.len()
                    invariant
                        i <= members.len(),
                        wanted@ == key@,
                        self@ == JsonView::Object(all),
                        all.len() == members.len(),
                        forall|k: int|
                            0 <= k < members.len() ==> all[k] == (
                                #[trigger] members[k].0@,
                                members[k].1@,
                            ),
                        member(all, key@) == member(all.skip(i as int), key@),
                    decreases members.len() - i,
                {
                    assert(all.skip(i as int)[0] == all[i as int]);
                    assert(all[i as int] == (members[i as int].0@, members[i as int].1@));
                    if members[i].0 == wanted {
                        return Some(&members[i].1);
                    }
                    assert(all.skip(i as int).skip(1) =~= all.skip(i as int + 1));
                    i += 1;
                }
                None
            },
            _ => None,
        }
    }
}

} // verus!
