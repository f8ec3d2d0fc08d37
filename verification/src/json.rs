//! JSON documents as the registry reads and rewrites them.
//!
//! Parsing and printing are `serde_json`'s. In between, a document is a
//! [`Json`] tree that verified code can inspect and change.

use vstd::prelude::*;
use vstd::string::*;
use crate::assoc::{
    absent_after, distinct_keys, last_with_key, lemma_last_with_key, lemma_last_with_key_is,
    lemma_map_of, lemma_pairs_set, map_of, pairs_set, Key,
};

verus! {

/// `serde_json::Number`, carried through as it is: nothing here looks into
/// a number.
#[verifier::external_type_specification]
#[verifier::external_body]
pub struct ExNumber(serde_json::Number);

/// `serde_json::Value`, what the parser hands out and the printer takes.
#[verifier::external_type_specification]
#[verifier::external_body]
pub struct ExValue(serde_json::Value);

/// `serde_json::Error`, why a text was rejected.
#[verifier::external_type_specification]
#[verifier::external_body]
pub struct ExJsonError(serde_json::Error);

/// `Clone::clone` of `serde_json::Number`: the copy is the same number.
pub assume_specification[ <serde_json::Number as Clone>::clone ](
    n: &serde_json::Number,
) -> (copy: serde_json::Number)
    ensures
        copy == *n,
;

/// A JSON document. An object is a list of members; where a key occurs more
/// than once, its last member counts.
#[derive(Debug, PartialEq)]
pub enum Json {
    Null,
    Bool(bool),
    Number(serde_json::Number),
    Str(String),
    Array(Vec<Json>),
    Object(Vec<(String, Json)>),
}

/// The mathematical content of a JSON document: an object is a map from keys
/// to documents.
pub enum JsonView {
    Null,
    Bool(bool),
    Number(serde_json::Number),
    Str(Seq<char>),
    Array(Seq<JsonView>),
    Object(Map<Seq<char>, JsonView>),
}

/// A member of an object, by content.
pub type Pair = (Key, JsonView);

/// The contents of a list of array items, item by item.
pub open spec fn items_view(items: Seq<Json>) -> Seq<JsonView>
    decreases items,
{
    if items.len() == 0 {
        Seq::empty()
    } else {
        items_view(items.drop_last()).push(items.last().view())
    }
}

/// The contents of a list of object members, member by member.
pub open spec fn members_pairs(members: Seq<(String, Json)>) -> Seq<Pair>
    decreases members,
{
    if members.len() == 0 {
        Seq::empty()
    } else {
        members_pairs(members.drop_last()).push((members.last().0@, members.last().1.view()))
    }
}

impl Json {
    /// The content of the document.
    pub open spec fn view(&self) -> JsonView
        decreases self,
    {
        match self {
            Json::Null => JsonView::Null,
            Json::Bool(b) => JsonView::Bool(*b),
            Json::Number(n) => JsonView::Number(*n),
            Json::Str(s) => JsonView::Str(s@),
            Json::Array(items) => JsonView::Array(items_view(items@)),
            Json::Object(members) => JsonView::Object(map_of(members_pairs(members@))),
        }
    }

    /// Within every object of the document, no key occurs twice.
    pub open spec fn wf(&self) -> bool
        decreases self,
    {
        match self {
            Json::Array(items) => forall|i: int|
                0 <= i < items@.len() ==> (#[trigger] items@[i]).wf(),
            Json::Object(members) => {
                &&& distinct_keys(members_pairs(members@))
                &&& forall|i: int| 0 <= i < members@.len() ==> (#[trigger] members@[i]).1.wf()
            },
            _ => true,
        }
    }
}

/// `items_view` keeps the length and views each item in place.
pub proof fn lemma_items_view(items: Seq<Json>)
    ensures
        items_view(items).len() == items.len(),
        forall|i: int| 0 <= i < items.len() ==> #[trigger] items_view(items)[i] == items[i]@,
    decreases items.len(),
{
    if items.len() > 0 {
        lemma_items_view(items.drop_last());
    }
}

/// `members_pairs` keeps the length and views each member in place.
pub proof fn lemma_members_pairs(members: Seq<(String, Json)>)
    ensures
        members_pairs(members).len() == members.len(),
        forall|i: int|
            0 <= i < members.len() ==> #[trigger] members_pairs(members)[i] == (
                members[i].0@,
                members[i].1@,
            ),
    decreases members.len(),
{
    if members.len() > 0 {
        lemma_members_pairs(members.drop_last());
    }
}

/// The index of the last member with the given key.
pub fn find_member(members: &Vec<(String, Json)>, key: &str) -> (found: Option<usize>)
    ensures
        match found {
            Some(i) => i as int == last_with_key(members_pairs(members@), key@),
            None => last_with_key(members_pairs(members@), key@) == -1,
        },
{
    let wanted = String::from_str(key);
    let mut i: usize = members.len();
    proof {
        lemma_members_pairs(members@);
    }
    while i > 0
        invariant
            i <= members@.len(),
            wanted@ == key@,
            members_pairs(members@).len() == members@.len(),
            forall|j: int|
                0 <= j < members@.len() ==> #[trigger] members_pairs(members@)[j] == (
                    members@[j].0@,
                    members@[j].1@,
                ),
            absent_after(members_pairs(members@), key@, i as int - 1),
        decreases i,
    {
        i = i - 1;
        if members[i].0 == wanted {
            proof {
                lemma_last_with_key_is(members_pairs(members@), key@, i as int);
            }
            return Some(i);
        }
    }
    proof {
        lemma_last_with_key_is(members_pairs(members@), key@, -1);
    }
    None
}

/// The members of an object are well formed: their keys differ and their
/// values are well formed.
pub open spec fn members_wf(members: Seq<(String, Json)>) -> bool {
    &&& distinct_keys(members_pairs(members))
    &&& forall|i: int| 0 <= i < members.len() ==> (#[trigger] members[i]).1.wf()
}

/// Sets the member with the given key to `value`.
pub fn set_member(members: &mut Vec<(String, Json)>, key: &str, value: Json)
    ensures
        members_pairs(final(members)@) == pairs_set(members_pairs(old(members)@), key@, value@),
        map_of(members_pairs(final(members)@)) == map_of(members_pairs(old(members)@)).insert(
            key@,
            value@,
        ),
        members_wf(old(members)@) && value.wf() ==> members_wf(final(members)@),
{
    let ghost before = members@;
    proof {
        lemma_members_pairs(before);
        lemma_pairs_set(members_pairs(before), key@, value@);
        lemma_last_with_key(members_pairs(before), key@);
    }
    let found = find_member(members, key);
    let member = (String::from_str(key), value);
    match found {
        Some(at) => {
            members.set(at, member);
        },
        None => {
            members.push(member);
        },
    }
    proof {
        lemma_members_pairs(members@);
        assert(members_pairs(members@) =~= pairs_set(members_pairs(before), key@, value@));
        if members_wf(before) && value.wf() {
            assert forall|i: int| 0 <= i < members@.len() implies (#[trigger] members@[i]).1.wf() by {
                if found is Some && i != found->0 {
                } else if found is None && i < before.len() {
                }
            }
        }
    }
}

impl Json {
    /// A copy of the document.
    pub fn deep_clone(&self) -> (copy: Json)
        ensures
            copy@ == self@,
            self.wf() ==> copy.wf(),
        decreases self,
    {
        match self {
            Json::Null => Json::Null,
            Json::Bool(b) => Json::Bool(*b),
            Json::Number(n) => Json::Number(n.clone()),
            Json::Str(s) => Json::Str(s.clone()),
            Json::Array(items) => {
                let mut out: Vec<Json> = Vec::new();
                let mut i: usize = 0;
                while i < items.len()
                    invariant
                        i <= items@.len(),
                        out@.len() == i,
                        *self == Json::Array(*items),
                        forall|k: int| 0 <= k < i ==> (#[trigger] out@[k])@ == items@[k]@,
                        forall|k: int|
                            0 <= k < i && items@[k].wf() ==> (#[trigger] out@[k]).wf(),
                    decreases items@.len() - i,
                {
                    proof {
                        assert(decreases_to!(self => self->Array_0));
                    }
                    out.push(items[i].deep_clone());
                    i = i + 1;
                }
                proof {
                    lemma_items_view(items@);
                    lemma_items_view(out@);
                    assert(items_view(out@) =~= items_view(items@));
                }
                Json::Array(out)
            },
            Json::Object(members) => {
                let mut out: Vec<(String, Json)> = Vec::new();
                let mut i: usize = 0;
                while i < members.len()
                    invariant
                        i <= members@.len(),
                        out@.len() == i,
                        *self == Json::Object(*members),
                        forall|k: int|
                            0 <= k < i ==> (#[trigger] out@[k]).0@ == members@[k].0@ && out@[k].1@
                                == members@[k].1@,
                        forall|k: int|
                            0 <= k < i && members@[k].1.wf() ==> (#[trigger] out@[k]).1.wf(),
                    decreases members@.len() - i,
                {
                    proof {
                        assert(decreases_to!(self => self->Object_0));
                    }
                    out.push((members[i].0.clone(), members[i].1.deep_clone()));
                    i = i + 1;
                }
                proof {
                    lemma_members_pairs(members@);
                    lemma_members_pairs(out@);
                    assert(members_pairs(out@) =~= members_pairs(members@));
                }
                Json::Object(out)
            },
        }
    }

    /// The value of the member `key`, where the document is an object that
    /// has such a member.
    pub fn get(&self, key: &str) -> (value: Option<&Json>)
        ensures
            match value {
                Some(v) => self@ matches JsonView::Object(m) && m.contains_key(key@) && m[key@]
                    == v@ && (self.wf() ==> v.wf()),
                None => !(self@ matches JsonView::Object(m) && m.contains_key(key@)),
            },
    {
        match self {
            Json::Object(members) => {
                proof {
                    lemma_members_pairs(members@);
                    lemma_map_of(members_pairs(members@), key@);
                    lemma_last_with_key(members_pairs(members@), key@);
                }
                match find_member(members, key) {
                    Some(at) => Some(&members[at].1),
                    None => None,
                }
            },
            _ => None,
        }
    }
}

/// The document that a `serde_json::Value` holds.
pub uninterp spec fn value_model(value: serde_json::Value) -> JsonView;

/// The document that `serde_json` reads from a text, or `None` where it
/// rejects the text.
pub uninterp spec fn json_parse(text: Seq<u8>) -> Option<JsonView>;

/// The compact text that `serde_json` prints for a document.
pub uninterp spec fn json_text(doc: JsonView) -> Seq<char>;

/// `serde_json::from_slice` at `Value`: whether the text is accepted, and
/// the document read from it, depend on the bytes alone.
#[verifier::external_body]
fn value_from_slice(text: &[u8]) -> (parsed: Result<serde_json::Value, serde_json::Error>)
    ensures
        match parsed {
            Ok(value) => json_parse(text@) == Some(value_model(value)),
            Err(_) => json_parse(text@) is None,
        },
{
    serde_json::from_slice::<serde_json::Value>(text)
}

/// Takes a `serde_json::Value` apart, variant by variant. The tree holds
/// what the value held; the keys of a `serde_json::Map` are distinct, so
/// the tree is well formed.
#[verifier::external_body]
fn json_from_value(value: serde_json::Value) -> (doc: Json)
    ensures
        doc@ == value_model(value),
        doc.wf(),
{
    match value {
        serde_json::Value::Null => Json::Null,
        serde_json::Value::Bool(b) => Json::Bool(b),
        serde_json::Value::Number(n) => Json::Number(n),
        serde_json::Value::String(s) => Json::Str(s),
        serde_json::Value::Array(a) => Json::Array(a.into_iter().map(json_from_value).collect()),
        serde_json::Value::Object(m) => Json::Object(
            m.into_iter().map(|(k, v)| (k, json_from_value(v))).collect(),
        ),
    }
}

/// Builds the `serde_json::Value` that holds a well-formed tree, variant by
/// variant.
#[verifier::external_body]
fn json_to_value(doc: &Json) -> (value: serde_json::Value)
    requires
        doc.wf(),
    ensures
        value_model(value) == doc@,
{
    match doc {
        Json::Null => serde_json::Value::Null,
        Json::Bool(b) => serde_json::Value::Bool(*b),
        Json::Number(n) => serde_json::Value::Number(n.clone()),
        Json::Str(s) => serde_json::Value::String(s.clone()),
        Json::Array(a) => serde_json::Value::Array(a.iter().map(json_to_value).collect()),
        Json::Object(m) => serde_json::Value::Object(
            m.iter().map(|(k, v)| (k.clone(), json_to_value(v))).collect(),
        ),
    }
}

/// `to_string` of a `serde_json::Value`: the compact text of the document.
/// It escapes line feeds inside strings and puts no white space between
/// tokens, so the text holds no line feed.
#[verifier::external_body]
fn value_to_string(value: &serde_json::Value) -> (text: String)
    ensures
        text@ == json_text(value_model(*value)),
        !text@.contains('\n'),
{
    value.to_string()
}

/// Reads a JSON text. The tree is the document that `serde_json` reads, and
/// is well formed; `None` where `serde_json` rejects the text.
pub fn parse(text: &[u8]) -> (doc: Option<Json>)
    ensures
        match doc {
            Some(d) => json_parse(text@) == Some(d@) && d.wf(),
            None => json_parse(text@) is None,
        },
{
    match value_from_slice(text) {
        Ok(value) => Some(json_from_value(value)),
        Err(_) => None,
    }
}

/// Prints a well-formed document as compact JSON text, which holds no line
/// feed.
pub fn render(doc: &Json) -> (text: String)
    requires
        doc.wf(),
    ensures
        text@ == json_text(doc@),
        !text@.contains('\n'),
{
    let value = json_to_value(doc);
    value_to_string(&value)
}

} // verus!
