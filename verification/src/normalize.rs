//! The rewriting of a metadata record before it is stored.
//!
//! A record gets a checksum where it has none, and every dependency gets a
//! `req` member that repeats its `version_req`.

use vstd::prelude::*;
use vstd::string::*;
use crate::assoc::{lemma_last_with_key, lemma_map_of, map_of};
use crate::digest::{checksum, sha256_hex};
use crate::error::RegistryError;
use crate::json::{
    find_member, items_view, json_parse, json_text, lemma_items_view, lemma_members_pairs,
    members_pairs, members_wf, parse, render, set_member, Json, JsonView,
};
use crate::ledger::{lemma_encoded_single_line, single_line};
use crate::payload::LEN_PREFIX;

verus! {

/// The members of a document that can serve as a record: those of an
/// object, none for `null`. Any other document is no record.
pub open spec fn record_of(doc: JsonView) -> Option<Map<Seq<char>, JsonView>> {
    match doc {
        JsonView::Object(members) => Some(members),
        JsonView::Null => Some(Map::empty()),
        _ => None,
    }
}

/// The value that a dependency's `req` is set to: its `version_req`, or
/// `null` where it has none.
pub open spec fn required_version(dep: Map<Seq<char>, JsonView>) -> JsonView {
    if dep.contains_key("version_req"@) {
        dep["version_req"@]
    } else {
        JsonView::Null
    }
}

/// A dependency with `req` set, or `None` where the entry is no record.
pub open spec fn normal_dep(dep: JsonView) -> Option<JsonView> {
    match record_of(dep) {
        Some(members) => Some(JsonView::Object(members.insert("req"@, required_version(members)))),
        None => None,
    }
}

/// Every entry of a dependency list normalised, or `None` where one of them
/// is no record.
pub open spec fn normal_deps(deps: Seq<JsonView>) -> Option<Seq<JsonView>> {
    if forall|i: int| 0 <= i < deps.len() ==> (#[trigger] normal_dep(deps[i])) is Some {
        Some(Seq::new(deps.len(), |i: int| normal_dep(deps[i])->0))
    } else {
        None
    }
}

/// The members of a record with the checksum filled in where it was absent.
pub open spec fn with_checksum(members: Map<Seq<char>, JsonView>, digest: Seq<char>) -> Map<
    Seq<char>,
    JsonView,
> {
    if members.contains_key("cksum"@) {
        members
    } else {
        members.insert("cksum"@, JsonView::Str(digest))
    }
}

/// The members of a record with its dependency list normalised, where it has
/// one; `None` where an entry of the list is no record.
pub open spec fn with_normal_deps(members: Map<Seq<char>, JsonView>) -> Option<
    Map<Seq<char>, JsonView>,
> {
    if members.contains_key("deps"@) && members["deps"@] is Array {
        match normal_deps(members["deps"@]->Array_0) {
            Some(deps) => Some(members.insert("deps"@, JsonView::Array(deps))),
            None => None,
        }
    } else {
        Some(members)
    }
}

/// The normal form of a record, given the digest of its archive; `None`
/// where the document, or an entry of its dependency list, is no record.
pub open spec fn normal_record(doc: JsonView, digest: Seq<char>) -> Option<JsonView> {
    match record_of(doc) {
        Some(members) => match with_normal_deps(with_checksum(members, digest)) {
            Some(normal) => Some(JsonView::Object(normal)),
            None => None,
        },
        None => None,
    }
}

/// The error for metadata that cannot be read as a record: the metadata
/// segment of a publish body begins behind the first length prefix.
pub open spec fn malformed_metadata() -> RegistryError {
    RegistryError::MalformedPayload { offset: LEN_PREFIX }
}

/// Sets `req` in one dependency entry.
pub fn normalize_dep(dep: &Json) -> (out: Option<Json>)
    ensures
        match out {
            Some(d) => normal_dep(dep@) == Some(d@) && (dep.wf() ==> d.wf()),
            None => normal_dep(dep@) is None,
        },
{
    let copy = dep.deep_clone();
    let mut members = match copy {
        Json::Object(members) => members,
        Json::Null => Vec::new(),
        _ => {
            return None;
        },
    };
    let version = match find_value(&members, "version_req") {
        Some(v) => v.deep_clone(),
        None => Json::Null,
    };
    set_member(&mut members, "req", version);
    Some(Json::Object(members))
}

/// The value of the member with the given key.
fn find_value<'a>(members: &'a Vec<(String, Json)>, key: &str) -> (value: Option<&'a Json>)
    ensures
        match value {
            Some(v) => map_of(members_pairs(members@)).contains_key(key@) && map_of(
                members_pairs(members@),
            )[key@] == v@ && (members_wf(members@) ==> v.wf()),
            None => !map_of(members_pairs(members@)).contains_key(key@),
        },
{
    proof {
        lemma_members_pairs(members@);
        lemma_map_of(members_pairs(members@), key@);
        lemma_last_with_key(members_pairs(members@), key@);
    }
    match find_member(members, key) {
        Some(at) => Some(&members[at].1),
        None => None,
    }
}

/// Sets `req` in every entry of a dependency list.
pub fn normalize_deps(deps: &Vec<Json>) -> (out: Option<Vec<Json>>)
    ensures
        match out {
            Some(list) => {
                &&& normal_deps(items_view(deps@)) == Some(items_view(list@))
                &&& (forall|i: int| 0 <= i < deps@.len() ==> (#[trigger] deps@[i]).wf())
                    ==> forall|i: int| 0 <= i < list@.len() ==> (#[trigger] list@[i]).wf()
            },
            None => normal_deps(items_view(deps@)) is None,
        },
{
    let ghost views = items_view(deps@);
    proof {
        lemma_items_view(deps@);
    }
    let mut list: Vec<Json> = Vec::new();
    let mut i: usize = 0;
    while i < deps.len()
        invariant
            i <= deps@.len(),
            list@.len() == i,
            views == items_view(deps@),
            views.len() == deps@.len(),
            forall|k: int| 0 <= k < deps@.len() ==> #[trigger] views[k] == deps@[k]@,
            forall|k: int| 0 <= k < i ==> normal_dep(views[k]) == Some((#[trigger] list@[k])@),
            forall|k: int| 0 <= k < i && deps@[k].wf() ==> (#[trigger] list@[k]).wf(),
        decreases deps@.len() - i,
    {
        match normalize_dep(&deps[i]) {
            Some(dep) => {
                list.push(dep);
            },
            None => {
                assert(normal_dep(views[i as int]) is None);
                return None;
            },
        }
        i = i + 1;
    }
    proof {
        lemma_items_view(list@);
        assert forall|k: int| 0 <= k < views.len() implies (#[trigger] normal_dep(
            views[k],
        )) is Some by {
            assert(normal_dep(views[k]) == Some(list@[k]@));
        }
    }
    Some(list)
}

/// Brings a parsed record into normal form.
///
/// Fails exactly when the document is neither an object nor `null`, or when
/// an entry of its `deps` array is neither.
pub fn normalize_document(doc: Json, digest: &str) -> (out: Result<Json, RegistryError>)
    ensures
        match out {
            Ok(normal) => normal_record(doc@, digest@) == Some(normal@) && (doc.wf()
                ==> normal.wf()),
            Err(e) => normal_record(doc@, digest@) is None && e == malformed_metadata(),
        },
{
    let mut members = match doc {
        Json::Object(members) => members,
        Json::Null => Vec::new(),
        _ => {
            return Err(RegistryError::MalformedPayload { offset: LEN_PREFIX });
        },
    };
    if find_value(&members, "cksum").is_none() {
        set_member(&mut members, "cksum", Json::Str(String::from_str(digest)));
    }
    let deps = match find_value(&members, "deps") {
        Some(Json::Array(items)) => normalize_deps(items),
        _ => {
            return Ok(Json::Object(members));
        },
    };
    match deps {
        Some(list) => {
            set_member(&mut members, "deps", Json::Array(list));
            Ok(Json::Object(members))
        },
        None => Err(RegistryError::MalformedPayload { offset: LEN_PREFIX }),
    }
}

/// What [`normalize`] makes of the metadata and archive of a publish body.
pub open spec fn spec_normalize(meta: Seq<u8>, archive: Seq<u8>) -> Result<
    Seq<u8>,
    RegistryError,
> {
    match json_parse(meta) {
        Some(doc) => match normal_record(doc, sha256_hex(archive)) {
            Some(normal) => Ok(vstd::utf8::encode_utf8(json_text(normal))),
            None => Err(malformed_metadata()),
        },
        None => Err(malformed_metadata()),
    }
}

/// Normalises raw metadata: parses it, fills in the checksum of `archive`
/// where the record has none, sets `req` in every dependency, and prints the
/// record as compact JSON, which is a single line.
pub fn normalize(meta: &[u8], archive: &[u8]) -> (out: Result<Vec<u8>, RegistryError>)
    ensures
        match out {
            Ok(bytes) => spec_normalize(meta@, archive@) == Ok::<Seq<u8>, RegistryError>(bytes@)
                && single_line(bytes@),
            Err(e) => spec_normalize(meta@, archive@) == Err::<Seq<u8>, RegistryError>(e),
        },
{
    let doc = match parse(meta) {
        Some(doc) => doc,
        None => {
            return Err(RegistryError::MalformedPayload { offset: LEN_PREFIX });
        },
    };
    let digest = checksum(archive);
    match normalize_document(doc, digest.as_str()) {
        Ok(normal) => {
            let text = render(&normal);
            proof {
                lemma_encoded_single_line(text@);
            }
            Ok(text.as_str().as_bytes_vec())
        },
        Err(e) => Err(e),
    }
}

/// The member names that normalisation reads and writes differ from one
/// another.
pub proof fn lemma_member_names()
    ensures
        "cksum"@ != "deps"@,
        "req"@ != "version_req"@,
{
    reveal_strlit("cksum");
    reveal_strlit("deps");
    reveal_strlit("req");
    reveal_strlit("version_req");
    assert("cksum"@.len() == 5 && "deps"@.len() == 4);
    assert("req"@.len() == 3 && "version_req"@.len() == 11);
}

/// A record without `cksum` gets the digest of the archive as its checksum;
/// a record that has one keeps it. No member other than `cksum` and `deps`
/// is added, removed or changed.
pub proof fn lemma_checksum_filled(doc: JsonView, digest: Seq<char>)
    requires
        normal_record(doc, digest) is Some,
    ensures
        record_of(doc) is Some,
        normal_record(doc, digest)->0 is Object,
        ({
            let before = record_of(doc)->0;
            let after = normal_record(doc, digest)->0->Object_0;
            &&& after.contains_key("cksum"@)
            &&& before.contains_key("cksum"@) ==> after["cksum"@] == before["cksum"@]
            &&& !before.contains_key("cksum"@) ==> after["cksum"@] == JsonView::Str(digest)
            &&& forall|key: Seq<char>|
                key != "cksum"@ && key != "deps"@ ==> (after.contains_key(key)
                    <==> before.contains_key(key)) && (before.contains_key(key) ==> after[key]
                    == before[key])
        }),
{
    lemma_member_names();
}

/// A normalised dependency carries in `req` what it carries in
/// `version_req`, and keeps every other member as it was.
pub proof fn lemma_dep_req_mirrors(dep: JsonView)
    requires
        normal_dep(dep) is Some,
    ensures
        record_of(dep) is Some,
        normal_dep(dep)->0 is Object,
        ({
            let before = record_of(dep)->0;
            let after = normal_dep(dep)->0->Object_0;
            &&& after.contains_key("req"@)
            &&& before.contains_key("version_req"@) ==> after.contains_key("version_req"@)
                && after["version_req"@] == before["version_req"@] && after["req"@]
                == before["version_req"@]
            &&& forall|key: Seq<char>|
                key != "req"@ ==> (after.contains_key(key) <==> before.contains_key(key)) && (
                before.contains_key(key) ==> after[key] == before[key])
        }),
{
    lemma_member_names();
}

/// Every dependency of a normalised record is the normal form of the entry
/// that stood in its place.
pub proof fn lemma_deps_normalised(doc: JsonView, digest: Seq<char>)
    requires
        normal_record(doc, digest) is Some,
        record_of(doc)->0.contains_key("deps"@),
        record_of(doc)->0["deps"@] is Array,
    ensures
        ({
            let before = record_of(doc)->0["deps"@]->Array_0;
            let after = normal_record(doc, digest)->0->Object_0;
            &&& after.contains_key("deps"@)
            &&& after["deps"@] is Array
            &&& after["deps"@]->Array_0.len() == before.len()
            &&& forall|i: int|
                0 <= i < before.len() ==> normal_dep(before[i]) == Some(
                    #[trigger] after["deps"@]->Array_0[i],
                )
        }),
{
    lemma_member_names();
}

/// Normalising a normalised dependency changes nothing.
pub proof fn lemma_normal_dep_idempotent(dep: JsonView)
    requires
        normal_dep(dep) is Some,
    ensures
        normal_dep(normal_dep(dep)->0) == normal_dep(dep),
{
    lemma_member_names();
    let once = normal_dep(dep)->0->Object_0;
    assert(once.insert("req"@, required_version(once)) =~= once);
}

/// Normalising a normalised dependency list changes nothing.
pub proof fn lemma_normal_deps_idempotent(deps: Seq<JsonView>)
    requires
        normal_deps(deps) is Some,
    ensures
        normal_deps(normal_deps(deps)->0) == normal_deps(deps),
{
    let once = normal_deps(deps)->0;
    assert forall|i: int| 0 <= i < once.len() implies (#[trigger] normal_dep(once[i])) == Some(
        once[i],
    ) by {
        lemma_normal_dep_idempotent(deps[i]);
    }
}

/// Normalising a normalised record changes nothing, whatever digest the
/// second pass is given.
pub proof fn lemma_normalize_idempotent(doc: JsonView, digest: Seq<char>, other: Seq<char>)
    requires
        normal_record(doc, digest) is Some,
    ensures
        normal_record(normal_record(doc, digest)->0, other) == normal_record(doc, digest),
{
    lemma_member_names();
    let members = with_checksum(record_of(doc)->0, digest);
    let once = normal_record(doc, digest)->0->Object_0;
    if members.contains_key("deps"@) && members["deps"@] is Array {
        let deps = members["deps"@]->Array_0;
        lemma_normal_deps_idempotent(deps);
        assert(once.insert("deps"@, once["deps"@]) =~= once);
    }
}

} // verus!
