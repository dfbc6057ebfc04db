//! Blob Storage: what a request asks for, and how what the service gave is answered.
use vstd::prelude::*;
use vstd::string::*;
use vstd::utf8::encode_utf8;

use crate::answers::{
    holds_size, holds_text, law_present, lemma_well_formed_texts, present, present_names, size_json,
    size_of, text_array, text_list,
};
use crate::connection_string::{distinct_keys, pairs};
use crate::encoding::{shown, shown_text};
use crate::error::Error;
use crate::json::{
    empty_object, items, lemma_get_well_formed, lemma_get_with, lemma_well_formed_array,
    lemma_well_formed_with, members, nullable, nullable_int, unique_keys, well_formed, Json,
    JsonModel, NumberModel,
};
use crate::options::{has_text, lacks_text, opt_str, req_str, required};
use crate::text::{begins_with, opt_text};

verus! {

/// A blob: its container and its name.
#[derive(Debug, PartialEq)]
pub struct BlobTarget {
    pub container: String,
    pub name: String,
}

impl View for BlobTarget {
    type V = (Seq<char>, Seq<char>);

    open spec fn view(&self) -> (Seq<char>, Seq<char>) {
        (self.container@, self.name@)
    }
}

/// What a listing asks for: a container, and what the names are to begin with.
#[derive(Debug, PartialEq)]
pub struct BlobListing {
    pub container: String,
    pub prefix: String,
}

impl View for BlobListing {
    type V = (Seq<char>, Seq<char>);

    open spec fn view(&self) -> (Seq<char>, Seq<char>) {
        (self.container@, self.prefix@)
    }
}

/// A blob as a listing of the service shows it.
#[derive(Debug, PartialEq)]
pub struct BlobEntry {
    pub name: Option<String>,
    pub size: Option<u64>,
}

impl View for BlobEntry {
    type V = (Seq<char>, Option<int>);

    /// The name, which is empty where there is none, and the size.
    open spec fn view(&self) -> (Seq<char>, Option<int>) {
        (
            match self.name {
                Some(name) => name@,
                None => Seq::empty(),
            },
            size_of(self.size),
        )
    }
}

/// What the service says of a blob.
#[derive(Debug, PartialEq)]
pub struct BlobProperties {
    pub content_length: Option<u64>,
    pub content_type: Option<String>,
    pub etag: Option<String>,
    pub last_modified: Option<String>,
    pub blob_type: Option<String>,
}

/// The blob that a request is about: `container` first, then `name`.
pub open spec fn target_of(opts: JsonModel) -> Result<(Seq<char>, Seq<char>), Seq<char>> {
    match required(opts, "container"@) {
        Err(e) => Err(e),
        Ok(container) => match required(opts, "name"@) {
            Err(e) => Err(e),
            Ok(name) => Ok((container, name)),
        },
    }
}

/// What a listing asks for; without a `prefix` all names.
pub open spec fn listing_of(opts: JsonModel) -> Result<(Seq<char>, Seq<char>), Seq<char>> {
    match required(opts, "container"@) {
        Err(e) => Err(e),
        Ok(container) => Ok(
            (
                container,
                match opts.text_at("prefix"@) {
                    Some(prefix) => prefix,
                    None => Seq::empty(),
                },
            ),
        ),
    }
}

/// The bytes that an upload writes.
pub open spec fn uploaded(opts: JsonModel) -> Seq<u8> {
    encode_utf8(
        match opts.text_at("body"@) {
            Some(body) => body,
            None => Seq::empty(),
        },
    )
}

/// The entries of a list.
pub open spec fn entries(list: Seq<BlobEntry>) -> Seq<(Seq<char>, Option<int>)> {
    list.map_values(|e: BlobEntry| e@)
}

/// An entry as a JSON object.
pub open spec fn entry_json(entry: (Seq<char>, Option<int>)) -> JsonModel {
    empty_object().with("name"@, JsonModel::Text(entry.0)).with("size"@, nullable_int(entry.1))
}

/// The entries whose names begin with the prefix.
pub open spec fn matching(
    list: Seq<(Seq<char>, Option<int>)>,
    prefix: Seq<char>,
) -> Seq<(Seq<char>, Option<int>)> {
    list.filter(|e: (Seq<char>, Option<int>)| prefix.is_prefix_of(e.0))
}

/// The members of `metadata` that are texts, in order.
pub open spec fn text_entries(list: Seq<(Seq<char>, JsonModel)>) -> Seq<(Seq<char>, Seq<char>)> {
    list.filter_map(
        |m: (Seq<char>, JsonModel)|
            match m.1.text() {
                Some(s) => Some((m.0, s)),
                None => None,
            },
    )
}

/// The metadata that a request sets: the members of `metadata` that are texts.
pub open spec fn metadata_of(opts: JsonModel) -> Result<Seq<(Seq<char>, Seq<char>)>, Seq<char>> {
    let asked = match opts.get("metadata"@) {
        Some(v) => v.object(),
        None => None,
    };
    match asked {
        Some(list) => Ok(text_entries(list)),
        None => Err("missing metadata (an object of string => string)"@),
    }
}

/// The keys that stand in one object are distinct.
proof fn lemma_keys()
    ensures
        "container"@ != "blobs"@,
        "name"@ != "size"@,
        "container"@ != "name"@,
        "container"@ != "content_length"@,
        "container"@ != "content_type"@,
        "container"@ != "body"@,
        "name"@ != "content_length"@,
        "name"@ != "content_type"@,
        "name"@ != "body"@,
        "content_length"@ != "content_type"@,
        "content_length"@ != "body"@,
        "content_type"@ != "body"@,
        "container"@ != "uploaded"@,
        "name"@ != "uploaded"@,
        "container"@ != "deleted"@,
        "name"@ != "deleted"@,
        "container"@ != "etag"@,
        "container"@ != "last_modified"@,
        "container"@ != "blob_type"@,
        "name"@ != "etag"@,
        "name"@ != "last_modified"@,
        "name"@ != "blob_type"@,
        "content_length"@ != "etag"@,
        "content_length"@ != "last_modified"@,
        "content_length"@ != "blob_type"@,
        "content_type"@ != "etag"@,
        "content_type"@ != "last_modified"@,
        "content_type"@ != "blob_type"@,
        "etag"@ != "last_modified"@,
        "etag"@ != "blob_type"@,
        "last_modified"@ != "blob_type"@,
        "container"@ != "created"@,
        "container"@ != "metadata"@,
        "name"@ != "metadata"@,
{
    reveal_strlit("container");
    reveal_strlit("blobs");
    reveal_strlit("name");
    reveal_strlit("size");
    reveal_strlit("content_length");
    reveal_strlit("content_type");
    reveal_strlit("body");
    reveal_strlit("uploaded");
    reveal_strlit("deleted");
    reveal_strlit("etag");
    reveal_strlit("last_modified");
    reveal_strlit("blob_type");
    reveal_strlit("created");
    reveal_strlit("metadata");
    assert("container"@.len() == 9);
    assert("blobs"@.len() == 5);
    assert("name"@.len() == 4);
    assert("content_length"@.len() == 14);
    assert("content_type"@.len() == 12);
    assert("body"@.len() == 4);
    assert("uploaded"@.len() == 8);
    assert("deleted"@.len() == 7);
    assert("etag"@.len() == 4);
    assert("last_modified"@.len() == 13);
    assert("blob_type"@.len() == 9);
    assert("created"@.len() == 7);
    assert("metadata"@.len() == 8);
    assert("name"@[0] != "size"@[0]);
    assert("name"@[0] != "body"@[0]);
    assert("container"@[0] != "blob_type"@[0]);
    assert("name"@[0] != "etag"@[0]);
}

/// The blob that a request is about.
pub fn blob_target(opts: &Json) -> (r: Result<BlobTarget, Error>)
    ensures
        match r {
            Ok(t) => target_of(opts@) == Ok::<(Seq<char>, Seq<char>), Seq<char>>(t@),
            Err(e) => target_of(opts@) == Err::<(Seq<char>, Seq<char>), Seq<char>>(e@),
        },
        r matches Ok(t) ==> has_text(opts@, "container"@, t.container@) && has_text(
            opts@,
            "name"@,
            t.name@,
        ),
{
    let container = match req_str(opts, "container") {
        Ok(s) => s,
        Err(e) => {
            return Err(e);
        },
    };
    match req_str(opts, "name") {
        Ok(name) => Ok(BlobTarget { container: container.to_owned(), name: name.to_owned() }),
        Err(e) => Err(e),
    }
}

/// What a listing asks for.
pub fn blob_listing(opts: &Json) -> (r: Result<BlobListing, Error>)
    ensures
        match r {
            Ok(l) => listing_of(opts@) == Ok::<(Seq<char>, Seq<char>), Seq<char>>(l@),
            Err(e) => listing_of(opts@) == Err::<(Seq<char>, Seq<char>), Seq<char>>(e@),
        },
        r matches Ok(l) ==> has_text(opts@, "container"@, l.container@) && (has_text(
            opts@,
            "prefix"@,
            l.prefix@,
        ) || lacks_text(opts@, "prefix"@) && l.prefix@.len() == 0),
{
    match req_str(opts, "container") {
        Err(e) => Err(e),
        Ok(container) => Ok(
            BlobListing {
                container: container.to_owned(),
                prefix: match opt_str(opts, "prefix") {
                    Some(prefix) => prefix.to_owned(),
                    None => String::new(),
                },
            },
        ),
    }
}

/// The bytes that an upload writes: `body`, or none.
pub fn upload_bytes(opts: &Json) -> (r: Vec<u8>)
    ensures
        r@ == uploaded(opts@),
{
    match opt_str(opts, "body") {
        Some(body) => body.as_bytes_vec(),
        None => {
            let none: Vec<u8> = Vec::new();
            assert(none@ =~= encode_utf8(Seq::empty()));
            none
        },
    }
}

/// The answer of a listing of containers.
pub open spec fn list_containers_json(names: Seq<Option<String>>) -> JsonModel {
    empty_object().with("containers"@, text_array(present(names)))
}

/// The answer of a listing of containers.
pub fn list_containers_answer(names: Vec<Option<String>>) -> (r: Json)
    ensures
        r@ == list_containers_json(names@),
        well_formed(r@),
{
    broadcast use {lemma_get_with, lemma_well_formed_with, lemma_well_formed_texts};

    Json::empty().with("containers", text_list(&present_names(names)))
}

proof fn lemma_entry_well_formed(found: Seq<BlobEntry>, prefix: Seq<char>, k: int)
    requires
        0 <= k < matching(entries(found), prefix).len(),
    ensures
        well_formed(entry_json(matching(entries(found), prefix)[k])),
{
    broadcast use {lemma_get_with, lemma_well_formed_with};

    lemma_keys();
    let entry = matching(entries(found), prefix)[k];
    law_matching_names(entries(found), prefix, entry);
    assert(matching(entries(found), prefix).contains(entry));
    let i = entries(found).index_of(entry);
    assert(entry == found[i]@);
}

/// The answer of a listing of blobs: those whose names begin with the prefix.
pub open spec fn list_blobs_json(listing: BlobListing, found: Seq<BlobEntry>) -> JsonModel {
    empty_object().with("container"@, JsonModel::Text(listing@.0)).with(
        "blobs"@,
        JsonModel::Array(
            matching(entries(found), listing@.1).map_values(
                |e: (Seq<char>, Option<int>)| entry_json(e),
            ),
        ),
    )
}

/// The answer of a listing of blobs: those whose names begin with the prefix.
pub fn list_blobs_answer(listing: &BlobListing, found: &Vec<BlobEntry>) -> (r: Json)
    ensures
        r@ == list_blobs_json(*listing, found@),
        well_formed(r@),
{
    broadcast use {lemma_get_with, lemma_well_formed_with};

    let ghost prefix = listing.prefix@;
    let ghost all = entries(found@);
    let ghost keep = |e: (Seq<char>, Option<int>)| prefix.is_prefix_of(e.0);
    let ghost show = |e: (Seq<char>, Option<int>)| entry_json(e);
    let mut r: Vec<Json> = Vec::new();
    let mut i: usize = 0;
    proof {
        reveal(Seq::filter);
        assert(items(r@) =~= all.take(0).filter(keep).map_values(show));
    }
    while i < found.len()
        invariant
            i <= found@.len(),
            prefix == listing.prefix@,
            all == entries(found@),
            keep == |e: (Seq<char>, Option<int>)| prefix.is_prefix_of(e.0),
            show == |e: (Seq<char>, Option<int>)| entry_json(e),
            items(r@) == all.take(i as int).filter(keep).map_values(show),
        decreases found.len() - i,
    {
        let ghost before = r@;
        let ghost kept = all.take(i as int).filter(keep);
        let ghost entry = all[i as int];
        proof {
            reveal(Seq::filter);
            assert(all.take(i + 1).drop_last() =~= all.take(i as int));
            assert(all.take(i + 1).last() == entry);
            assert(entry == found@[i as int]@);
        }
        let name = match &found[i].name {
            Some(name) => name.clone(),
            None => String::new(),
        };
        if begins_with(name.as_str(), listing.prefix.as_str()) {
            r.push(
                Json::empty().with("name", Json::Text(name)).with("size", size_json(found[i].size)),
            );
            proof {
                assert(items(r@) =~= items(before).push(entry_json(entry)));
                assert(kept.push(entry).map_values(show) =~= kept.map_values(show).push(
                    entry_json(entry),
                ));
            }
        }
        i = i + 1;
    }
    assert(all.take(all.len() as int) =~= all);
    proof {
        lemma_keys();
        let shown = matching(all, prefix).map_values(show);
        assert forall|k: int| 0 <= k < shown.len() implies well_formed(#[trigger] shown[k]) by {
            lemma_entry_well_formed(found@, prefix, k);
        }
        lemma_well_formed_array(shown);
    }
    Json::empty().with("container", Json::text(listing.container.as_str())).with(
        "blobs",
        Json::array(r),
    )
}

/// The answer of a download.
pub open spec fn get_json(
    target: BlobTarget,
    content_length: Option<u64>,
    content_type: Option<String>,
    bytes: Seq<u8>,
) -> JsonModel {
    empty_object().with("container"@, JsonModel::Text(target@.0)).with(
        "name"@,
        JsonModel::Text(target@.1),
    ).with("content_length"@, nullable_int(size_of(content_length))).with(
        "content_type"@,
        nullable(opt_text(content_type)),
    ).with("body"@, JsonModel::Text(shown(bytes)))
}

/// The answer of a download.
pub fn get_answer(
    target: &BlobTarget,
    content_length: Option<u64>,
    content_type: &Option<String>,
    bytes: &[u8],
) -> (r: Json)
    ensures
        r@ == get_json(*target, content_length, *content_type, bytes@),
        well_formed(r@),
{
    broadcast use {lemma_get_with, lemma_well_formed_with};

    proof {
        lemma_keys();
    }
    Json::empty().with("container", Json::text(target.container.as_str())).with(
        "name",
        Json::text(target.name.as_str()),
    ).with("content_length", size_json(content_length)).with(
        "content_type",
        Json::nullable(content_type),
    ).with("body", Json::Text(shown_text(bytes)))
}

/// The answer of an upload.
pub open spec fn put_json(target: BlobTarget) -> JsonModel {
    empty_object().with("container"@, JsonModel::Text(target@.0)).with(
        "name"@,
        JsonModel::Text(target@.1),
    ).with("uploaded"@, JsonModel::Bool(true))
}

/// The answer of an upload.
pub fn put_answer(target: &BlobTarget) -> (r: Json)
    ensures
        r@ == put_json(*target),
        well_formed(r@),
{
    broadcast use {lemma_get_with, lemma_well_formed_with};

    proof {
        lemma_keys();
    }
    Json::empty().with("container", Json::text(target.container.as_str())).with(
        "name",
        Json::text(target.name.as_str()),
    ).with("uploaded", Json::Bool(true))
}

/// The answer of a deletion.
pub open spec fn delete_json(target: BlobTarget) -> JsonModel {
    empty_object().with("container"@, JsonModel::Text(target@.0)).with(
        "name"@,
        JsonModel::Text(target@.1),
    ).with("deleted"@, JsonModel::Bool(true))
}

/// The answer of a deletion.
pub fn delete_answer(target: &BlobTarget) -> (r: Json)
    ensures
        r@ == delete_json(*target),
        well_formed(r@),
{
    broadcast use {lemma_get_with, lemma_well_formed_with};

    proof {
        lemma_keys();
    }
    Json::empty().with("container", Json::text(target.container.as_str())).with(
        "name",
        Json::text(target.name.as_str()),
    ).with("deleted", Json::Bool(true))
}

/// The answer with the properties of a blob.
pub open spec fn properties_json(target: BlobTarget, found: BlobProperties) -> JsonModel {
    empty_object().with("container"@, JsonModel::Text(target@.0)).with(
        "name"@,
        JsonModel::Text(target@.1),
    ).with("content_length"@, nullable_int(size_of(found.content_length))).with(
        "content_type"@,
        nullable(opt_text(found.content_type)),
    ).with("etag"@, nullable(opt_text(found.etag))).with(
        "last_modified"@,
        nullable(opt_text(found.last_modified)),
    ).with("blob_type"@, nullable(opt_text(found.blob_type)))
}

/// The answer with the properties of a blob.
pub fn properties_answer(target: &BlobTarget, found: &BlobProperties) -> (r: Json)
    ensures
        r@ == properties_json(*target, *found),
        well_formed(r@),
{
    broadcast use {lemma_get_with, lemma_well_formed_with};

    proof {
        lemma_keys();
    }
    Json::empty().with("container", Json::text(target.container.as_str())).with(
        "name",
        Json::text(target.name.as_str()),
    ).with("content_length", size_json(found.content_length)).with(
        "content_type",
        Json::nullable(&found.content_type),
    ).with("etag", Json::nullable(&found.etag)).with(
        "last_modified",
        Json::nullable(&found.last_modified),
    ).with("blob_type", Json::nullable(&found.blob_type))
}

/// The answer of the creation of a container.
pub open spec fn create_container_json(container: Seq<char>) -> JsonModel {
    empty_object().with("container"@, JsonModel::Text(container)).with(
        "created"@,
        JsonModel::Bool(true),
    )
}

/// The answer of the creation of a container.
pub fn create_container_answer(container: &str) -> (r: Json)
    ensures
        r@ == create_container_json(container@),
        well_formed(r@),
{
    broadcast use {lemma_get_with, lemma_well_formed_with};

    proof {
        lemma_keys();
    }
    Json::empty().with("container", Json::text(container)).with("created", Json::Bool(true))
}

/// The answer of the deletion of a container.
pub open spec fn delete_container_json(container: Seq<char>) -> JsonModel {
    empty_object().with("container"@, JsonModel::Text(container)).with(
        "deleted"@,
        JsonModel::Bool(true),
    )
}

/// The answer of the deletion of a container.
pub fn delete_container_answer(container: &str) -> (r: Json)
    ensures
        r@ == delete_container_json(container@),
        well_formed(r@),
{
    broadcast use {lemma_get_with, lemma_well_formed_with};

    proof {
        lemma_keys();
    }
    Json::empty().with("container", Json::text(container)).with("deleted", Json::Bool(true))
}

/// Whether a member has that key.
spec fn keyed(list: Seq<(Seq<char>, JsonModel)>, key: Seq<char>) -> bool {
    exists|i: int| 0 <= i < list.len() && (#[trigger] list[i]).0 == key
}

proof fn lemma_text_entries(list: Seq<(Seq<char>, JsonModel)>)
    requires
        unique_keys(list),
    ensures
        distinct_keys(text_entries(list)),
        forall|i: int|
            0 <= i < text_entries(list).len() ==> keyed(list, (#[trigger] text_entries(list)[i]).0),
    decreases list.len(),
{
    if list.len() > 0 {
        let front = list.drop_last();
        let before = text_entries(front);
        let after = text_entries(list);
        lemma_text_entries(front);
        assert forall|i: int| 0 <= i < before.len() implies keyed(list, (#[trigger] before[i]).0)
            && before[i].0 != list.last().0 by {
            assert(keyed(front, before[i].0));
            let j = choose|j: int| 0 <= j < front.len() && (#[trigger] front[j]).0 == before[i].0;
            assert(list[j] == front[j]);
            assert(list.last() == list[list.len() - 1]);
        }
        assert(keyed(list, list.last().0)) by {
            assert(list[list.len() - 1].0 == list.last().0);
        }
        match list.last().1.text() {
            Some(t) => {
                assert(after =~= before.push((list.last().0, t)));
            },
            None => {
                assert(after =~= before);
            },
        }
    }
}

/// The metadata that a request sets. No key comes twice where the options are well-formed.
pub fn blob_metadata(opts: &Json) -> (r: Result<Vec<(String, String)>, Error>)
    ensures
        match r {
            Ok(list) => metadata_of(opts@) == Ok::<Seq<(Seq<char>, Seq<char>)>, Seq<char>>(
                pairs(list@),
            ),
            Err(e) => metadata_of(opts@) == Err::<Seq<(Seq<char>, Seq<char>)>, Seq<char>>(e@),
        },
        well_formed(opts@) ==> (r matches Ok(list) ==> distinct_keys(pairs(list@))),
{
    let asked = match opts.get("metadata") {
        Some(v) => v.as_object(),
        None => None,
    };
    let list = match asked {
        Some(list) => list,
        None => {
            return Err(Error::new("missing metadata (an object of string => string)"));
        },
    };
    let ghost all = members(list@);
    let ghost f = |m: (Seq<char>, JsonModel)|
        match m.1.text() {
            Some(s) => Some((m.0, s)),
            None => None,
        };
    let mut r: Vec<(String, String)> = Vec::new();
    let mut i: usize = 0;
    assert(pairs(r@) =~= all.take(0).filter_map(f));
    while i < list.len()
        invariant
            i <= list@.len(),
            all == members(list@),
            f == |m: (Seq<char>, JsonModel)|
                match m.1.text() {
                    Some(s) => Some((m.0, s)),
                    None => None,
                },
            pairs(r@) == all.take(i as int).filter_map(f),
        decreases list.len() - i,
    {
        let ghost before = r@;
        proof {
            assert(all.take(i + 1).drop_last() =~= all.take(i as int));
            assert(all.take(i + 1).last() == (list@[i as int].0@, list@[i as int].1@));
        }
        match list[i].1.as_str() {
            Some(s) => {
                r.push((list[i].0.clone(), s.to_owned()));
                assert(pairs(r@) =~= pairs(
                    before,
                ) + seq![(list@[i as int].0@, s@)]);
            },
            None => {},
        }
        i = i + 1;
    }
    assert(all.take(all.len() as int) =~= all);
    proof {
        if well_formed(opts@) {
            lemma_get_well_formed(opts@, "metadata"@);
            lemma_text_entries(all);
        }
    }
    Ok(r)
}

/// The answer of setting metadata: how many entries were set.
pub open spec fn set_metadata_json(
    target: BlobTarget,
    metadata: Seq<(String, String)>,
) -> JsonModel {
    empty_object().with("container"@, JsonModel::Text(target@.0)).with(
        "name"@,
        JsonModel::Text(target@.1),
    ).with("metadata"@, nullable_int(Some(metadata.len() as int)))
}

/// The answer of setting metadata: how many entries were set.
pub fn set_metadata_answer(target: &BlobTarget, metadata: &Vec<(String, String)>) -> (r: Json)
    ensures
        r@ == set_metadata_json(*target, metadata@),
        well_formed(r@),
{
    broadcast use {lemma_get_with, lemma_well_formed_with};

    proof {
        lemma_keys();
    }
    Json::empty().with("container", Json::text(target.container.as_str())).with(
        "name",
        Json::text(target.name.as_str()),
    ).with("metadata", Json::count(metadata.len() as u64))
}

/// A listing without a prefix answers every blob.
pub proof fn law_no_prefix_keeps_all(list: Seq<(Seq<char>, Option<int>)>)
    ensures
        matching(list, Seq::empty()) == list,
{
    crate::text::lemma_filter_all(
        list,
        |e: (Seq<char>, Option<int>)| Seq::<char>::empty().is_prefix_of(e.0),
    );
}

/// A listing answers a blob exactly if it was found and its name begins with the
/// prefix.
pub proof fn law_matching_names(
    list: Seq<(Seq<char>, Option<int>)>,
    prefix: Seq<char>,
    entry: (Seq<char>, Option<int>),
)
    ensures
        matching(list, prefix).contains(entry) <==> list.contains(entry) && prefix.is_prefix_of(
            entry.0,
        ),
{
    broadcast use vstd::seq_lib::group_filter_ensures;

    let keep = |e: (Seq<char>, Option<int>)| prefix.is_prefix_of(e.0);
    if matching(list, prefix).contains(entry) {
        list.lemma_filter_contains_rev(keep, entry);
    }
}

/// A request about a blob names its container and the blob. The first that is missing is
/// reported.
pub proof fn law_blob_target(opts: JsonModel, container: Seq<char>, name: Seq<char>)
    ensures
        lacks_text(opts, "container"@) ==>
            target_of(opts) == Err::<(Seq<char>, Seq<char>), Seq<char>>("missing "@ + "container"@),
        has_text(opts, "container"@, container) && lacks_text(opts, "name"@) ==>
            target_of(opts) == Err::<(Seq<char>, Seq<char>), Seq<char>>("missing "@ + "name"@),
        has_text(opts, "container"@, container) && has_text(opts, "name"@, name) ==>
            target_of(opts) == Ok::<(Seq<char>, Seq<char>), Seq<char>>((container, name)),
{
}

/// A listing is of a container, and of the names that begin with `prefix`; without one, of
/// all names.
pub proof fn law_blob_listing(opts: JsonModel, container: Seq<char>, prefix: Seq<char>)
    ensures
        lacks_text(opts, "container"@) ==> listing_of(opts) == Err::<
            (Seq<char>, Seq<char>),
            Seq<char>,
        >("missing "@ + "container"@),
        has_text(opts, "container"@, container) && has_text(opts, "prefix"@, prefix) ==> listing_of(
            opts,
        ) == Ok::<(Seq<char>, Seq<char>), Seq<char>>((container, prefix)),
        has_text(opts, "container"@, container) && lacks_text(opts, "prefix"@) ==> listing_of(opts)
            == Ok::<(Seq<char>, Seq<char>), Seq<char>>((container, Seq::empty())),
{
}

/// An upload writes the UTF-8 of `body`, and nothing without one.
pub proof fn law_upload(opts: JsonModel, body: Seq<char>)
    ensures
        has_text(opts, "body"@, body) ==> uploaded(opts) == encode_utf8(body),
        lacks_text(opts, "body"@) ==> uploaded(opts).len() == 0,
{
}

/// Metadata is an object. Its texts are set, under their keys and in their order, and its
/// other members are passed over.
pub proof fn law_metadata(
    opts: JsonModel,
    longer: JsonModel,
    list: Seq<(Seq<char>, JsonModel)>,
    key: Seq<char>,
    value: JsonModel,
)
    ensures
        !(opts.get("metadata"@) matches Some(JsonModel::Object(_))) ==> metadata_of(opts) == Err::<
            Seq<(Seq<char>, Seq<char>)>,
            Seq<char>,
        >("missing metadata (an object of string => string)"@),
        opts.get("metadata"@) == Some(JsonModel::Object(Seq::empty())) ==> metadata_of(opts)
            == Ok::<Seq<(Seq<char>, Seq<char>)>, Seq<char>>(Seq::empty()),
        opts.get("metadata"@) == Some(JsonModel::Object(list)) && longer.get("metadata"@) == Some(
            JsonModel::Object(list.push((key, value))),
        ) ==> metadata_of(opts) is Ok && metadata_of(longer) == Ok::<
            Seq<(Seq<char>, Seq<char>)>,
            Seq<char>,
        >(
            match value {
                JsonModel::Text(s) => metadata_of(opts)->Ok_0.push((key, s)),
                _ => metadata_of(opts)->Ok_0,
            },
        ),
{
    let all = list.push((key, value));
    assert(all.drop_last() =~= list);
    assert(all.last() == (key, value));
    match value {
        JsonModel::Text(s) => {
            assert(text_entries(all) =~= text_entries(list).push((key, s)));
        },
        _ => {
            assert(text_entries(all) == text_entries(list));
        },
    }
}

/// A listing of containers has the name of each that has one, in order.
pub proof fn law_listed_containers(names: Seq<Option<String>>, name: String)
    ensures
        list_containers_json(names) is Object,
        list_containers_json(names)->Object_0.len() == 1,
        list_containers_json(names).get("containers"@) is Some
            && list_containers_json(names).get("containers"@)->0 is Array,
        list_containers_json(Seq::empty()).get("containers"@)->0->Array_0.len() == 0,
        list_containers_json(names.push(Some(name))).get("containers"@)->0->Array_0
            == list_containers_json(names).get("containers"@)->0->Array_0.push(JsonModel::Text(name@)),
        list_containers_json(names.push(None)).get("containers"@)->0->Array_0
            == list_containers_json(names).get("containers"@)->0->Array_0,
{
    broadcast use lemma_get_with;

    law_present(names, name);
    let texts = |s: Seq<char>| JsonModel::Text(s);
    assert(present(names).push(name@).map_values(texts)
        =~= present(names).map_values(texts).push(JsonModel::Text(name@)));
}

/// A listing names its container. A blob that is found is listed, with its name and its size,
/// exactly if its name begins with the prefix; one without a name counts as one with an
/// empty name. What was listed before stays as it is.
pub proof fn law_listed_blobs(listing: BlobListing, found: Seq<BlobEntry>, entry: BlobEntry)
    ensures
        list_blobs_json(listing, found) is Object,
        list_blobs_json(listing, found)->Object_0.len() == 2,
        list_blobs_json(listing, found).get("container"@)
            == Some(JsonModel::Text(listing.container@)),
        list_blobs_json(listing, found).get("blobs"@) is Some
            && list_blobs_json(listing, found).get("blobs"@)->0 is Array,
        list_blobs_json(listing, Seq::empty()).get("blobs"@)->0->Array_0.len() == 0,
        !starts_with(shown_name(entry), listing.prefix@) ==>
            list_blobs_json(listing, found.push(entry)).get("blobs"@)->0->Array_0
            == list_blobs_json(listing, found).get("blobs"@)->0->Array_0,
        starts_with(shown_name(entry), listing.prefix@) ==> {
            let longer = list_blobs_json(listing, found.push(entry)).get("blobs"@)->0->Array_0;
            &&& longer.len() == list_blobs_json(listing, found).get("blobs"@)->0->Array_0.len() + 1
            &&& longer.drop_last() == list_blobs_json(listing, found).get("blobs"@)->0->Array_0
            &&& longer.last() is Object
            &&& longer.last()->Object_0.len() == 2
            &&& longer.last().get("name"@) == Some(JsonModel::Text(shown_name(entry)))
            &&& holds_size(longer.last().get("size"@), entry.size)
        },
{
    broadcast use lemma_get_with;

    lemma_keys();
    reveal(Seq::filter);
    let keep = |e: (Seq<char>, Option<int>)| listing.prefix@.is_prefix_of(e.0);
    let show = |e: (Seq<char>, Option<int>)| entry_json(e);
    let all = entries(found);
    let kept = matching(all, listing.prefix@);
    assert(entries(found.push(entry)) =~= all.push(entry@));
    assert(entries(Seq::empty()) =~= Seq::empty());
    assert(all.push(entry@).drop_last() =~= all);
    assert(entry@.0 == shown_name(entry));
    assert(starts_with(shown_name(entry), listing.prefix@)
        == listing.prefix@.is_prefix_of(shown_name(entry)));
    assert(kept.push(entry@).map_values(show) =~= kept.map_values(show).push(entry_json(entry@)));
    assert(kept.map_values(show).push(entry_json(entry@)).drop_last() =~= kept.map_values(show));
}

/// A download is answered with the blob, what the service says of it, and its content as text.
pub proof fn law_downloaded(
    target: BlobTarget,
    content_length: Option<u64>,
    content_type: Option<String>,
    bytes: Seq<u8>,
)
    ensures
        get_json(target, content_length, content_type, bytes) is Object,
        get_json(target, content_length, content_type, bytes)->Object_0.len() == 5,
        get_json(target, content_length, content_type, bytes).get("container"@)
            == Some(JsonModel::Text(target.container@)),
        get_json(target, content_length, content_type, bytes).get("name"@)
            == Some(JsonModel::Text(target.name@)),
        holds_size(get_json(target, content_length, content_type, bytes).get("content_length"@), content_length),
        holds_text(get_json(target, content_length, content_type, bytes).get("content_type"@), content_type),
        get_json(target, content_length, content_type, bytes).get("body"@)
            == Some(JsonModel::Text(shown(bytes))),
{
    broadcast use lemma_get_with;

    lemma_keys();
}

/// An upload is answered with the blob.
pub proof fn law_uploaded(target: BlobTarget)
    ensures
        put_json(target) is Object,
        put_json(target)->Object_0.len() == 3,
        put_json(target).get("container"@) == Some(JsonModel::Text(target.container@)),
        put_json(target).get("name"@) == Some(JsonModel::Text(target.name@)),
        put_json(target).get("uploaded"@) == Some(JsonModel::Bool(true)),
{
    broadcast use lemma_get_with;

    lemma_keys();
}

/// A deletion is answered with the blob.
pub proof fn law_deleted_blob(target: BlobTarget)
    ensures
        delete_json(target) is Object,
        delete_json(target)->Object_0.len() == 3,
        delete_json(target).get("container"@) == Some(JsonModel::Text(target.container@)),
        delete_json(target).get("name"@) == Some(JsonModel::Text(target.name@)),
        delete_json(target).get("deleted"@) == Some(JsonModel::Bool(true)),
{
    broadcast use lemma_get_with;

    lemma_keys();
}

/// Each property of a blob is answered under its own key.
pub proof fn law_blob_properties(target: BlobTarget, found: BlobProperties)
    ensures
        properties_json(target, found) is Object,
        properties_json(target, found)->Object_0.len() == 7,
        properties_json(target, found).get("container"@)
            == Some(JsonModel::Text(target.container@)),
        properties_json(target, found).get("name"@) == Some(JsonModel::Text(target.name@)),
        holds_size(properties_json(target, found).get("content_length"@), found.content_length),
        holds_text(properties_json(target, found).get("content_type"@), found.content_type),
        holds_text(properties_json(target, found).get("etag"@), found.etag),
        holds_text(properties_json(target, found).get("last_modified"@), found.last_modified),
        holds_text(properties_json(target, found).get("blob_type"@), found.blob_type),
{
    broadcast use lemma_get_with;

    lemma_keys();
}

/// The creation of a container is answered with its name.
pub proof fn law_created_container(container: Seq<char>)
    ensures
        create_container_json(container) is Object,
        create_container_json(container)->Object_0.len() == 2,
        create_container_json(container).get("container"@) == Some(JsonModel::Text(container)),
        create_container_json(container).get("created"@) == Some(JsonModel::Bool(true)),
{
    broadcast use lemma_get_with;

    lemma_keys();
}

/// The deletion of a container is answered with its name.
pub proof fn law_deleted_container(container: Seq<char>)
    ensures
        delete_container_json(container) is Object,
        delete_container_json(container)->Object_0.len() == 2,
        delete_container_json(container).get("container"@) == Some(JsonModel::Text(container)),
        delete_container_json(container).get("deleted"@) == Some(JsonModel::Bool(true)),
{
    broadcast use lemma_get_with;

    lemma_keys();
}

/// Setting metadata is answered with the blob and the number of entries.
pub proof fn law_metadata_set(target: BlobTarget, metadata: Seq<(String, String)>)
    ensures
        set_metadata_json(target, metadata) is Object,
        set_metadata_json(target, metadata)->Object_0.len() == 3,
        set_metadata_json(target, metadata).get("container"@)
            == Some(JsonModel::Text(target.container@)),
        set_metadata_json(target, metadata).get("name"@) == Some(JsonModel::Text(target.name@)),
        set_metadata_json(target, metadata).get("metadata"@)
            == Some(JsonModel::Number(NumberModel::Integer(metadata.len() as int))),
{
    broadcast use lemma_get_with;

    lemma_keys();
}

/// The name that a listing shows of a blob.
pub open spec fn shown_name(entry: BlobEntry) -> Seq<char> {
    match entry.name {
        Some(name) => name@,
        None => Seq::empty(),
    }
}

/// Whether a text starts with another, character by character.
pub open spec fn starts_with(s: Seq<char>, start: Seq<char>) -> bool {
    &&& start.len() <= s.len()
    &&& forall|i: int| 0 <= i < start.len() ==> #[trigger] s[i] == start[i]
}

/// The parts of what a request asks for, each by its name.
pub proof fn law_request_parts(target: BlobTarget, listing: BlobListing)
    ensures
        target@.0 == target.container@ && target@.1 == target.name@,
        listing@.0 == listing.container@ && listing@.1 == listing.prefix@,
{
}

} // verus!
