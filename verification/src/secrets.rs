//! Key Vault secrets: what a request asks for, and how what the service gave is answered.
use vstd::prelude::*;
use vstd::string::*;

use crate::answers::{holds_ids, holds_text};
use crate::encoding::{base64_encode, base64_of};
use crate::error::Error;
use crate::json::{
    empty_object, items, lemma_get_with, lemma_well_formed_array, lemma_well_formed_with, nullable,
    well_formed, Json, JsonModel,
};
use crate::options::{has_text, lacks_text, opt_str, owned, req_str, required};
use crate::text::opt_text;

verus! {

/// A secret to set.
#[derive(Debug, PartialEq)]
pub struct NewSecret {
    pub name: String,
    pub value: String,
    pub content_type: Option<String>,
}

impl View for NewSecret {
    type V = (Seq<char>, Seq<char>, Option<Seq<char>>);

    open spec fn view(&self) -> (Seq<char>, Seq<char>, Option<Seq<char>>) {
        (self.name@, self.value@, opt_text(self.content_type))
    }
}

/// The secret that a request sets: `name` first, then `value`; `content_type` may be
/// left out.
pub open spec fn new_secret_of(opts: JsonModel) -> Result<
    (Seq<char>, Seq<char>, Option<Seq<char>>),
    Seq<char>,
> {
    match required(opts, "name"@) {
        Err(e) => Err(e),
        Ok(name) => match required(opts, "value"@) {
            Err(e) => Err(e),
            Ok(value) => Ok((name, value, opts.text_at("content_type"@))),
        },
    }
}

/// Objects that hold an id each.
pub open spec fn id_objects(ids: Seq<Option<String>>) -> JsonModel {
    JsonModel::Array(
        ids.map_values(|id: Option<String>| empty_object().with("id"@, nullable(opt_text(id)))),
    )
}

/// The Base64 text of bytes that may be absent.
pub open spec fn base64_of_opt(bytes: Option<Vec<u8>>) -> Option<Seq<char>> {
    match bytes {
        Some(b) => Some(base64_of(b@)),
        None => None,
    }
}

/// The keys that stand in one object are distinct.
proof fn lemma_keys()
    ensures
        "name"@ != "value"@,
        "name"@ != "id"@,
        "value"@ != "id"@,
        "name"@ != "deleted"@,
        "name"@ != "versions"@,
        "name"@ != "backup"@,
{
    reveal_strlit("name");
    reveal_strlit("value");
    reveal_strlit("id");
    reveal_strlit("deleted");
    reveal_strlit("versions");
    reveal_strlit("backup");
    assert("name"@.len() == 4);
    assert("value"@.len() == 5);
    assert("id"@.len() == 2);
    assert("deleted"@.len() == 7);
    assert("versions"@.len() == 8);
    assert("backup"@.len() == 6);
}

/// The Base64 text of bytes that may be absent.
pub fn base64_text(bytes: &Option<Vec<u8>>) -> (r: Option<String>)
    ensures
        opt_text(r) == base64_of_opt(*bytes),
{
    match bytes {
        Some(b) => Some(base64_encode(b.as_slice())),
        None => None,
    }
}

/// The secret that a request sets.
pub fn new_secret(opts: &Json) -> (r: Result<NewSecret, Error>)
    ensures
        match r {
            Ok(s) => new_secret_of(opts@) == Ok::<
                (Seq<char>, Seq<char>, Option<Seq<char>>),
                Seq<char>,
            >(s@),
            Err(e) => new_secret_of(opts@) == Err::<
                (Seq<char>, Seq<char>, Option<Seq<char>>),
                Seq<char>,
            >(e@),
        },
{
    let name = match req_str(opts, "name") {
        Ok(s) => s,
        Err(e) => {
            return Err(e);
        },
    };
    match req_str(opts, "value") {
        Ok(value) => Ok(
            NewSecret {
                name: name.to_owned(),
                value: value.to_owned(),
                content_type: owned(opt_str(opts, "content_type")),
            },
        ),
        Err(e) => Err(e),
    }
}

/// Objects that hold an id each.
fn id_list(ids: &Vec<Option<String>>) -> (r: Json)
    ensures
        r@ == id_objects(ids@),
{
    let ghost want = ids@.map_values(
        |id: Option<String>| empty_object().with("id"@, nullable(opt_text(id))),
    );
    let mut r: Vec<Json> = Vec::new();
    let mut i: usize = 0;
    while i < ids.len()
        invariant
            i <= ids@.len(),
            want == ids@.map_values(
                |id: Option<String>| empty_object().with("id"@, nullable(opt_text(id))),
            ),
            items(r@) == want.take(i as int),
        decreases ids.len() - i,
    {
        let ghost before = r@;
        r.push(Json::empty().with("id", Json::nullable(&ids[i])));
        assert(items(r@) =~= items(before).push(want[i as int]));
        assert(items(r@) =~= want.take(i + 1));
        i = i + 1;
    }
    assert(want.take(want.len() as int) =~= want);
    Json::array(r)
}

proof fn lemma_ids_well_formed(ids: Seq<Option<String>>)
    ensures
        well_formed(id_objects(ids)),
{
    broadcast use {lemma_get_with, lemma_well_formed_with};

    let list = ids.map_values(
        |id: Option<String>| empty_object().with("id"@, nullable(opt_text(id))),
    );
    assert forall|i: int| 0 <= i < list.len() implies well_formed(#[trigger] list[i]) by {
        assert(list[i] == empty_object().with("id"@, nullable(opt_text(ids[i]))));
    }
    lemma_well_formed_array(list);
}

/// The answer with a secret.
pub open spec fn get_json(name: Seq<char>, value: Option<String>, id: Option<String>) -> JsonModel {
    empty_object().with("name"@, JsonModel::Text(name)).with(
        "value"@,
        nullable(opt_text(value)),
    ).with("id"@, nullable(opt_text(id)))
}

/// The answer with a secret.
pub fn get_answer(name: &str, value: &Option<String>, id: &Option<String>) -> (r: Json)
    ensures
        r@ == get_json(name@, *value, *id),
        well_formed(r@),
{
    broadcast use {lemma_get_with, lemma_well_formed_with};

    proof {
        lemma_keys();
    }
    Json::empty().with("name", Json::text(name)).with("value", Json::nullable(value)).with(
        "id",
        Json::nullable(id),
    )
}

/// The answer of setting a secret.
pub open spec fn set_json(name: Seq<char>, id: Option<String>) -> JsonModel {
    empty_object().with("name"@, JsonModel::Text(name)).with(
        "id"@,
        nullable(opt_text(id)),
    )
}

/// The answer of setting a secret.
pub fn set_answer(name: &str, id: &Option<String>) -> (r: Json)
    ensures
        r@ == set_json(name@, *id),
        well_formed(r@),
{
    broadcast use {lemma_get_with, lemma_well_formed_with};

    proof {
        lemma_keys();
    }
    Json::empty().with("name", Json::text(name)).with("id", Json::nullable(id))
}

/// The answer of a listing of secrets.
pub open spec fn list_json(ids: Seq<Option<String>>) -> JsonModel {
    empty_object().with("secrets"@, id_objects(ids))
}

/// The answer of a listing of secrets.
pub fn list_answer(ids: &Vec<Option<String>>) -> (r: Json)
    ensures
        r@ == list_json(ids@),
        well_formed(r@),
{
    broadcast use {lemma_get_with, lemma_well_formed_with};

    proof {
        lemma_keys();
        lemma_ids_well_formed(ids@);
    }
    Json::empty().with("secrets", id_list(ids))
}

/// The answer of the deletion of a secret.
pub open spec fn delete_json(name: Seq<char>) -> JsonModel {
    empty_object().with("name"@, JsonModel::Text(name)).with(
        "deleted"@,
        JsonModel::Bool(true),
    )
}

/// The answer of deleting a secret.
pub fn delete_answer(name: &str) -> (r: Json)
    ensures
        r@ == delete_json(name@),
        well_formed(r@),
{
    broadcast use {lemma_get_with, lemma_well_formed_with};

    proof {
        lemma_keys();
    }
    Json::empty().with("name", Json::text(name)).with("deleted", Json::Bool(true))
}

/// The answer of a listing of versions.
pub open spec fn list_versions_json(name: Seq<char>, ids: Seq<Option<String>>) -> JsonModel {
    empty_object().with("name"@, JsonModel::Text(name)).with(
        "versions"@,
        id_objects(ids),
    )
}

/// The answer of a listing of the versions of a secret.
pub fn list_versions_answer(name: &str, ids: &Vec<Option<String>>) -> (r: Json)
    ensures
        r@ == list_versions_json(name@, ids@),
        well_formed(r@),
{
    broadcast use {lemma_get_with, lemma_well_formed_with};

    proof {
        lemma_keys();
        lemma_ids_well_formed(ids@);
    }
    Json::empty().with("name", Json::text(name)).with("versions", id_list(ids))
}

/// The answer of a backup.
pub open spec fn backup_json(name: Seq<char>, bytes: Option<Vec<u8>>) -> JsonModel {
    empty_object().with("name"@, JsonModel::Text(name)).with(
        "backup"@,
        nullable(base64_of_opt(bytes)),
    )
}

/// The answer of backing up a secret: the opaque bytes in Base64.
pub fn backup_answer(name: &str, bytes: &Option<Vec<u8>>) -> (r: Json)
    ensures
        r@ == backup_json(name@, *bytes),
        well_formed(r@),
{
    broadcast use {lemma_get_with, lemma_well_formed_with};

    proof {
        lemma_keys();
    }
    Json::empty().with("name", Json::text(name)).with(
        "backup",
        Json::nullable(&base64_text(bytes)),
    )
}

/// A request to set a secret names it and has its value, and may have the type of its
/// content. The first of name and value that is missing is reported.
pub proof fn law_new_secret(opts: JsonModel, name: Seq<char>, value: Seq<char>, kind: Seq<char>)
    ensures
        lacks_text(opts, "name"@) ==>
            new_secret_of(opts)
            == Err::<(Seq<char>, Seq<char>, Option<Seq<char>>), Seq<char>>("missing "@ + "name"@),
        has_text(opts, "name"@, name) && lacks_text(opts, "value"@) ==>
            new_secret_of(opts)
            == Err::<(Seq<char>, Seq<char>, Option<Seq<char>>), Seq<char>>("missing "@ + "value"@),
        has_text(opts, "name"@, name) && has_text(opts, "value"@, value)
            && has_text(opts, "content_type"@, kind) ==>
            new_secret_of(opts)
            == Ok::<(Seq<char>, Seq<char>, Option<Seq<char>>), Seq<char>>(
                (name, value, Some(kind)),
            ),
        has_text(opts, "name"@, name) && has_text(opts, "value"@, value)
            && lacks_text(opts, "content_type"@) ==>
            new_secret_of(opts)
            == Ok::<(Seq<char>, Seq<char>, Option<Seq<char>>), Seq<char>>((name, value, None)),
{
}

/// A secret is answered with its value and its id.
pub proof fn law_secret_answer(name: Seq<char>, value: Option<String>, id: Option<String>)
    ensures
        get_json(name, value, id) is Object,
        get_json(name, value, id)->Object_0.len() == 3,
        get_json(name, value, id).get("name"@) == Some(JsonModel::Text(name)),
        holds_text(get_json(name, value, id).get("value"@), value),
        holds_text(get_json(name, value, id).get("id"@), id),
{
    broadcast use lemma_get_with;

    lemma_keys();
}

/// A secret that was set is answered with its id.
pub proof fn law_secret_set(name: Seq<char>, id: Option<String>)
    ensures
        set_json(name, id) is Object,
        set_json(name, id)->Object_0.len() == 2,
        set_json(name, id).get("name"@) == Some(JsonModel::Text(name)),
        holds_text(set_json(name, id).get("id"@), id),
{
    broadcast use lemma_get_with;

    lemma_keys();
}

/// A listing of secrets has the id of each, in order.
pub proof fn law_listed_secrets(ids: Seq<Option<String>>)
    ensures
        list_json(ids) is Object,
        list_json(ids)->Object_0.len() == 1,
        holds_ids(list_json(ids).get("secrets"@), ids),
{
    broadcast use lemma_get_with;

}

/// The deletion of a secret is answered with its name.
pub proof fn law_deleted_secret(name: Seq<char>)
    ensures
        delete_json(name) is Object,
        delete_json(name)->Object_0.len() == 2,
        delete_json(name).get("name"@) == Some(JsonModel::Text(name)),
        delete_json(name).get("deleted"@) == Some(JsonModel::Bool(true)),
{
    broadcast use lemma_get_with;

    lemma_keys();
}

/// A listing of the versions of a secret has the id of each, in order.
pub proof fn law_listed_versions(name: Seq<char>, ids: Seq<Option<String>>)
    ensures
        list_versions_json(name, ids) is Object,
        list_versions_json(name, ids)->Object_0.len() == 2,
        list_versions_json(name, ids).get("name"@) == Some(JsonModel::Text(name)),
        holds_ids(list_versions_json(name, ids).get("versions"@), ids),
{
    broadcast use lemma_get_with;

    lemma_keys();
}

/// A backup is answered in Base64, and with null where the service gave none.
pub proof fn law_backup_answer(name: Seq<char>, bytes: Option<Vec<u8>>)
    ensures
        backup_json(name, bytes) is Object,
        backup_json(name, bytes)->Object_0.len() == 2,
        backup_json(name, bytes).get("name"@) == Some(JsonModel::Text(name)),
        bytes is None ==> backup_json(name, bytes).get("backup"@) == Some(JsonModel::Null),
        bytes is Some ==>
            backup_json(name, bytes).get("backup"@) == Some(JsonModel::Text(base64_of(bytes->0@))),
{
    broadcast use lemma_get_with;

    lemma_keys();
}

/// The parts of what a request asks for, each by its name.
pub proof fn law_request_parts(new: NewSecret)
    ensures
        new@.0 == new.name@ && new@.1 == new.value@,
        new.content_type is None ==> new@.2 is None,
        new.content_type is Some ==> new@.2 == Some(new.content_type->0@),
{
}

} // verus!
