//! Cosmos DB: what a request asks for, and how what the service gave is answered.
use vstd::prelude::*;
use vstd::string::*;

use crate::answers::{holds_texts, lemma_well_formed_texts, text_array, text_list};
use crate::error::Error;
use crate::json::{
    empty_object, items, lemma_get_well_formed, lemma_get_with, lemma_well_formed_array,
    lemma_well_formed_with, nullable_int, well_formed, Json, JsonModel, NumberModel,
};
use crate::options::{has_text, lacks_text, opt_str, req_str, required};
use crate::text::texts;

verus! {

/// A container: its database and its name.
#[derive(Debug, PartialEq)]
pub struct ContainerTarget {
    pub database: String,
    pub container: String,
}

impl View for ContainerTarget {
    type V = (Seq<char>, Seq<char>);

    open spec fn view(&self) -> (Seq<char>, Seq<char>) {
        (self.database@, self.container@)
    }
}

/// A container to create, and the path of its partition key.
#[derive(Debug, PartialEq)]
pub struct NewContainer {
    pub target: ContainerTarget,
    pub partition_key: String,
}

impl View for NewContainer {
    type V = ((Seq<char>, Seq<char>), Seq<char>);

    open spec fn view(&self) -> ((Seq<char>, Seq<char>), Seq<char>) {
        (self.target@, self.partition_key@)
    }
}

/// An item of a container: its partition key and its id.
#[derive(Debug, PartialEq)]
pub struct ItemKey {
    pub partition_key: String,
    pub id: String,
}

impl View for ItemKey {
    type V = (Seq<char>, Seq<char>);

    open spec fn view(&self) -> (Seq<char>, Seq<char>) {
        (self.partition_key@, self.id@)
    }
}

/// An item to write.
#[derive(Debug, PartialEq)]
pub struct NewItem {
    pub key: ItemKey,
    pub item: Json,
}

impl View for NewItem {
    type V = ((Seq<char>, Seq<char>), JsonModel);

    open spec fn view(&self) -> ((Seq<char>, Seq<char>), JsonModel) {
        (self.key@, self.item@)
    }
}

/// A query in one partition.
#[derive(Debug, PartialEq)]
pub struct Query {
    pub query: String,
    pub partition_key: String,
}

impl View for Query {
    type V = (Seq<char>, Seq<char>);

    open spec fn view(&self) -> (Seq<char>, Seq<char>) {
        (self.query@, self.partition_key@)
    }
}

/// The container that a request is about: `database` first, then `container`.
pub open spec fn target_of(opts: JsonModel) -> Result<(Seq<char>, Seq<char>), Seq<char>> {
    match required(opts, "database"@) {
        Err(e) => Err(e),
        Ok(database) => match required(opts, "container"@) {
            Err(e) => Err(e),
            Ok(container) => Ok((database, container)),
        },
    }
}

/// The container that a request creates: its target, then `partition_key`.
pub open spec fn new_container_of(opts: JsonModel) -> Result<
    ((Seq<char>, Seq<char>), Seq<char>),
    Seq<char>,
> {
    match target_of(opts) {
        Err(e) => Err(e),
        Ok(target) => match required(opts, "partition_key"@) {
            Err(e) => Err(e),
            Ok(path) => Ok((target, path)),
        },
    }
}

/// The item that a request is about: `partition_key` first, then `id`.
pub open spec fn item_key_of(opts: JsonModel) -> Result<(Seq<char>, Seq<char>), Seq<char>> {
    match required(opts, "partition_key"@) {
        Err(e) => Err(e),
        Ok(key) => match required(opts, "id"@) {
            Err(e) => Err(e),
            Ok(id) => Ok((key, id)),
        },
    }
}

/// The item that a request writes: its key, then `item`, which may be any value.
pub open spec fn new_item_of(opts: JsonModel) -> Result<
    ((Seq<char>, Seq<char>), JsonModel),
    Seq<char>,
> {
    match item_key_of(opts) {
        Err(e) => Err(e),
        Ok(key) => match opts.get("item"@) {
            Some(item) => Ok((key, item)),
            None => Err("missing item (object)"@),
        },
    }
}

/// The query that a request makes: `query` first, then `partition_key`.
pub open spec fn query_of(opts: JsonModel) -> Result<(Seq<char>, Seq<char>), Seq<char>> {
    match required(opts, "query"@) {
        Err(e) => Err(e),
        Ok(query) => match opts.text_at("partition_key"@) {
            Some(key) => Ok((query, key)),
            None => Err("query requires partition_key (single-partition only)"@),
        },
    }
}

/// The keys that stand in one object are distinct.
proof fn lemma_keys()
    ensures
        "database"@ != "containers"@,
        "database"@ != "created"@,
        "database"@ != "deleted"@,
        "database"@ != "container"@,
        "container"@ != "created"@,
        "container"@ != "deleted"@,
        "id"@ != "item"@,
        "id"@ != "deleted"@,
        "items"@ != "count"@,
{
    reveal_strlit("database");
    reveal_strlit("containers");
    reveal_strlit("created");
    reveal_strlit("deleted");
    reveal_strlit("container");
    reveal_strlit("id");
    reveal_strlit("item");
    reveal_strlit("items");
    reveal_strlit("count");
    assert("database"@.len() == 8);
    assert("containers"@.len() == 10);
    assert("created"@.len() == 7);
    assert("deleted"@.len() == 7);
    assert("container"@.len() == 9);
    assert("id"@.len() == 2);
    assert("item"@.len() == 4);
    assert("items"@[0] != "count"@[0]);
}

/// The container that a request is about.
pub fn container_target(opts: &Json) -> (r: Result<ContainerTarget, Error>)
    ensures
        match r {
            Ok(t) => target_of(opts@) == Ok::<(Seq<char>, Seq<char>), Seq<char>>(t@),
            Err(e) => target_of(opts@) == Err::<(Seq<char>, Seq<char>), Seq<char>>(e@),
        },
{
    let database = match req_str(opts, "database") {
        Ok(s) => s,
        Err(e) => {
            return Err(e);
        },
    };
    match req_str(opts, "container") {
        Ok(container) => Ok(
            ContainerTarget { database: database.to_owned(), container: container.to_owned() },
        ),
        Err(e) => Err(e),
    }
}

/// The container that a request creates.
pub fn new_container(opts: &Json) -> (r: Result<NewContainer, Error>)
    ensures
        match r {
            Ok(c) => new_container_of(opts@) == Ok::<
                ((Seq<char>, Seq<char>), Seq<char>),
                Seq<char>,
            >(c@),
            Err(e) => new_container_of(opts@) == Err::<
                ((Seq<char>, Seq<char>), Seq<char>),
                Seq<char>,
            >(e@),
        },
{
    let target = match container_target(opts) {
        Ok(t) => t,
        Err(e) => {
            return Err(e);
        },
    };
    match req_str(opts, "partition_key") {
        Ok(path) => Ok(NewContainer { target, partition_key: path.to_owned() }),
        Err(e) => Err(e),
    }
}

/// The item that a request is about.
pub fn item_key(opts: &Json) -> (r: Result<ItemKey, Error>)
    ensures
        match r {
            Ok(k) => item_key_of(opts@) == Ok::<(Seq<char>, Seq<char>), Seq<char>>(k@),
            Err(e) => item_key_of(opts@) == Err::<(Seq<char>, Seq<char>), Seq<char>>(e@),
        },
{
    let key = match req_str(opts, "partition_key") {
        Ok(s) => s,
        Err(e) => {
            return Err(e);
        },
    };
    match req_str(opts, "id") {
        Ok(id) => Ok(ItemKey { partition_key: key.to_owned(), id: id.to_owned() }),
        Err(e) => Err(e),
    }
}

/// The item that a request writes.
pub fn new_item(opts: &Json) -> (r: Result<NewItem, Error>)
    ensures
        match r {
            Ok(i) => new_item_of(opts@) == Ok::<((Seq<char>, Seq<char>), JsonModel), Seq<char>>(i@),
            Err(e) => new_item_of(opts@) == Err::<((Seq<char>, Seq<char>), JsonModel), Seq<char>>(
                e@,
            ),
        },
        well_formed(opts@) ==> (r matches Ok(i) ==> well_formed(i.item@)),
{
    proof {
        if well_formed(opts@) && opts@.get("item"@) is Some {
            lemma_get_well_formed(opts@, "item"@);
        }
    }
    let key = match item_key(opts) {
        Ok(k) => k,
        Err(e) => {
            return Err(e);
        },
    };
    match opts.get("item") {
        Some(item) => Ok(NewItem { key, item: item.copy() }),
        None => Err(Error::new("missing item (object)")),
    }
}

/// The query that a request makes.
pub fn partition_query(opts: &Json) -> (r: Result<Query, Error>)
    ensures
        match r {
            Ok(q) => query_of(opts@) == Ok::<(Seq<char>, Seq<char>), Seq<char>>(q@),
            Err(e) => query_of(opts@) == Err::<(Seq<char>, Seq<char>), Seq<char>>(e@),
        },
{
    let query = match req_str(opts, "query") {
        Ok(s) => s,
        Err(e) => {
            return Err(e);
        },
    };
    match opt_str(opts, "partition_key") {
        Some(key) => Ok(Query { query: query.to_owned(), partition_key: key.to_owned() }),
        None => Err(Error::new("query requires partition_key (single-partition only)")),
    }
}

/// The answer of a listing of databases.
pub open spec fn list_databases_json(ids: Seq<String>) -> JsonModel {
    empty_object().with("databases"@, text_array(texts(ids)))
}

/// The answer of a listing of databases.
pub fn list_databases_answer(ids: &Vec<String>) -> (r: Json)
    ensures
        r@ == list_databases_json(ids@),
        well_formed(r@),
{
    broadcast use {lemma_get_with, lemma_well_formed_with, lemma_well_formed_texts};

    proof {
        lemma_keys();
    }
    Json::empty().with("databases", text_list(ids))
}

/// The answer of a listing of containers.
pub open spec fn list_containers_json(database: Seq<char>, ids: Seq<String>) -> JsonModel {
    empty_object().with("database"@, JsonModel::Text(database)).with(
        "containers"@,
        text_array(texts(ids)),
    )
}

/// The answer of a listing of the containers of a database.
pub fn list_containers_answer(database: &str, ids: &Vec<String>) -> (r: Json)
    ensures
        r@ == list_containers_json(database@, ids@),
        well_formed(r@),
{
    broadcast use {lemma_get_with, lemma_well_formed_with, lemma_well_formed_texts};

    proof {
        lemma_keys();
    }
    Json::empty().with("database", Json::text(database)).with("containers", text_list(ids))
}

/// The answer of the creation of a database.
pub open spec fn create_database_json(database: Seq<char>) -> JsonModel {
    empty_object().with("database"@, JsonModel::Text(database)).with(
        "created"@,
        JsonModel::Bool(true),
    )
}

/// The answer of creating a database.
pub fn create_database_answer(database: &str) -> (r: Json)
    ensures
        r@ == create_database_json(database@),
        well_formed(r@),
{
    broadcast use {lemma_get_with, lemma_well_formed_with};

    proof {
        lemma_keys();
    }
    Json::empty().with("database", Json::text(database)).with("created", Json::Bool(true))
}

/// The answer of the deletion of a database.
pub open spec fn delete_database_json(database: Seq<char>) -> JsonModel {
    empty_object().with("database"@, JsonModel::Text(database)).with(
        "deleted"@,
        JsonModel::Bool(true),
    )
}

/// The answer of deleting a database.
pub fn delete_database_answer(database: &str) -> (r: Json)
    ensures
        r@ == delete_database_json(database@),
        well_formed(r@),
{
    broadcast use {lemma_get_with, lemma_well_formed_with};

    proof {
        lemma_keys();
    }
    Json::empty().with("database", Json::text(database)).with("deleted", Json::Bool(true))
}

/// The answer of the creation of a container.
pub open spec fn create_container_json(target: ContainerTarget) -> JsonModel {
    empty_object().with("database"@, JsonModel::Text(target@.0)).with(
        "container"@,
        JsonModel::Text(target@.1),
    ).with("created"@, JsonModel::Bool(true))
}

/// The answer of creating a container.
pub fn create_container_answer(target: &ContainerTarget) -> (r: Json)
    ensures
        r@ == create_container_json(*target),
        well_formed(r@),
{
    broadcast use {lemma_get_with, lemma_well_formed_with};

    proof {
        lemma_keys();
    }
    Json::empty().with("database", Json::text(target.database.as_str())).with(
        "container",
        Json::text(target.container.as_str()),
    ).with("created", Json::Bool(true))
}

/// The answer of the deletion of a container.
pub open spec fn delete_container_json(target: ContainerTarget) -> JsonModel {
    empty_object().with("database"@, JsonModel::Text(target@.0)).with(
        "container"@,
        JsonModel::Text(target@.1),
    ).with("deleted"@, JsonModel::Bool(true))
}

/// The answer of deleting a container.
pub fn delete_container_answer(target: &ContainerTarget) -> (r: Json)
    ensures
        r@ == delete_container_json(*target),
        well_formed(r@),
{
    broadcast use {lemma_get_with, lemma_well_formed_with};

    proof {
        lemma_keys();
    }
    Json::empty().with("database", Json::text(target.database.as_str())).with(
        "container",
        Json::text(target.container.as_str()),
    ).with("deleted", Json::Bool(true))
}

/// The answer with an item.
pub open spec fn item_json(id: Seq<char>, item: Json) -> JsonModel {
    empty_object().with("id"@, JsonModel::Text(id)).with("item"@, item@)
}

/// The answer with an item: its id, and the item as the service gave it.
pub fn item_answer(id: &str, item: Json) -> (r: Json)
    ensures
        r@ == item_json(id@, item),
        well_formed(item@) ==> well_formed(r@),
{
    broadcast use {lemma_get_with, lemma_well_formed_with};

    proof {
        lemma_keys();
    }
    Json::empty().with("id", Json::text(id)).with("item", item)
}

/// The answer of the deletion of an item.
pub open spec fn delete_item_json(id: Seq<char>) -> JsonModel {
    empty_object().with("id"@, JsonModel::Text(id)).with(
        "deleted"@,
        JsonModel::Bool(true),
    )
}

/// The answer of deleting an item.
pub fn delete_item_answer(id: &str) -> (r: Json)
    ensures
        r@ == delete_item_json(id@),
        well_formed(r@),
{
    broadcast use {lemma_get_with, lemma_well_formed_with};

    proof {
        lemma_keys();
    }
    Json::empty().with("id", Json::text(id)).with("deleted", Json::Bool(true))
}

/// The answer of a query: the items, and how many they are.
pub open spec fn query_json(found: Seq<Json>) -> JsonModel {
    empty_object().with("items"@, JsonModel::Array(items(found))).with(
        "count"@,
        nullable_int(Some(found.len() as int)),
    )
}

/// The answer of a query: the items that were found, and how many.
pub fn query_answer(found: Vec<Json>) -> (r: Json)
    ensures
        r@ == query_json(found@),
        (forall|i: int| 0 <= i < found@.len() ==> well_formed((#[trigger] found@[i])@)) ==> well_formed(
            r@,
        ),
{
    broadcast use {lemma_get_with, lemma_well_formed_with};

    proof {
        lemma_keys();
        if forall|i: int| 0 <= i < found@.len() ==> well_formed((#[trigger] found@[i])@) {
            lemma_well_formed_array(items(found@));
        }
    }
    let count: u64 = found.len() as u64;
    Json::empty().with("items", Json::array(found)).with("count", Json::count(count))
}

/// A request about a container names the database and the container. The first that is
/// missing is reported.
pub proof fn law_container_target(opts: JsonModel, database: Seq<char>, container: Seq<char>)
    ensures
        lacks_text(opts, "database"@) ==>
            target_of(opts) == Err::<(Seq<char>, Seq<char>), Seq<char>>("missing "@ + "database"@),
        has_text(opts, "database"@, database) && lacks_text(opts, "container"@) ==>
            target_of(opts) == Err::<(Seq<char>, Seq<char>), Seq<char>>("missing "@ + "container"@),
        has_text(opts, "database"@, database) && has_text(opts, "container"@, container) ==>
            target_of(opts) == Ok::<(Seq<char>, Seq<char>), Seq<char>>((database, container)),
{
}

/// A request for a new container names the database, the container and the path of the
/// partition key.
pub proof fn law_new_container(
    opts: JsonModel,
    database: Seq<char>,
    container: Seq<char>,
    path: Seq<char>,
)
    ensures
        lacks_text(opts, "database"@) ==>
            new_container_of(opts)
            == Err::<((Seq<char>, Seq<char>), Seq<char>), Seq<char>>("missing "@ + "database"@),
        has_text(opts, "database"@, database) && lacks_text(opts, "container"@) ==>
            new_container_of(opts)
            == Err::<((Seq<char>, Seq<char>), Seq<char>), Seq<char>>("missing "@ + "container"@),
        has_text(opts, "database"@, database) && has_text(opts, "container"@, container)
            && lacks_text(opts, "partition_key"@) ==>
            new_container_of(opts)
            == Err::<((Seq<char>, Seq<char>), Seq<char>), Seq<char>>(
                "missing "@ + "partition_key"@,
            ),
        has_text(opts, "database"@, database) && has_text(opts, "container"@, container)
            && has_text(opts, "partition_key"@, path) ==>
            new_container_of(opts)
            == Ok::<((Seq<char>, Seq<char>), Seq<char>), Seq<char>>(((database, container), path)),
{
}

/// A request about an item names its partition key and its id.
pub proof fn law_item_key(opts: JsonModel, key: Seq<char>, id: Seq<char>)
    ensures
        lacks_text(opts, "partition_key"@) ==>
            item_key_of(opts)
            == Err::<(Seq<char>, Seq<char>), Seq<char>>("missing "@ + "partition_key"@),
        has_text(opts, "partition_key"@, key) && lacks_text(opts, "id"@) ==>
            item_key_of(opts) == Err::<(Seq<char>, Seq<char>), Seq<char>>("missing "@ + "id"@),
        has_text(opts, "partition_key"@, key) && has_text(opts, "id"@, id) ==>
            item_key_of(opts) == Ok::<(Seq<char>, Seq<char>), Seq<char>>((key, id)),
{
}

/// A query has a text and a partition key, and an error of its own where the key is missing.
pub proof fn law_query(opts: JsonModel, query: Seq<char>, key: Seq<char>)
    ensures
        lacks_text(opts, "query"@) ==>
            query_of(opts) == Err::<(Seq<char>, Seq<char>), Seq<char>>("missing "@ + "query"@),
        has_text(opts, "query"@, query) && lacks_text(opts, "partition_key"@) ==>
            query_of(opts)
            == Err::<(Seq<char>, Seq<char>), Seq<char>>(
                "query requires partition_key (single-partition only)"@,
            ),
        has_text(opts, "query"@, query) && has_text(opts, "partition_key"@, key) ==>
            query_of(opts) == Ok::<(Seq<char>, Seq<char>), Seq<char>>((query, key)),
{
}

/// A request to write an item names its partition key and its id, and has the item as it is,
/// whatever value that is.
pub proof fn law_new_item(opts: JsonModel, key: Seq<char>, id: Seq<char>, item: JsonModel)
    ensures
        lacks_text(opts, "partition_key"@) ==>
            new_item_of(opts)
            == Err::<((Seq<char>, Seq<char>), JsonModel), Seq<char>>(
                "missing "@ + "partition_key"@,
            ),
        has_text(opts, "partition_key"@, key) && lacks_text(opts, "id"@) ==>
            new_item_of(opts)
            == Err::<((Seq<char>, Seq<char>), JsonModel), Seq<char>>("missing "@ + "id"@),
        has_text(opts, "partition_key"@, key) && has_text(opts, "id"@, id)
            && opts.get("item"@) is None ==>
            new_item_of(opts)
            == Err::<((Seq<char>, Seq<char>), JsonModel), Seq<char>>("missing item (object)"@),
        has_text(opts, "partition_key"@, key) && has_text(opts, "id"@, id) && opts.get("item"@)
            == Some(item) ==>
            new_item_of(opts)
            == Ok::<((Seq<char>, Seq<char>), JsonModel), Seq<char>>(((key, id), item)),
{
}

/// A listing of databases has the id of each, in order.
pub proof fn law_listed_databases(ids: Seq<String>)
    ensures
        list_databases_json(ids) is Object,
        list_databases_json(ids)->Object_0.len() == 1,
        holds_texts(list_databases_json(ids).get("databases"@), ids),
{
    broadcast use lemma_get_with;

}

/// A listing of containers has the id of each, in order.
pub proof fn law_listed_containers(database: Seq<char>, ids: Seq<String>)
    ensures
        list_containers_json(database, ids) is Object,
        list_containers_json(database, ids)->Object_0.len() == 2,
        list_containers_json(database, ids).get("database"@) == Some(JsonModel::Text(database)),
        holds_texts(list_containers_json(database, ids).get("containers"@), ids),
{
    broadcast use lemma_get_with;

    lemma_keys();
}

/// The creation of a database is answered with its name.
pub proof fn law_created_database(database: Seq<char>)
    ensures
        create_database_json(database) is Object,
        create_database_json(database)->Object_0.len() == 2,
        create_database_json(database).get("database"@) == Some(JsonModel::Text(database)),
        create_database_json(database).get("created"@) == Some(JsonModel::Bool(true)),
{
    broadcast use lemma_get_with;

    lemma_keys();
}

/// The deletion of a database is answered with its name.
pub proof fn law_deleted_database(database: Seq<char>)
    ensures
        delete_database_json(database) is Object,
        delete_database_json(database)->Object_0.len() == 2,
        delete_database_json(database).get("database"@) == Some(JsonModel::Text(database)),
        delete_database_json(database).get("deleted"@) == Some(JsonModel::Bool(true)),
{
    broadcast use lemma_get_with;

    lemma_keys();
}

/// The creation of a container is answered with its names.
pub proof fn law_created_container(target: ContainerTarget)
    ensures
        create_container_json(target) is Object,
        create_container_json(target)->Object_0.len() == 3,
        create_container_json(target).get("database"@) == Some(JsonModel::Text(target.database@)),
        create_container_json(target).get("container"@) == Some(JsonModel::Text(target.container@)),
        create_container_json(target).get("created"@) == Some(JsonModel::Bool(true)),
{
    broadcast use lemma_get_with;

    lemma_keys();
}

/// The deletion of a container is answered with its names.
pub proof fn law_deleted_container(target: ContainerTarget)
    ensures
        delete_container_json(target) is Object,
        delete_container_json(target)->Object_0.len() == 3,
        delete_container_json(target).get("database"@) == Some(JsonModel::Text(target.database@)),
        delete_container_json(target).get("container"@) == Some(JsonModel::Text(target.container@)),
        delete_container_json(target).get("deleted"@) == Some(JsonModel::Bool(true)),
{
    broadcast use lemma_get_with;

    lemma_keys();
}

/// An item is answered as it is, with its id.
pub proof fn law_item_answer(id: Seq<char>, item: Json)
    ensures
        item_json(id, item) is Object,
        item_json(id, item)->Object_0.len() == 2,
        item_json(id, item).get("id"@) == Some(JsonModel::Text(id)),
        item_json(id, item).get("item"@) == Some(item@),
{
    broadcast use lemma_get_with;

    lemma_keys();
}

/// The deletion of an item is answered with its id.
pub proof fn law_deleted_item(id: Seq<char>)
    ensures
        delete_item_json(id) is Object,
        delete_item_json(id)->Object_0.len() == 2,
        delete_item_json(id).get("id"@) == Some(JsonModel::Text(id)),
        delete_item_json(id).get("deleted"@) == Some(JsonModel::Bool(true)),
{
    broadcast use lemma_get_with;

    lemma_keys();
}

/// A query is answered with each item that was found, in order, and their number.
pub proof fn law_query_answer(found: Seq<Json>, i: int)
    ensures
        query_json(found) is Object,
        query_json(found)->Object_0.len() == 2,
        query_json(found).get("items"@) is Some && query_json(found).get("items"@)->0 is Array
            && query_json(found).get("items"@)->0->Array_0.len() == found.len(),
        0 <= i < found.len() ==> query_json(found).get("items"@)->0->Array_0[i] == found[i]@,
        query_json(found).get("count"@)
            == Some(JsonModel::Number(NumberModel::Integer(found.len() as int))),
{
    broadcast use lemma_get_with;

    lemma_keys();
}

/// The parts of what a request asks for, each by its name.
pub proof fn law_request_parts(
    target: ContainerTarget,
    new: NewContainer,
    key: ItemKey,
    item: NewItem,
    query: Query,
)
    ensures
        target@.0 == target.database@ && target@.1 == target.container@,
        new@.0 == new.target@ && new@.1 == new.partition_key@,
        key@.0 == key.partition_key@ && key@.1 == key.id@,
        item@.0 == item.key@ && item@.1 == item.item@,
        query@.0 == query.query@ && query@.1 == query.partition_key@,
{
}

} // verus!
