//! The calls that a host makes: a JSON document comes in, and one goes out.
//!
//! A document that is absent or cannot be read counts as null. What goes out is the
//! answer of the operation, or an object whose only member is `error`.
#![allow(non_snake_case)]
use vstd::prelude::*;
use vstd::string::*;

use crate::error::{outcome, Error};
use crate::json::{
    empty_object, lemma_get_with, lemma_well_formed_with, well_formed, Json, JsonModel,
};
use crate::text::opt_text;
use crate::{connection_string, guid, names, resource_id, storage};

verus! {

/// How an operation ended.
#[derive(Debug, PartialEq)]
pub enum Ended {
    Answered(Json),
    Failed(Error),
    Panicked,
}

/// What an operation is given: the document, or null where there is none.
pub open spec fn input_of(args: Option<Json>) -> JsonModel {
    match args {
        Some(v) => v@,
        None => JsonModel::Null,
    }
}

/// An object whose only member is `error`.
pub open spec fn error_object(message: Seq<char>) -> JsonModel {
    empty_object().with("error"@, JsonModel::Text(message))
}

/// What goes out for what an operation answers.
pub open spec fn reply_to(answer: Result<JsonModel, Seq<char>>) -> JsonModel {
    match answer {
        Ok(v) => v,
        Err(message) => error_object(message),
    }
}

/// What goes out for the way an operation ended.
pub open spec fn reply_of(ended: Ended) -> JsonModel {
    match ended {
        Ended::Answered(v) => v@,
        Ended::Failed(e) => error_object(e@),
        Ended::Panicked => error_object("stryke-azure handler panicked"@),
    }
}

/// The text that goes out: the reply as it was written, or a fixed text where it could
/// not be written.
pub open spec fn written_text(text: Option<Seq<char>>) -> Seq<char> {
    match text {
        Some(s) => s,
        None => r#"{"error":"serialize"}"#@,
    }
}

/// An object whose only member is `version`.
pub open spec fn version_object(version: Seq<char>) -> JsonModel {
    empty_object().with("version"@, JsonModel::Text(version))
}

/// What an operation is given.
pub fn input(args: Option<Json>) -> (r: Json)
    ensures
        r@ == input_of(args),
        (args matches Some(v) ==> well_formed(v@)) ==> well_formed(r@),
{
    match args {
        Some(v) => v,
        None => Json::Null,
    }
}

/// An object whose only member is `error`.
pub fn error_json(message: &str) -> (r: Json)
    ensures
        r@ == error_object(message@),
        well_formed(r@),
{
    broadcast use {lemma_get_with, lemma_well_formed_with};

    Json::empty().with("error", Json::text(message))
}

/// What goes out for the way an operation ended.
pub fn reply(ended: Ended) -> (r: Json)
    ensures
        r@ == reply_of(ended),
        (ended matches Ended::Answered(v) ==> well_formed(v@)) ==> well_formed(r@),
{
    match ended {
        Ended::Answered(v) => v,
        Ended::Failed(e) => error_json(e.message.as_str()),
        Ended::Panicked => error_json("stryke-azure handler panicked"),
    }
}

/// What goes out for what an operation returned.
pub fn reply_with(result: Result<Json, Error>) -> (r: Json)
    ensures
        r@ == reply_to(outcome(result)),
        (result matches Ok(v) ==> well_formed(v@)) ==> well_formed(r@),
{
    match result {
        Ok(v) => reply(Ended::Answered(v)),
        Err(e) => reply(Ended::Failed(e)),
    }
}

/// The text that goes out: the reply as it was written, or a fixed text where it could
/// not be written.
pub fn written(text: Option<String>) -> (r: String)
    ensures
        r@ == written_text(opt_text(text)),
{
    match text {
        Some(s) => s,
        None => r#"{"error":"serialize"}"#.to_owned(),
    }
}

/// Answers the version of the package, whatever comes in.
pub fn azure__pkg_version(args: Option<Json>, version: &str) -> (r: Json)
    ensures
        r@ == version_object(version@),
        well_formed(r@),
{
    broadcast use {lemma_get_with, lemma_well_formed_with};

    let _ = input(args);
    reply_with(Ok(Json::empty().with("version", Json::text(version))))
}

/// What goes out of `azure__parse_resource_id`.
pub open spec fn parse_resource_id_reply(args: Option<Json>) -> JsonModel {
    reply_to(resource_id::parse_answer(input_of(args)))
}

/// Parses a resource id.
pub fn azure__parse_resource_id(args: Option<Json>) -> (r: Json)
    ensures
        r@ == parse_resource_id_reply(args),
{
    reply_with(resource_id::op_parse_resource_id(input(args)))
}

/// What goes out of `azure__build_resource_id`.
pub open spec fn build_resource_id_reply(args: Option<Json>) -> JsonModel {
    reply_to(resource_id::build_answer(input_of(args)))
}

/// Builds a resource id.
pub fn azure__build_resource_id(args: Option<Json>) -> (r: Json)
    ensures
        r@ == build_resource_id_reply(args),
{
    reply_with(resource_id::op_build_resource_id(input(args)))
}

/// What goes out of `azure__parse_connection_string`.
pub open spec fn parse_connection_string_reply(args: Option<Json>) -> JsonModel {
    reply_to(connection_string::parse_answer(input_of(args)))
}

/// Parses a connection string.
pub fn azure__parse_connection_string(args: Option<Json>) -> (r: Json)
    ensures
        r@ == parse_connection_string_reply(args),
{
    reply_with(connection_string::op_parse_connection_string(input(args)))
}

/// What goes out of `azure__build_connection_string`.
pub open spec fn build_connection_string_reply(args: Option<Json>) -> JsonModel {
    reply_to(connection_string::build_answer(input_of(args)))
}

/// Builds a connection string.
pub fn azure__build_connection_string(args: Option<Json>) -> (r: Json)
    ensures
        r@ == build_connection_string_reply(args),
{
    reply_with(connection_string::op_build_connection_string(input(args)))
}

/// What goes out of `azure__parse_blob_uri`.
pub open spec fn parse_blob_uri_reply(args: Option<Json>) -> JsonModel {
    reply_to(storage::parse_uri_answer(input_of(args)))
}

/// Parses the address of a blob.
pub fn azure__parse_blob_uri(args: Option<Json>) -> (r: Json)
    ensures
        r@ == parse_blob_uri_reply(args),
{
    reply_with(storage::op_parse_blob_uri(input(args)))
}

/// What goes out of `azure__build_blob_uri`.
pub open spec fn build_blob_uri_reply(args: Option<Json>) -> JsonModel {
    reply_to(storage::build_uri_answer(input_of(args)))
}

/// Builds the address of a blob.
pub fn azure__build_blob_uri(args: Option<Json>) -> (r: Json)
    ensures
        r@ == build_blob_uri_reply(args),
{
    reply_with(storage::op_build_blob_uri(input(args)))
}

/// What goes out of `azure__storage_endpoint`.
pub open spec fn storage_endpoint_reply(args: Option<Json>) -> JsonModel {
    reply_to(storage::make_endpoint_answer(input_of(args)))
}

/// Builds the endpoint of a storage service.
pub fn azure__storage_endpoint(args: Option<Json>) -> (r: Json)
    ensures
        r@ == storage_endpoint_reply(args),
{
    reply_with(storage::op_storage_endpoint(input(args)))
}

/// What goes out of `azure__parse_storage_endpoint`.
pub open spec fn parse_storage_endpoint_reply(args: Option<Json>) -> JsonModel {
    reply_to(storage::parse_endpoint_answer(input_of(args)))
}

/// Parses the endpoint of a storage service.
pub fn azure__parse_storage_endpoint(args: Option<Json>) -> (r: Json)
    ensures
        r@ == parse_storage_endpoint_reply(args),
{
    reply_with(storage::op_parse_storage_endpoint(input(args)))
}

/// What goes out of `azure__valid_storage_account_name`.
pub open spec fn valid_storage_account_name_reply(args: Option<Json>) -> JsonModel {
    reply_to(names::account_answer(input_of(args)))
}

/// Validates the name of a storage account.
pub fn azure__valid_storage_account_name(args: Option<Json>) -> (r: Json)
    ensures
        r@ == valid_storage_account_name_reply(args),
{
    reply_with(names::op_valid_storage_account_name(input(args)))
}

/// What goes out of `azure__valid_container_name`.
pub open spec fn valid_container_name_reply(args: Option<Json>) -> JsonModel {
    reply_to(names::label_answer(input_of(args)))
}

/// Validates the name of a container.
pub fn azure__valid_container_name(args: Option<Json>) -> (r: Json)
    ensures
        r@ == valid_container_name_reply(args),
{
    reply_with(names::op_valid_container_name(input(args)))
}

/// What goes out of `azure__valid_queue_name`.
pub open spec fn valid_queue_name_reply(args: Option<Json>) -> JsonModel {
    reply_to(names::label_answer(input_of(args)))
}

/// Validates the name of a queue.
pub fn azure__valid_queue_name(args: Option<Json>) -> (r: Json)
    ensures
        r@ == valid_queue_name_reply(args),
{
    reply_with(names::op_valid_queue_name(input(args)))
}

/// What goes out of `azure__valid_table_name`.
pub open spec fn valid_table_name_reply(args: Option<Json>) -> JsonModel {
    reply_to(names::table_answer(input_of(args)))
}

/// Validates the name of a table.
pub fn azure__valid_table_name(args: Option<Json>) -> (r: Json)
    ensures
        r@ == valid_table_name_reply(args),
{
    reply_with(names::op_valid_table_name(input(args)))
}

/// What goes out of `azure__valid_cosmos_id`.
pub open spec fn valid_cosmos_id_reply(args: Option<Json>) -> JsonModel {
    reply_to(names::cosmos_answer(input_of(args)))
}

/// Validates the id of a Cosmos DB database or container.
pub fn azure__valid_cosmos_id(args: Option<Json>) -> (r: Json)
    ensures
        r@ == valid_cosmos_id_reply(args),
{
    reply_with(names::op_valid_cosmos_id(input(args)))
}

/// What goes out of `azure__valid_guid`.
pub open spec fn valid_guid_reply(args: Option<Json>) -> JsonModel {
    reply_to(guid::valid_answer(input_of(args)))
}

/// Validates a GUID.
pub fn azure__valid_guid(args: Option<Json>) -> (r: Json)
    ensures
        r@ == valid_guid_reply(args),
{
    reply_with(guid::op_valid_guid(input(args)))
}

/// What goes out of `azure__normalize_guid`.
pub open spec fn normalize_guid_reply(args: Option<Json>) -> JsonModel {
    reply_to(guid::normalize_answer(input_of(args)))
}

/// Brings a GUID into its canonical form.
pub fn azure__normalize_guid(args: Option<Json>) -> (r: Json)
    ensures
        r@ == normalize_guid_reply(args),
{
    reply_with(guid::op_normalize_guid(input(args)))
}

/// What goes out of `azure__format_guid`.
pub open spec fn format_guid_reply(args: Option<Json>) -> JsonModel {
    reply_to(guid::format_answer(input_of(args)))
}

/// Writes a GUID in one of its forms.
pub fn azure__format_guid(args: Option<Json>) -> (r: Json)
    ensures
        r@ == format_guid_reply(args),
{
    reply_with(guid::op_format_guid(input(args)))
}

/// Whether a value has a member `error`.
pub open spec fn has_error(v: JsonModel) -> bool {
    v.get("error"@) is Some
}

/// The reply to a failure has the message under `error`, as it is.
pub proof fn law_failures_are_reported(message: Seq<char>)
    ensures
        reply_to(Err(message)).get("error"@) == Some(JsonModel::Text(message)),
        reply_to(Err(message))->Object_0.len() == 1,
{
    broadcast use lemma_get_with;

}

/// No answer of these operations has a member `error`.
proof fn lemma_keys_are_not_error()
    ensures
        "subscription"@ != "error"@,
        "resource_group"@ != "error"@,
        "provider"@ != "error"@,
        "types"@ != "error"@,
        "resource_type"@ != "error"@,
        "name"@ != "error"@,
        "id"@ != "error"@,
        "pairs"@ != "error"@,
        "connection_string"@ != "error"@,
        "account"@ != "error"@,
        "service"@ != "error"@,
        "host"@ != "error"@,
        "container"@ != "error"@,
        "blob"@ != "error"@,
        "uri"@ != "error"@,
        "cloud"@ != "error"@,
        "suffix"@ != "error"@,
        "endpoint"@ != "error"@,
        "url"@ != "error"@,
        "valid"@ != "error"@,
        "reason"@ != "error"@,
        "guid"@ != "error"@,
        "input"@ != "error"@,
        "format"@ != "error"@,
{
    reveal_strlit("error");
    reveal_strlit("subscription");
    reveal_strlit("resource_group");
    reveal_strlit("provider");
    reveal_strlit("types");
    reveal_strlit("resource_type");
    reveal_strlit("name");
    reveal_strlit("id");
    reveal_strlit("pairs");
    reveal_strlit("connection_string");
    reveal_strlit("account");
    reveal_strlit("service");
    reveal_strlit("host");
    reveal_strlit("container");
    reveal_strlit("blob");
    reveal_strlit("uri");
    reveal_strlit("cloud");
    reveal_strlit("suffix");
    reveal_strlit("endpoint");
    reveal_strlit("url");
    reveal_strlit("valid");
    reveal_strlit("reason");
    reveal_strlit("guid");
    reveal_strlit("input");
    reveal_strlit("format");
    assert("error"@.len() == 5);
    assert("error"@[0] == 'e');
    assert("endpoint"@.len() == 8);
    assert("types"@[0] == 't');
    assert("pairs"@[0] == 'p');
    assert("cloud"@[0] == 'c');
    assert("valid"@[0] == 'v');
    assert("input"@[0] == 'i');
}

/// A reply has a member `error` exactly if the operation failed.
pub proof fn law_only_failures_have_errors(opts: JsonModel)
    ensures
        has_error(reply_to(resource_id::parse_answer(opts))) <==> resource_id::parse_answer(
            opts,
        ) is Err,
        has_error(reply_to(resource_id::build_answer(opts))) <==> resource_id::build_answer(
            opts,
        ) is Err,
        has_error(reply_to(connection_string::parse_answer(opts))) <==> connection_string::parse_answer(
            opts,
        ) is Err,
        has_error(reply_to(connection_string::build_answer(opts))) <==> connection_string::build_answer(
            opts,
        ) is Err,
        has_error(reply_to(storage::parse_uri_answer(opts))) <==> storage::parse_uri_answer(
            opts,
        ) is Err,
        has_error(reply_to(storage::build_uri_answer(opts))) <==> storage::build_uri_answer(
            opts,
        ) is Err,
        has_error(reply_to(storage::make_endpoint_answer(opts))) <==> storage::make_endpoint_answer(
            opts,
        ) is Err,
        has_error(reply_to(storage::parse_endpoint_answer(opts))) <==> storage::parse_endpoint_answer(
            opts,
        ) is Err,
        has_error(reply_to(names::account_answer(opts))) <==> names::account_answer(opts) is Err,
        has_error(reply_to(names::label_answer(opts))) <==> names::label_answer(opts) is Err,
        has_error(reply_to(names::table_answer(opts))) <==> names::table_answer(opts) is Err,
        has_error(reply_to(names::cosmos_answer(opts))) <==> names::cosmos_answer(opts) is Err,
        has_error(reply_to(guid::valid_answer(opts))) <==> guid::valid_answer(opts) is Err,
        has_error(reply_to(guid::normalize_answer(opts))) <==> guid::normalize_answer(opts) is Err,
        has_error(reply_to(guid::format_answer(opts))) <==> guid::format_answer(opts) is Err,
{
    broadcast use lemma_get_with;

    lemma_keys_are_not_error();
}

/// What goes out is well-formed.
pub proof fn law_replies_are_well_formed(opts: JsonModel)
    ensures
        well_formed(reply_to(resource_id::parse_answer(opts))),
        well_formed(reply_to(resource_id::build_answer(opts))),
        well_formed(reply_to(connection_string::parse_answer(opts))),
        well_formed(reply_to(connection_string::build_answer(opts))),
        well_formed(reply_to(storage::parse_uri_answer(opts))),
        well_formed(reply_to(storage::build_uri_answer(opts))),
        well_formed(reply_to(storage::make_endpoint_answer(opts))),
        well_formed(reply_to(storage::parse_endpoint_answer(opts))),
        well_formed(reply_to(names::account_answer(opts))),
        well_formed(reply_to(names::label_answer(opts))),
        well_formed(reply_to(names::table_answer(opts))),
        well_formed(reply_to(names::cosmos_answer(opts))),
        well_formed(reply_to(guid::valid_answer(opts))),
        well_formed(reply_to(guid::normalize_answer(opts))),
        well_formed(reply_to(guid::format_answer(opts))),
{
    broadcast use {lemma_get_with, lemma_well_formed_with};

    resource_id::law_answers_are_well_formed(opts);
    connection_string::law_answers_are_well_formed(opts);
    storage::law_answers_are_well_formed(opts);
    names::law_answers_are_well_formed(opts);
    guid::law_answers_are_well_formed(opts);
}

/// What comes in is handed on as it is, and what is absent counts as null.
pub proof fn law_input(document: Json)
    ensures
        input_of(Some(document)) == document@,
        input_of(None) is Null,
{
}

/// What an operation answers goes out as it is. An error goes out as an object whose only
/// member is `error` and has the message.
pub proof fn law_reply(answer: JsonModel, message: Seq<char>)
    ensures
        reply_to(Ok(answer)) == answer,
        reply_to(Err(message)) is Object,
        reply_to(Err(message))->Object_0.len() == 1,
        reply_to(Err(message)).get("error"@) == Some(JsonModel::Text(message)),
{
    broadcast use lemma_get_with;

}

/// The three ways to end: an answer goes out as it is, a failure with its message and a
/// panic with a fixed one.
pub proof fn law_endings(answer: Json, error: Error)
    ensures
        reply_of(Ended::Answered(answer)) == answer@,
        reply_of(Ended::Failed(error)) is Object,
        reply_of(Ended::Failed(error))->Object_0.len() == 1,
        reply_of(Ended::Failed(error)).get("error"@) == Some(JsonModel::Text(error.message@)),
        reply_of(Ended::Panicked) is Object,
        reply_of(Ended::Panicked)->Object_0.len() == 1,
        reply_of(Ended::Panicked).get("error"@) == Some(
            JsonModel::Text("stryke-azure handler panicked"@),
        ),
{
    broadcast use lemma_get_with;

}

/// What was written goes out as it is, and a fixed text where nothing could be written.
pub proof fn law_written(text: Seq<char>)
    ensures
        written_text(Some(text)) == text,
        written_text(None) == r#"{"error":"serialize"}"#@,
{
}

/// The version goes out as the only member, `version`.
pub proof fn law_version(version: Seq<char>)
    ensures
        version_object(version) is Object,
        version_object(version)->Object_0.len() == 1,
        version_object(version).get("version"@) == Some(JsonModel::Text(version)),
{
    broadcast use lemma_get_with;

}

/// What an operation returned goes out the way it ended.
pub proof fn law_returned(answer: Json, error: Error)
    ensures
        outcome(Ok(answer)) == Ok::<JsonModel, Seq<char>>(answer@),
        outcome(Err(error)) == Err::<JsonModel, Seq<char>>(error.message@),
        reply_to(outcome(Ok(answer))) == reply_of(Ended::Answered(answer)),
        reply_to(outcome(Err(error))) == reply_of(Ended::Failed(error)),
{
}

/// What goes out for what an operation answered: the answer as it is, or an object whose
/// only member is `error` and has the message.
pub open spec fn goes_out(reply: JsonModel, answer: Result<JsonModel, Seq<char>>) -> bool {
    match answer {
        Ok(v) => reply == v,
        Err(message) => {
            &&& reply is Object
            &&& reply->Object_0.len() == 1
            &&& reply.get("error"@) == Some(JsonModel::Text(message))
        },
    }
}

/// Each call hands its document to its own operation, and what the operation answers goes
/// out. Without a document the operation is handed null.
pub proof fn law_calls(v: Json)
    ensures
        goes_out(parse_resource_id_reply(Some(v)), resource_id::parse_answer(v@)),
        goes_out(parse_resource_id_reply(None), resource_id::parse_answer(JsonModel::Null)),
        goes_out(build_resource_id_reply(Some(v)), resource_id::build_answer(v@)),
        goes_out(build_resource_id_reply(None), resource_id::build_answer(JsonModel::Null)),
        goes_out(parse_connection_string_reply(Some(v)), connection_string::parse_answer(v@)),
        goes_out(parse_connection_string_reply(None), connection_string::parse_answer(JsonModel::Null)),
        goes_out(build_connection_string_reply(Some(v)), connection_string::build_answer(v@)),
        goes_out(build_connection_string_reply(None), connection_string::build_answer(JsonModel::Null)),
        goes_out(parse_blob_uri_reply(Some(v)), storage::parse_uri_answer(v@)),
        goes_out(parse_blob_uri_reply(None), storage::parse_uri_answer(JsonModel::Null)),
        goes_out(build_blob_uri_reply(Some(v)), storage::build_uri_answer(v@)),
        goes_out(build_blob_uri_reply(None), storage::build_uri_answer(JsonModel::Null)),
        goes_out(storage_endpoint_reply(Some(v)), storage::make_endpoint_answer(v@)),
        goes_out(storage_endpoint_reply(None), storage::make_endpoint_answer(JsonModel::Null)),
        goes_out(parse_storage_endpoint_reply(Some(v)), storage::parse_endpoint_answer(v@)),
        goes_out(parse_storage_endpoint_reply(None), storage::parse_endpoint_answer(JsonModel::Null)),
        goes_out(valid_storage_account_name_reply(Some(v)), names::account_answer(v@)),
        goes_out(valid_storage_account_name_reply(None), names::account_answer(JsonModel::Null)),
        goes_out(valid_container_name_reply(Some(v)), names::label_answer(v@)),
        goes_out(valid_container_name_reply(None), names::label_answer(JsonModel::Null)),
        goes_out(valid_queue_name_reply(Some(v)), names::label_answer(v@)),
        goes_out(valid_queue_name_reply(None), names::label_answer(JsonModel::Null)),
        goes_out(valid_table_name_reply(Some(v)), names::table_answer(v@)),
        goes_out(valid_table_name_reply(None), names::table_answer(JsonModel::Null)),
        goes_out(valid_cosmos_id_reply(Some(v)), names::cosmos_answer(v@)),
        goes_out(valid_cosmos_id_reply(None), names::cosmos_answer(JsonModel::Null)),
        goes_out(valid_guid_reply(Some(v)), guid::valid_answer(v@)),
        goes_out(valid_guid_reply(None), guid::valid_answer(JsonModel::Null)),
        goes_out(normalize_guid_reply(Some(v)), guid::normalize_answer(v@)),
        goes_out(normalize_guid_reply(None), guid::normalize_answer(JsonModel::Null)),
        goes_out(format_guid_reply(Some(v)), guid::format_answer(v@)),
        goes_out(format_guid_reply(None), guid::format_answer(JsonModel::Null)),
{
    broadcast use lemma_get_with;

}

} // verus!
