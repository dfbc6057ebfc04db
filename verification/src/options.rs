//! The options that a request carries, and how they are read.
use vstd::prelude::*;
use vstd::string::*;

use crate::error::{missing, Error};
use crate::json::{Json, JsonModel};
use crate::text::{opt_text, opt_view};

verus! {

/// The text under the first key, or, if there is nothing under that key at all,
/// the text under the second.
pub open spec fn aliased(opts: JsonModel, key: Seq<char>, alias: Seq<char>) -> Option<Seq<char>> {
    match opts.get(key) {
        Some(v) => v.text(),
        None => opts.text_at(alias),
    }
}

/// The text under a key, or the error that it is missing.
pub open spec fn required(opts: JsonModel, key: Seq<char>) -> Result<Seq<char>, Seq<char>> {
    match opts.text_at(key) {
        Some(s) => Ok(s),
        None => Err(missing(key)),
    }
}

/// The text under a key.
pub fn opt_str<'a>(opts: &'a Json, key: &str) -> (r: Option<&'a str>)
    ensures
        opt_view(r) == opts@.text_at(key@),
{
    match opts.get(key) {
        Some(v) => v.as_str(),
        None => None,
    }
}

/// The text under a key, where it must be there.
pub fn req_str<'a>(opts: &'a Json, key: &str) -> (r: Result<&'a str, Error>)
    ensures
        match r {
            Ok(s) => required(opts@, key@) == Ok::<Seq<char>, Seq<char>>(s@),
            Err(e) => required(opts@, key@) == Err::<Seq<char>, Seq<char>>(e@),
        },
{
    match opt_str(opts, key) {
        Some(s) => Ok(s),
        None => Err(Error::missing(key)),
    }
}

/// The text under a key, where it is not empty.
pub fn filled_str<'a>(opts: &'a Json, key: &str) -> (r: Option<&'a str>)
    ensures
        opt_view(r) == opts@.filled_text_at(key@),
{
    match opt_str(opts, key) {
        Some(s) => if s.is_empty() {
            None
        } else {
            Some(s)
        },
        None => None,
    }
}

/// The text under a key or its alias.
pub fn aliased_str<'a>(opts: &'a Json, key: &str, alias: &str) -> (r: Option<&'a str>)
    ensures
        opt_view(r) == aliased(opts@, key@, alias@),
{
    match opts.get(key) {
        Some(v) => v.as_str(),
        None => opt_str(opts, alias),
    }
}

/// An owned copy of an optional text.
pub fn owned(s: Option<&str>) -> (r: Option<String>)
    ensures
        opt_text(r) == opt_view(s),
{
    match s {
        Some(s) => Some(s.to_owned()),
        None => None,
    }
}

/// The options have a text under a key.
pub open spec fn has_text(opts: JsonModel, key: Seq<char>, s: Seq<char>) -> bool {
    opts.get(key) == Some(JsonModel::Text(s))
}

/// The options have no text under a key: nothing at all, or another value.
pub open spec fn lacks_text(opts: JsonModel, key: Seq<char>) -> bool {
    !(opts.get(key) matches Some(JsonModel::Text(_)))
}

/// The options have a text under a key, or have nothing under it and a text under its
/// alias.
pub open spec fn has_text_or(
    opts: JsonModel,
    key: Seq<char>,
    alias: Seq<char>,
    s: Seq<char>,
) -> bool {
    has_text(opts, key, s) || opts.get(key) is None && has_text(opts, alias, s)
}

/// The options have no text under a key, and nothing that makes up for it: no text under
/// the alias, or another value under the key.
pub open spec fn lacks_text_or(opts: JsonModel, key: Seq<char>, alias: Seq<char>) -> bool {
    lacks_text(opts, key) && (opts.get(key) is Some || lacks_text(opts, alias))
}

/// A required option is the text under its key. Without one the error is `missing` and the
/// key.
pub proof fn law_required_options(opts: JsonModel, key: Seq<char>, s: Seq<char>)
    ensures
        required(opts, key) == Ok::<Seq<char>, Seq<char>>(s) <==> has_text(opts, key, s),
        required(opts, key) is Err <==> lacks_text(opts, key),
        required(opts, key) matches Err(e) ==> e == "missing "@ + key,
{
}

/// An option with an alias is the text under its key, or, where there is nothing under the
/// key, the text under the alias. Another value under the key hides the alias.
pub proof fn law_aliased_options(
    opts: JsonModel,
    key: Seq<char>,
    alias: Seq<char>,
    s: Seq<char>,
)
    ensures
        aliased(opts, key, alias) == Some(s) <==> has_text_or(opts, key, alias, s),
        aliased(opts, key, alias) is None <==> lacks_text_or(opts, key, alias),
{
}

/// The text that the options have under a key, where it is one and is not empty.
pub open spec fn nonempty_text(opts: JsonModel, key: Seq<char>) -> Option<Seq<char>> {
    match opts.get(key) {
        Some(JsonModel::Text(s)) => if s.len() > 0 {
            Some(s)
        } else {
            None
        },
        _ => None,
    }
}

/// An empty text, or another value, counts as no text where a text must not be empty.
pub proof fn law_filled_options(opts: JsonModel, key: Seq<char>)
    ensures
        opts.filled_text_at(key) == nonempty_text(opts, key),
{
}

} // verus!
