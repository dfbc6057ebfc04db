//! Identity: the token that a request asks for.
use vstd::prelude::*;
use vstd::string::*;

use crate::json::{
    empty_object, lemma_get_with, lemma_well_formed_with, well_formed, Json, JsonModel,
};
use crate::options::{has_text, lacks_text, opt_str};

verus! {

/// The scope of the token: `scope`, or else that of the Resource Manager.
pub open spec fn scope_of(opts: JsonModel) -> Seq<char> {
    match opts.text_at("scope"@) {
        Some(scope) => scope,
        None => "https://management.azure.com/.default"@,
    }
}

/// The keys that stand in one object are distinct.
proof fn lemma_keys()
    ensures
        "acquired"@ != "scope"@,
        "acquired"@ != "expires_on"@,
        "scope"@ != "expires_on"@,
{
    reveal_strlit("acquired");
    reveal_strlit("scope");
    reveal_strlit("expires_on");
    assert("acquired"@.len() == 8);
    assert("scope"@.len() == 5);
    assert("expires_on"@.len() == 10);
}

/// The scope of the token that a request asks for.
pub fn token_scope(opts: &Json) -> (r: String)
    ensures
        r@ == scope_of(opts@),
{
    match opt_str(opts, "scope") {
        Some(scope) => scope.to_owned(),
        None => "https://management.azure.com/.default".to_owned(),
    }
}

/// The answer once a token was acquired.
pub open spec fn token_json(scope: Seq<char>, expires_on: Seq<char>) -> JsonModel {
    empty_object().with("acquired"@, JsonModel::Bool(true)).with(
        "scope"@,
        JsonModel::Text(scope),
    ).with("expires_on"@, JsonModel::Text(expires_on))
}

/// The answer once a token was acquired: its scope and when it expires, never the token.
pub fn token_answer(scope: &str, expires_on: &str) -> (r: Json)
    ensures
        r@ == token_json(scope@, expires_on@),
        well_formed(r@),
{
    broadcast use {lemma_get_with, lemma_well_formed_with};

    proof {
        lemma_keys();
    }
    Json::empty().with("acquired", Json::Bool(true)).with("scope", Json::text(scope)).with(
        "expires_on",
        Json::text(expires_on),
    )
}

/// A token is for `scope`, and without one for the Resource Manager.
pub proof fn law_token_scope(opts: JsonModel, scope: Seq<char>)
    ensures
        has_text(opts, "scope"@, scope) ==> scope_of(opts) == scope,
        lacks_text(opts, "scope"@) ==> scope_of(opts) == "https://management.azure.com/.default"@,
{
}

/// A token is answered by its scope and when it expires, and by nothing else.
pub proof fn law_token_answer(scope: Seq<char>, expires_on: Seq<char>)
    ensures
        token_json(scope, expires_on) is Object,
        token_json(scope, expires_on)->Object_0.len() == 3,
        token_json(scope, expires_on).get("acquired"@) == Some(JsonModel::Bool(true)),
        token_json(scope, expires_on).get("scope"@) == Some(JsonModel::Text(scope)),
        token_json(scope, expires_on).get("expires_on"@) == Some(JsonModel::Text(expires_on)),
{
    broadcast use lemma_get_with;

    lemma_keys();
}

} // verus!
