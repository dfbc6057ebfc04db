//! The addresses of the services that a request goes to.
use vstd::prelude::*;
use vstd::string::*;

use crate::encoding::{read_url, url_read};
use crate::error::{text_outcome, Error};
use crate::json::{Json, JsonModel};
use crate::options::{has_text, lacks_text, opt_str};
use crate::text::opt_text;

verus! {

/// The text under a key, or else a setting of the environment.
pub open spec fn given_or_set(
    opts: JsonModel,
    key: Seq<char>,
    setting: Option<Seq<char>>,
) -> Option<Seq<char>> {
    match opts.text_at(key) {
        Some(s) => Some(s),
        None => setting,
    }
}

/// The storage account of a request: `account`, or the one that the environment sets.
pub open spec fn account_of(
    opts: JsonModel,
    setting: Option<Seq<char>>,
) -> Result<Seq<char>, Seq<char>> {
    match given_or_set(opts, "account"@, setting) {
        Some(account) => Ok(account),
        None => Err("missing account (or set AZURE_STORAGE_ACCOUNT)"@),
    }
}

/// The address of a storage service before it is read as a URL: `endpoint`, or the
/// host of the account.
pub open spec fn service_address(
    opts: JsonModel,
    setting: Option<Seq<char>>,
    tail: Seq<char>,
) -> Result<Seq<char>, Seq<char>> {
    match opts.text_at("endpoint"@) {
        Some(endpoint) => Ok(endpoint),
        None => match account_of(opts, setting) {
            Ok(account) => Ok("https://"@ + account + tail),
            Err(e) => Err(e),
        },
    }
}

/// The URL of a storage service.
pub open spec fn service_url(
    opts: JsonModel,
    setting: Option<Seq<char>>,
    tail: Seq<char>,
) -> Result<Seq<char>, Seq<char>> {
    match service_address(opts, setting, tail) {
        Ok(address) => url_read(address),
        Err(e) => Err(e),
    }
}

/// The URL of the Blob service.
pub open spec fn blob_url_of(opts: JsonModel, setting: Option<Seq<char>>) -> Result<
    Seq<char>,
    Seq<char>,
> {
    service_url(opts, setting, ".blob.core.windows.net/"@)
}

/// The URL of the Queue service.
pub open spec fn queue_url_of(opts: JsonModel, setting: Option<Seq<char>>) -> Result<
    Seq<char>,
    Seq<char>,
> {
    service_url(opts, setting, ".queue.core.windows.net/"@)
}

/// The address of a Cosmos DB account: `endpoint`, or the host of `account` or of the
/// account that the environment sets.
pub open spec fn cosmos_address(
    opts: JsonModel,
    setting: Option<Seq<char>>,
) -> Result<Seq<char>, Seq<char>> {
    match opts.text_at("endpoint"@) {
        Some(endpoint) => Ok(endpoint),
        None => match given_or_set(opts, "account"@, setting) {
            Some(account) => Ok("https://"@ + account + ".documents.azure.com:443/"@),
            None => Err("missing account/endpoint (or set AZURE_COSMOS_ACCOUNT)"@),
        },
    }
}

/// The address of a key vault: `vault_url` or `endpoint`, or the host of `vault` or of
/// the vault that the environment sets.
pub open spec fn vault_address(
    opts: JsonModel,
    setting: Option<Seq<char>>,
) -> Result<Seq<char>, Seq<char>> {
    match given_or_set(opts, "vault_url"@, opts.text_at("endpoint"@)) {
        Some(address) => Ok(address),
        None => match given_or_set(opts, "vault"@, setting) {
            Some(vault) => Ok("https://"@ + vault + ".vault.azure.net/"@),
            None => Err("missing vault (or set AZURE_KEYVAULT_NAME)"@),
        },
    }
}

/// The text under a key, or else a setting of the environment.
fn given(opts: &Json, key: &str, setting: Option<String>) -> (r: Option<String>)
    ensures
        opt_text(r) == given_or_set(opts@, key@, opt_text(setting)),
{
    match opt_str(opts, key) {
        Some(s) => Some(s.to_owned()),
        None => setting,
    }
}

/// `https://`, a name, and what follows it.
fn https_host(name: &str, tail: &str) -> (r: String)
    ensures
        r@ == "https://"@ + name@ + tail@,
{
    let mut r = "https://".to_owned();
    r.append(name);
    r.append(tail);
    r
}

/// The storage account of a request. `setting` is the value of `AZURE_STORAGE_ACCOUNT`.
pub fn storage_account(opts: &Json, setting: Option<String>) -> (r: Result<String, Error>)
    ensures
        text_outcome(r) == account_of(opts@, opt_text(setting)),
{
    match given(opts, "account", setting) {
        Some(account) => Ok(account),
        None => Err(Error::new("missing account (or set AZURE_STORAGE_ACCOUNT)")),
    }
}

/// The address of a storage service before it is read as a URL.
pub fn storage_address(opts: &Json, setting: Option<String>, tail: &str) -> (r: Result<
    String,
    Error,
>)
    ensures
        text_outcome(r) == service_address(opts@, opt_text(setting), tail@),
{
    match opt_str(opts, "endpoint") {
        Some(endpoint) => Ok(endpoint.to_owned()),
        None => match storage_account(opts, setting) {
            Ok(account) => Ok(https_host(account.as_str(), tail)),
            Err(e) => Err(e),
        },
    }
}

/// The URL of the Blob service. `setting` is the value of `AZURE_STORAGE_ACCOUNT`.
pub fn blob_service_url(opts: &Json, setting: Option<String>) -> (r: Result<String, Error>)
    ensures
        text_outcome(r) == blob_url_of(opts@, opt_text(setting)),
{
    match storage_address(opts, setting, ".blob.core.windows.net/") {
        Ok(address) => read_url(address.as_str()),
        Err(e) => Err(e),
    }
}

/// The URL of the Queue service. `setting` is the value of `AZURE_STORAGE_ACCOUNT`.
pub fn queue_service_url(opts: &Json, setting: Option<String>) -> (r: Result<String, Error>)
    ensures
        text_outcome(r) == queue_url_of(opts@, opt_text(setting)),
{
    match storage_address(opts, setting, ".queue.core.windows.net/") {
        Ok(address) => read_url(address.as_str()),
        Err(e) => Err(e),
    }
}

/// The address of a Cosmos DB account. `setting` is the value of `AZURE_COSMOS_ACCOUNT`.
pub fn cosmos_endpoint(opts: &Json, setting: Option<String>) -> (r: Result<String, Error>)
    ensures
        text_outcome(r) == cosmos_address(opts@, opt_text(setting)),
{
    if let Some(endpoint) = opt_str(opts, "endpoint") {
        return Ok(endpoint.to_owned());
    }
    match given(opts, "account", setting) {
        Some(account) => Ok(https_host(account.as_str(), ".documents.azure.com:443/")),
        None => Err(Error::new("missing account/endpoint (or set AZURE_COSMOS_ACCOUNT)")),
    }
}

/// The address of a key vault. `setting` is the value of `AZURE_KEYVAULT_NAME`.
pub fn vault_url(opts: &Json, setting: Option<String>) -> (r: Result<String, Error>)
    ensures
        text_outcome(r) == vault_address(opts@, opt_text(setting)),
{
    let explicit = match opt_str(opts, "vault_url") {
        Some(s) => Some(s),
        None => opt_str(opts, "endpoint"),
    };
    if let Some(address) = explicit {
        return Ok(address.to_owned());
    }
    match given(opts, "vault", setting) {
        Some(vault) => Ok(https_host(vault.as_str(), ".vault.azure.net/")),
        None => Err(Error::new("missing vault (or set AZURE_KEYVAULT_NAME)")),
    }
}

/// An explicit endpoint wins over any account.
pub proof fn law_explicit_endpoint_wins(
    opts: JsonModel,
    endpoint: Seq<char>,
    setting: Option<Seq<char>>,
    tail: Seq<char>,
)
    requires
        opts.text_at("endpoint"@) == Some(endpoint),
    ensures
        service_address(opts, setting, tail) == Ok::<Seq<char>, Seq<char>>(endpoint),
        cosmos_address(opts, setting) == Ok::<Seq<char>, Seq<char>>(endpoint),
        opts.text_at("vault_url"@) is None ==> vault_address(opts, setting) == Ok::<
            Seq<char>,
            Seq<char>,
        >(endpoint),
{
}

/// The account that a request names, or the one that the environment sets.
pub open spec fn names_or_sets(
    opts: JsonModel,
    key: Seq<char>,
    setting: Option<Seq<char>>,
    name: Seq<char>,
) -> bool {
    has_text(opts, key, name) || lacks_text(opts, key) && setting == Some(name)
}

/// The storage account is `account`, or else the setting. Without either there is an error
/// that names both.
pub proof fn law_storage_account(opts: JsonModel, setting: Option<Seq<char>>, name: Seq<char>)
    ensures
        account_of(opts, setting) == Ok::<Seq<char>, Seq<char>>(name) <==> names_or_sets(
            opts,
            "account"@,
            setting,
            name,
        ),
        account_of(opts, setting) is Err <==> lacks_text(opts, "account"@) && setting is None,
        account_of(opts, setting) matches Err(e) ==> e
            == "missing account (or set AZURE_STORAGE_ACCOUNT)"@,
{
}

/// A storage service is at the URL that `endpoint` stands for, and without one at `https://`,
/// the account and the host of the service.
pub proof fn law_storage_address(
    opts: JsonModel,
    setting: Option<Seq<char>>,
    tail: Seq<char>,
    name: Seq<char>,
)
    ensures
        has_text(opts, "endpoint"@, name) ==> service_url(opts, setting, tail) == url_read(name),
        has_text(opts, "endpoint"@, name) ==> service_address(opts, setting, tail) == Ok::<
            Seq<char>,
            Seq<char>,
        >(name),
        lacks_text(opts, "endpoint"@) && names_or_sets(opts, "account"@, setting, name)
            ==> service_url(opts, setting, tail) == url_read("https://"@ + name + tail)
            && service_address(opts, setting, tail) == Ok::<Seq<char>, Seq<char>>(
            "https://"@ + name + tail,
        ),
        lacks_text(opts, "endpoint"@) && lacks_text(opts, "account"@) && setting is None
            ==> service_url(opts, setting, tail) == Err::<Seq<char>, Seq<char>>(
            "missing account (or set AZURE_STORAGE_ACCOUNT)"@,
        ) && service_address(opts, setting, tail) == Err::<Seq<char>, Seq<char>>(
            "missing account (or set AZURE_STORAGE_ACCOUNT)"@,
        ),
{
}

/// The Blob service and the Queue service are at the URL that `endpoint` stands for, and
/// without one at the host of the account for the service.
pub proof fn law_blob_and_queue_urls(
    opts: JsonModel,
    setting: Option<Seq<char>>,
    name: Seq<char>,
)
    ensures
        has_text(opts, "endpoint"@, name) ==> blob_url_of(opts, setting) == url_read(name)
            && queue_url_of(opts, setting) == url_read(name),
        lacks_text(opts, "endpoint"@) && names_or_sets(opts, "account"@, setting, name)
            ==> blob_url_of(opts, setting) == url_read(
            "https://"@ + name + ".blob.core.windows.net/"@,
        ) && queue_url_of(opts, setting) == url_read(
            "https://"@ + name + ".queue.core.windows.net/"@,
        ),
        lacks_text(opts, "endpoint"@) && lacks_text(opts, "account"@) && setting is None
            ==> blob_url_of(opts, setting) == Err::<Seq<char>, Seq<char>>(
            "missing account (or set AZURE_STORAGE_ACCOUNT)"@,
        ) && queue_url_of(opts, setting) == Err::<Seq<char>, Seq<char>>(
            "missing account (or set AZURE_STORAGE_ACCOUNT)"@,
        ),
{
}

/// Cosmos DB is at `endpoint`, and without one at the host of `account` or of the setting.
pub proof fn law_cosmos_address(opts: JsonModel, setting: Option<Seq<char>>, name: Seq<char>)
    ensures
        has_text(opts, "endpoint"@, name) ==> cosmos_address(opts, setting) == Ok::<
            Seq<char>,
            Seq<char>,
        >(name),
        lacks_text(opts, "endpoint"@) && names_or_sets(opts, "account"@, setting, name)
            ==> cosmos_address(opts, setting) == Ok::<Seq<char>, Seq<char>>(
            "https://"@ + name + ".documents.azure.com:443/"@,
        ),
        lacks_text(opts, "endpoint"@) && lacks_text(opts, "account"@) && setting is None
            ==> cosmos_address(opts, setting) == Err::<Seq<char>, Seq<char>>(
            "missing account/endpoint (or set AZURE_COSMOS_ACCOUNT)"@,
        ),
{
}

/// A key vault is at `vault_url`, and without one at `endpoint`, and without that at the host
/// of `vault` or of the setting.
pub proof fn law_vault_address(opts: JsonModel, setting: Option<Seq<char>>, name: Seq<char>)
    ensures
        ({
            let implicit = lacks_text(opts, "vault_url"@) && lacks_text(opts, "endpoint"@);
            let address = vault_address(opts, setting);
            &&& has_text(opts, "vault_url"@, name) ==> address == Ok::<Seq<char>, Seq<char>>(name)
            &&& lacks_text(opts, "vault_url"@) && has_text(opts, "endpoint"@, name) ==> address
                == Ok::<Seq<char>, Seq<char>>(name)
            &&& implicit && names_or_sets(opts, "vault"@, setting, name) ==> address == Ok::<
                Seq<char>,
                Seq<char>,
            >("https://"@ + name + ".vault.azure.net/"@)
            &&& implicit && lacks_text(opts, "vault"@) && setting is None ==> address == Err::<
                Seq<char>,
                Seq<char>,
            >("missing vault (or set AZURE_KEYVAULT_NAME)"@)
        }),
{
}

} // verus!
