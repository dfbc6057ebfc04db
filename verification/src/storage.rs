//! Storage endpoints and blob URLs: `https://<account>.<service>.<suffix>/<container>/<blob>`.
use vstd::prelude::*;
use vstd::string::*;

use crate::error::{missing, outcome, Error};
use crate::json::{empty_object, nullable, well_formed, Json, JsonModel};
use crate::options::{
    aliased, aliased_str, filled_str, has_text, has_text_or, lacks_text, lacks_text_or,
    nonempty_text, opt_str,
};
use crate::text::{
    after_prefix, lower, once_split, opt_text, opt_view, pieces_of, skip_leading, split_on,
    split_once, strip_prefix, texts, to_lower, without_leading,
};

verus! {

/// The storage services.
pub open spec fn storage_service(s: Seq<char>) -> bool {
    s == "blob"@ || s == "dfs"@ || s == "queue"@ || s == "table"@ || s == "file"@
}

/// The DNS suffix of storage in a cloud, which has several names.
pub open spec fn suffix_of(cloud: Seq<char>) -> Option<Seq<char>> {
    if cloud == "public"@ || cloud == "azure"@ || cloud == "azurecloud"@ {
        Some("core.windows.net"@)
    } else if cloud == "china"@ || cloud == "azurechina"@ || cloud == "azurechinacloud"@ {
        Some("core.chinacloudapi.cn"@)
    } else if cloud == "usgov"@ || cloud == "usgovernment"@ || cloud == "azureusgovernment"@ {
        Some("core.usgovcloudapi.net"@)
    } else {
        None
    }
}

/// The first name of the cloud with that suffix.
pub open spec fn cloud_of(suffix: Seq<char>) -> Option<Seq<char>> {
    if suffix == "core.windows.net"@ {
        Some("public"@)
    } else if suffix == "core.chinacloudapi.cn"@ {
        Some("china"@)
    } else if suffix == "core.usgovcloudapi.net"@ {
        Some("usgov"@)
    } else {
        None
    }
}

/// Whether a text names a storage service.
pub fn is_storage_service(s: &str) -> (r: bool)
    ensures
        r == storage_service(s@),
{
    *s == *"blob" || *s == *"dfs" || *s == *"queue" || *s == *"table" || *s == *"file"
}

/// The DNS suffix of storage in a cloud.
pub fn storage_suffix_of(cloud: &str) -> (r: Option<&'static str>)
    ensures
        opt_view(r) == suffix_of(cloud@),
{
    if *cloud == *"public" || *cloud == *"azure" || *cloud == *"azurecloud" {
        Some("core.windows.net")
    } else if *cloud == *"china" || *cloud == *"azurechina" || *cloud == *"azurechinacloud" {
        Some("core.chinacloudapi.cn")
    } else if *cloud == *"usgov" || *cloud == *"usgovernment" || *cloud == *"azureusgovernment" {
        Some("core.usgovcloudapi.net")
    } else {
        None
    }
}

/// The first name of the cloud with that suffix.
pub fn cloud_for_suffix(suffix: &str) -> (r: Option<&'static str>)
    ensures
        opt_view(r) == cloud_of(suffix@),
{
    if *suffix == *"core.windows.net" {
        Some("public")
    } else if *suffix == *"core.chinacloudapi.cn" {
        Some("china")
    } else if *suffix == *"core.usgovcloudapi.net" {
        Some("usgov")
    } else {
        None
    }
}

/// The parts of a blob URL.
#[derive(Debug, PartialEq)]
pub struct BlobUri {
    pub account: String,
    pub service: String,
    pub host: String,
    pub container: Option<String>,
    pub blob: Option<String>,
}

/// What the parts of a blob URL are.
#[verifier::ext_equal]
pub struct BlobUriModel {
    pub account: Seq<char>,
    pub service: Seq<char>,
    pub host: Seq<char>,
    pub container: Option<Seq<char>>,
    pub blob: Option<Seq<char>>,
}

impl View for BlobUri {
    type V = BlobUriModel;

    open spec fn view(&self) -> BlobUriModel {
        BlobUriModel {
            account: self.account@,
            service: self.service@,
            host: self.host@,
            container: opt_text(self.container),
            blob: opt_text(self.blob),
        }
    }
}

/// What follows `https://` or `http://`.
pub open spec fn without_scheme(s: Seq<char>) -> Option<Seq<char>> {
    match strip_prefix(s, "https://"@) {
        Some(rest) => Some(rest),
        None => strip_prefix(s, "http://"@),
    }
}

/// The container and the blob that a path names. The blob is all that follows the
/// first slash.
pub open spec fn path_parts(path: Seq<char>) -> (Option<Seq<char>>, Option<Seq<char>>) {
    match split_once(path, '/') {
        Some((container, blob)) => if blob.len() == 0 {
            (Some(container), None)
        } else {
            (Some(container), Some(blob))
        },
        None => if path.len() == 0 {
            (None, None)
        } else {
            (Some(path), None)
        },
    }
}

/// The parts of a blob URL. The host must have three labels, the first an account and
/// the second a service.
pub open spec fn parsed_uri(uri: Seq<char>) -> Result<BlobUriModel, Seq<char>> {
    match without_scheme(uri) {
        None => Err("not an http(s) blob URL: "@ + uri),
        Some(rest) => {
            let (host, path) = match split_once(rest, '/') {
                Some((host, path)) => (host, path),
                None => (rest, Seq::empty()),
            };
            let labels = split_on(host, '.');
            if labels.len() < 3 || labels[0].len() == 0 {
                Err("not an Azure storage host: "@ + host)
            } else if !storage_service(labels[1]) {
                Err("unknown storage service `"@ + labels[1] + "` in host "@ + host)
            } else {
                Ok(
                    BlobUriModel {
                        account: labels[0],
                        service: labels[1],
                        host,
                        container: path_parts(path).0,
                        blob: path_parts(path).1,
                    },
                )
            }
        },
    }
}

/// The parts of a blob URL as a JSON object.
pub open spec fn uri_json(parts: BlobUriModel) -> JsonModel {
    empty_object().with("account"@, JsonModel::Text(parts.account)).with(
        "service"@,
        JsonModel::Text(parts.service),
    ).with("host"@, JsonModel::Text(parts.host)).with("container"@, nullable(parts.container)).with(
        "blob"@,
        nullable(parts.blob),
    )
}

/// What `op_parse_blob_uri` answers.
pub open spec fn parse_uri_answer(opts: JsonModel) -> Result<JsonModel, Seq<char>> {
    match opts.text_at("uri"@) {
        None => Err(missing("uri"@)),
        Some(uri) => match parsed_uri(uri) {
            Ok(parts) => Ok(uri_json(parts)),
            Err(e) => Err(e),
        },
    }
}

/// `<account>.<service>.<suffix>`.
pub open spec fn host_of(account: Seq<char>, service: Seq<char>, suffix: Seq<char>) -> Seq<char> {
    account.push('.') + (service.push('.') + suffix)
}

/// The URL of an account of the public cloud, of a container in it, or of a blob in
/// that. A blob without a container is left out, and so are the slashes that its name
/// begins with.
pub open spec fn built_uri(
    account: Seq<char>,
    service: Seq<char>,
    container: Option<Seq<char>>,
    blob: Option<Seq<char>>,
) -> Seq<char> {
    let base = "https://"@ + host_of(account, service, "core.windows.net"@);
    match container {
        None => base,
        Some(c) => match blob {
            None => base.push('/') + c,
            Some(b) => base.push('/') + (c.push('/') + skip_leading(b, '/')),
        },
    }
}

/// The text under a key unless it is empty or absent, and otherwise a default.
pub open spec fn filled_or(opts: JsonModel, key: Seq<char>, default: Seq<char>) -> Seq<char> {
    match opts.filled_text_at(key) {
        Some(s) => s,
        None => default,
    }
}

/// The message for a service that does not exist.
pub open spec fn unknown_service(service: Seq<char>) -> Seq<char> {
    "unknown storage service `"@ + service + "`"@
}

/// What `op_build_blob_uri` answers.
pub open spec fn build_uri_answer(opts: JsonModel) -> Result<JsonModel, Seq<char>> {
    let service = filled_or(opts, "service"@, "blob"@);
    match opts.filled_text_at("account"@) {
        None => Err(missing("account"@)),
        Some(account) => if !storage_service(service) {
            Err(unknown_service(service))
        } else {
            Ok(
                empty_object().with(
                    "uri"@,
                    JsonModel::Text(
                        built_uri(
                            account,
                            service,
                            opts.filled_text_at("container"@),
                            opts.filled_text_at("blob"@),
                        ),
                    ),
                ),
            )
        },
    }
}

/// A storage endpoint.
#[derive(Debug, PartialEq)]
pub struct Endpoint {
    pub account: String,
    pub service: String,
    pub cloud: String,
    pub suffix: String,
}

/// What a storage endpoint is.
#[verifier::ext_equal]
pub struct EndpointModel {
    pub account: Seq<char>,
    pub service: Seq<char>,
    pub cloud: Seq<char>,
    pub suffix: Seq<char>,
}

impl View for Endpoint {
    type V = EndpointModel;

    open spec fn view(&self) -> EndpointModel {
        EndpointModel {
            account: self.account@,
            service: self.service@,
            cloud: self.cloud@,
            suffix: self.suffix@,
        }
    }
}

impl EndpointModel {
    /// The host of the endpoint.
    pub open spec fn host(self) -> Seq<char> {
        host_of(self.account, self.service, self.suffix)
    }
}

/// The endpoint of an account for a service in a cloud, whose name may be in any case.
pub open spec fn made_endpoint(
    account: Seq<char>,
    service: Seq<char>,
    cloud: Seq<char>,
) -> Result<EndpointModel, Seq<char>> {
    if !storage_service(service) {
        Err(unknown_service(service))
    } else {
        match suffix_of(lower(cloud)) {
            None => Err("unknown cloud `"@ + lower(cloud) + "` (public/china/usgov)"@),
            Some(suffix) => Ok(EndpointModel { account, service, cloud: lower(cloud), suffix }),
        }
    }
}

/// What `op_storage_endpoint` answers.
pub open spec fn make_endpoint_answer(opts: JsonModel) -> Result<JsonModel, Seq<char>> {
    match opts.filled_text_at("account"@) {
        None => Err(missing("account"@)),
        Some(account) => match made_endpoint(
            account,
            filled_or(opts, "service"@, "blob"@),
            filled_or(opts, "cloud"@, "public"@),
        ) {
            Err(e) => Err(e),
            Ok(e) => Ok(
                empty_object().with("account"@, JsonModel::Text(e.account)).with(
                    "service"@,
                    JsonModel::Text(e.service),
                ).with("cloud"@, JsonModel::Text(e.cloud)).with(
                    "suffix"@,
                    JsonModel::Text(e.suffix),
                ).with("endpoint"@, JsonModel::Text(e.host())).with(
                    "url"@,
                    JsonModel::Text("https://"@ + e.host()),
                ),
            ),
        },
    }
}

/// The host that an endpoint or a URL names: without a scheme, and up to the first
/// slash or question mark.
pub open spec fn host_part(raw: Seq<char>) -> Seq<char> {
    let rest = match without_scheme(raw) {
        Some(rest) => rest,
        None => raw,
    };
    split_on(split_on(rest, '/').first(), '?').first()
}

/// The message for a host that is not one of a storage endpoint.
pub open spec fn not_a_host(host: Seq<char>) -> Seq<char> {
    "not a storage endpoint host `"@ + host + "`"@
}

/// The parts of a storage endpoint.
pub open spec fn parsed_endpoint(raw: Seq<char>) -> Result<EndpointModel, Seq<char>> {
    let host = host_part(raw);
    match split_once(host, '.') {
        None => Err(not_a_host(host)),
        Some((account, rest)) => if account.len() == 0 {
            Err("storage endpoint has no account: `"@ + host + "`"@)
        } else {
            match split_once(rest, '.') {
                None => Err(not_a_host(host)),
                Some((service, suffix)) => if !storage_service(service) {
                    Err(unknown_service(service))
                } else {
                    match cloud_of(suffix) {
                        None => Err("unknown storage suffix `"@ + suffix + "`"@),
                        Some(cloud) => Ok(EndpointModel { account, service, cloud, suffix }),
                    }
                },
            }
        },
    }
}

/// What `op_parse_storage_endpoint` answers.
pub open spec fn parse_endpoint_answer(opts: JsonModel) -> Result<JsonModel, Seq<char>> {
    match aliased(opts, "endpoint"@, "url"@) {
        None => Err(missing("endpoint"@)),
        Some(raw) => match parsed_endpoint(raw) {
            Err(e) => Err(e),
            Ok(e) => Ok(
                empty_object().with("endpoint"@, JsonModel::Text(e.host())).with(
                    "account"@,
                    JsonModel::Text(e.account),
                ).with("service"@, JsonModel::Text(e.service)).with(
                    "cloud"@,
                    JsonModel::Text(e.cloud),
                ).with("suffix"@, JsonModel::Text(e.suffix)).with(
                    "url"@,
                    JsonModel::Text("https://"@ + e.host()),
                ),
            ),
        },
    }
}

/// What follows `https://` or `http://`.
fn scheme_stripped(s: &str) -> (r: Option<String>)
    ensures
        opt_text(r) == without_scheme(s@),
{
    match after_prefix(s, "https://") {
        Some(rest) => Some(rest),
        None => after_prefix(s, "http://"),
    }
}

/// The parts of a blob URL.
pub fn parse_blob_uri(uri: &str) -> (r: Result<BlobUri, Error>)
    ensures
        match r {
            Ok(parts) => parsed_uri(uri@) == Ok::<BlobUriModel, Seq<char>>(parts@),
            Err(e) => parsed_uri(uri@) == Err::<BlobUriModel, Seq<char>>(e@),
        },
{
    let rest = match scheme_stripped(uri) {
        Some(rest) => rest,
        None => {
            return Err(Error::of("not an http(s) blob URL: ", uri));
        },
    };
    let (host, path) = match once_split(rest.as_str(), '/') {
        Some((host, path)) => (host, path),
        None => (rest, String::new()),
    };
    let labels = pieces_of(host.as_str(), '.');
    let ghost all = split_on(host@, '.');
    proof {
        if all.len() > 0 {
            assert(all[0] == labels@[0]@);
        }
        if all.len() > 1 {
            assert(all[1] == labels@[1]@);
        }
    }
    if labels.len() < 3 || labels[0].as_str().is_empty() {
        return Err(Error::of("not an Azure storage host: ", host.as_str()));
    }
    if !is_storage_service(labels[1].as_str()) {
        let mut after = "` in host ".to_owned();
        after.append(host.as_str());
        let e = Error::about("unknown storage service `", labels[1].as_str(), after.as_str());
        assert(e@ =~= "unknown storage service `"@ + all[1] + "` in host "@ + host@);
        return Err(e);
    }
    let (container, blob) = match once_split(path.as_str(), '/') {
        Some((container, blob)) => if blob.as_str().is_empty() {
            (Some(container), None)
        } else {
            (Some(container), Some(blob))
        },
        None => if path.as_str().is_empty() {
            (None, None)
        } else {
            (Some(path), None)
        },
    };
    Ok(
        BlobUri {
            account: labels[0].clone(),
            service: labels[1].clone(),
            host,
            container,
            blob,
        },
    )
}

/// `<account>.<service>.<suffix>`.
fn host_text(account: &str, service: &str, suffix: &str) -> (r: String)
    ensures
        r@ == host_of(account@, service@, suffix@),
{
    let mut host = account.to_owned();
    host.push('.');
    host.append(service);
    host.push('.');
    host.append(suffix);
    assert(host@ =~= host_of(account@, service@, suffix@));
    host
}

/// The URL of an account of the public cloud, of a container in it, or of a blob in
/// that.
pub fn build_blob_uri(
    account: &str,
    service: &str,
    container: Option<&str>,
    blob: Option<&str>,
) -> (r: String)
    ensures
        r@ == built_uri(account@, service@, opt_view(container), opt_view(blob)),
{
    let mut uri = "https://".to_owned();
    uri.append(host_text(account, service, "core.windows.net").as_str());
    let ghost base = uri@;
    match container {
        None => {},
        Some(c) => {
            uri.push('/');
            uri.append(c);
            match blob {
                None => {},
                Some(b) => {
                    uri.push('/');
                    uri.append(without_leading(b, '/').as_str());
                    assert(uri@ =~= base.push('/') + (c@.push('/') + skip_leading(b@, '/')));
                },
            }
        },
    }
    uri
}

/// The endpoint of an account for a service in a cloud.
pub fn make_endpoint(account: &str, service: &str, cloud: &str) -> (r: Result<Endpoint, Error>)
    ensures
        match r {
            Ok(e) => made_endpoint(account@, service@, cloud@) == Ok::<EndpointModel, Seq<char>>(
                e@,
            ),
            Err(e) => made_endpoint(account@, service@, cloud@) == Err::<EndpointModel, Seq<char>>(
                e@,
            ),
        },
{
    if !is_storage_service(service) {
        return Err(Error::about("unknown storage service `", service, "`"));
    }
    let cloud = to_lower(cloud);
    match storage_suffix_of(cloud.as_str()) {
        None => Err(Error::about("unknown cloud `", cloud.as_str(), "` (public/china/usgov)")),
        Some(suffix) => Ok(
            Endpoint {
                account: account.to_owned(),
                service: service.to_owned(),
                cloud,
                suffix: suffix.to_owned(),
            },
        ),
    }
}

impl Endpoint {
    /// The host of the endpoint.
    pub fn host(&self) -> (r: String)
        ensures
            r@ == self@.host(),
    {
        host_text(self.account.as_str(), self.service.as_str(), self.suffix.as_str())
    }

    /// The URL of the endpoint.
    pub fn url(&self) -> (r: String)
        ensures
            r@ == "https://"@ + self@.host(),
    {
        let mut url = "https://".to_owned();
        url.append(self.host().as_str());
        url
    }
}

/// What stands before the first `sep`.
fn first_piece(s: &str, sep: char) -> (r: String)
    ensures
        r@ == split_on(s@, sep).first(),
{
    proof {
        crate::text::lemma_split_some(s@, sep);
    }
    let pieces = pieces_of(s, sep);
    assert(texts(pieces@)[0] == pieces@[0]@);
    pieces[0].clone()
}

/// The host that an endpoint or a URL names.
fn host_part_of(raw: &str) -> (r: String)
    ensures
        r@ == host_part(raw@),
{
    let rest = match scheme_stripped(raw) {
        Some(rest) => rest,
        None => raw.to_owned(),
    };
    first_piece(first_piece(rest.as_str(), '/').as_str(), '?')
}

/// The parts of a storage endpoint, or of a URL at one.
pub fn parse_endpoint(raw: &str) -> (r: Result<Endpoint, Error>)
    ensures
        match r {
            Ok(e) => parsed_endpoint(raw@) == Ok::<EndpointModel, Seq<char>>(e@),
            Err(e) => parsed_endpoint(raw@) == Err::<EndpointModel, Seq<char>>(e@),
        },
{
    let host = host_part_of(raw);
    let (account, rest) = match once_split(host.as_str(), '.') {
        Some(parts) => parts,
        None => {
            return Err(Error::about("not a storage endpoint host `", host.as_str(), "`"));
        },
    };
    if account.as_str().is_empty() {
        return Err(Error::about("storage endpoint has no account: `", host.as_str(), "`"));
    }
    let (service, suffix) = match once_split(rest.as_str(), '.') {
        Some(parts) => parts,
        None => {
            return Err(Error::about("not a storage endpoint host `", host.as_str(), "`"));
        },
    };
    if !is_storage_service(service.as_str()) {
        return Err(Error::about("unknown storage service `", service.as_str(), "`"));
    }
    match cloud_for_suffix(suffix.as_str()) {
        None => Err(Error::about("unknown storage suffix `", suffix.as_str(), "`")),
        Some(cloud) => Ok(Endpoint { account, service, cloud: cloud.to_owned(), suffix }),
    }
}

/// Takes the blob URL under `uri` apart.
pub fn op_parse_blob_uri(opts: Json) -> (r: Result<Json, Error>)
    ensures
        outcome(r) == parse_uri_answer(opts@),
{
    match opt_str(&opts, "uri") {
        None => Err(Error::missing("uri")),
        Some(uri) => match parse_blob_uri(uri) {
            Err(e) => Err(e),
            Ok(parts) => Ok(
                Json::empty().with("account", Json::Text(parts.account)).with(
                    "service",
                    Json::Text(parts.service),
                ).with("host", Json::Text(parts.host)).with(
                    "container",
                    Json::nullable(&parts.container),
                ).with("blob", Json::nullable(&parts.blob)),
            ),
        },
    }
}

/// The text under a key unless it is empty or absent, and otherwise a default.
pub fn filled_str_or<'a>(opts: &'a Json, key: &str, default: &'a str) -> (r: &'a str)
    ensures
        r@ == filled_or(opts@, key@, default@),
{
    match filled_str(opts, key) {
        Some(s) => s,
        None => default,
    }
}

/// Puts a blob URL together from `account`, `service`, `container` and `blob`.
pub fn op_build_blob_uri(opts: Json) -> (r: Result<Json, Error>)
    ensures
        outcome(r) == build_uri_answer(opts@),
{
    let account = match filled_str(&opts, "account") {
        Some(account) => account,
        None => {
            return Err(Error::missing("account"));
        },
    };
    let service = filled_str_or(&opts, "service", "blob");
    if !is_storage_service(service) {
        return Err(Error::about("unknown storage service `", service, "`"));
    }
    let uri = build_blob_uri(
        account,
        service,
        filled_str(&opts, "container"),
        filled_str(&opts, "blob"),
    );
    Ok(Json::empty().with("uri", Json::Text(uri)))
}

/// The storage endpoint of `account` for `service` in `cloud`.
pub fn op_storage_endpoint(opts: Json) -> (r: Result<Json, Error>)
    ensures
        outcome(r) == make_endpoint_answer(opts@),
{
    let account = match filled_str(&opts, "account") {
        Some(account) => account,
        None => {
            return Err(Error::missing("account"));
        },
    };
    let service = filled_str_or(&opts, "service", "blob");
    let cloud = filled_str_or(&opts, "cloud", "public");
    match make_endpoint(account, service, cloud) {
        Err(e) => Err(e),
        Ok(e) => {
            let host = e.host();
            let url = e.url();
            Ok(
                Json::empty().with("account", Json::Text(e.account)).with(
                    "service",
                    Json::Text(e.service),
                ).with("cloud", Json::Text(e.cloud)).with("suffix", Json::Text(e.suffix)).with(
                    "endpoint",
                    Json::Text(host),
                ).with("url", Json::Text(url)),
            )
        },
    }
}

/// Takes the storage endpoint under `endpoint` (or `url`) apart.
pub fn op_parse_storage_endpoint(opts: Json) -> (r: Result<Json, Error>)
    ensures
        outcome(r) == parse_endpoint_answer(opts@),
{
    match aliased_str(&opts, "endpoint", "url") {
        None => Err(Error::missing("endpoint")),
        Some(raw) => match parse_endpoint(raw) {
            Err(e) => Err(e),
            Ok(e) => {
                let host = e.host();
                let url = e.url();
                Ok(
                    Json::empty().with("endpoint", Json::Text(host)).with(
                        "account",
                        Json::Text(e.account),
                    ).with("service", Json::Text(e.service)).with(
                        "cloud",
                        Json::Text(e.cloud),
                    ).with("suffix", Json::Text(e.suffix)).with("url", Json::Text(url)),
                )
            },
        },
    }
}

/// A host label or path segment: no dot, slash or question mark in it.
pub open spec fn plain_label(s: Seq<char>) -> bool {
    !s.contains('.') && !s.contains('/') && !s.contains('?')
}

proof fn lemma_service_plain(service: Seq<char>)
    requires
        storage_service(service),
    ensures
        plain_label(service),
        service.len() > 0,
{
    reveal_strlit("blob");
    reveal_strlit("dfs");
    reveal_strlit("queue");
    reveal_strlit("table");
    reveal_strlit("file");
}

proof fn lemma_suffix_plain(suffix: Seq<char>)
    requires
        cloud_of(suffix) is Some,
    ensures
        !suffix.contains('/'),
        !suffix.contains('?'),
{
    reveal_strlit("core.windows.net");
    reveal_strlit("core.chinacloudapi.cn");
    reveal_strlit("core.usgovcloudapi.net");
}

/// No two suffixes are the same, and no two first names of clouds.
proof fn lemma_clouds()
    ensures
        "core.windows.net"@ != "core.chinacloudapi.cn"@,
        "core.windows.net"@ != "core.usgovcloudapi.net"@,
        "core.chinacloudapi.cn"@ != "core.usgovcloudapi.net"@,
        "china"@ != "public"@,
        "china"@ != "azure"@,
        "china"@ != "azurecloud"@,
        "usgov"@ != "public"@,
        "usgov"@ != "azure"@,
        "usgov"@ != "azurecloud"@,
        "usgov"@ != "china"@,
        "usgov"@ != "azurechina"@,
        "usgov"@ != "azurechinacloud"@,
        lower("public"@) == "public"@,
        lower("china"@) == "china"@,
        lower("usgov"@) == "usgov"@,
{
    reveal_strlit("core.windows.net");
    reveal_strlit("core.chinacloudapi.cn");
    reveal_strlit("core.usgovcloudapi.net");
    reveal_strlit("public");
    reveal_strlit("azure");
    reveal_strlit("azurecloud");
    reveal_strlit("china");
    reveal_strlit("azurechina");
    reveal_strlit("azurechinacloud");
    reveal_strlit("usgov");
    assert("core.windows.net"@.len() == 16);
    assert("core.chinacloudapi.cn"@.len() == 21);
    assert("core.usgovcloudapi.net"@.len() == 22);
    assert("public"@[0] == 'p');
    assert("azure"@[0] == 'a');
    assert("azurecloud"@[0] == 'a');
    assert("china"@[0] == 'c');
    assert("azurechina"@[0] == 'a');
    assert("azurechinacloud"@[0] == 'a');
    assert("usgov"@[0] == 'u');
    assert(lower("public"@) =~= "public"@);
    assert(lower("china"@) =~= "china"@);
    assert(lower("usgov"@) =~= "usgov"@);
}

/// The suffix of a cloud leads back to a name of that cloud: one with the same suffix.
pub proof fn law_cloud_names(cloud: Seq<char>)
    requires
        suffix_of(cloud) is Some,
    ensures
        cloud_of(suffix_of(cloud)->0) is Some,
        suffix_of(cloud_of(suffix_of(cloud)->0)->0) == suffix_of(cloud),
{
    lemma_clouds();
}

/// The first name of the cloud of a suffix has that suffix.
pub proof fn law_suffixes(suffix: Seq<char>)
    requires
        cloud_of(suffix) is Some,
    ensures
        suffix_of(cloud_of(suffix)->0) == Some(suffix),
        lower(cloud_of(suffix)->0) == cloud_of(suffix)->0,
{
    lemma_clouds();
}

proof fn lemma_host_free(account: Seq<char>, service: Seq<char>, suffix: Seq<char>, c: char)
    requires
        c != '.',
        !account.contains(c),
        !service.contains(c),
        !suffix.contains(c),
    ensures
        !host_of(account, service, suffix).contains(c),
{
    let tail = service.push('.') + suffix;
    assert(!account.push('.').contains(c)) by {
        if account.push('.').contains(c) {
            let i = account.push('.').index_of(c);
            assert(account[i] == c);
        }
    }
    assert(!service.push('.').contains(c)) by {
        if service.push('.').contains(c) {
            let i = service.push('.').index_of(c);
            assert(service[i] == c);
        }
    }
    crate::text::lemma_contains_add(service.push('.'), suffix, c);
    crate::text::lemma_contains_add(account.push('.'), tail, c);
}

proof fn lemma_no_scheme(s: Seq<char>)
    requires
        !s.contains('/'),
    ensures
        without_scheme(s) is None,
{
    reveal_strlit("https://");
    reveal_strlit("http://");
    if "https://"@.is_prefix_of(s) {
        assert(s.subrange(0, "https://"@.len() as int)[6] == '/');
        assert(s[6] == '/');
    }
    if "http://"@.is_prefix_of(s) {
        assert(s.subrange(0, "http://"@.len() as int)[5] == '/');
        assert(s[5] == '/');
    }
}

proof fn lemma_host_part(host: Seq<char>)
    requires
        !host.contains('/'),
        !host.contains('?'),
    ensures
        host_part(host) == host,
{
    lemma_no_scheme(host);
    crate::text::lemma_split_free(host, '/');
    crate::text::lemma_split_free(host, '?');
}

proof fn lemma_parse_inverts_make(account: Seq<char>, service: Seq<char>, cloud: Seq<char>)
    requires
        account.len() > 0,
        plain_label(account),
        made_endpoint(account, service, cloud) is Ok,
    ensures
        ({
            let made = made_endpoint(account, service, cloud)->Ok_0;
            parsed_endpoint(made.host()) == Ok::<EndpointModel, Seq<char>>(
                EndpointModel { cloud: cloud_of(made.suffix)->0, ..made },
            ) && cloud_of(made.suffix) is Some
        }),
{
    let made = made_endpoint(account, service, cloud)->Ok_0;
    law_cloud_names(lower(cloud));
    lemma_service_plain(service);
    lemma_suffix_plain(made.suffix);
    lemma_host_free(account, service, made.suffix, '/');
    lemma_host_free(account, service, made.suffix, '?');
    lemma_host_part(made.host());
    crate::text::lemma_split_once_joined(account, service.push('.') + made.suffix, '.');
    crate::text::lemma_split_once_joined(service, made.suffix, '.');
}

proof fn lemma_first_piece_free(s: Seq<char>, sep: char, c: char)
    requires
        !s.contains(c),
    ensures
        !split_on(s, sep).first().contains(c),
    decreases s.len(),
{
    if s.len() > 0 {
        let front = s.drop_last();
        assert(!front.contains(c)) by {
            if front.contains(c) {
                let i = front.index_of(c);
                assert(s[i] == c);
            }
        }
        lemma_first_piece_free(front, sep, c);
        crate::text::lemma_split_some(front, sep);
        assert(s.contains(s.last()));
        let before = split_on(front, sep);
        if s.last() != sep && before.len() == 1 {
            let longer = before.first().push(s.last());
            if longer.contains(c) {
                let i = longer.index_of(c);
                assert(before.first()[i] == c);
            }
        }
    }
}

proof fn lemma_parsed_endpoint_parts(raw: Seq<char>)
    requires
        parsed_endpoint(raw) is Ok,
    ensures
        ({
            let e = parsed_endpoint(raw)->Ok_0;
            &&& e.account.len() > 0
            &&& plain_label(e.account)
        }),
{
    let e = parsed_endpoint(raw)->Ok_0;
    let host = host_part(raw);
    let rest = match without_scheme(raw) {
        Some(rest) => rest,
        None => raw,
    };
    let upto = split_on(rest, '/').first();
    crate::text::lemma_split_some(rest, '/');
    crate::text::lemma_split_some(upto, '?');
    crate::text::lemma_split_pieces_free(rest, '/');
    crate::text::lemma_split_pieces_free(upto, '?');
    assert(!split_on(rest, '/')[0].contains('/'));
    assert(!split_on(upto, '?')[0].contains('?'));
    lemma_first_piece_free(upto, '?', '/');
    crate::text::lemma_split_once(host, '.');
    if e.account.contains('/') {
        let i = e.account.index_of('/');
        assert(host[i] == '/');
    }
    if e.account.contains('?') {
        let i = e.account.index_of('?');
        assert(host[i] == '?');
    }
}

/// Taking an endpoint apart gives the account, the service and the suffix that it was
/// made of, and the first name of its cloud, exactly if the account is not empty and has
/// no dot, slash or question mark.
pub proof fn law_parse_inverts_make(account: Seq<char>, service: Seq<char>, cloud: Seq<char>)
    requires
        made_endpoint(account, service, cloud) is Ok,
    ensures
        ({
            let made = made_endpoint(account, service, cloud)->Ok_0;
            &&& cloud_of(made.suffix) is Some
            &&& parsed_endpoint(made.host()) == Ok::<EndpointModel, Seq<char>>(
                EndpointModel { cloud: cloud_of(made.suffix)->0, ..made },
            ) <==> account.len() > 0 && plain_label(account)
        }),
{
    let made = made_endpoint(account, service, cloud)->Ok_0;
    law_cloud_names(lower(cloud));
    if account.len() > 0 && plain_label(account) {
        lemma_parse_inverts_make(account, service, cloud);
    }
    if parsed_endpoint(made.host()) is Ok {
        lemma_parsed_endpoint_parts(made.host());
    }
}

/// The parts of an endpoint make an endpoint with those parts again, and its host has
/// them too.
pub proof fn law_make_inverts_parse(raw: Seq<char>)
    requires
        parsed_endpoint(raw) is Ok,
    ensures
        ({
            let e = parsed_endpoint(raw)->Ok_0;
            made_endpoint(e.account, e.service, e.cloud) == parsed_endpoint(raw) && parsed_endpoint(
                e.host(),
            ) == parsed_endpoint(raw)
        }),
{
    let e = parsed_endpoint(raw)->Ok_0;
    law_suffixes(e.suffix);
    lemma_parsed_endpoint_parts(raw);
    law_parse_inverts_make(e.account, e.service, e.cloud);
}

/// Parts that a blob URL can hold and give back: an account that is a host label, a
/// service, and a container that is a path segment; no blob but in a container, and its
/// name not empty and without a slash in front.
pub open spec fn sound_uri(
    account: Seq<char>,
    service: Seq<char>,
    container: Option<Seq<char>>,
    blob: Option<Seq<char>>,
) -> bool {
    &&& account.len() > 0
    &&& !account.contains('.')
    &&& !account.contains('/')
    &&& storage_service(service)
    &&& container matches Some(c) ==> c.len() > 0 && !c.contains('/')
    &&& blob matches Some(b) ==> container is Some && b.len() > 0 && b.first() != '/'
}

proof fn lemma_public_host(account: Seq<char>, service: Seq<char>)
    requires
        account.len() > 0,
        !account.contains('.'),
        !account.contains('/'),
        storage_service(service),
    ensures
        ({
            let host = host_of(account, service, "core.windows.net"@);
            let labels = split_on(host, '.');
            &&& !host.contains('/')
            &&& labels.len() >= 3
            &&& labels[0] == account
            &&& labels[1] == service
        }),
{
    let suffix = "core.windows.net"@;
    lemma_service_plain(service);
    lemma_suffix_plain(suffix);
    lemma_host_free(account, service, suffix, '/');
    crate::text::lemma_split_free(account, '.');
    crate::text::lemma_split_free(service, '.');
    crate::text::lemma_split_concat(account, service.push('.') + suffix, '.');
    crate::text::lemma_split_concat(service, suffix, '.');
    crate::text::lemma_split_some(suffix, '.');
}

proof fn lemma_uri_pieces(
    account: Seq<char>,
    service: Seq<char>,
    path: Option<Seq<char>>,
    uri: Seq<char>,
)
    requires
        account.len() > 0,
        !account.contains('.'),
        !account.contains('/'),
        storage_service(service),
        uri == match path {
            Some(p) => ("https://"@ + host_of(account, service, "core.windows.net"@)).push('/') + p,
            None => "https://"@ + host_of(account, service, "core.windows.net"@),
        },
    ensures
        parsed_uri(uri) == Ok::<BlobUriModel, Seq<char>>(
            BlobUriModel {
                account,
                service,
                host: host_of(account, service, "core.windows.net"@),
                container: path_parts(
                    match path {
                        Some(p) => p,
                        None => Seq::empty(),
                    },
                ).0,
                blob: path_parts(
                    match path {
                        Some(p) => p,
                        None => Seq::empty(),
                    },
                ).1,
            },
        ),
{
    let host = host_of(account, service, "core.windows.net"@);
    lemma_public_host(account, service);
    match path {
        Some(p) => {
            assert(uri =~= "https://"@ + (host.push('/') + p));
            crate::text::lemma_strip_prefix("https://"@, host.push('/') + p);
            crate::text::lemma_split_once_joined(host, p, '/');
        },
        None => {
            crate::text::lemma_strip_prefix("https://"@, host);
            crate::text::lemma_split_once(host, '/');
            if split_once(host, '/') is Some {
                let (a, b) = split_once(host, '/')->0;
                assert(host[a.len() as int] == '/');
            }
        },
    }
}

/// Taking apart what was put together gives the parts back, on the host of the public
/// cloud; of a blob's name the slashes in front are gone, and nothing else.
pub proof fn law_parse_inverts_build(
    account: Seq<char>,
    service: Seq<char>,
    container: Option<Seq<char>>,
    blob: Option<Seq<char>>,
)
    requires
        account.len() > 0,
        !account.contains('.'),
        !account.contains('/'),
        storage_service(service),
        container matches Some(c) ==> c.len() > 0 && !c.contains('/'),
    ensures
        parsed_uri(built_uri(account, service, container, blob)) == Ok::<BlobUriModel, Seq<char>>(
            BlobUriModel {
                account,
                service,
                host: host_of(account, service, "core.windows.net"@),
                container,
                blob: match (container, blob) {
                    (Some(c), Some(b)) => if skip_leading(b, '/').len() == 0 {
                        None
                    } else {
                        Some(skip_leading(b, '/'))
                    },
                    _ => None,
                },
            },
        ),
{
    let uri = built_uri(account, service, container, blob);
    match container {
        None => {
            lemma_uri_pieces(account, service, None, uri);
            crate::text::lemma_split_once(Seq::empty(), '/');
        },
        Some(c) => match blob {
            None => {
                lemma_uri_pieces(account, service, Some(c), uri);
                crate::text::lemma_split_once(c, '/');
                if split_once(c, '/') is Some {
                    let (a, b) = split_once(c, '/')->0;
                    assert(c[a.len() as int] == '/');
                }
            },
            Some(b) => {
                let rest = skip_leading(b, '/');
                lemma_uri_pieces(account, service, Some(c.push('/') + rest), uri);
                crate::text::lemma_split_once_joined(c, rest, '/');
            },
        },
    }
}

/// A blob URL that was taken apart can be put together again from its parts, and the
/// result has the same parts on the host of the public cloud, if its container is not
/// the empty name and its blob has no slash in front.
pub proof fn law_rebuilt_uri_has_the_same_parts(uri: Seq<char>)
    requires
        parsed_uri(uri) is Ok,
        parsed_uri(uri)->Ok_0.container matches Some(c) ==> c.len() > 0,
        parsed_uri(uri)->Ok_0.blob matches Some(b) ==> b.first() != '/',
    ensures
        ({
            let parts = parsed_uri(uri)->Ok_0;
            parsed_uri(built_uri(parts.account, parts.service, parts.container, parts.blob)) == Ok::<
                BlobUriModel,
                Seq<char>,
            >(
                BlobUriModel {
                    host: host_of(parts.account, parts.service, "core.windows.net"@),
                    ..parts
                },
            )
        }),
{
    let parts = parsed_uri(uri)->Ok_0;
    lemma_parsed_uri_parts(uri);
    match parts.blob {
        Some(b) => {
            assert(skip_leading(b, '/') == b);
        },
        None => {},
    }
    law_parse_inverts_build(parts.account, parts.service, parts.container, parts.blob);
}

/// Parsing the answer of a build gives the parts that the build was asked for.
pub proof fn law_parse_of_a_build_answer(opts: JsonModel, account: Seq<char>)
    requires
        build_uri_answer(opts) is Ok,
        opts.filled_text_at("account"@) == Some(account),
        !account.contains('.'),
        !account.contains('/'),
        opts.filled_text_at("container"@) matches Some(c) ==> !c.contains('/'),
    ensures
        ({
            let service = filled_or(opts, "service"@, "blob"@);
            let container = opts.filled_text_at("container"@);
            let blob = opts.filled_text_at("blob"@);
            parse_uri_answer(build_uri_answer(opts)->Ok_0) == Ok::<JsonModel, Seq<char>>(
                uri_json(
                    BlobUriModel {
                        account,
                        service,
                        host: host_of(account, service, "core.windows.net"@),
                        container,
                        blob: match (container, blob) {
                            (Some(c), Some(b)) => if skip_leading(b, '/').len() == 0 {
                                None
                            } else {
                                Some(skip_leading(b, '/'))
                            },
                            _ => None,
                        },
                    },
                ),
            )
        }),
{
    broadcast use crate::json::lemma_get_with;

    law_parse_inverts_build(
        account,
        filled_or(opts, "service"@, "blob"@),
        opts.filled_text_at("container"@),
        opts.filled_text_at("blob"@),
    );
}

/// A blob URL in the form that a build gives from sound parts.
pub open spec fn canonical_uri(uri: Seq<char>) -> bool {
    exists|
        account: Seq<char>,
        service: Seq<char>,
        container: Option<Seq<char>>,
        blob: Option<Seq<char>>,
    |
        #[trigger] sound_uri(account, service, container, blob) && uri == built_uri(
            account,
            service,
            container,
            blob,
        )
}

/// A text unless it is empty or absent.
pub open spec fn unless_empty(s: Option<Seq<char>>) -> Option<Seq<char>> {
    match s {
        Some(s) => if s.len() == 0 {
            None
        } else {
            Some(s)
        },
        None => None,
    }
}

/// The keys that stand in one object are distinct.
proof fn lemma_uri_keys()
    ensures
        "account"@ != "service"@,
        "account"@ != "host"@,
        "account"@ != "container"@,
        "account"@ != "blob"@,
        "service"@ != "host"@,
        "service"@ != "container"@,
        "service"@ != "blob"@,
        "host"@ != "container"@,
        "host"@ != "blob"@,
        "container"@ != "blob"@,
{
    reveal_strlit("account");
    reveal_strlit("service");
    reveal_strlit("host");
    reveal_strlit("container");
    reveal_strlit("blob");
    assert("account"@.len() == 7);
    assert("service"@.len() == 7);
    assert("host"@.len() == 4);
    assert("container"@.len() == 9);
    assert("blob"@.len() == 4);
    assert("account"@[0] != "service"@[0]);
    assert("host"@[0] != "blob"@[0]);
}

proof fn lemma_skip_leading(s: Seq<char>, c: char)
    ensures
        skip_leading(s, c).len() > 0 ==> skip_leading(s, c).first() != c,
    decreases s.len(),
{
    if s.len() > 0 && s.first() == c {
        lemma_skip_leading(s.drop_first(), c);
    }
}

proof fn lemma_parsed_uri_parts(uri: Seq<char>)
    requires
        parsed_uri(uri) is Ok,
    ensures
        ({
            let parts = parsed_uri(uri)->Ok_0;
            &&& parts.account.len() > 0
            &&& !parts.account.contains('.')
            &&& !parts.account.contains('/')
            &&& storage_service(parts.service)
            &&& parts.container matches Some(c) ==> !c.contains('/')
            &&& parts.blob matches Some(b) ==> b.len() > 0 && parts.container is Some
        }),
{
    let parts = parsed_uri(uri)->Ok_0;
    let rest = without_scheme(uri)->0;
    crate::text::lemma_split_once(rest, '/');
    let (host, path) = match split_once(rest, '/') {
        Some((host, path)) => (host, path),
        None => (rest, Seq::empty()),
    };
    assert(!host.contains('/'));
    crate::text::lemma_split_pieces_free(host, '.');
    assert(!split_on(host, '.')[0].contains('.'));
    lemma_first_piece_free(host, '.', '/');
    crate::text::lemma_split_once(path, '/');
}

/// Building from the answer of a parse gives a blob URL of the same account, service,
/// container and blob. It is the URL that was parsed exactly if that one is canonical.
pub proof fn law_build_from_a_parse_answer(opts: JsonModel, uri: Seq<char>)
    requires
        opts.text_at("uri"@) == Some(uri),
        parsed_uri(uri) is Ok,
    ensures
        ({
            let parts = parsed_uri(uri)->Ok_0;
            let again = build_uri_answer(parse_uri_answer(opts)->Ok_0);
            &&& parse_uri_answer(opts) is Ok
            &&& again == Ok::<JsonModel, Seq<char>>(
                empty_object().with(
                    "uri"@,
                    JsonModel::Text(
                        built_uri(
                            parts.account,
                            parts.service,
                            unless_empty(parts.container),
                            parts.blob,
                        ),
                    ),
                ),
            )
            &&& again->Ok_0.text_at("uri"@) == Some(uri) <==> canonical_uri(uri)
        }),
{
    broadcast use crate::json::lemma_get_with;

    let parts = parsed_uri(uri)->Ok_0;
    let kept = unless_empty(parts.container);
    let again = built_uri(parts.account, parts.service, kept, parts.blob);
    lemma_uri_keys();
    lemma_parsed_uri_parts(uri);
    let answered = uri_json(parts);
    assert(filled_or(answered, "service"@, "blob"@) == parts.service) by {
        lemma_service_plain(parts.service);
    }
    assert(answered.filled_text_at("account"@) == Some(parts.account));
    assert(answered.filled_text_at("container"@) == kept);
    assert(answered.filled_text_at("blob"@) == parts.blob);
    if canonical_uri(uri) {
        let (account, service, container, blob) = choose|
            account: Seq<char>,
            service: Seq<char>,
            container: Option<Seq<char>>,
            blob: Option<Seq<char>>,
        |
            #[trigger] sound_uri(account, service, container, blob) && uri == built_uri(
                account,
                service,
                container,
                blob,
            );
        law_parse_inverts_build(account, service, container, blob);
        match blob {
            Some(b) => {
                assert(skip_leading(b, '/') == b);
            },
            None => {},
        }
        assert(again == uri);
    }
    if again == uri {
        law_parse_inverts_build(parts.account, parts.service, kept, parts.blob);
        match parts.blob {
            Some(b) => {
                lemma_skip_leading(b, '/');
            },
            None => {},
        }
        assert(sound_uri(parts.account, parts.service, kept, parts.blob));
    }
}

/// The keys that stand in one object are distinct.
proof fn lemma_endpoint_keys()
    ensures
        "endpoint"@ != "account"@,
        "endpoint"@ != "service"@,
        "endpoint"@ != "cloud"@,
        "endpoint"@ != "suffix"@,
        "endpoint"@ != "url"@,
        "account"@ != "service"@,
        "account"@ != "cloud"@,
        "account"@ != "suffix"@,
        "account"@ != "url"@,
        "service"@ != "cloud"@,
        "service"@ != "suffix"@,
        "service"@ != "url"@,
        "cloud"@ != "suffix"@,
        "cloud"@ != "url"@,
        "suffix"@ != "url"@,
{
    reveal_strlit("endpoint");
    reveal_strlit("account");
    reveal_strlit("service");
    reveal_strlit("cloud");
    reveal_strlit("suffix");
    reveal_strlit("url");
    assert("endpoint"@.len() == 8);
    assert("account"@.len() == 7);
    assert("service"@.len() == 7);
    assert("cloud"@.len() == 5);
    assert("suffix"@.len() == 6);
    assert("url"@.len() == 3);
    assert("account"@[0] != "service"@[0]);
}

/// Parsing the endpoint of an answer gives that endpoint, with the first name of its
/// cloud.
pub proof fn law_parse_of_an_endpoint_answer(opts: JsonModel, account: Seq<char>)
    requires
        make_endpoint_answer(opts) is Ok,
        opts.filled_text_at("account"@) == Some(account),
        plain_label(account),
    ensures
        ({
            let made = make_endpoint_answer(opts)->Ok_0;
            let back = parse_endpoint_answer(made);
            &&& back is Ok
            &&& back->Ok_0.text_at("endpoint"@) == made.text_at("endpoint"@)
            &&& back->Ok_0.text_at("account"@) == Some(account)
            &&& back->Ok_0.text_at("service"@) == made.text_at("service"@)
            &&& back->Ok_0.text_at("suffix"@) == made.text_at("suffix"@)
            &&& back->Ok_0.text_at("cloud"@) == cloud_of(made.text_at("suffix"@)->0)
        }),
{
    broadcast use crate::json::lemma_get_with;

    lemma_endpoint_keys();
    law_parse_inverts_make(
        account,
        filled_or(opts, "service"@, "blob"@),
        filled_or(opts, "cloud"@, "public"@),
    );
}

/// The answers are well-formed.
pub proof fn law_answers_are_well_formed(opts: JsonModel)
    ensures
        parse_uri_answer(opts) matches Ok(v) ==> well_formed(v),
        build_uri_answer(opts) matches Ok(v) ==> well_formed(v),
        make_endpoint_answer(opts) matches Ok(v) ==> well_formed(v),
        parse_endpoint_answer(opts) matches Ok(v) ==> well_formed(v),
{
    broadcast use {crate::json::lemma_get_with, crate::json::lemma_well_formed_with};

    lemma_uri_keys();
    lemma_endpoint_keys();
}

/// The names of the storage services.
pub open spec fn service_name(s: Seq<char>) -> bool {
    ||| s == "blob"@
    ||| s == "dfs"@
    ||| s == "queue"@
    ||| s == "table"@
    ||| s == "file"@
}

/// The public cloud, by any of its names in lower case, and its suffix.
pub open spec fn public_cloud(cloud: Seq<char>, suffix: Seq<char>) -> bool {
    (cloud == "public"@ || cloud == "azure"@ || cloud == "azurecloud"@) && suffix
        == "core.windows.net"@
}

/// The cloud of China, by any of its names in lower case, and its suffix.
pub open spec fn china_cloud(cloud: Seq<char>, suffix: Seq<char>) -> bool {
    (cloud == "china"@ || cloud == "azurechina"@ || cloud == "azurechinacloud"@) && suffix
        == "core.chinacloudapi.cn"@
}

/// The cloud of the US government, by any of its names in lower case, and its suffix.
pub open spec fn government_cloud(cloud: Seq<char>, suffix: Seq<char>) -> bool {
    (cloud == "usgov"@ || cloud == "usgovernment"@ || cloud == "azureusgovernment"@) && suffix
        == "core.usgovcloudapi.net"@
}

/// A cloud and its suffix.
pub open spec fn cloud_and_suffix(cloud: Seq<char>, suffix: Seq<char>) -> bool {
    public_cloud(cloud, suffix) || china_cloud(cloud, suffix) || government_cloud(cloud, suffix)
}

/// A text under a key, or a default where there is none or it is empty.
pub open spec fn text_or(opts: JsonModel, key: Seq<char>, default: Seq<char>) -> Seq<char> {
    match nonempty_text(opts, key) {
        Some(s) => s,
        None => default,
    }
}

/// An answer with the parts of an endpoint: its host is the account, the service and the
/// suffix with dots between them, and its URL is `https://` and the host.
pub open spec fn endpoint_members(
    v: JsonModel,
    account: Seq<char>,
    service: Seq<char>,
    cloud: Seq<char>,
    suffix: Seq<char>,
) -> bool {
    let host = account + seq!['.'] + service + seq!['.'] + suffix;
    &&& v->Object_0.len() == 6
    &&& v.get("account"@) == Some(JsonModel::Text(account))
    &&& v.get("service"@) == Some(JsonModel::Text(service))
    &&& v.get("cloud"@) == Some(JsonModel::Text(cloud))
    &&& v.get("suffix"@) == Some(JsonModel::Text(suffix))
    &&& v.get("endpoint"@) == Some(JsonModel::Text(host))
    &&& v.get("url"@) == Some(JsonModel::Text("https://"@ + host))
}

proof fn lemma_clouds_and_suffixes(cloud: Seq<char>, suffix: Seq<char>)
    ensures
        suffix_of(cloud) == Some(suffix) <==> cloud_and_suffix(cloud, suffix),
        cloud_of(suffix) == Some(cloud) ==> cloud_and_suffix(cloud, suffix),
        cloud_of(suffix) is Some ==> (cloud_of(suffix)->0 == "public"@ || cloud_of(suffix)->0
            == "china"@ || cloud_of(suffix)->0 == "usgov"@),
        cloud_of(suffix) is Some <==> suffix == "core.windows.net"@ || suffix
            == "core.chinacloudapi.cn"@ || suffix == "core.usgovcloudapi.net"@,
{
    lemma_clouds();
    reveal_strlit("usgovernment");
    reveal_strlit("azureusgovernment");
    reveal_strlit("public");
    reveal_strlit("azure");
    reveal_strlit("azurecloud");
    reveal_strlit("china");
    reveal_strlit("azurechina");
    reveal_strlit("azurechinacloud");
    reveal_strlit("usgov");
    assert("public"@[0] == 'p');
    assert("azure"@.len() == 5 && "azurecloud"@.len() == 10 && "azurechina"@.len() == 10);
    assert("azurechinacloud"@.len() == 15 && "azureusgovernment"@.len() == 17);
    assert("azurecloud"@[6] != "azurechina"@[6]);
    assert("azure"@[0] == 'a' && "azurecloud"@[0] == 'a' && "azurechina"@[0] == 'a');
    assert("azurechinacloud"@[0] == 'a' && "azureusgovernment"@[0] == 'a');
    assert("china"@[0] == 'c');
    assert("usgov"@[0] == 'u' && "usgovernment"@[0] == 'u');
}

proof fn lemma_host_text(account: Seq<char>, service: Seq<char>, suffix: Seq<char>)
    ensures
        host_of(account, service, suffix) == account + seq!['.'] + service + seq!['.'] + suffix,
{
    assert(host_of(account, service, suffix) =~= account + seq!['.'] + service + seq!['.']
        + suffix);
}

/// Making an endpoint: the account, the service and the cloud are those that were asked for,
/// with the Blob service and the public cloud as defaults, the suffix is that of the cloud,
/// and host and URL are made of them. An unknown service is reported before an unknown
/// cloud.
pub proof fn law_made_endpoint(opts: JsonModel, suffix: Seq<char>)
    ensures
        ({
            let account = nonempty_text(opts, "account"@);
            let service = text_or(opts, "service"@, "blob"@);
            let cloud = lower(text_or(opts, "cloud"@, "public"@));
            let answer = make_endpoint_answer(opts);
            &&& account is None ==> answer == Err::<JsonModel, Seq<char>>("missing "@ + "account"@)
            &&& account is Some && !service_name(service) ==> answer == Err::<JsonModel, Seq<char>>(
                "unknown storage service `"@ + service + "`"@,
            )
            &&& account is Some && service_name(service) && cloud_and_suffix(cloud, suffix)
                ==> answer is Ok && endpoint_members(
                answer->Ok_0,
                account->0,
                service,
                cloud,
                suffix,
            )
            &&& account is Some && service_name(service) && (forall|x: Seq<char>|
                !#[trigger] cloud_and_suffix(cloud, x)) ==> answer == Err::<JsonModel, Seq<char>>(
                "unknown cloud `"@ + cloud + "` (public/china/usgov)"@,
            )
        }),
{
    broadcast use crate::json::lemma_get_with;

    lemma_endpoint_keys();
    let account = nonempty_text(opts, "account"@);
    let service = text_or(opts, "service"@, "blob"@);
    let cloud = lower(text_or(opts, "cloud"@, "public"@));
    lemma_clouds_and_suffixes(cloud, suffix);
    if account is Some {
        lemma_host_text(account->0, service, suffix);
    }
    if suffix_of(cloud) is Some {
        lemma_clouds_and_suffixes(cloud, suffix_of(cloud)->0);
        assert(cloud_and_suffix(cloud, suffix_of(cloud)->0));
    }
}

/// The URL of an endpoint that was made is `https://` and its host, and both lead back to the
/// same account, service and suffix, if the account is a host label.
pub proof fn law_made_url_leads_back(opts: JsonModel, back: JsonModel, account: Seq<char>)
    requires
        make_endpoint_answer(opts) is Ok,
        has_text(opts, "account"@, account),
        !account.contains('.') && !account.contains('/') && !account.contains('?'),
        back.get("endpoint"@) == make_endpoint_answer(opts)->Ok_0.get("endpoint"@) || back.get(
            "endpoint"@,
        ) is None && back.get("url"@) == make_endpoint_answer(opts)->Ok_0.get("url"@),
    ensures
        ({
            let made = make_endpoint_answer(opts)->Ok_0;
            let read = parse_endpoint_answer(back);
            &&& made.text_at("url"@) == Some("https://"@ + made.text_at("endpoint"@)->0)
            &&& made.text_at("endpoint"@) is Some
            &&& read is Ok
            &&& read->Ok_0.get("account"@) == made.get("account"@)
            &&& read->Ok_0.get("service"@) == made.get("service"@)
            &&& read->Ok_0.get("suffix"@) == made.get("suffix"@)
            &&& read->Ok_0.get("endpoint"@) == made.get("endpoint"@)
            &&& read->Ok_0.get("url"@) == made.get("url"@)
        }),
{
    broadcast use crate::json::lemma_get_with;

    lemma_endpoint_keys();
    let service = filled_or(opts, "service"@, "blob"@);
    let cloud = filled_or(opts, "cloud"@, "public"@);
    let made = made_endpoint(account, service, cloud)->Ok_0;
    law_parse_inverts_make(account, service, cloud);
    let host = made.host();
    lemma_service_plain(service);
    law_cloud_names(lower(cloud));
    lemma_suffix_plain(made.suffix);
    lemma_host_free(account, service, made.suffix, '/');
    lemma_host_free(account, service, made.suffix, '?');
    lemma_host_part(host);
    crate::text::lemma_strip_prefix("https://"@, host);
    crate::text::lemma_split_free(host, '/');
    crate::text::lemma_split_free(host, '?');
    assert(host_part("https://"@ + host) == host);
}

/// A scheme that is left out of an endpoint.
pub open spec fn is_scheme(s: Seq<char>) -> bool {
    s == "https://"@ || s == "http://"@
}

/// Nothing, or what begins with a slash or a question mark.
pub open spec fn is_tail(s: Seq<char>) -> bool {
    s.len() > 0 ==> s[0] == '/' || s[0] == '?'
}

proof fn lemma_first_piece_of(a: Seq<char>, tail: Seq<char>, sep: char)
    requires
        !a.contains(sep),
    ensures
        split_on(a, sep).first() == a,
        split_on(a.push(sep) + tail, sep).first() == a,
{
    crate::text::lemma_split_free(a, sep);
    crate::text::lemma_split_concat(a, tail, sep);
    crate::text::lemma_split_some(tail, sep);
}

proof fn lemma_host_before_tail(host: Seq<char>, tail: Seq<char>)
    requires
        !host.contains('/'),
        !host.contains('?'),
        is_tail(tail),
    ensures
        split_on(split_on(host + tail, '/').first(), '?').first() == host,
{
    if tail.len() == 0 {
        assert(host + tail =~= host);
        lemma_first_piece_of(host, tail, '/');
        lemma_first_piece_of(host, tail, '?');
    } else if tail[0] == '/' {
        assert(host + tail =~= host.push('/') + tail.drop_first());
        lemma_first_piece_of(host, tail.drop_first(), '/');
        lemma_first_piece_of(host, tail, '?');
    } else {
        let after = tail.drop_first();
        assert(host + tail =~= host.push('?') + after);
        crate::text::lemma_split_once(after, '/');
        match split_once(after, '/') {
            None => {
                let all = host.push('?') + after;
                crate::text::lemma_contains_add(host.push('?'), after, '/');
                assert(!host.push('?').contains('/')) by {
                    if host.push('?').contains('/') {
                        let i = host.push('?').index_of('/');
                        assert(host[i] == '/');
                    }
                }
                lemma_first_piece_of(all, tail, '/');
                lemma_first_piece_of(host, after, '?');
            },
            Some((x, y)) => {
                let front = host.push('?') + x;
                crate::text::lemma_contains_add(host.push('?'), x, '/');
                assert(!host.push('?').contains('/')) by {
                    if host.push('?').contains('/') {
                        let i = host.push('?').index_of('/');
                        assert(host[i] == '/');
                    }
                }
                assert(host.push('?') + after =~= front.push('/') + y);
                lemma_first_piece_of(front, y, '/');
                lemma_first_piece_of(host, x, '?');
            },
        }
    }
}

proof fn lemma_https_and_http(rest: Seq<char>)
    ensures
        strip_prefix("http://"@ + rest, "https://"@) is None,
{
    reveal_strlit("https://");
    reveal_strlit("http://");
    let s = "http://"@ + rest;
    if "https://"@.is_prefix_of(s) {
        assert(s.subrange(0, "https://"@.len() as int)[4] == 's');
        assert(s[4] == ':');
    }
}

/// Parsing an endpoint reads its host: the scheme and all from the first slash or question
/// mark on are left out. The host must be an account, a service and the suffix of a cloud,
/// with dots between them; the first of these that is wrong is reported.
pub proof fn law_parsed_endpoint(
    opts: JsonModel,
    scheme: Seq<char>,
    host: Seq<char>,
    tail: Seq<char>,
    account: Seq<char>,
    rest: Seq<char>,
    service: Seq<char>,
    suffix: Seq<char>,
)
    requires
        has_text_or(opts, "endpoint"@, "url"@, scheme + host + tail),
        is_scheme(scheme) || scheme.len() == 0 && !"https://"@.is_prefix_of(host + tail)
            && !"http://"@.is_prefix_of(host + tail),
        !host.contains('/'),
        !host.contains('?'),
        is_tail(tail),
    ensures
        ({
            let answer = parse_endpoint_answer(opts);
            let split = host == account + seq!['.'] + rest && !account.contains('.');
            let parted = split && account.len() > 0 && rest == service + seq!['.'] + suffix
                && !service.contains('.');
            &&& !host.contains('.') ==> answer == Err::<JsonModel, Seq<char>>(
                "not a storage endpoint host `"@ + host + "`"@,
            )
            &&& split && account.len() == 0 ==> answer == Err::<JsonModel, Seq<char>>(
                "storage endpoint has no account: `"@ + host + "`"@,
            )
            &&& split && account.len() > 0 && !rest.contains('.') ==> answer == Err::<
                JsonModel,
                Seq<char>,
            >("not a storage endpoint host `"@ + host + "`"@)
            &&& parted && !service_name(service) ==> answer == Err::<JsonModel, Seq<char>>(
                "unknown storage service `"@ + service + "`"@,
            )
            &&& parted && service_name(service) && suffix == "core.windows.net"@ ==> answer is Ok
                && endpoint_members(answer->Ok_0, account, service, "public"@, suffix)
            &&& parted && service_name(service) && suffix == "core.chinacloudapi.cn"@ ==> answer
                is Ok && endpoint_members(answer->Ok_0, account, service, "china"@, suffix)
            &&& parted && service_name(service) && suffix == "core.usgovcloudapi.net"@ ==> answer
                is Ok && endpoint_members(answer->Ok_0, account, service, "usgov"@, suffix)
            &&& parted && service_name(service) && suffix != "core.windows.net"@ && suffix
                != "core.chinacloudapi.cn"@ && suffix != "core.usgovcloudapi.net"@ ==> answer
                == Err::<JsonModel, Seq<char>>("unknown storage suffix `"@ + suffix + "`"@)
        }),
{
    broadcast use crate::json::lemma_get_with;

    lemma_endpoint_keys();
    lemma_clouds();
    let raw = scheme + host + tail;
    assert(raw =~= scheme + (host + tail));
    if scheme == "https://"@ {
        crate::text::lemma_strip_prefix("https://"@, host + tail);
    } else if scheme == "http://"@ {
        crate::text::lemma_strip_prefix("http://"@, host + tail);
        lemma_https_and_http(host + tail);
    } else {
        assert(raw =~= host + tail);
    }
    lemma_host_before_tail(host, tail);
    assert(host_part(raw) == host);
    crate::text::lemma_split_once(host, '.');
    if split_once(host, '.') is Some {
        let (a, b) = split_once(host, '.')->0;
        assert(host[a.len() as int] == '.');
    }
    if host == account + seq!['.'] + rest && !account.contains('.') {
        assert(host =~= account.push('.') + rest);
        crate::text::lemma_split_once_joined(account, rest, '.');
        crate::text::lemma_split_once(rest, '.');
        if split_once(rest, '.') is Some {
            let (a, b) = split_once(rest, '.')->0;
            assert(rest[a.len() as int] == '.');
        }
        if rest == service + seq!['.'] + suffix && !service.contains('.') {
            assert(rest =~= service.push('.') + suffix);
            crate::text::lemma_split_once_joined(service, suffix, '.');
            lemma_host_text(account, service, suffix);
        }
    }
}

/// Without an endpoint to parse the option is reported as missing.
pub proof fn law_missing_endpoint(opts: JsonModel)
    requires
        lacks_text_or(opts, "endpoint"@, "url"@),
    ensures
        parse_endpoint_answer(opts) == Err::<JsonModel, Seq<char>>("missing "@ + "endpoint"@),
{
}

/// A text as a JSON value, or null where it is empty.
pub open spec fn text_or_null(s: Seq<char>) -> JsonModel {
    if s.len() == 0 {
        JsonModel::Null
    } else {
        JsonModel::Text(s)
    }
}

proof fn lemma_labels(account: Seq<char>, service: Seq<char>, more: Seq<char>)
    requires
        !account.contains('.'),
        !service.contains('.'),
    ensures
        ({
            let labels = split_on(account + seq!['.'] + service + seq!['.'] + more, '.');
            &&& labels.len() >= 3
            &&& labels[0] == account
            &&& labels[1] == service
        }),
{
    let host = account + seq!['.'] + service + seq!['.'] + more;
    assert(host =~= account.push('.') + (service.push('.') + more));
    crate::text::lemma_split_free(account, '.');
    crate::text::lemma_split_free(service, '.');
    crate::text::lemma_split_concat(account, service.push('.') + more, '.');
    crate::text::lemma_split_concat(service, more, '.');
    crate::text::lemma_split_some(more, '.');
}

proof fn lemma_two_labels(a: Seq<char>, b: Seq<char>)
    requires
        !a.contains('.'),
        !b.contains('.'),
    ensures
        split_on(a, '.').len() == 1,
        split_on(a.push('.') + b, '.').len() == 2,
{
    crate::text::lemma_split_free(a, '.');
    crate::text::lemma_split_free(b, '.');
    crate::text::lemma_split_concat(a, b, '.');
}

/// Parsing a blob URL reads its host: an account and a service, with a dot after each. An
/// address without these is refused.
pub proof fn law_parsed_uri_host(
    opts: JsonModel,
    scheme: Seq<char>,
    host: Seq<char>,
    path: Option<Seq<char>>,
    account: Seq<char>,
    service: Seq<char>,
    more: Seq<char>,
)
    requires
        has_text(
            opts,
            "uri"@,
            match path {
                Some(p) => scheme + host + seq!['/'] + p,
                None => scheme + host,
            },
        ),
        is_scheme(scheme),
        !host.contains('/'),
    ensures
        ({
            let answer = parse_uri_answer(opts);
            let parted = host == account + seq!['.'] + service + seq!['.'] + more
                && !account.contains('.') && !service.contains('.');
            let short = !host.contains('.') || host == account + seq!['.'] + more
                && !account.contains('.') && !more.contains('.');
            &&& short || parted && account.len() == 0 ==> answer == Err::<JsonModel, Seq<char>>(
                "not an Azure storage host: "@ + host,
            )
            &&& parted && account.len() > 0 && !service_name(service) ==> answer == Err::<
                JsonModel,
                Seq<char>,
            >("unknown storage service `"@ + service + "` in host "@ + host)
            &&& parted && account.len() > 0 && service_name(service) ==> {
                let v = answer->Ok_0;
                &&& answer is Ok
                &&& v->Object_0.len() == 5
                &&& v.get("account"@) == Some(JsonModel::Text(account))
                &&& v.get("service"@) == Some(JsonModel::Text(service))
                &&& v.get("host"@) == Some(JsonModel::Text(host))
            }
        }),
{
    broadcast use crate::json::lemma_get_with;

    lemma_uri_keys();
    lemma_rest_of_uri(scheme, host, path);
    if host == account + seq!['.'] + service + seq!['.'] + more && !account.contains('.')
        && !service.contains('.') {
        lemma_labels(account, service, more);
    }
    if !host.contains('.') {
        crate::text::lemma_split_free(host, '.');
    } else if host == account + seq!['.'] + more && !account.contains('.') && !more.contains('.') {
        assert(host =~= account.push('.') + more);
        lemma_two_labels(account, more);
    }
}

proof fn lemma_rest_of_uri(scheme: Seq<char>, host: Seq<char>, path: Option<Seq<char>>)
    requires
        is_scheme(scheme),
        !host.contains('/'),
    ensures
        ({
            let uri = match path {
                Some(p) => scheme + host + seq!['/'] + p,
                None => scheme + host,
            };
            &&& without_scheme(uri) is Some
            &&& path matches Some(p) ==> split_once(without_scheme(uri)->0, '/') == Some((host, p))
            &&& path is None ==> without_scheme(uri)->0 == host && split_once(host, '/') is None
        }),
{
    let rest = match path {
        Some(p) => host.push('/') + p,
        None => host,
    };
    let uri = match path {
        Some(p) => scheme + host + seq!['/'] + p,
        None => scheme + host,
    };
    assert(uri =~= scheme + rest);
    crate::text::lemma_strip_prefix(scheme, rest);
    if scheme == "http://"@ {
        lemma_https_and_http(rest);
    }
    match path {
        Some(p) => {
            crate::text::lemma_split_once_joined(host, p, '/');
        },
        None => {
            crate::text::lemma_split_once(host, '/');
            if split_once(host, '/') is Some {
                let (a, b) = split_once(host, '/')->0;
                assert(host[a.len() as int] == '/');
            }
        },
    }
}

/// The path of a blob URL: up to its first slash it names the container, and all after that
/// names the blob. What is empty is not named.
pub proof fn law_parsed_uri_path(
    opts: JsonModel,
    scheme: Seq<char>,
    host: Seq<char>,
    path: Option<Seq<char>>,
    container: Seq<char>,
    blob: Seq<char>,
)
    requires
        has_text(
            opts,
            "uri"@,
            match path {
                Some(p) => scheme + host + seq!['/'] + p,
                None => scheme + host,
            },
        ),
        is_scheme(scheme),
        !host.contains('/'),
    ensures
        parse_uri_answer(opts) matches Ok(v) ==> {
            &&& path is None ==> v.get("container"@) == Some(JsonModel::Null) && v.get("blob"@)
                == Some(JsonModel::Null)
            &&& path is Some && !path->0.contains('/') ==> v.get("container"@) == Some(
                text_or_null(path->0),
            ) && v.get("blob"@) == Some(JsonModel::Null)
            &&& path == Some(container + seq!['/'] + blob) && !container.contains('/') ==> v.get(
                "container"@,
            ) == Some(JsonModel::Text(container)) && v.get("blob"@) == Some(text_or_null(blob))
        },
{
    broadcast use crate::json::lemma_get_with;

    lemma_uri_keys();
    lemma_rest_of_uri(scheme, host, path);
    let p = match path {
        Some(p) => p,
        None => Seq::empty(),
    };
    crate::text::lemma_split_once(p, '/');
    if split_once(p, '/') is Some {
        let (a, b) = split_once(p, '/')->0;
        assert(p[a.len() as int] == '/');
    }
    if p == container + seq!['/'] + blob && !container.contains('/') {
        assert(p =~= container.push('/') + blob);
        crate::text::lemma_split_once_joined(container, blob, '/');
    }
}

/// An address that is neither `http` nor `https` is refused, and so is a request without
/// one.
pub proof fn law_refused_uris(opts: JsonModel, uri: Seq<char>)
    ensures
        lacks_text(opts, "uri"@) ==> parse_uri_answer(opts) == Err::<JsonModel, Seq<char>>(
            "missing "@ + "uri"@,
        ),
        has_text(opts, "uri"@, uri) && !"https://"@.is_prefix_of(uri) && !"http://"@.is_prefix_of(
            uri,
        ) ==> parse_uri_answer(opts) == Err::<JsonModel, Seq<char>>(
            "not an http(s) blob URL: "@ + uri,
        ),
{
}

proof fn lemma_skip_slashes(slashes: Seq<char>, rest: Seq<char>)
    requires
        forall|i: int| 0 <= i < slashes.len() ==> #[trigger] slashes[i] == '/',
        rest.len() > 0 ==> rest[0] != '/',
    ensures
        skip_leading(slashes + rest, '/') == rest,
    decreases slashes.len(),
{
    if slashes.len() == 0 {
        assert(slashes + rest =~= rest);
    } else {
        assert(slashes[0] == '/');
        assert((slashes + rest).drop_first() =~= slashes.drop_first() + rest);
        assert forall|i: int| 0 <= i < slashes.drop_first().len() implies #[trigger]
            slashes.drop_first()[i] == '/' by {
            assert(slashes[i + 1] == '/');
        }
        lemma_skip_slashes(slashes.drop_first(), rest);
    }
}

/// Building a blob URL: `https://`, the account, the service and the public suffix with dots
/// between them, and then the container and the blob, each after a slash. A blob without a
/// container is left out, and so are the slashes that its name begins with.
pub proof fn law_built_uri(opts: JsonModel, slashes: Seq<char>, name: Seq<char>)
    ensures
        ({
            let account = nonempty_text(opts, "account"@);
            let service = text_or(opts, "service"@, "blob"@);
            let container = nonempty_text(opts, "container"@);
            let blob = nonempty_text(opts, "blob"@);
            let answer = build_uri_answer(opts);
            let uri = answer->Ok_0.text_at("uri"@);
            let base = "https://"@ + account->0 + seq!['.'] + service + ".core.windows.net"@;
            let slashed = blob == Some(slashes + name) && (forall|i: int|
                0 <= i < slashes.len() ==> #[trigger] slashes[i] == '/') && (name.len() > 0
                ==> name[0] != '/');
            &&& account is None ==> answer == Err::<JsonModel, Seq<char>>("missing "@ + "account"@)
            &&& account is Some && !service_name(service) ==> answer == Err::<JsonModel, Seq<char>>(
                "unknown storage service `"@ + service + "`"@,
            )
            &&& account is Some && service_name(service) ==> {
                &&& answer is Ok
                &&& answer->Ok_0->Object_0.len() == 1
                &&& container is None ==> uri == Some(base)
                &&& container is Some && blob is None ==>
                    uri == Some(base + seq!['/'] + container->0)
                &&& container is Some && slashed ==> uri == Some(
                    base + seq!['/'] + container->0 + seq!['/'] + name,
                )
            }
        }),
{
    broadcast use crate::json::lemma_get_with;

    let account = nonempty_text(opts, "account"@);
    let service = text_or(opts, "service"@, "blob"@);
    let container = nonempty_text(opts, "container"@);
    let blob = nonempty_text(opts, "blob"@);
    if account is Some && service_name(service) {
        let base = "https://"@ + account->0 + seq!['.'] + service + ".core.windows.net"@;
        lemma_public_suffix();
        assert("https://"@ + host_of(account->0, service, "core.windows.net"@) =~= base);
        if container is Some && blob == Some(slashes + name) && (forall|i: int|
            0 <= i < slashes.len() ==> #[trigger] slashes[i] == '/') && (name.len() > 0 ==> name[0]
            != '/') {
            lemma_skip_slashes(slashes, name);
            assert(base.push('/') + (container->0.push('/') + name) =~= base + seq!['/']
                + container->0 + seq!['/'] + name);
        } else if container is Some && blob is None {
            assert(base.push('/') + container->0 =~= base + seq!['/'] + container->0);
        }
    }
}

proof fn lemma_public_suffix()
    ensures
        ".core.windows.net"@ == seq!['.'] + "core.windows.net"@,
{
    reveal_strlit(".core.windows.net");
    reveal_strlit("core.windows.net");
    assert(".core.windows.net"@ =~= seq!['.'] + "core.windows.net"@);
}

/// The parts of a URL and of an endpoint, each by its name.
pub proof fn law_storage_parts(uri: BlobUri, endpoint: Endpoint)
    ensures
        uri@.account == uri.account@,
        uri@.service == uri.service@,
        uri@.host == uri.host@,
        uri@.container == opt_text(uri.container),
        uri@.blob == opt_text(uri.blob),
        endpoint@.account == endpoint.account@,
        endpoint@.service == endpoint.service@,
        endpoint@.cloud == endpoint.cloud@,
        endpoint@.suffix == endpoint.suffix@,
{
}

/// The names of the services, the names of the clouds and their suffixes are these and no
/// others, letter by letter.
pub proof fn law_known_names(s: Seq<char>, cloud: Seq<char>, suffix: Seq<char>)
    ensures
        storage_service(s) <==> service_name(s),
        suffix_of(cloud) == Some(suffix) <==> cloud_and_suffix(cloud, suffix),
        suffix_of(cloud) is None <==> forall|x: Seq<char>| !#[trigger] cloud_and_suffix(cloud, x),
        suffix == "core.windows.net"@ ==> cloud_of(suffix) == Some("public"@),
        suffix == "core.chinacloudapi.cn"@ ==> cloud_of(suffix) == Some("china"@),
        suffix == "core.usgovcloudapi.net"@ ==> cloud_of(suffix) == Some("usgov"@),
        suffix != "core.windows.net"@ && suffix != "core.chinacloudapi.cn"@ && suffix
            != "core.usgovcloudapi.net"@ ==> cloud_of(suffix) is None,
{
    lemma_clouds();
    lemma_clouds_and_suffixes(cloud, suffix);
    if suffix_of(cloud) is Some {
        lemma_clouds_and_suffixes(cloud, suffix_of(cloud)->0);
        assert(cloud_and_suffix(cloud, suffix_of(cloud)->0));
    }
    assert forall|x: Seq<char>| #[trigger] cloud_and_suffix(cloud, x) implies suffix_of(cloud)
        == Some(x) by {
        lemma_clouds_and_suffixes(cloud, x);
    }
}

/// Making an endpoint keeps the account and the service as they are and puts the cloud in
/// lower case. A service that does not exist is reported before a cloud that does not.
pub proof fn law_made_parts(
    account: Seq<char>,
    service: Seq<char>,
    cloud: Seq<char>,
    suffix: Seq<char>,
)
    ensures
        ({
            let made = made_endpoint(account, service, cloud);
            let named = lower(cloud);
            &&& !service_name(service) ==> made == Err::<EndpointModel, Seq<char>>(
                "unknown storage service `"@ + service + "`"@,
            )
            &&& service_name(service) && cloud_and_suffix(named, suffix) ==> {
                &&& made is Ok
                &&& made->Ok_0.account == account
                &&& made->Ok_0.service == service
                &&& made->Ok_0.cloud == named
                &&& made->Ok_0.suffix == suffix
                &&& made->Ok_0.host() == account + seq!['.'] + service + seq!['.'] + suffix
            }
            &&& service_name(service) && (forall|x: Seq<char>|
                !#[trigger] cloud_and_suffix(named, x)) ==> made == Err::<EndpointModel, Seq<char>>(
                "unknown cloud `"@ + named + "` (public/china/usgov)"@,
            )
        }),
{
    law_known_names(service, lower(cloud), suffix);
    lemma_host_text(account, service, suffix);
}

/// A URL that is built of any parts: the account, the service and the public suffix, and
/// then the container and the blob as far as they are given.
pub proof fn law_built_of_parts(
    account: Seq<char>,
    service: Seq<char>,
    container: Seq<char>,
    slashes: Seq<char>,
    name: Seq<char>,
)
    requires
        forall|i: int| 0 <= i < slashes.len() ==> #[trigger] slashes[i] == '/',
        name.len() > 0 ==> name[0] != '/',
    ensures
        ({
            let base = "https://"@ + account + seq!['.'] + service + ".core.windows.net"@;
            let blob = slashes + name;
            &&& built_uri(account, service, None, None) == base
            &&& built_uri(account, service, None, Some(blob)) == base
            &&& built_uri(account, service, Some(container), None) == base + seq!['/'] + container
            &&& built_uri(account, service, Some(container), Some(blob)) == base + seq!['/']
                + container + seq!['/'] + name
        }),
{
    let base = "https://"@ + account + seq!['.'] + service + ".core.windows.net"@;
    lemma_public_suffix();
    assert("https://"@ + host_of(account, service, "core.windows.net"@) =~= base);
    lemma_skip_slashes(slashes, name);
    assert(base.push('/') + (container.push('/') + name) =~= base + seq!['/'] + container
        + seq!['/'] + name);
    assert(base.push('/') + container =~= base + seq!['/'] + container);
}

} // verus!
