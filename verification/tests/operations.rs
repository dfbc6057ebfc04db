use stryke_azure::bridge::{azure__pkg_version, input, reply, Ended};
use stryke_azure::connection_string::{op_build_connection_string, op_parse_connection_string};
use stryke_azure::endpoints::{blob_service_url, cosmos_endpoint, queue_service_url, vault_url};
use stryke_azure::error::Error;
use stryke_azure::guid::{op_format_guid, op_normalize_guid, op_valid_guid};
use stryke_azure::json::{Json, Number};
use stryke_azure::names::{
    op_valid_container_name, op_valid_cosmos_id, op_valid_queue_name,
    op_valid_storage_account_name, op_valid_table_name,
};
use stryke_azure::resource_id::{op_build_resource_id, op_parse_resource_id};
use stryke_azure::storage::{
    op_build_blob_uri, op_parse_blob_uri, op_parse_storage_endpoint, op_storage_endpoint,
};

/// A value of serde_json as a value of the library.
fn convert(v: &serde_json::Value) -> Json {
    match v {
        serde_json::Value::Null => Json::Null,
        serde_json::Value::Bool(b) => Json::Bool(*b),
        serde_json::Value::Number(n) => Json::Number(match (n.as_u64(), n.as_i64()) {
            (Some(u), _) => Number::Unsigned(u),
            (None, Some(i)) => Number::Signed(i),
            (None, None) => Number::Float(n.to_string()),
        }),
        serde_json::Value::String(s) => Json::Text(s.clone()),
        serde_json::Value::Array(list) => Json::Array(list.iter().map(convert).collect()),
        serde_json::Value::Object(map) => {
            Json::Object(map.iter().map(|(k, v)| (k.clone(), convert(v))).collect())
        }
    }
}

/// The document, where the text is one.
fn read(text: &str) -> Option<Json> {
    match serde_json::from_str::<serde_json::Value>(text) {
        Ok(v) => Some(convert(&v)),
        Err(_) => None,
    }
}

/// The value that a JSON text stands for.
fn json(text: &str) -> Json {
    read(text).unwrap()
}

/// The member of an object.
fn at<'a>(v: &'a Json, key: &str) -> &'a Json {
    v.get(key).unwrap()
}

/// An object with one text.
fn one(key: &str, value: &str) -> Json {
    Json::empty().with(key, Json::text(value))
}

#[test]
fn blob_url_from_account() {
    let u = blob_service_url(&json(r#"{ "account": "acme" }"#), None).unwrap();
    assert_eq!(u.as_str(), "https://acme.blob.core.windows.net/");
}

#[test]
fn blob_url_explicit_endpoint_wins() {
    let u = blob_service_url(
        &json(
            r#"{
            "account": "ignored",
            "endpoint": "https://custom.blob.core.windows.net/"
        }"#,
        ),
        None,
    )
    .unwrap();
    assert_eq!(u.as_str(), "https://custom.blob.core.windows.net/");
}

#[test]
fn queue_url_from_account() {
    let u = queue_service_url(&json(r#"{ "account": "acme" }"#), None).unwrap();
    assert_eq!(u.as_str(), "https://acme.queue.core.windows.net/");
}

#[test]
fn cosmos_endpoint_from_account() {
    let e = cosmos_endpoint(&json(r#"{ "account": "acme" }"#), None).unwrap();
    assert_eq!(e, "https://acme.documents.azure.com:443/");
}

#[test]
fn vault_url_from_name_and_explicit() {
    assert_eq!(
        vault_url(&json(r#"{ "vault": "kv1" }"#), None).unwrap(),
        "https://kv1.vault.azure.net/"
    );
    assert_eq!(
        vault_url(&json(r#"{ "vault_url": "https://kv2.vault.azure.net/" }"#), None).unwrap(),
        "https://kv2.vault.azure.net/"
    );
}

#[test]
fn missing_account_errors() {
    // No `account` and no setting in the environment: a clear error.
    assert!(blob_service_url(&json("{}"), None).is_err());
}

#[test]
fn null_args_returns_version_not_segfault() {
    let v = azure__pkg_version(None, "0.1.0");
    assert_eq!(at(&v, "version"), &Json::text("0.1.0"));
    assert!(v.get("error").is_none());
}

#[test]
fn invalid_json_args_coerced_to_null_not_crash() {
    let garbage = read("this is not json {[ ");
    assert!(garbage.is_none());
    let v = azure__pkg_version(garbage, "0.1.0");
    assert_eq!(at(&v, "version"), &Json::text("0.1.0"));
    assert!(v.get("error").is_none());
    assert_eq!(input(read("this is not json {[ ")), Json::Null);
}

#[test]
fn handler_panic_is_caught_and_returned_as_error_json() {
    let v = reply(Ended::Panicked);
    assert_eq!(at(&v, "error"), &Json::text("stryke-azure handler panicked"));
}

#[test]
fn handler_err_maps_to_error_key_verbatim() {
    let v = reply(Ended::Failed(Error::new("missing container")));
    assert_eq!(at(&v, "error"), &Json::text("missing container"));
    assert!(at(&v, "error").as_str().is_some());
}

#[test]
fn args_are_parsed_and_threaded_to_handler_intact() {
    let doc = read(r#"{"region":"eu-wést-1","nested":{"n":42}}"#);
    let v = reply(Ended::Answered(input(doc)));
    assert_eq!(at(&v, "region"), &Json::text("eu-wést-1"));
    assert_eq!(at(at(&v, "nested"), "n"), &Json::count(42));
    assert!(v.get("error").is_none());
}

#[test]
fn parse_resource_id_full_path() {
    let v = op_parse_resource_id(json(
        r#"{
            "id": "/subscriptions/abc-123/resourceGroups/my-rg/providers/Microsoft.Storage/storageAccounts/mystore"
        }"#,
    ))
    .unwrap();
    assert_eq!(at(&v, "subscription"), &Json::text("abc-123"));
    assert_eq!(at(&v, "resource_group"), &Json::text("my-rg"));
    assert_eq!(at(&v, "provider"), &Json::text("Microsoft.Storage"));
    assert_eq!(at(&v, "resource_type"), &Json::text("storageAccounts"));
    assert_eq!(at(&v, "name"), &Json::text("mystore"));
}

#[test]
fn parse_resource_id_nested_type_takes_last_pair() {
    let v = op_parse_resource_id(json(
        r#"{
            "id": "/subscriptions/s/resourceGroups/rg/providers/Microsoft.Storage/storageAccounts/acct/blobServices/default"
        }"#,
    ))
    .unwrap();
    let types = at(&v, "types").as_array().unwrap();
    assert_eq!(types.len(), 2, "two type/name pairs");
    assert_eq!(
        at(&v, "resource_type"),
        &Json::text("blobServices"),
        "last pair is the resource"
    );
    assert_eq!(at(&v, "name"), &Json::text("default"));
}

#[test]
fn build_resource_id_inverts_parse_resource_id() {
    // Full path emits canonical ARM casing.
    let v = op_build_resource_id(json(
        r#"{
            "subscription": "abc-123",
            "resource_group": "my-rg",
            "provider": "Microsoft.Storage",
            "types": [{"type": "storageAccounts", "name": "mystore"}]
        }"#,
    ))
    .unwrap();
    let id = at(&v, "id").as_str().unwrap().to_string();
    assert_eq!(
        id,
        "/subscriptions/abc-123/resourceGroups/my-rg/providers/Microsoft.Storage/storageAccounts/mystore"
    );
    // Round-trips through parse_resource_id, including a nested tail.
    let nested = "/subscriptions/s/resourceGroups/rg/providers/Microsoft.Storage/storageAccounts/acct/blobServices/default";
    let p = op_parse_resource_id(one("id", nested)).unwrap();
    let rebuilt = op_build_resource_id(
        Json::empty()
            .with("subscription", at(&p, "subscription").copy())
            .with("resource_group", at(&p, "resource_group").copy())
            .with("provider", at(&p, "provider").copy())
            .with("types", at(&p, "types").copy()),
    )
    .unwrap();
    assert_eq!(at(&rebuilt, "id"), &Json::text(nested));
    // Subscription-only id is valid (no provider/types).
    assert_eq!(
        at(&op_build_resource_id(json(r#"{"subscription": "s"}"#)).unwrap(), "id"),
        &Json::text("/subscriptions/s")
    );
    // types without a provider is an error; empty input is an error.
    assert!(op_build_resource_id(json(r#"{"types": [{"type": "x", "name": "y"}]}"#)).is_err());
    assert!(op_build_resource_id(json("{}")).is_err());
}

#[test]
fn parse_connection_string_keeps_base64_account_key() {
    let v = op_parse_connection_string(json(
        r#"{
            "connection_string": "DefaultEndpointsProtocol=https;AccountName=mystore;AccountKey=Zm9vYmFyYmF6==;EndpointSuffix=core.windows.net"
        }"#,
    ))
    .unwrap();
    let pairs = at(&v, "pairs");
    assert_eq!(at(pairs, "AccountName"), &Json::text("mystore"));
    assert_eq!(
        at(pairs, "AccountKey"),
        &Json::text("Zm9vYmFyYmF6=="),
        "value keeps everything after the first = (base64 padding survives)"
    );
    assert_eq!(at(pairs, "EndpointSuffix"), &Json::text("core.windows.net"));
    assert!(
        op_parse_connection_string(json(r#"{"connection_string": "no-equals-here"}"#)).is_err()
    );
}

#[test]
fn build_connection_string_inverts_parse_connection_string() {
    // Round-trips byte-identically: base64 `==` and key order both survive.
    let cs = "DefaultEndpointsProtocol=https;AccountName=mystore;AccountKey=Zm9vYmFyYmF6==;EndpointSuffix=core.windows.net";
    let parsed = op_parse_connection_string(one("connection_string", cs)).unwrap();
    assert_eq!(
        at(
            &op_build_connection_string(Json::empty().with("pairs", at(&parsed, "pairs").copy()))
                .unwrap(),
            "connection_string"
        ),
        &Json::text(cs),
        "parse → build is byte-identical"
    );
    // Number / bool values stringify without JSON quoting.
    assert_eq!(
        at(
            &op_build_connection_string(json(r#"{"pairs": {"Port": 443, "Secure": true}}"#))
                .unwrap(),
            "connection_string"
        ),
        &Json::text("Port=443;Secure=true")
    );
    // Reject `;` in a value, `=`/`;` in a key, and an empty map.
    assert!(op_build_connection_string(json(r#"{"pairs": {"K": "a;b"}}"#)).is_err());
    assert!(op_build_connection_string(json(r#"{"pairs": {"bad=key": "v"}}"#)).is_err());
    assert!(op_build_connection_string(json(r#"{"pairs": {}}"#)).is_err());
}

#[test]
fn parse_blob_uri_splits_account_container_and_nested_blob() {
    let v = op_parse_blob_uri(json(
        r#"{
            "uri": "https://mystore.blob.core.windows.net/images/2025/cat.png"
        }"#,
    ))
    .unwrap();
    assert_eq!(at(&v, "account"), &Json::text("mystore"));
    assert_eq!(at(&v, "service"), &Json::text("blob"));
    assert_eq!(at(&v, "container"), &Json::text("images"));
    assert_eq!(at(&v, "blob"), &Json::text("2025/cat.png"), "nested path kept in blob");
    // ADLS Gen2 dfs endpoint, container only (no blob).
    let dfs = op_parse_blob_uri(json(
        r#"{
            "uri": "https://lake.dfs.core.windows.net/fs"
        }"#,
    ))
    .unwrap();
    assert_eq!(at(&dfs, "service"), &Json::text("dfs"));
    assert_eq!(at(&dfs, "container"), &Json::text("fs"));
    assert_eq!(at(&dfs, "blob"), &Json::Null, "container-only URL has null blob");
    // Account endpoint with no container.
    let bare = op_parse_blob_uri(json(
        r#"{
            "uri": "https://acct.blob.core.windows.net/"
        }"#,
    ))
    .unwrap();
    assert_eq!(at(&bare, "container"), &Json::Null);
    // Non-https and unknown service rejected.
    assert!(op_parse_blob_uri(json(r#"{"uri": "gs://x/y"}"#)).is_err());
    assert!(op_parse_blob_uri(json(
        r#"{
            "uri": "https://acct.bogus.core.windows.net/c"
        }"#
    ))
    .is_err());
}

#[test]
fn build_blob_uri_inverts_parse_blob_uri() {
    // Full account/container/nested-blob round-trips through parse.
    let built = op_build_blob_uri(json(
        r#"{
            "account": "mystore", "container": "images", "blob": "2025/cat.png"
        }"#,
    ))
    .unwrap();
    assert_eq!(
        at(&built, "uri"),
        &Json::text("https://mystore.blob.core.windows.net/images/2025/cat.png")
    );
    let back = op_parse_blob_uri(Json::empty().with("uri", at(&built, "uri").copy())).unwrap();
    assert_eq!(at(&back, "account"), &Json::text("mystore"));
    assert_eq!(at(&back, "container"), &Json::text("images"));
    assert_eq!(at(&back, "blob"), &Json::text("2025/cat.png"));
    // Service defaults to blob; dfs honored.
    assert_eq!(
        at(
            &op_build_blob_uri(json(
                r#"{"account": "lake", "service": "dfs", "container": "fs"}"#
            ))
            .unwrap(),
            "uri"
        ),
        &Json::text("https://lake.dfs.core.windows.net/fs")
    );
    // Account only → bare endpoint; blob ignored without a container.
    assert_eq!(
        at(&op_build_blob_uri(json(r#"{"account": "acct"}"#)).unwrap(), "uri"),
        &Json::text("https://acct.blob.core.windows.net")
    );
    assert_eq!(
        at(&op_build_blob_uri(json(r#"{"account": "acct", "blob": "x"}"#)).unwrap(), "uri"),
        &Json::text("https://acct.blob.core.windows.net"),
        "blob without container is dropped"
    );
    // Missing account and unknown service rejected.
    assert!(op_build_blob_uri(json(r#"{"container": "c"}"#)).is_err());
    assert!(op_build_blob_uri(json(r#"{"account": "a", "service": "bogus"}"#)).is_err());
}

#[test]
fn storage_endpoint_supports_sovereign_clouds() {
    // Public cloud default.
    let v = op_storage_endpoint(json(r#"{"account": "mystore"}"#)).unwrap();
    assert_eq!(at(&v, "endpoint"), &Json::text("mystore.blob.core.windows.net"));
    assert_eq!(at(&v, "url"), &Json::text("https://mystore.blob.core.windows.net"));
    assert_eq!(at(&v, "cloud"), &Json::text("public"));
    // Per-service.
    assert_eq!(
        at(
            &op_storage_endpoint(json(r#"{"account": "acct", "service": "queue"}"#)).unwrap(),
            "endpoint"
        ),
        &Json::text("acct.queue.core.windows.net")
    );
    // China + US Gov suffixes — the differentiator vs build_blob_uri.
    assert_eq!(
        at(
            &op_storage_endpoint(json(r#"{"account": "acct", "cloud": "china"}"#)).unwrap(),
            "endpoint"
        ),
        &Json::text("acct.blob.core.chinacloudapi.cn")
    );
    assert_eq!(
        at(
            &op_storage_endpoint(json(
                r#"{"account": "acct", "service": "table", "cloud": "usgov"}"#
            ))
            .unwrap(),
            "endpoint"
        ),
        &Json::text("acct.table.core.usgovcloudapi.net")
    );
    // Cloud aliases are case-insensitive.
    assert_eq!(
        at(
            &op_storage_endpoint(json(r#"{"account": "a", "cloud": "AzureChinaCloud"}"#)).unwrap(),
            "suffix"
        ),
        &Json::text("core.chinacloudapi.cn")
    );
    // Missing account, unknown service/cloud rejected.
    assert!(op_storage_endpoint(json("{}")).is_err());
    assert!(op_storage_endpoint(json(r#"{"account": "a", "service": "bogus"}"#)).is_err());
    assert!(op_storage_endpoint(json(r#"{"account": "a", "cloud": "mars"}"#)).is_err());
}

#[test]
fn parse_storage_endpoint_inverts_storage_endpoint() {
    // Bare host: every part recovered, suffix mapped to its canonical cloud.
    let v =
        op_parse_storage_endpoint(json(r#"{"endpoint": "mystore.blob.core.windows.net"}"#)).unwrap();
    assert_eq!(at(&v, "account"), &Json::text("mystore"));
    assert_eq!(at(&v, "service"), &Json::text("blob"));
    assert_eq!(at(&v, "cloud"), &Json::text("public"));
    assert_eq!(at(&v, "suffix"), &Json::text("core.windows.net"));
    assert_eq!(at(&v, "url"), &Json::text("https://mystore.blob.core.windows.net"));
    // A full URL with a path resolves to the same host.
    assert_eq!(
        at(
            &op_parse_storage_endpoint(json(
                r#"{"url": "https://acct.queue.core.windows.net/q/messages"}"#
            ))
            .unwrap(),
            "service"
        ),
        &Json::text("queue")
    );
    // Sovereign clouds map back to their canonical names.
    assert_eq!(
        at(
            &op_parse_storage_endpoint(json(
                r#"{"endpoint": "acct.table.core.usgovcloudapi.net"}"#
            ))
            .unwrap(),
            "cloud"
        ),
        &Json::text("usgov")
    );
    assert_eq!(
        at(
            &op_parse_storage_endpoint(json(r#"{"endpoint": "acct.blob.core.chinacloudapi.cn"}"#))
                .unwrap(),
            "cloud"
        ),
        &Json::text("china")
    );
    // Round-trips storage_endpoint for every service × cloud.
    for (service, cloud) in [
        ("blob", "public"),
        ("queue", "china"),
        ("table", "usgov"),
        ("dfs", "public"),
        ("file", "public"),
    ] {
        let built = op_storage_endpoint(
            one("account", "acct")
                .with("service", Json::text(service))
                .with("cloud", Json::text(cloud)),
        )
        .unwrap();
        let p = op_parse_storage_endpoint(one(
            "endpoint",
            at(&built, "endpoint").as_str().unwrap(),
        ))
        .unwrap();
        assert_eq!(at(&p, "account"), &Json::text("acct"));
        assert_eq!(
            at(&p, "service"),
            &Json::text(service),
            "service round-trip {service}/{cloud}"
        );
        assert_eq!(
            at(&p, "cloud"),
            &Json::text(cloud),
            "cloud round-trip {service}/{cloud}"
        );
    }
    // Errors: not a storage host, unknown service, unknown suffix, missing.
    assert!(op_parse_storage_endpoint(json(r#"{"endpoint": "acct"}"#)).is_err());
    assert!(
        op_parse_storage_endpoint(json(r#"{"endpoint": "acct.bogus.core.windows.net"}"#)).is_err()
    );
    assert!(op_parse_storage_endpoint(json(r#"{"endpoint": "acct.blob.example.com"}"#)).is_err());
    assert!(op_parse_storage_endpoint(json("{}")).is_err());
}

#[test]
fn valid_storage_account_name_rules() {
    assert_eq!(
        at(&op_valid_storage_account_name(one("name", "mystore123")).unwrap(), "valid"),
        &Json::Bool(true)
    );
    for (name, want) in [("ab", "3-24"), ("My-Store", "lowercase letters and numbers")] {
        let v = op_valid_storage_account_name(one("name", name)).unwrap();
        assert_eq!(at(&v, "valid"), &Json::Bool(false), "{name}");
        assert!(at(&v, "reason").as_str().unwrap().contains(want), "{name}");
    }
}

#[test]
fn valid_container_name_rules() {
    assert_eq!(
        at(&op_valid_container_name(one("name", "my-logs-2025")).unwrap(), "valid"),
        &Json::Bool(true)
    );
    for (name, want) in [
        ("ab", "3-63"),
        ("Bad", "lowercase"),
        ("a--b", "consecutive hyphens"),
        ("bad-", "end with a hyphen"),
    ] {
        let v = op_valid_container_name(one("name", name)).unwrap();
        assert_eq!(at(&v, "valid"), &Json::Bool(false), "{name}");
        assert!(at(&v, "reason").as_str().unwrap().contains(want), "{name}");
    }
}

#[test]
fn valid_queue_name_shares_container_grammar() {
    // Queue names use the same DNS-label rule as containers.
    for name in ["my-queue-1", "orders", "abc"] {
        assert_eq!(
            at(&op_valid_queue_name(one("name", name)).unwrap(), "valid"),
            &Json::Bool(true),
            "{name}"
        );
        // Identical verdict to the container validator.
        assert_eq!(
            op_valid_queue_name(one("name", name)).unwrap(),
            op_valid_container_name(one("name", name)).unwrap(),
            "{name}"
        );
    }
    for (name, want) in [
        ("ab", "3-63"),
        ("Queue", "lowercase"),
        ("-lead", "start with a letter or number"),
        ("a--b", "consecutive hyphens"),
        ("trail-", "end with a hyphen"),
    ] {
        let v = op_valid_queue_name(one("name", name)).unwrap();
        assert_eq!(at(&v, "valid"), &Json::Bool(false), "{name}");
        assert!(at(&v, "reason").as_str().unwrap().contains(want), "{name}");
    }
    assert!(op_valid_queue_name(json("{}")).is_err());
}

#[test]
fn valid_table_name_matches_documented_regex() {
    let chk = |n: &str| op_valid_table_name(one("name", n)).unwrap();
    // Alphanumeric, letter-start, case preserved; min/max boundaries.
    for ok in ["MyTable", "abc", "Logs2025", &format!("a{}", "b".repeat(62))] {
        assert_eq!(at(&chk(ok), "valid"), &Json::Bool(true), "`{ok}` should be valid");
    }
    // Invalid by each rule, with a reason naming it.
    for (name, want) in [
        ("ab", "3-63"),
        (&"a".repeat(64), "3-63"),
        ("1table", "begin with a letter"),
        ("my-table", "alphanumeric"),
        ("my_table", "alphanumeric"),
        ("tables", "reserved"),
        ("TABLES", "reserved"),
    ] {
        let v = chk(name);
        assert_eq!(at(&v, "valid"), &Json::Bool(false), "`{name}` should be invalid");
        assert!(
            at(&v, "reason").as_str().unwrap().contains(want),
            "`{name}`: the reason should mention `{want}`"
        );
    }
    // A name that merely contains "tables" is fine.
    assert_eq!(at(&chk("tablesx"), "valid"), &Json::Bool(true));
    assert!(op_valid_table_name(json("{}")).is_err());
}

#[test]
fn valid_cosmos_id_enforces_length_and_forbidden_slashes() {
    let chk = |id: &str| op_valid_cosmos_id(one("id", id)).unwrap();
    // Valid: ordinary names, including ones with chars Table Storage forbids
    // (hyphens, dots) but Cosmos allows.
    assert_eq!(at(&chk("my-database"), "valid"), &Json::Bool(true));
    assert_eq!(at(&chk("Orders.2025_v2"), "valid"), &Json::Bool(true));
    assert_eq!(at(&chk("a"), "valid"), &Json::Bool(true), "single char is fine");
    assert_eq!(at(&chk(&"a".repeat(255)), "valid"), &Json::Bool(true));
    // 256 chars is too long.
    let long = chk(&"a".repeat(256));
    assert_eq!(at(&long, "valid"), &Json::Bool(false));
    assert!(at(&long, "reason").as_str().unwrap().contains("255"));
    // The two forbidden characters.
    let fwd = chk("a/b");
    assert_eq!(at(&fwd, "valid"), &Json::Bool(false));
    assert!(at(&fwd, "reason").as_str().unwrap().contains("/"));
    assert_eq!(at(&chk("a\\b"), "valid"), &Json::Bool(false));
    // Empty rejected; `name` is an alias for `id`.
    assert_eq!(at(&chk(""), "valid"), &Json::Bool(false));
    assert_eq!(
        at(&op_valid_cosmos_id(one("name", "Inventory")).unwrap(), "valid"),
        &Json::Bool(true)
    );
    assert!(op_valid_cosmos_id(json("{}")).is_err());
}

#[test]
fn valid_guid_enforces_8_4_4_4_12_hex() {
    let ok = |g: &str| at(&op_valid_guid(one("guid", g)).unwrap(), "valid") == &Json::Bool(true);
    // A real subscription-style GUID, and uppercase hex.
    assert!(ok("3f2504e0-4f89-41d3-9a0c-0305e82c3301"));
    assert!(ok("3F2504E0-4F89-41D3-9A0C-0305E82C3301"), "hex is case-insensitive");
    // Wrong length, wrong grouping, non-hex, and braces all reject.
    for (g, want) in [
        ("3f2504e0-4f89-41d3-9a0c-0305e82c330", "36 characters"),
        ("3f2504e04f8941d39a0c0305e82c3301xxxx", "8-4-4-4-12"),
        ("3g2504e0-4f89-41d3-9a0c-0305e82c3301", "hexadecimal"),
        ("{3f2504e0-4f89-41d3-9a0c-0305e82c3301}", "36 characters"),
    ] {
        let v = op_valid_guid(one("guid", g)).unwrap();
        assert_eq!(at(&v, "valid"), &Json::Bool(false), "{g} should be invalid");
        assert!(
            at(&v, "reason").as_str().unwrap().contains(want),
            "{g}: the reason should mention `{want}`"
        );
    }
    assert!(op_valid_guid(json("{}")).is_err());
}

#[test]
fn normalize_guid_canonicalizes_azure_formats() {
    let canon = "3f2504e0-4f89-41d3-9a0c-0305e82c3301";
    let norm = |g: &str| {
        at(&op_normalize_guid(one("guid", g)).unwrap(), "guid")
            .as_str()
            .unwrap()
            .to_string()
    };
    // Already canonical, uppercase, braces, parens, and hyphenless all map
    // to the same lowercase 8-4-4-4-12 form.
    assert_eq!(norm(canon), canon);
    assert_eq!(norm("3F2504E0-4F89-41D3-9A0C-0305E82C3301"), canon);
    assert_eq!(norm("{3f2504e0-4f89-41d3-9a0c-0305e82c3301}"), canon);
    assert_eq!(norm("(3F2504E0-4F89-41D3-9A0C-0305E82C3301)"), canon);
    assert_eq!(norm("3f2504e04f8941d39a0c0305e82c3301"), canon);
    assert_eq!(norm("  3f2504e0-4f89-41d3-9a0c-0305e82c3301  "), canon);
    // The output validates under valid_guid.
    assert_eq!(
        at(
            &op_valid_guid(one("guid", &norm("3f2504e04f8941d39a0c0305e82c3301"))).unwrap(),
            "valid"
        ),
        &Json::Bool(true)
    );
    // Too few/many hex digits, or non-hex, error.
    assert!(op_normalize_guid(one("guid", "3f2504e0")).is_err());
    assert!(op_normalize_guid(one("guid", "3g2504e04f8941d39a0c0305e82c3301")).is_err());
    assert!(op_normalize_guid(json("{}")).is_err());
}

#[test]
fn format_guid_emits_dotnet_specifiers() {
    let canon = "3f2504e0-4f89-41d3-9a0c-0305e82c3301";
    let fmt = |g: &str, f: &str| {
        at(
            &op_format_guid(one("guid", g).with("format", Json::text(f))).unwrap(),
            "guid",
        )
        .as_str()
        .unwrap()
        .to_string()
    };
    // The four punctuation forms, output lowercase like .NET.
    assert_eq!(fmt(canon, "N"), "3f2504e04f8941d39a0c0305e82c3301");
    assert_eq!(fmt(canon, "D"), canon);
    assert_eq!(fmt(canon, "B"), format!("{{{canon}}}"));
    assert_eq!(fmt(canon, "P"), format!("({canon})"));
    // The specifier is case-insensitive and any input format is accepted.
    assert_eq!(fmt("3F2504E04F8941D39A0C0305E82C3301", "b"), format!("{{{canon}}}"));
    // Default format is D.
    assert_eq!(
        at(&op_format_guid(one("guid", canon)).unwrap(), "guid"),
        &Json::text(canon)
    );
    // normalize_guid is exactly format_guid in the D form.
    assert_eq!(
        fmt("{3f2504e0-4f89-41d3-9a0c-0305e82c3301}", "D"),
        at(&op_normalize_guid(one("guid", canon)).unwrap(), "guid")
            .as_str()
            .unwrap()
    );
    // Bad format and bad GUID error.
    assert!(op_format_guid(one("guid", canon).with("format", Json::text("X"))).is_err());
    assert!(op_format_guid(one("guid", "nope").with("format", Json::text("N"))).is_err());
    assert!(op_format_guid(json("{}")).is_err());
}
