use stryke_azure::bridge::{
    azure__build_blob_uri, azure__build_connection_string, azure__build_resource_id,
    azure__format_guid, azure__normalize_guid, azure__parse_blob_uri,
    azure__parse_connection_string, azure__parse_resource_id, azure__parse_storage_endpoint,
    azure__storage_endpoint, azure__valid_container_name, azure__valid_cosmos_id,
    azure__valid_guid, azure__valid_queue_name, azure__valid_storage_account_name,
    azure__valid_table_name, reply_with, written,
};
use stryke_azure::connection_string::{op_build_connection_string, op_parse_connection_string};
use stryke_azure::error::Error;
use stryke_azure::guid::{
    guid_hex, guid_hyphenate, op_format_guid, op_normalize_guid, op_valid_guid,
};
use stryke_azure::json::{Json, Number};
use stryke_azure::names::{
    dns_label_reason, op_valid_container_name, op_valid_cosmos_id, op_valid_storage_account_name,
    op_valid_table_name,
};
use stryke_azure::resource_id::{op_build_resource_id, op_parse_resource_id};
use stryke_azure::storage::{
    cloud_for_suffix, is_storage_service, op_build_blob_uri, op_parse_blob_uri,
    op_parse_storage_endpoint, op_storage_endpoint, storage_suffix_of,
};

/// A value of serde_json as a value of the library.
fn convert(v: &serde_json::Value) -> Json {
    match v {
        serde_json::Value::Null => Json::Null,
        serde_json::Value::Bool(b) => Json::Bool(*b),
        serde_json::Value::Number(n) => Json::Number(match (n.as_u64(), n.as_i64()) {
            (Some(u), _) => Number::Unsigned(u),
            (None, Some(i)) => Number::Signed(i),
            (None, None) => Number::Float(n.to_string()),
        }),
        serde_json::Value::String(s) => Json::Text(s.clone()),
        serde_json::Value::Array(list) => Json::Array(list.iter().map(convert).collect()),
        serde_json::Value::Object(map) => {
            Json::Object(map.iter().map(|(k, v)| (k.clone(), convert(v))).collect())
        }
    }
}

/// The document, where the text is one.
fn read(text: &str) -> Option<Json> {
    match serde_json::from_str::<serde_json::Value>(text) {
        Ok(v) => Some(convert(&v)),
        Err(_) => None,
    }
}

/// The value that a JSON text stands for.
fn json(text: &str) -> Json {
    read(text).unwrap()
}

/// The member of an object.
fn at<'a>(v: &'a Json, key: &str) -> &'a Json {
    v.get(key).unwrap()
}

/// An object with one text.
fn one(key: &str, value: &str) -> Json {
    Json::empty().with(key, Json::text(value))
}

/// The message of the error that an operation gives.
fn message(r: Result<Json, Error>) -> String {
    match r {
        Ok(v) => panic!("answered {v:?}"),
        Err(e) => e.message,
    }
}

#[test]
fn resource_id_errors() {
    assert_eq!(message(op_parse_resource_id(json("{}"))), "missing id");
    assert_eq!(message(op_parse_resource_id(json(r#"{"id": 7}"#))), "missing id");
    // A first key that holds no text hides the alias.
    assert_eq!(
        message(op_parse_resource_id(json(r#"{"id": null, "resource_id": "/a"}"#))),
        "missing id"
    );
    assert_eq!(message(op_parse_resource_id(one("id", ""))), "empty resource id");
    assert_eq!(message(op_parse_resource_id(one("id", "///"))), "empty resource id");
    assert_eq!(message(op_build_resource_id(json("{}"))), "no resource id parts supplied");
    assert_eq!(message(op_build_resource_id(Json::Null)), "no resource id parts supplied");
    assert_eq!(
        message(op_build_resource_id(json(r#"{"types": [{"type": "x"}]}"#))),
        "provider required when types is non-empty"
    );
    assert_eq!(
        message(op_build_resource_id(json(
            r#"{"provider": "p", "types": [{"type": "x"}, {"name": "n"}]}"#
        ))),
        "type entry missing `type`"
    );
    assert_eq!(
        message(op_build_resource_id(json(r#"{"provider": "p", "types": ["x"]}"#))),
        "type entry missing `type`"
    );
    // Only the last type may have no name.
    for types in [
        r#"[{"type": "a"}, {"type": "b", "name": "n"}]"#,
        r#"[{"type": "a", "name": ""}, {"type": "b"}]"#,
        r#"[{"type": "a", "name": "n"}, {"type": "b", "name": 1}, {"type": "c"}]"#,
    ] {
        assert_eq!(
            message(op_build_resource_id(json(&format!(
                "{{\"provider\": \"P\", \"types\": {types}}}"
            )))),
            "only the last type entry may omit `name`"
        );
    }
    // A missing type is reported first.
    assert_eq!(
        message(op_build_resource_id(json(
            r#"{"provider": "p", "types": [{"type": "x"}, {"name": "n"}, {"type": "y"}]}"#
        ))),
        "type entry missing `type`"
    );
}

#[test]
fn resource_id_partial_paths() {
    let v = op_parse_resource_id(one("resource_id", "SUBSCRIPTIONS/s/extra/providers/P/t")).unwrap();
    assert_eq!(
        v,
        json(
            r#"{"subscription": "s", "resource_group": null, "provider": "P",
                "types": [{"type": "t", "name": null}], "resource_type": "t", "name": null}"#
        )
    );
    // A keyword at the end names nothing.
    let v = op_parse_resource_id(one("id", "/subscriptions")).unwrap();
    assert_eq!(
        v,
        json(
            r#"{"subscription": null, "resource_group": null, "provider": null,
                "types": [], "resource_type": null, "name": null}"#
        )
    );
    // After the provider everything is a type or a name.
    let v = op_parse_resource_id(one("id", "/providers/P/subscriptions/s")).unwrap();
    assert_eq!(at(&v, "subscription"), &Json::Null);
    assert_eq!(at(&v, "resource_type"), &Json::text("subscriptions"));
    assert_eq!(at(&v, "name"), &Json::text("s"));
}

#[test]
fn resource_id_building_skips_what_is_empty() {
    let v = op_build_resource_id(json(
        r#"{"subscription": "", "resource_group": "rg", "provider": "P", "types": []}"#,
    ))
    .unwrap();
    assert_eq!(at(&v, "id"), &Json::text("/resourceGroups/rg/providers/P"));
    let v = op_build_resource_id(json(
        r#"{"provider": "P", "types": [{"type": "a", "name": "n"}, {"type": "b", "name": ""}]}"#,
    ))
    .unwrap();
    assert_eq!(at(&v, "id"), &Json::text("/providers/P/a/n/b"));
}

#[test]
fn connection_string_errors() {
    assert_eq!(message(op_parse_connection_string(json("{}"))), "missing connection_string");
    assert_eq!(
        message(op_parse_connection_string(one("dsn", "A=1; no ;B=2"))),
        "malformed pair (no `=`): no"
    );
    assert_eq!(message(op_parse_connection_string(one("dsn", " ; ;"))), "empty connection string");
    assert_eq!(message(op_build_connection_string(json("{}"))), "missing pairs (object)");
    assert_eq!(
        message(op_build_connection_string(json(r#"{"pairs": []}"#))),
        "missing pairs (object)"
    );
    assert_eq!(
        message(op_build_connection_string(json(r#"{"pairs": {}}"#))),
        "pairs must not be empty"
    );
    assert_eq!(
        message(op_build_connection_string(json(r#"{"pairs": {"a;b": 1}}"#))),
        "invalid key `a;b` (non-empty, no `=` or `;`)"
    );
    assert_eq!(
        message(op_build_connection_string(json(r#"{"pairs": {"": 1}}"#))),
        "invalid key `` (non-empty, no `=` or `;`)"
    );
    assert_eq!(
        message(op_build_connection_string(json(r#"{"pairs": {"k": null}}"#))),
        "value for `k` must be a string, number, or bool"
    );
    assert_eq!(
        message(op_build_connection_string(json(r#"{"pairs": {"k": "a;b"}}"#))),
        "value for `k` must not contain `;`"
    );
    // The first member at fault decides.
    assert_eq!(
        message(op_build_connection_string(json(r#"{"pairs": {"k": [], "=": 1}}"#))),
        "value for `k` must be a string, number, or bool"
    );
}

#[test]
fn connection_string_pairs() {
    // Spaces around a key are dropped; a value keeps all that follows the first `=`.
    let v = op_parse_connection_string(one("connection_string", "A=x ;B=y")).unwrap();
    assert_eq!(v, json(r#"{"pairs": {"A": "x ", "B": "y"}}"#));
    let v = op_parse_connection_string(one("dsn", " A = 1 ; ;B==x= ; A=2")).unwrap();
    assert_eq!(v, json(r#"{"pairs": {"A": "2", "B": "=x= "}}"#));
    let v = op_parse_connection_string(one("dsn", "A= 1\n")).unwrap();
    assert_eq!(v, json(r#"{"pairs": {"A": " 1\n"}}"#));
    // Numbers are written as they are.
    let v = op_build_connection_string(json(
        r#"{"pairs": {"a": -12, "b": 18446744073709551615, "c": 1.5, "d": false, "e": ""}}"#,
    ))
    .unwrap();
    assert_eq!(
        at(&v, "connection_string"),
        &Json::text("a=-12;b=18446744073709551615;c=1.5;d=false;e=")
    );
}

#[test]
fn blob_uri_errors() {
    assert_eq!(message(op_parse_blob_uri(json("{}"))), "missing uri");
    assert_eq!(
        message(op_parse_blob_uri(one("uri", "gs://x/y"))),
        "not an http(s) blob URL: gs://x/y"
    );
    assert_eq!(
        message(op_parse_blob_uri(one("uri", "https://a.blob/c"))),
        "not an Azure storage host: a.blob"
    );
    assert_eq!(
        message(op_parse_blob_uri(one("uri", "http://.blob.x"))),
        "not an Azure storage host: .blob.x"
    );
    assert_eq!(
        message(op_parse_blob_uri(one("uri", "https://a.bogus.core.windows.net/c"))),
        "unknown storage service `bogus` in host a.bogus.core.windows.net"
    );
    assert_eq!(message(op_build_blob_uri(one("account", ""))), "missing account");
    assert_eq!(
        message(op_build_blob_uri(json(r#"{"account": "a", "service": "web"}"#))),
        "unknown storage service `web`"
    );
}

#[test]
fn blob_uri_parts() {
    assert_eq!(
        op_parse_blob_uri(one("uri", "http://a.file.example/c/")).unwrap(),
        json(
            r#"{"account": "a", "service": "file", "host": "a.file.example",
                "container": "c", "blob": null}"#
        )
    );
    assert_eq!(
        op_parse_blob_uri(one("uri", "https://a.table.x//b")).unwrap(),
        json(
            r#"{"account": "a", "service": "table", "host": "a.table.x",
                "container": "", "blob": "b"}"#
        )
    );
    let v = op_build_blob_uri(json(
        r#"{"account": "a", "service": "", "container": "c", "blob": "//x/y"}"#,
    ))
    .unwrap();
    assert_eq!(v, one("uri", "https://a.blob.core.windows.net/c/x/y"));
}

#[test]
fn storage_endpoint_errors() {
    assert_eq!(message(op_storage_endpoint(json("{}"))), "missing account");
    assert_eq!(
        message(op_storage_endpoint(json(r#"{"account": "a", "service": "x"}"#))),
        "unknown storage service `x`"
    );
    assert_eq!(
        message(op_storage_endpoint(json(r#"{"account": "a", "cloud": "Mars"}"#))),
        "unknown cloud `mars` (public/china/usgov)"
    );
    assert_eq!(message(op_parse_storage_endpoint(json("{}"))), "missing endpoint");
    assert_eq!(
        message(op_parse_storage_endpoint(one("endpoint", "https://acct/x.y"))),
        "not a storage endpoint host `acct`"
    );
    assert_eq!(
        message(op_parse_storage_endpoint(one("endpoint", ".blob.core.windows.net"))),
        "storage endpoint has no account: `.blob.core.windows.net`"
    );
    assert_eq!(
        message(op_parse_storage_endpoint(one("endpoint", "acct.blob"))),
        "not a storage endpoint host `acct.blob`"
    );
    assert_eq!(
        message(op_parse_storage_endpoint(one("endpoint", "acct.web.core.windows.net"))),
        "unknown storage service `web`"
    );
    assert_eq!(
        message(op_parse_storage_endpoint(one("endpoint", "acct.blob.example.com"))),
        "unknown storage suffix `example.com`"
    );
}

#[test]
fn storage_endpoint_parts() {
    assert_eq!(
        op_parse_storage_endpoint(one("url", "http://a.dfs.core.chinacloudapi.cn?x=/y")).unwrap(),
        json(
            r#"{"endpoint": "a.dfs.core.chinacloudapi.cn", "account": "a", "service": "dfs",
                "cloud": "china", "suffix": "core.chinacloudapi.cn",
                "url": "https://a.dfs.core.chinacloudapi.cn"}"#
        )
    );
    assert_eq!(
        op_storage_endpoint(json(r#"{"account": "a", "cloud": "AZURE"}"#)).unwrap(),
        json(
            r#"{"account": "a", "service": "blob", "cloud": "azure", "suffix": "core.windows.net",
                "endpoint": "a.blob.core.windows.net", "url": "https://a.blob.core.windows.net"}"#
        )
    );
    for (cloud, suffix) in [
        ("public", "core.windows.net"),
        ("azure", "core.windows.net"),
        ("azurecloud", "core.windows.net"),
        ("china", "core.chinacloudapi.cn"),
        ("azurechina", "core.chinacloudapi.cn"),
        ("azurechinacloud", "core.chinacloudapi.cn"),
        ("usgov", "core.usgovcloudapi.net"),
        ("usgovernment", "core.usgovcloudapi.net"),
        ("azureusgovernment", "core.usgovcloudapi.net"),
    ] {
        assert_eq!(storage_suffix_of(cloud), Some(suffix));
    }
    assert_eq!(storage_suffix_of("Public"), None);
    assert_eq!(cloud_for_suffix("core.windows.net"), Some("public"));
    assert_eq!(cloud_for_suffix("core.chinacloudapi.cn"), Some("china"));
    assert_eq!(cloud_for_suffix("core.usgovcloudapi.net"), Some("usgov"));
    assert_eq!(cloud_for_suffix("windows.net"), None);
    for service in ["blob", "dfs", "queue", "table", "file"] {
        assert!(is_storage_service(service));
    }
    assert!(!is_storage_service("Blob"));
    assert!(!is_storage_service(""));
}

#[test]
fn name_verdicts() {
    assert_eq!(message(op_valid_storage_account_name(json("{}"))), "missing name");
    assert_eq!(message(op_valid_container_name(json("{}"))), "missing name");
    assert_eq!(message(op_valid_table_name(json("{}"))), "missing name");
    assert_eq!(message(op_valid_cosmos_id(json("{}"))), "missing id");
    assert_eq!(
        op_valid_storage_account_name(one("name", "abc")).unwrap(),
        json(r#"{"name": "abc", "valid": true, "reason": null}"#)
    );
    assert_eq!(
        op_valid_storage_account_name(one("name", "abcdefghijklmnopqrstuvwxy")).unwrap(),
        json(
            r#"{"name": "abcdefghijklmnopqrstuvwxy", "valid": false,
                "reason": "must be 3-24 characters"}"#
        )
    );
    assert_eq!(
        op_valid_storage_account_name(one("name", "a_b")).unwrap(),
        json(
            r#"{"name": "a_b", "valid": false, "reason": "only lowercase letters and numbers"}"#
        )
    );
    for (name, reason) in [
        ("ab", Some("must be 3-63 characters")),
        ("a_b", Some("only lowercase letters, numbers, and hyphens")),
        ("-ab", Some("must start with a letter or number")),
        ("a--", Some("must not contain consecutive hyphens")),
        ("ab-", Some("must not end with a hyphen")),
        ("1-2", None),
    ] {
        assert_eq!(dns_label_reason(name), reason);
    }
    assert_eq!(dns_label_reason(&"a".repeat(63)), None);
    assert_eq!(dns_label_reason(&"a".repeat(64)), Some("must be 3-63 characters"));
    for (name, reason) in [
        ("é1", "must begin with a letter"),
        ("aé", "only alphanumeric characters (no hyphens or underscores)"),
        ("Tables", "`tables` is a reserved table name"),
    ] {
        let v = op_valid_table_name(one("name", name)).unwrap();
        assert_eq!(at(&v, "reason"), &Json::text(reason));
    }
    for (id, reason) in [
        ("", "must not be empty"),
        ("a\\b", "must not contain `/` or `\\`"),
    ] {
        assert_eq!(
            op_valid_cosmos_id(one("id", id)).unwrap(),
            one("id", id).with("valid", Json::Bool(false)).with("reason", Json::text(reason))
        );
    }
    // An id is measured in characters.
    let v = op_valid_cosmos_id(one("id", &"é".repeat(255))).unwrap();
    assert_eq!(at(&v, "valid"), &Json::Bool(true));
    let v = op_valid_cosmos_id(one("id", &"é".repeat(256))).unwrap();
    assert_eq!(at(&v, "reason"), &Json::text("must be at most 255 characters"));
}

#[test]
fn guid_errors_and_forms() {
    let canon = "3f2504e0-4f89-41d3-9a0c-0305e82c3301";
    assert_eq!(message(op_valid_guid(json("{}"))), "missing guid");
    assert_eq!(message(op_normalize_guid(json("{}"))), "missing guid");
    assert_eq!(message(op_format_guid(json("{}"))), "missing guid");
    assert_eq!(
        message(op_normalize_guid(one("id", "{nope)"))),
        "not a GUID `{nope)` (need 32 hexadecimal digits)"
    );
    assert_eq!(
        message(op_format_guid(one("guid", canon).with("format", Json::text("x")))),
        "unsupported GUID format `X` (want N, D, B, or P)"
    );
    // A bad GUID is reported before a bad format.
    assert_eq!(
        message(op_format_guid(one("guid", "1").with("format", Json::text("x")))),
        "not a GUID `1` (need 32 hexadecimal digits)"
    );
    assert_eq!(
        op_format_guid(one("id", "3F2504E0-4F89-41D3-9A0C-0305E82C3301").with(
            "format",
            Json::text("p")
        ))
        .unwrap(),
        json(
            r#"{"input": "3F2504E0-4F89-41D3-9A0C-0305E82C3301", "format": "P",
                "guid": "(3f2504e0-4f89-41d3-9a0c-0305e82c3301)"}"#
        )
    );
    assert_eq!(
        op_normalize_guid(one("guid", "3f2504e04f8941d39a0c0305e82c3301")).unwrap(),
        one("input", "3f2504e04f8941d39a0c0305e82c3301").with("guid", Json::text(canon))
    );
    // Hyphens may stand anywhere; one pair of brackets is dropped.
    assert_eq!(guid_hex("-3f2504e04f8941d39a0c0305e82c33-01").unwrap(), canon.replace('-', ""));
    assert!(guid_hex("{{3f2504e04f8941d39a0c0305e82c3301}}").is_err());
    assert!(guid_hex("{3f2504e04f8941d39a0c0305e82c3301)").is_err());
    assert_eq!(guid_hyphenate("3f2504e04f8941d39a0c0305e82c3301"), canon);
    for (guid, reason) in [
        ("", "must be 36 characters (8-4-4-4-12)"),
        (
            "3f2504e04-f89-41d3-9a0c-0305e82c3301",
            "must be five hyphen-separated groups of 8-4-4-4-12",
        ),
        ("3f2504e0-4f89-41d3-9a0c-0305e82c330é", "must be 36 characters (8-4-4-4-12)"),
        ("3f2504e0-4f89-41d3-9a0c-0305e82c33é", "must contain only hexadecimal digits"),
    ] {
        let v = op_valid_guid(one("id", guid)).unwrap();
        assert_eq!(at(&v, "reason"), &Json::text(reason), "{guid}");
    }
}

#[test]
fn replies_of_the_calls() {
    assert_eq!(azure__parse_resource_id(None), one("error", "missing id"));
    assert_eq!(azure__build_resource_id(None), one("error", "no resource id parts supplied"));
    assert_eq!(azure__parse_connection_string(None), one("error", "missing connection_string"));
    assert_eq!(azure__build_connection_string(None), one("error", "missing pairs (object)"));
    assert_eq!(azure__parse_blob_uri(None), one("error", "missing uri"));
    assert_eq!(azure__build_blob_uri(None), one("error", "missing account"));
    assert_eq!(azure__storage_endpoint(None), one("error", "missing account"));
    assert_eq!(azure__parse_storage_endpoint(None), one("error", "missing endpoint"));
    assert_eq!(azure__valid_storage_account_name(None), one("error", "missing name"));
    assert_eq!(azure__valid_container_name(None), one("error", "missing name"));
    assert_eq!(azure__valid_queue_name(None), one("error", "missing name"));
    assert_eq!(azure__valid_table_name(None), one("error", "missing name"));
    assert_eq!(azure__valid_cosmos_id(None), one("error", "missing id"));
    assert_eq!(azure__valid_guid(None), one("error", "missing guid"));
    assert_eq!(azure__normalize_guid(None), one("error", "missing guid"));
    assert_eq!(azure__format_guid(None), one("error", "missing guid"));
    let v = azure__valid_queue_name(read(r#"{"name": "orders"}"#));
    assert_eq!(v, json(r#"{"name": "orders", "valid": true, "reason": null}"#));
    assert_eq!(reply_with(Ok(Json::Null)), Json::Null);
    assert_eq!(written(Some("x".to_string())), "x");
    assert_eq!(written(None), r#"{"error":"serialize"}"#);
}
