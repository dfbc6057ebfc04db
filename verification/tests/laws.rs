use stryke_azure::bridge::{
    azure__build_connection_string, azure__normalize_guid, azure__parse_blob_uri,
    azure__parse_connection_string, azure__parse_resource_id, azure__parse_storage_endpoint,
};
use stryke_azure::connection_string::{op_build_connection_string, op_parse_connection_string};
use stryke_azure::guid::{format_guid, guid_hex, guid_reason, normalize_guid, op_normalize_guid};
use stryke_azure::json::{Json, Number};
use stryke_azure::names::{
    account_name_reason, cosmos_id_reason, dns_label_reason, table_name_reason,
};
use stryke_azure::resource_id::{op_build_resource_id, op_parse_resource_id};
use stryke_azure::storage::{
    cloud_for_suffix, op_build_blob_uri, op_parse_blob_uri, op_parse_storage_endpoint,
    op_storage_endpoint, storage_suffix_of,
};
use stryke_azure::text::{
    after_prefix, begins_with, decimal_text, has_char, once_split, pieces_of, replaced,
    signed_decimal_text, to_lower, to_upper, trimmed, white, without_leading,
};

/// A value of serde_json as a value of the library.
fn convert(v: &serde_json::Value) -> Json {
    match v {
        serde_json::Value::Null => Json::Null,
        serde_json::Value::Bool(b) => Json::Bool(*b),
        serde_json::Value::Number(n) => Json::Number(match (n.as_u64(), n.as_i64()) {
            (Some(u), _) => Number::Unsigned(u),
            (None, Some(i)) => Number::Signed(i),
            (None, None) => Number::Float(n.to_string()),
        }),
        serde_json::Value::String(s) => Json::Text(s.clone()),
        serde_json::Value::Array(list) => Json::Array(list.iter().map(convert).collect()),
        serde_json::Value::Object(map) => {
            Json::Object(map.iter().map(|(k, v)| (k.clone(), convert(v))).collect())
        }
    }
}

/// The document, where the text is one.
fn read(text: &str) -> Option<Json> {
    match serde_json::from_str::<serde_json::Value>(text) {
        Ok(v) => Some(convert(&v)),
        Err(_) => None,
    }
}

/// The value that a JSON text stands for.
fn json(text: &str) -> Json {
    read(text).unwrap()
}

/// The member of an object.
fn at<'a>(v: &'a Json, key: &str) -> &'a Json {
    v.get(key).unwrap()
}

/// An object with one text.
fn one(key: &str, value: &str) -> Json {
    Json::empty().with(key, Json::text(value))
}

/// Parses a resource identifier and builds it again.
fn rebuilt_id(id: &str) -> String {
    let parts = op_parse_resource_id(one("id", id)).unwrap();
    let v = op_build_resource_id(parts).unwrap();
    at(&v, "id").as_str().unwrap().to_string()
}

/// Parses a connection string and builds it again.
fn rebuilt_string(text: &str) -> String {
    let pairs = op_parse_connection_string(one("connection_string", text)).unwrap();
    let v = op_build_connection_string(pairs).unwrap();
    at(&v, "connection_string").as_str().unwrap().to_string()
}

#[test]
fn rebuilt_resource_ids() {
    for id in [
        "/subscriptions/s",
        "/resourceGroups/rg",
        "/subscriptions/s/resourceGroups/rg/providers/P",
        "/providers/P/t",
        "/providers/P/t/n/u",
        "/providers/P/t/n/providers/subscriptions",
    ] {
        assert_eq!(rebuilt_id(id), id);
    }
    // Other spellings come back in the canonical one, with the same parts.
    let loose = "SUBSCRIPTIONS/s//x/ResourceGroups/rg/";
    assert_eq!(rebuilt_id(loose), "/subscriptions/s/resourceGroups/rg");
    assert_eq!(
        op_parse_resource_id(one("id", &rebuilt_id(loose))).unwrap(),
        op_parse_resource_id(one("id", loose)).unwrap()
    );
    // An identifier that names nothing cannot be built again.
    let nothing = op_parse_resource_id(one("id", "/x")).unwrap();
    assert!(op_build_resource_id(nothing).is_err());
}

#[test]
fn rebuilt_connection_strings() {
    for text in ["A=1", "A=1;B=", "A==;B= x", "K=v=w;L=v", "A=x ;B=y\t", "A= "] {
        assert_eq!(rebuilt_string(text), text);
    }
    // Blank pieces and spaces around keys are not kept; the pairs are.
    assert_eq!(rebuilt_string(" A =1 ;; B=2; "), "A=1 ;B=2");
    assert_eq!(rebuilt_string("A=1;B=2;A=3"), "A=3;B=2");
    let empty_key = op_parse_connection_string(one("dsn", "=v")).unwrap();
    assert_eq!(empty_key, json(r#"{"pairs": {"": "v"}}"#));
    assert!(op_build_connection_string(empty_key).is_err());
}

#[test]
fn built_values_are_parsed_back() {
    let pairs = json(r#"{"pairs": {"a": -12, "b": 2.5, "c": true, "d": " x "}}"#);
    let built = op_build_connection_string(pairs).unwrap();
    assert_eq!(
        op_parse_connection_string(built).unwrap(),
        json(r#"{"pairs": {"a": "-12", "b": "2.5", "c": "true", "d": " x "}}"#)
    );
    let parts = json(
        r#"{"resource_group": "rg", "provider": "P",
            "types": [{"type": "t", "name": "n"}, {"type": "u"}]}"#,
    );
    assert_eq!(
        op_parse_resource_id(op_build_resource_id(parts).unwrap()).unwrap(),
        json(
            r#"{"subscription": null, "resource_group": "rg", "provider": "P",
                "types": [{"type": "t", "name": "n"}, {"type": "u", "name": null}],
                "resource_type": "u", "name": null}"#
        )
    );
}

#[test]
fn rebuilt_blob_uris() {
    for uri in [
        "https://a.blob.core.windows.net",
        "https://a.dfs.core.windows.net/c",
        "https://a.queue.core.windows.net/c/b",
        "https://a.file.core.windows.net/c/b/d//e",
    ] {
        let parts = op_parse_blob_uri(one("uri", uri)).unwrap();
        assert_eq!(op_build_blob_uri(parts).unwrap(), one("uri", uri));
    }
    // Leading slashes of a blob are dropped by a build.
    let parts = op_parse_blob_uri(one("uri", "https://a.blob.core.windows.net/c//b")).unwrap();
    assert_eq!(at(&parts, "blob"), &Json::text("/b"));
    assert_eq!(
        op_build_blob_uri(parts).unwrap(),
        one("uri", "https://a.blob.core.windows.net/c/b")
    );
}

#[test]
fn rebuilt_storage_endpoints() {
    for service in ["blob", "dfs", "queue", "table", "file"] {
        for cloud in ["public", "china", "usgov"] {
            let made = op_storage_endpoint(
                one("account", "acct")
                    .with("service", Json::text(service))
                    .with("cloud", Json::text(cloud)),
            )
            .unwrap();
            for key in ["endpoint", "url"] {
                let back =
                    op_parse_storage_endpoint(one(key, at(&made, key).as_str().unwrap())).unwrap();
                for member in ["account", "service", "cloud", "suffix", "endpoint", "url"] {
                    assert_eq!(at(&back, member), at(&made, member));
                }
                let again = op_storage_endpoint(back).unwrap();
                assert_eq!(again, made);
            }
        }
    }
    for cloud in ["azure", "azurechina", "azureusgovernment"] {
        let suffix = storage_suffix_of(cloud).unwrap();
        assert_eq!(storage_suffix_of(cloud_for_suffix(suffix).unwrap()), Some(suffix));
    }
}

#[test]
fn every_guid_form_has_the_same_digits() {
    let raw = "{3F2504E0-4F89-41D3-9A0C-0305E82C3301}";
    let canon = normalize_guid(raw).unwrap();
    assert_eq!(guid_reason(&canon), None);
    assert_eq!(canon, canon.to_lowercase());
    assert_eq!(normalize_guid(&canon).unwrap(), canon);
    assert_eq!(format_guid(raw, "D").unwrap(), canon);
    for form in ["N", "D", "B", "P"] {
        let written = format_guid(raw, form).unwrap();
        assert_eq!(guid_hex(&written).unwrap(), guid_hex(raw).unwrap());
        assert_eq!(normalize_guid(&written).unwrap(), canon);
    }
    let upper = "3F2504E0-4F89-41D3-9A0C-0305E82C3301";
    assert_eq!(guid_reason(upper), None);
    assert_eq!(normalize_guid(upper).unwrap(), upper.to_lowercase());
}

#[test]
fn name_grammars() {
    let alphabet = ['a', 'z', '0', '9', '-', 'A', '_', 'é'];
    let mut names = vec![String::new()];
    for _ in 0..4 {
        let mut longer = Vec::new();
        for name in &names {
            for c in alphabet {
                longer.push(format!("{name}{c}"));
            }
        }
        names.extend(longer);
    }
    for name in &names {
        let n = name.chars().count();
        let low = |c: char| c.is_ascii_lowercase() || c.is_ascii_digit();
        assert_eq!(
            account_name_reason(name).is_none(),
            (3..=24).contains(&n) && name.chars().all(low)
        );
        assert_eq!(
            dns_label_reason(name).is_none(),
            (3..=63).contains(&n)
                && name.chars().all(|c| low(c) || c == '-')
                && !name.starts_with('-')
                && !name.ends_with('-')
                && !name.contains("--")
        );
        assert_eq!(
            table_name_reason(name).is_none(),
            (3..=63).contains(&n)
                && name.chars().all(|c| c.is_ascii_alphanumeric())
                && name.starts_with(|c: char| c.is_ascii_alphabetic())
        );
        assert_eq!(cosmos_id_reason(name).is_none(), n > 0);
    }
}

#[test]
fn only_failures_have_errors() {
    for opts in [
        "null",
        r#"{"name": "abc", "id": "/subscriptions/s", "uri": "https://a.blob.x/c"}"#,
        r#"{"account": "a", "endpoint": "a.blob.core.windows.net", "pairs": {"error": 1}}"#,
        r#"{"guid": "3f2504e04f8941d39a0c0305e82c3301", "connection_string": "error=1"}"#,
    ] {
        for (answer, reply) in [
            (op_parse_resource_id(json(opts)), azure__parse_resource_id(read(opts))),
            (op_build_connection_string(json(opts)), azure__build_connection_string(read(opts))),
            (op_parse_connection_string(json(opts)), azure__parse_connection_string(read(opts))),
            (op_parse_blob_uri(json(opts)), azure__parse_blob_uri(read(opts))),
            (op_parse_storage_endpoint(json(opts)), azure__parse_storage_endpoint(read(opts))),
            (op_normalize_guid(json(opts)), azure__normalize_guid(read(opts))),
        ] {
            match answer {
                Ok(v) => {
                    assert!(reply.get("error").is_none());
                    assert_eq!(reply, v);
                }
                Err(e) => assert_eq!(reply, one("error", &e.message)),
            }
        }
    }
}

#[test]
fn white_space_is_that_of_unicode() {
    for c in '\0'..=char::MAX {
        assert_eq!(white(c), c.is_whitespace(), "{:?}", c);
    }
    assert_eq!(trimmed("\u{3000} a b\t\u{a0}\n"), "a b");
    assert_eq!(trimmed(" \t "), "");
}

#[test]
fn letters_change_case_in_ascii_only() {
    for n in 0u8..128 {
        let c = (n as char).to_string();
        assert_eq!(to_lower(&c), c.to_ascii_lowercase());
        assert_eq!(to_upper(&c), c.to_ascii_uppercase());
    }
    assert_eq!(to_lower("ÀÉ"), "ÀÉ");
    assert_eq!(to_upper("àé"), "àé");
}

#[test]
fn texts_come_apart_as_std_has_it() {
    for s in ["", "a", ";", "a;b", ";a;;b;", "é;𝄞"] {
        let want: Vec<String> = s.split(';').map(|p| p.to_string()).collect();
        assert_eq!(pieces_of(s, ';'), want);
        let want = s.split_once(';').map(|(a, b)| (a.to_string(), b.to_string()));
        assert_eq!(once_split(s, ';'), want);
        assert_eq!(has_char(s, ';'), s.contains(';'));
        assert_eq!(begins_with(s, "a"), s.starts_with("a"));
        assert_eq!(begins_with(s, ""), true);
        let want = s.strip_prefix("é").map(|p| p.to_string());
        assert_eq!(after_prefix(s, "é"), want);
        assert_eq!(replaced(s, ';', '-'), s.replace(';', "-"));
        assert_eq!(without_leading(s, ';'), s.trim_start_matches(';'));
    }
}

#[test]
fn numbers_are_written_in_decimal() {
    for n in [0u64, 7, 10, 4294967296, u64::MAX] {
        assert_eq!(decimal_text(n), n.to_string());
    }
    for n in [0i64, -1, 42, i64::MIN, i64::MAX] {
        assert_eq!(signed_decimal_text(n), n.to_string());
    }
}

#[test]
fn values_are_read_by_kind() {
    let v = json(r#"{"t": "x", "n": -3, "u": 9223372036854775807, "b": true, "f": 1.5, "a": [1]}"#);
    assert_eq!(at(&v, "t").as_str(), Some("x"));
    assert_eq!(at(&v, "n").as_str(), None);
    assert_eq!(at(&v, "n").as_i64(), Some(-3));
    assert_eq!(at(&v, "u").as_i64(), Some(i64::MAX));
    assert_eq!(json("9223372036854775808").as_i64(), None);
    assert_eq!(at(&v, "f").as_i64(), None);
    assert_eq!(at(&v, "b").as_i64(), None);
    assert_eq!(at(&v, "a").as_array().unwrap().len(), 1);
    assert!(at(&v, "a").as_object().is_none());
    assert_eq!(v.as_object().unwrap().len(), 6);
    assert!(v.get("none").is_none());
    assert!(json("[1]").get("0").is_none());
    assert_eq!(v.copy(), v);
}
