use stryke_azure::blob::{
    self, blob_listing, blob_metadata, blob_target, get_answer, list_blobs_answer,
    set_metadata_answer, upload_bytes, BlobEntry, BlobListing, BlobProperties, BlobTarget,
};
use stryke_azure::cosmos::{
    self, container_target, create_database_answer, delete_database_answer, delete_item_answer,
    item_answer, item_key, list_databases_answer, new_container, new_item, partition_query,
    query_answer, ContainerTarget, ItemKey, NewContainer, NewItem, Query,
};
use stryke_azure::encoding::{base64_marked, shown_text, url_outcome};
use stryke_azure::endpoints::{
    blob_service_url, cosmos_endpoint, queue_service_url, storage_account, vault_url,
};
use stryke_azure::identity::{token_answer, token_scope};
use stryke_azure::json::{Json, Number};
use stryke_azure::keys::{
    decrypt_answer, decryption, decryption_from, enc_algo, encrypt_answer, encryption, Algorithm,
    Decryption, Encryption,
};
use stryke_azure::queue::{
    self, message_target, new_message, receive_answer, receive_limits, send_answer, Message,
    MessageTarget, NewMessage,
};
use stryke_azure::secrets::{
    self, backup_answer, list_versions_answer, new_secret, NewSecret,
};

/// A value of serde_json as a value of the library.
fn convert(v: &serde_json::Value) -> Json {
    match v {
        serde_json::Value::Null => Json::Null,
        serde_json::Value::Bool(b) => Json::Bool(*b),
        serde_json::Value::Number(n) => Json::Number(match (n.as_u64(), n.as_i64()) {
            (Some(u), _) => Number::Unsigned(u),
            (None, Some(i)) => Number::Signed(i),
            (None, None) => Number::Float(n.to_string()),
        }),
        serde_json::Value::String(s) => Json::Text(s.clone()),
        serde_json::Value::Array(list) => Json::Array(list.iter().map(convert).collect()),
        serde_json::Value::Object(map) => {
            Json::Object(map.iter().map(|(k, v)| (k.clone(), convert(v))).collect())
        }
    }
}

/// The document, where the text is one.
fn read(text: &str) -> Option<Json> {
    match serde_json::from_str::<serde_json::Value>(text) {
        Ok(v) => Some(convert(&v)),
        Err(_) => None,
    }
}

/// The value that a JSON text stands for.
fn json(text: &str) -> Json {
    read(text).unwrap()
}

/// The member of an object.
fn at<'a>(v: &'a Json, key: &str) -> &'a Json {
    v.get(key).unwrap()
}

/// An object with one text.
fn one(key: &str, value: &str) -> Json {
    Json::empty().with(key, Json::text(value))
}

fn some(s: &str) -> Option<String> {
    Some(s.to_string())
}

#[test]
fn endpoints_from_options_and_settings() {
    assert_eq!(storage_account(&one("account", "a"), some("b")).unwrap(), "a");
    assert_eq!(storage_account(&Json::Null, some("b")).unwrap(), "b");
    assert_eq!(
        storage_account(&Json::Null, None).unwrap_err().message,
        "missing account (or set AZURE_STORAGE_ACCOUNT)"
    );
    // What is answered is the URL as the URL standard writes it.
    assert_eq!(
        blob_service_url(&one("endpoint", "HTTPS://Host.Example:443/a/../b"), None).unwrap(),
        "https://host.example/b"
    );
    assert_eq!(
        queue_service_url(&one("endpoint", "no url"), some("b")).unwrap_err().message,
        "relative URL without a base"
    );
    assert_eq!(
        queue_service_url(&Json::Null, some("b")).unwrap(),
        "https://b.queue.core.windows.net/"
    );
    assert_eq!(
        cosmos_endpoint(&one("endpoint", "anything"), some("b")).unwrap(),
        "anything"
    );
    assert_eq!(
        cosmos_endpoint(&Json::Null, some("b")).unwrap(),
        "https://b.documents.azure.com:443/"
    );
    assert_eq!(
        cosmos_endpoint(&Json::Null, None).unwrap_err().message,
        "missing account/endpoint (or set AZURE_COSMOS_ACCOUNT)"
    );
    assert_eq!(vault_url(&one("endpoint", "e"), some("b")).unwrap(), "e");
    assert_eq!(
        vault_url(&one("endpoint", "e").with("vault_url", Json::text("v")), None).unwrap(),
        "v"
    );
    assert_eq!(vault_url(&Json::Null, some("b")).unwrap(), "https://b.vault.azure.net/");
    assert_eq!(
        vault_url(&Json::Null, None).unwrap_err().message,
        "missing vault (or set AZURE_KEYVAULT_NAME)"
    );
}

#[test]
fn url_outcomes() {
    assert_eq!(url_outcome(Ok("u".to_string())).unwrap(), "u");
    assert_eq!(url_outcome(Err("e".to_string())).unwrap_err().message, "e");
}

#[test]
fn token_requests() {
    assert_eq!(token_scope(&Json::Null), "https://management.azure.com/.default");
    assert_eq!(token_scope(&one("scope", "s")), "s");
    assert_eq!(
        token_answer("s", "soon"),
        json(r#"{"acquired": true, "scope": "s", "expires_on": "soon"}"#)
    );
}

#[test]
fn blob_requests() {
    let t = blob_target(&json(r#"{"container": "c", "name": "n"}"#)).unwrap();
    assert_eq!(t, BlobTarget { container: "c".to_string(), name: "n".to_string() });
    assert_eq!(blob_target(&Json::Null).unwrap_err().message, "missing container");
    assert_eq!(blob_target(&one("container", "c")).unwrap_err().message, "missing name");
    let l = blob_listing(&json(r#"{"container": "c", "prefix": "a/"}"#)).unwrap();
    assert_eq!(l, BlobListing { container: "c".to_string(), prefix: "a/".to_string() });
    assert_eq!(blob_listing(&one("container", "c")).unwrap().prefix, "");
    assert_eq!(blob_listing(&Json::Null).unwrap_err().message, "missing container");
    assert_eq!(upload_bytes(&one("body", "é")), vec![0xc3, 0xa9]);
    assert_eq!(upload_bytes(&Json::Null), Vec::<u8>::new());
    assert_eq!(
        blob_metadata(&json(r#"{"metadata": {"a": "x", "b": 1, "c": null, "d": ""}}"#)).unwrap(),
        vec![("a".to_string(), "x".to_string()), ("d".to_string(), String::new())]
    );
    assert_eq!(
        blob_metadata(&one("metadata", "x")).unwrap_err().message,
        "missing metadata (an object of string => string)"
    );
    assert_eq!(
        blob_metadata(&Json::Null).unwrap_err().message,
        "missing metadata (an object of string => string)"
    );
}

#[test]
fn blob_answers() {
    let t = BlobTarget { container: "c".to_string(), name: "n".to_string() };
    assert_eq!(
        blob::list_containers_answer(vec![some("a"), None, some("b")]),
        json(r#"{"containers": ["a", "b"]}"#)
    );
    assert_eq!(
        get_answer(&t, Some(2), &some("text/plain"), b"hi"),
        json(
            r#"{"container": "c", "name": "n", "content_length": 2,
                "content_type": "text/plain", "body": "hi"}"#
        )
    );
    assert_eq!(
        get_answer(&t, None, &None, &[0xff, 0x00]),
        json(
            r#"{"container": "c", "name": "n", "content_length": null,
                "content_type": null, "body": "base64:/wA="}"#
        )
    );
    assert_eq!(
        blob::put_answer(&t),
        json(r#"{"container": "c", "name": "n", "uploaded": true}"#)
    );
    assert_eq!(
        blob::delete_answer(&t),
        json(r#"{"container": "c", "name": "n", "deleted": true}"#)
    );
    let p = BlobProperties {
        content_length: Some(9),
        content_type: None,
        etag: some("e"),
        last_modified: some("then"),
        blob_type: some("BlockBlob"),
    };
    assert_eq!(
        blob::properties_answer(&t, &p),
        json(
            r#"{"container": "c", "name": "n", "content_length": 9, "content_type": null,
                "etag": "e", "last_modified": "then", "blob_type": "BlockBlob"}"#
        )
    );
    assert_eq!(
        blob::create_container_answer("c"),
        json(r#"{"container": "c", "created": true}"#)
    );
    assert_eq!(
        blob::delete_container_answer("c"),
        json(r#"{"container": "c", "deleted": true}"#)
    );
    let metadata = vec![("a".to_string(), "x".to_string())];
    assert_eq!(
        set_metadata_answer(&t, &metadata),
        json(r#"{"container": "c", "name": "n", "metadata": 1}"#)
    );
}

#[test]
fn blob_listings_keep_what_begins_with_the_prefix() {
    let found = vec![
        BlobEntry { name: some("a/1"), size: Some(1) },
        BlobEntry { name: None, size: Some(2) },
        BlobEntry { name: some("b/1"), size: None },
        BlobEntry { name: some("a/2"), size: None },
    ];
    let listing = |prefix: &str| BlobListing {
        container: "c".to_string(),
        prefix: prefix.to_string(),
    };
    assert_eq!(
        list_blobs_answer(&listing("a/"), &found),
        json(
            r#"{"container": "c",
                "blobs": [{"name": "a/1", "size": 1}, {"name": "a/2", "size": null}]}"#
        )
    );
    // Without a prefix every blob is answered, the nameless one under an empty name.
    let all = list_blobs_answer(&listing(""), &found);
    assert_eq!(at(&all, "blobs").as_array().unwrap().len(), 4);
    assert_eq!(at(&at(&all, "blobs").as_array().unwrap()[1], "name"), &Json::text(""));
}

#[test]
fn queue_requests() {
    assert_eq!(
        new_message(&json(r#"{"queue": "q", "body": "b"}"#)).unwrap(),
        NewMessage { queue: "q".to_string(), body: "b".to_string() }
    );
    assert_eq!(new_message(&one("body", "b")).unwrap_err().message, "missing queue");
    assert_eq!(new_message(&one("queue", "q")).unwrap_err().message, "missing body");
    assert_eq!(
        message_target(&json(r#"{"queue": "q", "message_id": "m", "pop_receipt": "p"}"#)).unwrap(),
        MessageTarget {
            queue: "q".to_string(),
            message_id: "m".to_string(),
            pop_receipt: "p".to_string()
        }
    );
    assert_eq!(message_target(&Json::Null).unwrap_err().message, "missing queue");
    assert_eq!(message_target(&one("queue", "q")).unwrap_err().message, "missing message_id");
    assert_eq!(
        message_target(&json(r#"{"queue": "q", "message_id": "m"}"#)).unwrap_err().message,
        "missing pop_receipt"
    );
}

#[test]
fn queue_limits() {
    let limits = |text: &str| {
        let l = receive_limits(&json(text));
        (l.max, l.visibility)
    };
    assert_eq!(limits("{}"), (None, None));
    assert_eq!(limits(r#"{"max": 5, "visibility": -1}"#), (Some(5), Some(-1)));
    assert_eq!(limits(r#"{"max": "5", "visibility": 1.5}"#), (None, None));
    // Only 32 bits are kept.
    assert_eq!(
        limits(r#"{"max": 4294967298, "visibility": 2147483648}"#),
        (Some(2), Some(i32::MIN))
    );
    assert_eq!(
        limits(r#"{"max": -2147483649, "visibility": 9223372036854775807}"#),
        (Some(i32::MAX), Some(-1))
    );
    // A number beyond 63 bits is no limit.
    assert_eq!(limits(r#"{"max": 9223372036854775808}"#), (None, None));
    for n in [0i64, 1, -1, 1 << 31, 1 << 32, i64::MIN, i64::MAX, -(1 << 31) - 1] {
        let l = receive_limits(&json(&format!("{{\"max\": {n}}}")));
        assert_eq!(l.max, Some(n as i32));
    }
}

#[test]
fn queue_answers() {
    assert_eq!(queue::list_answer(vec![None, some("q")]), json(r#"{"queues": ["q"]}"#));
    assert_eq!(
        send_answer("q", Some(json(r#"{"messageId": "m"}"#))),
        json(r#"{"queue": "q", "sent": {"messageId": "m"}}"#)
    );
    assert_eq!(send_answer("q", None), json(r#"{"queue": "q", "sent": null}"#));
    let messages = vec![
        Message {
            message_id: some("m"),
            pop_receipt: some("p"),
            body: some("b"),
            dequeue_count: Some(3),
        },
        Message { message_id: None, pop_receipt: None, body: None, dequeue_count: None },
    ];
    assert_eq!(
        receive_answer("q", &messages),
        json(
            r#"{"queue": "q", "messages": [
                {"message_id": "m", "pop_receipt": "p", "body": "b", "dequeue_count": 3},
                {"message_id": null, "pop_receipt": null, "body": null, "dequeue_count": null}
            ]}"#
        )
    );
    assert_eq!(queue::delete_answer("q"), json(r#"{"queue": "q", "deleted": true}"#));
    assert_eq!(queue::clear_answer("q"), json(r#"{"queue": "q", "cleared": true}"#));
    assert_eq!(queue::create_answer("q"), json(r#"{"queue": "q", "created": true}"#));
    assert_eq!(
        queue::properties_answer("q", Some(-7)),
        json(r#"{"queue": "q", "approximate_message_count": -7}"#)
    );
    assert_eq!(
        queue::properties_answer("q", None),
        json(r#"{"queue": "q", "approximate_message_count": null}"#)
    );
}

#[test]
fn cosmos_requests() {
    let opts = json(
        r#"{"database": "d", "container": "c", "partition_key": "/p", "id": "i", "item": null,
            "query": "SELECT"}"#,
    );
    let target = || ContainerTarget { database: "d".to_string(), container: "c".to_string() };
    let key = || ItemKey { partition_key: "/p".to_string(), id: "i".to_string() };
    assert_eq!(container_target(&opts).unwrap(), target());
    assert_eq!(
        new_container(&opts).unwrap(),
        NewContainer { target: target(), partition_key: "/p".to_string() }
    );
    assert_eq!(item_key(&opts).unwrap(), key());
    assert_eq!(new_item(&opts).unwrap(), NewItem { key: key(), item: Json::Null });
    assert_eq!(
        partition_query(&opts).unwrap(),
        Query { query: "SELECT".to_string(), partition_key: "/p".to_string() }
    );
    let none = Json::Null;
    assert_eq!(container_target(&none).unwrap_err().message, "missing database");
    let database = one("database", "d");
    assert_eq!(container_target(&database).unwrap_err().message, "missing container");
    let container = one("database", "d").with("container", Json::text("c"));
    assert_eq!(new_container(&database).unwrap_err().message, "missing container");
    assert_eq!(new_container(&container).unwrap_err().message, "missing partition_key");
    assert_eq!(item_key(&none).unwrap_err().message, "missing partition_key");
    let partition = one("partition_key", "p");
    assert_eq!(item_key(&partition).unwrap_err().message, "missing id");
    assert_eq!(new_item(&partition).unwrap_err().message, "missing id");
    let id = one("partition_key", "p").with("id", Json::text("i"));
    assert_eq!(new_item(&id).unwrap_err().message, "missing item (object)");
    assert_eq!(partition_query(&none).unwrap_err().message, "missing query");
    assert_eq!(
        partition_query(&one("query", "q")).unwrap_err().message,
        "query requires partition_key (single-partition only)"
    );
}

#[test]
fn cosmos_answers() {
    let ids = vec!["a".to_string(), "b".to_string()];
    let target = ContainerTarget { database: "d".to_string(), container: "c".to_string() };
    assert_eq!(list_databases_answer(&ids), json(r#"{"databases": ["a", "b"]}"#));
    assert_eq!(
        cosmos::list_containers_answer("d", &ids),
        json(r#"{"database": "d", "containers": ["a", "b"]}"#)
    );
    assert_eq!(
        create_database_answer("d"),
        json(r#"{"database": "d", "created": true}"#)
    );
    assert_eq!(
        delete_database_answer("d"),
        json(r#"{"database": "d", "deleted": true}"#)
    );
    assert_eq!(
        cosmos::create_container_answer(&target),
        json(r#"{"database": "d", "container": "c", "created": true}"#)
    );
    assert_eq!(
        cosmos::delete_container_answer(&target),
        json(r#"{"database": "d", "container": "c", "deleted": true}"#)
    );
    assert_eq!(
        item_answer("i", json(r#"{"x": [1]}"#)),
        json(r#"{"id": "i", "item": {"x": [1]}}"#)
    );
    assert_eq!(delete_item_answer("i"), json(r#"{"id": "i", "deleted": true}"#));
    assert_eq!(
        query_answer(vec![Json::Null, Json::Bool(true)]),
        json(r#"{"items": [null, true], "count": 2}"#)
    );
}

#[test]
fn secret_requests_and_answers() {
    assert_eq!(
        new_secret(&json(r#"{"name": "n", "value": "v"}"#)).unwrap(),
        NewSecret { name: "n".to_string(), value: "v".to_string(), content_type: None }
    );
    assert_eq!(
        new_secret(&json(r#"{"name": "n", "value": "v", "content_type": "t"}"#))
            .unwrap()
            .content_type,
        some("t")
    );
    assert_eq!(new_secret(&Json::Null).unwrap_err().message, "missing name");
    assert_eq!(new_secret(&one("name", "n")).unwrap_err().message, "missing value");
    assert_eq!(
        secrets::get_answer("n", &some("v"), &None),
        json(r#"{"name": "n", "value": "v", "id": null}"#)
    );
    assert_eq!(secrets::set_answer("n", &some("i")), json(r#"{"name": "n", "id": "i"}"#));
    assert_eq!(
        secrets::list_answer(&vec![some("i"), None]),
        json(r#"{"secrets": [{"id": "i"}, {"id": null}]}"#)
    );
    assert_eq!(secrets::delete_answer("n"), json(r#"{"name": "n", "deleted": true}"#));
    assert_eq!(
        list_versions_answer("n", &vec![some("i")]),
        json(r#"{"name": "n", "versions": [{"id": "i"}]}"#)
    );
    assert_eq!(
        backup_answer("n", &Some(vec![0xfb, 0xff])),
        json(r#"{"name": "n", "backup": "+/8="}"#)
    );
    assert_eq!(backup_answer("n", &None), json(r#"{"name": "n", "backup": null}"#));
}

#[test]
fn algorithm_names() {
    for (name, algorithm) in [
        ("RSA-OAEP", Algorithm::RsaOaep),
        ("rsa_oaep", Algorithm::RsaOaep),
        ("RSA-OAEP-256", Algorithm::RsaOaep256),
        ("Rsa_Oaep-256", Algorithm::RsaOaep256),
        ("RSA1_5", Algorithm::Rsa15),
        ("rsa1-5", Algorithm::Rsa15),
        ("rsa15", Algorithm::Rsa15),
    ] {
        assert_eq!(enc_algo(name).unwrap(), algorithm);
    }
    assert_eq!(
        enc_algo("aes_128").unwrap_err().message,
        "unsupported algorithm `AES-128` (use RSA-OAEP, RSA-OAEP-256, or RSA1_5)"
    );
}

#[test]
fn encryption_requests() {
    let q = encryption(&json(r#"{"key": "k", "plaintext": "hé"}"#)).unwrap();
    assert_eq!(
        q,
        Encryption {
            key: "k".to_string(),
            algorithm_name: "RSA-OAEP-256".to_string(),
            algorithm: Algorithm::RsaOaep256,
            plaintext: vec![b'h', 0xc3, 0xa9],
        }
    );
    // The algorithm is answered as it was named.
    let q =
        encryption(&json(r#"{"key": "k", "plaintext": "p", "algorithm": "rsa_oaep"}"#)).unwrap();
    assert_eq!(
        encrypt_answer(&q, &Some(vec![1, 2, 3]), &some("https://v/keys/k/1")),
        json(
            r#"{"key": "k", "algorithm": "rsa_oaep", "ciphertext": "AQID",
                "kid": "https://v/keys/k/1"}"#
        )
    );
    assert_eq!(
        encrypt_answer(&q, &None, &None),
        json(r#"{"key": "k", "algorithm": "rsa_oaep", "ciphertext": null, "kid": null}"#)
    );
    assert_eq!(encryption(&Json::Null).unwrap_err().message, "missing key");
    // A missing plaintext is reported before a bad algorithm.
    assert_eq!(
        encryption(&json(r#"{"key": "k", "algorithm": "x"}"#)).unwrap_err().message,
        "missing plaintext"
    );
    assert_eq!(
        encryption(&json(r#"{"key": "k", "plaintext": "p", "algorithm": "x"}"#))
            .unwrap_err()
            .message,
        "unsupported algorithm `X` (use RSA-OAEP, RSA-OAEP-256, or RSA1_5)"
    );
}

#[test]
fn decryption_requests() {
    let q = decryption(&json(
        r#"{"key": "k", "version": "1", "ciphertext": "AQID", "algorithm": "RSA1_5"}"#,
    ))
    .unwrap();
    assert_eq!(
        q,
        Decryption {
            key: "k".to_string(),
            version: "1".to_string(),
            algorithm: Algorithm::Rsa15,
            ciphertext: vec![1, 2, 3],
        }
    );
    assert_eq!(decryption(&Json::Null).unwrap_err().message, "missing key");
    assert_eq!(decryption(&one("key", "k")).unwrap_err().message, "missing version");
    assert_eq!(
        decryption(&json(r#"{"key": "k", "version": "1"}"#)).unwrap_err().message,
        "missing ciphertext"
    );
    // A bad ciphertext is reported before a bad algorithm.
    assert_eq!(
        decryption(&json(
            r#"{"key": "k", "version": "1", "ciphertext": "A!==", "algorithm": "x"}"#
        ))
        .unwrap_err()
        .message,
        "ciphertext base64: Invalid symbol 33, offset 1."
    );
    assert_eq!(
        decryption_from("k", "1", "x", Ok(vec![])).unwrap_err().message,
        "unsupported algorithm `X` (use RSA-OAEP, RSA-OAEP-256, or RSA1_5)"
    );
    assert_eq!(
        decryption_from("k", "1", "x", Err("e".to_string())).unwrap_err().message,
        "ciphertext base64: e"
    );
    assert_eq!(
        decrypt_answer("k", &Some(b"clear".to_vec())),
        json(r#"{"key": "k", "plaintext": "clear"}"#)
    );
    assert_eq!(
        decrypt_answer("k", &Some(vec![0xff])),
        json(r#"{"key": "k", "plaintext": "base64:/w=="}"#)
    );
    assert_eq!(decrypt_answer("k", &None), json(r#"{"key": "k", "plaintext": null}"#));
}

#[test]
fn decryption_reads_what_encryption_answered() {
    let q = encryption(&json(r#"{"key": "k", "plaintext": "p"}"#)).unwrap();
    for bytes in [vec![], vec![0], vec![0, 255], vec![1, 2, 3], (0..=255).collect::<Vec<u8>>()] {
        let answer = encrypt_answer(&q, &Some(bytes.clone()), &None);
        let opts = Json::empty()
            .with("key", Json::text("k"))
            .with("version", Json::text("1"))
            .with("ciphertext", at(&answer, "ciphertext").copy());
        assert_eq!(decryption(&opts).unwrap().ciphertext, bytes);
    }
}

#[test]
fn shown_bytes() {
    assert_eq!(shown_text("text é 𝄞".as_bytes()), "text é 𝄞");
    assert_eq!(shown_text(&[]), "");
    assert_eq!(shown_text(&[0xc3]), "base64:ww==");
    assert_eq!(shown_text(&[0xed, 0xa0, 0x80]), "base64:7aCA");
    assert_eq!(base64_marked("AA=="), "base64:AA==");
}
