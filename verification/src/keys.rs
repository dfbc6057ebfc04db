//! Key Vault keys: encryption and decryption requests, and how they are answered.
use vstd::prelude::*;
use vstd::string::*;
use vstd::utf8::encode_utf8;

use crate::answers::holds_text;
use crate::encoding::{base64_decode, base64_of, base64_read, shown, shown_text};
use crate::error::Error;
use crate::json::{
    empty_object, lemma_get_with, lemma_well_formed_with, nullable, well_formed, Json, JsonModel,
};
use crate::options::{has_text, lacks_text, opt_str, req_str, required};
use crate::secrets::{base64_of_opt, base64_text};
use crate::text::{lower, opt_text, replace, replaced, to_upper, upper};

verus! {

/// An RSA encryption algorithm of Key Vault.
#[derive(Debug, Clone, Copy, PartialEq, Eq, Structural)]
pub enum Algorithm {
    RsaOaep,
    RsaOaep256,
    Rsa15,
}

/// A request to encrypt: the key, the algorithm as it was named, and the bytes.
#[derive(Debug, PartialEq)]
pub struct Encryption {
    pub key: String,
    pub algorithm_name: String,
    pub algorithm: Algorithm,
    pub plaintext: Vec<u8>,
}

/// What a request to encrypt is.
#[verifier::ext_equal]
pub struct EncryptionModel {
    pub key: Seq<char>,
    pub algorithm_name: Seq<char>,
    pub algorithm: Algorithm,
    pub plaintext: Seq<u8>,
}

impl View for Encryption {
    type V = EncryptionModel;

    open spec fn view(&self) -> EncryptionModel {
        EncryptionModel {
            key: self.key@,
            algorithm_name: self.algorithm_name@,
            algorithm: self.algorithm,
            plaintext: self.plaintext@,
        }
    }
}

/// A request to decrypt: the key and its version, the algorithm, and the bytes.
#[derive(Debug, PartialEq)]
pub struct Decryption {
    pub key: String,
    pub version: String,
    pub algorithm: Algorithm,
    pub ciphertext: Vec<u8>,
}

/// What a request to decrypt is.
#[verifier::ext_equal]
pub struct DecryptionModel {
    pub key: Seq<char>,
    pub version: Seq<char>,
    pub algorithm: Algorithm,
    pub ciphertext: Seq<u8>,
}

impl View for Decryption {
    type V = DecryptionModel;

    open spec fn view(&self) -> DecryptionModel {
        DecryptionModel {
            key: self.key@,
            version: self.version@,
            algorithm: self.algorithm,
            ciphertext: self.ciphertext@,
        }
    }
}

/// A name of an algorithm in capitals, with hyphens for underscores.
pub open spec fn normal_name(name: Seq<char>) -> Seq<char> {
    replace(upper(name), '_', '-')
}

/// The algorithm that a name stands for.
pub open spec fn algorithm_of(name: Seq<char>) -> Result<Algorithm, Seq<char>> {
    let normal = normal_name(name);
    if normal == "RSA-OAEP"@ {
        Ok(Algorithm::RsaOaep)
    } else if normal == "RSA-OAEP-256"@ {
        Ok(Algorithm::RsaOaep256)
    } else if normal == "RSA1-5"@ || normal == "RSA15"@ {
        Ok(Algorithm::Rsa15)
    } else {
        Err(
            "unsupported algorithm `"@ + normal
                + "` (use RSA-OAEP, RSA-OAEP-256, or RSA1_5)"@,
        )
    }
}

/// The name of the algorithm that a request asks for; without one, RSA-OAEP-256.
pub open spec fn asked_algorithm(opts: JsonModel) -> Seq<char> {
    match opts.text_at("algorithm"@) {
        Some(name) => name,
        None => "RSA-OAEP-256"@,
    }
}

/// What a request to encrypt asks for: `key`, then `plaintext`, then the algorithm.
pub open spec fn encryption_of(opts: JsonModel) -> Result<EncryptionModel, Seq<char>> {
    match required(opts, "key"@) {
        Err(e) => Err(e),
        Ok(key) => match required(opts, "plaintext"@) {
            Err(e) => Err(e),
            Ok(text) => match algorithm_of(asked_algorithm(opts)) {
                Err(e) => Err(e),
                Ok(algorithm) => Ok(
                    EncryptionModel {
                        key,
                        algorithm_name: asked_algorithm(opts),
                        algorithm,
                        plaintext: encode_utf8(text),
                    },
                ),
            },
        },
    }
}

/// What a request to decrypt asks for, once its ciphertext was read: what is wrong with
/// the ciphertext comes before what is wrong with the algorithm.
pub open spec fn decryption_with(
    key: Seq<char>,
    version: Seq<char>,
    algorithm_name: Seq<char>,
    decoded: Result<Seq<u8>, Seq<char>>,
) -> Result<DecryptionModel, Seq<char>> {
    match decoded {
        Err(e) => Err("ciphertext base64: "@ + e),
        Ok(ciphertext) => match algorithm_of(algorithm_name) {
            Err(e) => Err(e),
            Ok(algorithm) => Ok(DecryptionModel { key, version, algorithm, ciphertext }),
        },
    }
}

/// What a request to decrypt asks for: `key`, then `version`, then `ciphertext`, then
/// the algorithm.
pub open spec fn decryption_of(opts: JsonModel) -> Result<DecryptionModel, Seq<char>> {
    match required(opts, "key"@) {
        Err(e) => Err(e),
        Ok(key) => match required(opts, "version"@) {
            Err(e) => Err(e),
            Ok(version) => match required(opts, "ciphertext"@) {
                Err(e) => Err(e),
                Ok(text) => decryption_with(key, version, asked_algorithm(opts), base64_read(text)),
            },
        },
    }
}

/// Bytes as text, where there are any.
pub open spec fn shown_opt(bytes: Option<Vec<u8>>) -> Option<Seq<char>> {
    match bytes {
        Some(b) => Some(shown(b@)),
        None => None,
    }
}

/// What reading Base64 gave: bytes, or the text of an error.
pub open spec fn decoded_view(decoded: Result<Vec<u8>, String>) -> Result<Seq<u8>, Seq<char>> {
    match decoded {
        Ok(bytes) => Ok(bytes@),
        Err(e) => Err(e@),
    }
}

/// The keys that stand in one object are distinct.
proof fn lemma_keys()
    ensures
        "key"@ != "algorithm"@,
        "key"@ != "ciphertext"@,
        "key"@ != "kid"@,
        "algorithm"@ != "ciphertext"@,
        "algorithm"@ != "kid"@,
        "ciphertext"@ != "kid"@,
        "key"@ != "plaintext"@,
{
    reveal_strlit("key");
    reveal_strlit("algorithm");
    reveal_strlit("ciphertext");
    reveal_strlit("kid");
    reveal_strlit("plaintext");
    assert("key"@.len() == 3);
    assert("algorithm"@.len() == 9);
    assert("ciphertext"@.len() == 10);
    assert("kid"@.len() == 3);
    assert("plaintext"@.len() == 9);
    assert("key"@[1] != "kid"@[1]);
}

/// The algorithm that a name stands for.
pub fn enc_algo(name: &str) -> (r: Result<Algorithm, Error>)
    ensures
        match r {
            Ok(a) => algorithm_of(name@) == Ok::<Algorithm, Seq<char>>(a),
            Err(e) => algorithm_of(name@) == Err::<Algorithm, Seq<char>>(e@),
        },
{
    let normal = replaced(to_upper(name).as_str(), '_', '-');
    let normal = normal.as_str();
    if *normal == *"RSA-OAEP" {
        Ok(Algorithm::RsaOaep)
    } else if *normal == *"RSA-OAEP-256" {
        Ok(Algorithm::RsaOaep256)
    } else if *normal == *"RSA1-5" || *normal == *"RSA15" {
        Ok(Algorithm::Rsa15)
    } else {
        Err(
            Error::about(
                "unsupported algorithm `",
                normal,
                "` (use RSA-OAEP, RSA-OAEP-256, or RSA1_5)",
            ),
        )
    }
}

/// The name of the algorithm that a request asks for.
fn algorithm_name<'a>(opts: &'a Json) -> (r: &'a str)
    ensures
        r@ == asked_algorithm(opts@),
{
    match opt_str(opts, "algorithm") {
        Some(name) => name,
        None => "RSA-OAEP-256",
    }
}

/// What a request to encrypt asks for.
pub fn encryption(opts: &Json) -> (r: Result<Encryption, Error>)
    ensures
        match r {
            Ok(q) => encryption_of(opts@) == Ok::<EncryptionModel, Seq<char>>(q@),
            Err(e) => encryption_of(opts@) == Err::<EncryptionModel, Seq<char>>(e@),
        },
{
    let key = match req_str(opts, "key") {
        Ok(s) => s,
        Err(e) => {
            return Err(e);
        },
    };
    let name = algorithm_name(opts);
    let text = match req_str(opts, "plaintext") {
        Ok(s) => s,
        Err(e) => {
            return Err(e);
        },
    };
    match enc_algo(name) {
        Ok(algorithm) => Ok(
            Encryption {
                key: key.to_owned(),
                algorithm_name: name.to_owned(),
                algorithm,
                plaintext: text.as_bytes_vec(),
            },
        ),
        Err(e) => Err(e),
    }
}

/// What a request to decrypt asks for, once its ciphertext was read.
pub fn decryption_from(
    key: &str,
    version: &str,
    algorithm_name: &str,
    decoded: Result<Vec<u8>, String>,
) -> (r: Result<Decryption, Error>)
    ensures
        match r {
            Ok(q) => decryption_with(key@, version@, algorithm_name@, decoded_view(decoded)) == Ok::<
                DecryptionModel,
                Seq<char>,
            >(q@),
            Err(e) => decryption_with(key@, version@, algorithm_name@, decoded_view(decoded))
                == Err::<DecryptionModel, Seq<char>>(e@),
        },
{
    let ciphertext = match decoded {
        Ok(bytes) => bytes,
        Err(e) => {
            return Err(Error::of("ciphertext base64: ", e.as_str()));
        },
    };
    match enc_algo(algorithm_name) {
        Ok(algorithm) => Ok(
            Decryption { key: key.to_owned(), version: version.to_owned(), algorithm, ciphertext },
        ),
        Err(e) => Err(e),
    }
}

/// What a request to decrypt asks for. A ciphertext in the Base64 text that an
/// encryption was answered with is read as the bytes that it stands for.
pub fn decryption(opts: &Json) -> (r: Result<Decryption, Error>)
    ensures
        match r {
            Ok(q) => decryption_of(opts@) == Ok::<DecryptionModel, Seq<char>>(q@),
            Err(e) => decryption_of(opts@) == Err::<DecryptionModel, Seq<char>>(e@),
        },
        forall|bytes: Seq<u8>|
            opts@.text_at("ciphertext"@) == Some(#[trigger] base64_of(bytes)) && required(
                opts@,
                "key"@,
            ) is Ok && required(opts@, "version"@) is Ok && algorithm_of(
                asked_algorithm(opts@),
            ) is Ok ==> r is Ok && r->Ok_0@.ciphertext == bytes,
{
    let key = match req_str(opts, "key") {
        Ok(s) => s,
        Err(e) => {
            return Err(e);
        },
    };
    let version = match req_str(opts, "version") {
        Ok(s) => s,
        Err(e) => {
            return Err(e);
        },
    };
    let name = algorithm_name(opts);
    match req_str(opts, "ciphertext") {
        Ok(text) => decryption_from(key, version, name, base64_decode(text)),
        Err(e) => Err(e),
    }
}

/// The answer of an encryption.
pub open spec fn encrypt_json(
    request: Encryption,
    result: Option<Vec<u8>>,
    kid: Option<String>,
) -> JsonModel {
    empty_object().with("key"@, JsonModel::Text(request@.key)).with(
        "algorithm"@,
        JsonModel::Text(request@.algorithm_name),
    ).with("ciphertext"@, nullable(base64_of_opt(result))).with(
        "kid"@,
        nullable(opt_text(kid)),
    )
}

/// The answer of an encryption: the ciphertext in Base64, and the id of the key, which
/// ends with its version.
pub fn encrypt_answer(request: &Encryption, result: &Option<Vec<u8>>, kid: &Option<String>) -> (r:
    Json)
    ensures
        r@ == encrypt_json(*request, *result, *kid),
        well_formed(r@),
{
    broadcast use {lemma_get_with, lemma_well_formed_with};

    proof {
        lemma_keys();
    }
    Json::empty().with("key", Json::text(request.key.as_str())).with(
        "algorithm",
        Json::text(request.algorithm_name.as_str()),
    ).with("ciphertext", Json::nullable(&base64_text(result))).with("kid", Json::nullable(kid))
}

/// The answer of a decryption.
pub open spec fn decrypt_json(key: Seq<char>, result: Option<Vec<u8>>) -> JsonModel {
    empty_object().with("key"@, JsonModel::Text(key)).with(
        "plaintext"@,
        nullable(shown_opt(result)),
    )
}

/// The answer of a decryption: the plaintext as text.
pub fn decrypt_answer(key: &str, result: &Option<Vec<u8>>) -> (r: Json)
    ensures
        r@ == decrypt_json(key@, *result),
        well_formed(r@),
{
    broadcast use {lemma_get_with, lemma_well_formed_with};

    proof {
        lemma_keys();
    }
    let text = match result {
        Some(bytes) => Some(shown_text(bytes.as_slice())),
        None => None,
    };
    Json::empty().with("key", Json::text(key)).with("plaintext", Json::nullable(&text))
}

/// A name of an algorithm may be written in any case, and with underscores for hyphens.
pub proof fn law_algorithm_names(name: Seq<char>)
    ensures
        algorithm_of(lower(name)) == algorithm_of(name),
        algorithm_of(upper(name)) == algorithm_of(name),
        algorithm_of(replace(name, '-', '_')) == algorithm_of(name),
        algorithm_of(replace(name, '_', '-')) == algorithm_of(name),
{
    assert(normal_name(lower(name)) =~= normal_name(name));
    assert(normal_name(upper(name)) =~= normal_name(name));
    assert(normal_name(replace(name, '-', '_')) =~= normal_name(name));
    assert(normal_name(replace(name, '_', '-')) =~= normal_name(name));
}

/// A plaintext that was decrypted to the bytes of a text is answered as that text.
pub proof fn law_decrypted_text_is_answered(text: Seq<char>, result: Vec<u8>)
    requires
        result@ == encode_utf8(text),
    ensures
        shown_opt(Some(result)) == Some(text),
{
    crate::encoding::law_shown_text_keeps_utf8(text);
}

/// A name of an algorithm in any case, with underscores for hyphens or not.
pub open spec fn written_as(name: Seq<char>, canonical: Seq<char>) -> bool {
    name.len() == canonical.len() && forall|i: int|
        0 <= i < name.len() ==> #[trigger] name[i] == canonical[i] || 'A' <= canonical[i] <= 'Z'
            && name[i] as int == canonical[i] as int + 32 || canonical[i] == '-' && name[i] == '_'
}

proof fn lemma_written_as(name: Seq<char>, canonical: Seq<char>)
    requires
        forall|i: int|
            0 <= i < canonical.len() ==> !('a' <= #[trigger] canonical[i] <= 'z') && canonical[i]
                != '_',
    ensures
        normal_name(name) == canonical <==> written_as(name, canonical),
{
    if normal_name(name) == canonical {
        assert forall|i: int| 0 <= i < name.len() implies #[trigger] name[i] == canonical[i] || 'A'
            <= canonical[i] <= 'Z' && name[i] as int == canonical[i] as int + 32 || canonical[i]
            == '-' && name[i] == '_' by {
            assert(normal_name(name)[i] == canonical[i]);
        }
    }
    if written_as(name, canonical) {
        assert forall|i: int| 0 <= i < name.len() implies #[trigger] normal_name(name)[i]
            == canonical[i] by {
            assert(name[i] == name[i]);
            assert(!('a' <= canonical[i] <= 'z'));
        }
        assert(normal_name(name) =~= canonical);
    }
}

/// Each algorithm is named by its own names, in any case and with underscores for hyphens,
/// and by no others.
pub proof fn law_named_algorithms(name: Seq<char>)
    ensures
        algorithm_of(name) == Ok::<Algorithm, Seq<char>>(Algorithm::RsaOaep) <==> written_as(
            name,
            "RSA-OAEP"@,
        ),
        algorithm_of(name) == Ok::<Algorithm, Seq<char>>(Algorithm::RsaOaep256) <==> written_as(
            name,
            "RSA-OAEP-256"@,
        ),
        algorithm_of(name) == Ok::<Algorithm, Seq<char>>(Algorithm::Rsa15) <==> written_as(
            name,
            "RSA1-5"@,
        ) || written_as(name, "RSA15"@),
        algorithm_of(name) matches Err(e) ==> e == "unsupported algorithm `"@ + replace(
            upper(name),
            '_',
            '-',
        ) + "` (use RSA-OAEP, RSA-OAEP-256, or RSA1_5)"@,
{
    reveal_strlit("RSA-OAEP");
    reveal_strlit("RSA-OAEP-256");
    reveal_strlit("RSA1-5");
    reveal_strlit("RSA15");
    lemma_written_as(name, "RSA-OAEP"@);
    lemma_written_as(name, "RSA-OAEP-256"@);
    lemma_written_as(name, "RSA1-5"@);
    lemma_written_as(name, "RSA15"@);
    assert("RSA-OAEP"@.len() == 8);
    assert("RSA-OAEP-256"@.len() == 12);
    assert("RSA1-5"@.len() == 6);
    assert("RSA15"@.len() == 5);
}

/// The name of the algorithm that is asked for is the text under `algorithm`, and else
/// RSA-OAEP-256.
pub open spec fn asks_for(opts: JsonModel, name: Seq<char>) -> bool {
    has_text(opts, "algorithm"@, name) || lacks_text(opts, "algorithm"@) && name
        == "RSA-OAEP-256"@
}

/// A request to encrypt carries the key, the UTF-8 of the plaintext, and the algorithm that
/// was named, and is refused for the first of key, plaintext and algorithm that is wrong.
pub proof fn law_encryption_request(
    opts: JsonModel,
    key: Seq<char>,
    text: Seq<char>,
    name: Seq<char>,
)
    requires
        asks_for(opts, name),
    ensures
        ({
            let keyed = has_text(opts, "key"@, key);
            let full = keyed && has_text(opts, "plaintext"@, text);
            let request = encryption_of(opts);
            &&& lacks_text(opts, "key"@) ==> request == Err::<EncryptionModel, Seq<char>>(
                "missing "@ + "key"@,
            )
            &&& keyed && lacks_text(opts, "plaintext"@) ==> request == Err::<
                EncryptionModel,
                Seq<char>,
            >("missing "@ + "plaintext"@)
            &&& full && algorithm_of(name) is Err ==> request == Err::<EncryptionModel, Seq<char>>(
                algorithm_of(name)->Err_0,
            )
            &&& full && algorithm_of(name) is Ok ==> {
                &&& request is Ok
                &&& request->Ok_0.key == key
                &&& request->Ok_0.algorithm_name == name
                &&& Ok::<Algorithm, Seq<char>>(request->Ok_0.algorithm) == algorithm_of(name)
                &&& request->Ok_0.plaintext == encode_utf8(text)
            }
        }),
{
}

/// A request to decrypt carries the key, its version, the bytes that the ciphertext stands
/// for, and the algorithm that was named, and is refused for the first of key, version,
/// ciphertext and algorithm that is wrong.
pub proof fn law_decryption_request(
    opts: JsonModel,
    key: Seq<char>,
    version: Seq<char>,
    text: Seq<char>,
    name: Seq<char>,
)
    requires
        asks_for(opts, name),
    ensures
        ({
            let keyed = has_text(opts, "key"@, key);
            let versioned = keyed && has_text(opts, "version"@, version);
            let full = versioned && has_text(opts, "ciphertext"@, text);
            let request = decryption_of(opts);
            &&& lacks_text(opts, "key"@) ==> request == Err::<DecryptionModel, Seq<char>>(
                "missing "@ + "key"@,
            )
            &&& keyed && lacks_text(opts, "version"@) ==> request == Err::<
                DecryptionModel,
                Seq<char>,
            >("missing "@ + "version"@)
            &&& versioned && lacks_text(opts, "ciphertext"@) ==> request == Err::<
                DecryptionModel,
                Seq<char>,
            >("missing "@ + "ciphertext"@)
            &&& full && base64_read(text) is Err ==> request == Err::<DecryptionModel, Seq<char>>(
                "ciphertext base64: "@ + base64_read(text)->Err_0,
            )
            &&& full && base64_read(text) is Ok && algorithm_of(name) is Err ==> request == Err::<
                DecryptionModel,
                Seq<char>,
            >(algorithm_of(name)->Err_0)
            &&& full && base64_read(text) is Ok && algorithm_of(name) is Ok ==> {
                &&& request is Ok
                &&& request->Ok_0.key == key
                &&& request->Ok_0.version == version
                &&& Ok::<Algorithm, Seq<char>>(request->Ok_0.algorithm) == algorithm_of(name)
                &&& request->Ok_0.ciphertext == base64_read(text)->Ok_0
            }
        }),
{
}

/// What was read of a ciphertext decides before the algorithm does.
pub proof fn law_decryption_from_what_was_read(
    key: Seq<char>,
    version: Seq<char>,
    name: Seq<char>,
    decoded: Result<Seq<u8>, Seq<char>>,
)
    ensures
        ({
            let request = decryption_with(key, version, name, decoded);
            &&& decoded matches Err(e) ==> request == Err::<DecryptionModel, Seq<char>>(
                "ciphertext base64: "@ + e,
            )
            &&& decoded is Ok && algorithm_of(name) is Err ==> request == Err::<
                DecryptionModel,
                Seq<char>,
            >(algorithm_of(name)->Err_0)
            &&& decoded is Ok && algorithm_of(name) is Ok ==> request is Ok && request->Ok_0.key
                == key && request->Ok_0.version == version && request->Ok_0.ciphertext
                == decoded->Ok_0 && Ok::<Algorithm, Seq<char>>(request->Ok_0.algorithm)
                == algorithm_of(name)
        }),
{
}

/// An encryption and a decryption that ask for the same algorithm use the same one.
pub proof fn law_same_algorithm(encrypt: JsonModel, decrypt: JsonModel, name: Seq<char>)
    requires
        asks_for(encrypt, name),
        asks_for(decrypt, name),
        encryption_of(encrypt) is Ok,
        decryption_of(decrypt) is Ok,
    ensures
        encryption_of(encrypt)->Ok_0.algorithm == decryption_of(decrypt)->Ok_0.algorithm,
        encryption_of(encrypt)->Ok_0.algorithm_name == name,
{
}

/// An encryption is answered with the key, the name of the algorithm as it was asked for, the
/// ciphertext in Base64 and the id of the key.
pub proof fn law_encrypt_answer(request: Encryption, result: Option<Vec<u8>>, kid: Option<String>)
    ensures
        encrypt_json(request, result, kid) is Object,
        encrypt_json(request, result, kid)->Object_0.len() == 4,
        encrypt_json(request, result, kid).get("key"@) == Some(JsonModel::Text(request.key@)),
        encrypt_json(request, result, kid).get("algorithm"@)
            == Some(JsonModel::Text(request.algorithm_name@)),
        result is None ==>
            encrypt_json(request, result, kid).get("ciphertext"@) == Some(JsonModel::Null),
        result is Some ==>
            encrypt_json(request, result, kid).get("ciphertext"@)
            == Some(JsonModel::Text(base64_of(result->0@))),
        holds_text(encrypt_json(request, result, kid).get("kid"@), kid),
{
    broadcast use lemma_get_with;

    lemma_keys();
}

/// A decryption is answered with the key and the plaintext as text.
pub proof fn law_decrypt_answer(key: Seq<char>, result: Option<Vec<u8>>)
    ensures
        decrypt_json(key, result) is Object,
        decrypt_json(key, result)->Object_0.len() == 2,
        decrypt_json(key, result).get("key"@) == Some(JsonModel::Text(key)),
        result is None ==> decrypt_json(key, result).get("plaintext"@) == Some(JsonModel::Null),
        result is Some ==>
            decrypt_json(key, result).get("plaintext"@) == Some(JsonModel::Text(shown(result->0@))),
{
    broadcast use lemma_get_with;

    lemma_keys();
}

/// The parts of what a request asks for, each by its name.
pub proof fn law_request_parts(request: Encryption, asked: Decryption)
    ensures
        request@.key == request.key@,
        request@.algorithm_name == request.algorithm_name@,
        request@.algorithm == request.algorithm,
        request@.plaintext == request.plaintext@,
        asked@.key == asked.key@,
        asked@.version == asked.version@,
        asked@.algorithm == asked.algorithm,
        asked@.ciphertext == asked.ciphertext@,
{
}

/// What reading Base64 gave is its bytes, or the message of its error.
pub proof fn law_what_was_read(bytes: Vec<u8>, message: String)
    ensures
        decoded_view(Ok(bytes)) == Ok::<Seq<u8>, Seq<char>>(bytes@),
        decoded_view(Err(message)) == Err::<Seq<u8>, Seq<char>>(message@),
{
}

} // verus!
