//! Bytes and addresses as text: UTF-8, Base64 and URLs.
use vstd::prelude::*;
use vstd::string::*;
use vstd::utf8::{decode_utf8, encode_utf8, valid_utf8};

use crate::error::Error;

verus! {

/// The Base64 text of bytes.
pub uninterp spec fn base64_of(bytes: Seq<u8>) -> Seq<char>;

/// The bytes that a Base64 text stands for, or what is wrong with it.
pub uninterp spec fn base64_read(text: Seq<char>) -> Result<Seq<u8>, Seq<char>>;

/// How the URL that a text stands for is written, or what is wrong with it.
pub uninterp spec fn url_read(text: Seq<char>) -> Result<Seq<char>, Seq<char>>;

/// `base64`'s `Engine::encode` with the `STANDARD` engine: the bytes in the standard
/// alphabet, with padding. The result is a function of the bytes; it is not spelled
/// out here.
#[verifier::external_body]
pub(crate) fn base64_encode(bytes: &[u8]) -> (r: String)
    ensures
        r@ == base64_of(bytes@),
{
    base64::Engine::encode(&base64::engine::general_purpose::STANDARD, bytes)
}

/// `base64`'s `Engine::decode` with the `STANDARD` engine: the bytes, or the text of the
/// error. The result is a function of the text. It gives back what `Engine::encode` of
/// the same engine was given.
#[verifier::external_body]
pub(crate) fn base64_decode(text: &str) -> (r: Result<Vec<u8>, String>)
    ensures
        match r {
            Ok(bytes) => base64_read(text@) == Ok::<Seq<u8>, Seq<char>>(bytes@),
            Err(e) => base64_read(text@) == Err::<Seq<u8>, Seq<char>>(e@),
        },
        forall|bytes: Seq<u8>|
            text@ == #[trigger] base64_of(bytes) ==> r is Ok && r->Ok_0@ == bytes,
{
    match base64::Engine::decode(&base64::engine::general_purpose::STANDARD, text) {
        Ok(bytes) => Ok(bytes),
        Err(e) => Err(e.to_string()),
    }
}

/// `url`'s `Url::parse`: the serialization of the URL, or the text of the error. The
/// result is a function of the text; the rules of the URL standard are not spelled out
/// here.
#[verifier::external_body]
pub(crate) fn url_parse(text: &str) -> (r: Result<String, String>)
    ensures
        match r {
            Ok(url) => url_read(text@) == Ok::<Seq<char>, Seq<char>>(url@),
            Err(e) => url_read(text@) == Err::<Seq<char>, Seq<char>>(e@),
        },
{
    match url::Url::parse(text) {
        Ok(url) => Ok(url.to_string()),
        Err(e) => Err(e.to_string()),
    }
}

/// `std::str::from_utf8`: the text whose UTF-8 the bytes are, which exists exactly if
/// they are valid UTF-8.
#[verifier::external_body]
pub(crate) fn utf8_text(bytes: &[u8]) -> (r: Option<String>)
    ensures
        r is Some == valid_utf8(bytes@),
        r matches Some(s) ==> encode_utf8(s@) == bytes@,
{
    match std::str::from_utf8(bytes) {
        Ok(s) => Some(s.to_owned()),
        Err(_) => None,
    }
}

/// Bytes as text: themselves where they are UTF-8, and otherwise `base64:` and their
/// Base64 text.
pub open spec fn shown(bytes: Seq<u8>) -> Seq<char> {
    if valid_utf8(bytes) {
        decode_utf8(bytes)
    } else {
        "base64:"@ + base64_of(bytes)
    }
}

/// The mark of bytes that are not UTF-8, before their Base64 text.
pub fn base64_marked(encoded: &str) -> (r: String)
    ensures
        r@ == "base64:"@ + encoded@,
{
    let mut r = "base64:".to_owned();
    r.append(encoded);
    r
}

/// Bytes as text.
pub fn shown_text(bytes: &[u8]) -> (r: String)
    ensures
        r@ == shown(bytes@),
{
    broadcast use vstd::utf8::encode_utf8_decode_utf8;

    match utf8_text(bytes) {
        Some(s) => s,
        None => base64_marked(base64_encode(bytes).as_str()),
    }
}

/// What is made of the outcome of reading a URL: its text, or an error with the
/// message.
pub fn url_outcome(read: Result<String, String>) -> (r: Result<String, Error>)
    ensures
        match read {
            Ok(url) => r is Ok && r->Ok_0@ == url@,
            Err(e) => r is Err && r->Err_0@ == e@,
        },
{
    match read {
        Ok(url) => Ok(url),
        Err(message) => Err(Error { message }),
    }
}

/// The URL that a text stands for, as it is written.
pub fn read_url(text: &str) -> (r: Result<String, Error>)
    ensures
        crate::error::text_outcome(r) == url_read(text@),
{
    url_outcome(url_parse(text))
}

/// Text that was shown comes back as its bytes: UTF-8 of the text is the bytes.
pub proof fn law_shown_text_keeps_utf8(text: Seq<char>)
    ensures
        shown(encode_utf8(text)) == text,
{
    broadcast use {vstd::utf8::encode_utf8_decode_utf8, vstd::utf8::encode_utf8_valid_utf8};

}

/// Bytes that are no UTF-8 are shown as `base64:` and their Base64 text, and bytes that are
/// as the text whose UTF-8 they are.
pub proof fn law_shown_bytes(bytes: Seq<u8>)
    ensures
        valid_utf8(bytes) ==> encode_utf8(shown(bytes)) == bytes,
        !valid_utf8(bytes) ==> shown(bytes) == "base64:"@ + base64_of(bytes),
{
    if valid_utf8(bytes) {
        vstd::utf8::decode_utf8_encode_utf8(bytes);
    }
}

} // verus!
