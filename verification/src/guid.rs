//! GUIDs: the identifiers of subscriptions, tenants and clients, in the forms in which
//! they are written.
use vstd::prelude::*;
use vstd::string::*;
use vstd::utf8::{
    encode_utf8, encode_utf8_decode_utf8, is_ascii_chars, is_ascii_chars_encode_utf8,
    is_char_boundary, is_char_boundary_iff_is_leading_byte,
    is_char_boundary_iff_not_is_continuation_byte, is_char_boundary_start_end_of_seq,
    is_leading_byte_width_1, valid_utf8,
};

use crate::error::{missing, outcome, text_outcome, Error};
use crate::json::{empty_object, well_formed, Json, JsonModel};
use crate::names::{accepts, lemma_ascii_len, refuses, verdict, verdict_json, Class};
use crate::options::{aliased, aliased_str, has_text, has_text_or, lacks_text_or, opt_str};
use crate::text::{
    all_white, ascii_lower, bare_ends, chars_of, lemma_join_split, lemma_split_concat,
    lemma_split_free, lemma_trim_same,
    lower, opt_view, pieces_of, split_on, texts, to_upper, trim, trimmed, upper, utf8_len,
};

verus! {

/// Thirty-two digits in groups of 8, 4, 4, 4 and 12 with a dash between them.
pub open spec fn grouped<T>(digits: Seq<T>, dash: T) -> Seq<T> {
    digits.subrange(0, 8).push(dash) + (digits.subrange(8, 12).push(dash) + (digits.subrange(
        12,
        16,
    ).push(dash) + (digits.subrange(16, 20).push(dash) + digits.subrange(20, 32))))
}

/// Why a text is no GUID in the form 8-4-4-4-12.
pub open spec fn guid_fault(guid: Seq<char>) -> Option<Seq<char>> {
    let groups = split_on(guid, '-');
    if utf8_len(guid) != 36 {
        Some("must be 36 characters (8-4-4-4-12)"@)
    } else if !(groups.len() == 5 && utf8_len(groups[0]) == 8 && utf8_len(groups[1]) == 4
        && utf8_len(groups[2]) == 4 && utf8_len(groups[3]) == 4 && utf8_len(groups[4]) == 12) {
        Some("must be five hyphen-separated groups of 8-4-4-4-12"@)
    } else if !(forall|i: int|
        0 <= i < groups.len() ==> Class::HexDigit.has_all(#[trigger] groups[i])) {
        Some("must contain only hexadecimal digits"@)
    } else {
        None
    }
}

/// What stands in the braces or parentheses around a text, or the text if there are
/// none.
pub open spec fn unwrapped(s: Seq<char>) -> Seq<char> {
    if s.len() >= 2 && (s.first() == '{' && s.last() == '}' || s.first() == '(' && s.last() == ')') {
        s.subrange(1, s.len() - 1)
    } else {
        s
    }
}

/// The characters of a text but the hyphens, in lower case.
pub open spec fn bare(s: Seq<char>) -> Seq<char>
    decreases s.len(),
{
    if s.len() == 0 {
        Seq::empty()
    } else if s.last() == '-' {
        bare(s.drop_last())
    } else {
        bare(s.drop_last()).push(ascii_lower(s.last()))
    }
}

/// Thirty-two hexadecimal digits.
pub open spec fn is_guid_hex(s: Seq<char>) -> bool {
    s.len() == 32 && Class::HexDigit.has_all(s)
}

/// The digits of a GUID in any form: white space, a pair of braces or parentheses, and
/// hyphens are left out.
pub open spec fn digits_of(raw: Seq<char>) -> Result<Seq<char>, Seq<char>> {
    let digits = bare(unwrapped(trim(raw)));
    if is_guid_hex(digits) {
        Ok(digits)
    } else {
        Err("not a GUID `"@ + raw + "` (need 32 hexadecimal digits)"@)
    }
}

/// What `op_valid_guid` answers.
pub open spec fn valid_answer(opts: JsonModel) -> Result<JsonModel, Seq<char>> {
    match aliased(opts, "guid"@, "id"@) {
        None => Err(missing("guid"@)),
        Some(guid) => Ok(verdict("guid"@, guid, guid_fault(guid))),
    }
}

/// The canonical form of a GUID.
pub open spec fn normalized(raw: Seq<char>) -> Result<Seq<char>, Seq<char>> {
    match digits_of(raw) {
        Ok(digits) => Ok(grouped(digits, '-')),
        Err(e) => Err(e),
    }
}

/// What `op_normalize_guid` answers.
pub open spec fn normalize_answer(opts: JsonModel) -> Result<JsonModel, Seq<char>> {
    match aliased(opts, "guid"@, "id"@) {
        None => Err(missing("guid"@)),
        Some(raw) => match normalized(raw) {
            Ok(guid) => Ok(
                empty_object().with("input"@, JsonModel::Text(raw)).with(
                    "guid"@,
                    JsonModel::Text(guid),
                ),
            ),
            Err(e) => Err(e),
        },
    }
}

/// A GUID in the form that a format specifier in upper case asks for.
pub open spec fn formatted(raw: Seq<char>, format: Seq<char>) -> Result<Seq<char>, Seq<char>> {
    match digits_of(raw) {
        Err(e) => Err(e),
        Ok(digits) => if format == "N"@ {
            Ok(digits)
        } else if format == "D"@ {
            Ok(grouped(digits, '-'))
        } else if format == "B"@ {
            Ok(seq!['{'] + grouped(digits, '-').push('}'))
        } else if format == "P"@ {
            Ok(seq!['('] + grouped(digits, '-').push(')'))
        } else {
            Err("unsupported GUID format `"@ + format + "` (want N, D, B, or P)"@)
        },
    }
}

/// What `op_format_guid` answers.
pub open spec fn format_answer(opts: JsonModel) -> Result<JsonModel, Seq<char>> {
    let format = upper(
        match opts.text_at("format"@) {
            Some(s) => s,
            None => "D"@,
        },
    );
    match aliased(opts, "guid"@, "id"@) {
        None => Err(missing("guid"@)),
        Some(raw) => match formatted(raw, format) {
            Ok(guid) => Ok(
                empty_object().with("input"@, JsonModel::Text(raw)).with(
                    "format"@,
                    JsonModel::Text(format),
                ).with("guid"@, JsonModel::Text(guid)),
            ),
            Err(e) => Err(e),
        },
    }
}

/// Why a text is no GUID in the form 8-4-4-4-12.
pub fn guid_reason(guid: &str) -> (r: Option<&'static str>)
    ensures
        opt_view(r) == guid_fault(guid@),
{
    let groups = pieces_of(guid, '-');
    let ghost all = split_on(guid@, '-');
    assert(forall|i: int| 0 <= i < all.len() ==> all[i] == (#[trigger] groups@[i])@) by {
        assert forall|i: int| 0 <= i < all.len() implies all[i] == (#[trigger] groups@[i])@ by {
            assert(texts(groups@)[i] == groups@[i]@);
        }
    }
    if guid.as_bytes().len() != 36 {
        return Some("must be 36 characters (8-4-4-4-12)");
    }
    if groups.len() != 5 || groups[0].as_str().as_bytes().len() != 8
        || groups[1].as_str().as_bytes().len() != 4 || groups[2].as_str().as_bytes().len() != 4
        || groups[3].as_str().as_bytes().len() != 4 || groups[4].as_str().as_bytes().len() != 12 {
        return Some("must be five hyphen-separated groups of 8-4-4-4-12");
    }
    let mut i: usize = 0;
    while i < groups.len()
        invariant
            i <= groups@.len(),
            all == split_on(guid@, '-'),
            all == texts(groups@),
            utf8_len(guid@) == 36,
            groups@.len() == 5,
            utf8_len(all[0]) == 8,
            utf8_len(all[1]) == 4,
            utf8_len(all[2]) == 4,
            utf8_len(all[3]) == 4,
            utf8_len(all[4]) == 12,
            forall|j: int| 0 <= j < i ==> Class::HexDigit.has_all(#[trigger] all[j]),
        decreases groups.len() - i,
    {
        if !Class::HexDigit.holds_all(groups[i].as_str()) {
            assert(!Class::HexDigit.has_all(all[i as int]));
            return Some("must contain only hexadecimal digits");
        }
        i = i + 1;
    }
    None
}

/// The digits of a GUID in any form.
pub fn guid_hex(raw: &str) -> (r: Result<String, Error>)
    ensures
        text_outcome(r) == digits_of(raw@),
{
    let chars = chars_of(trimmed(raw).as_str());
    let n: usize = chars.len();
    let wrapped = n >= 2 && ((chars[0] == '{' && chars[n - 1] == '}') || (chars[0] == '('
        && chars[n - 1] == ')'));
    let lo: usize = if wrapped {
        1
    } else {
        0
    };
    let hi: usize = if wrapped {
        n - 1
    } else {
        n
    };
    let ghost inner = unwrapped(trim(raw@));
    assert(chars@.subrange(0, n as int) =~= chars@);
    assert(inner == chars@.subrange(lo as int, hi as int));
    let mut hex = String::new();
    let mut i: usize = lo;
    while i < hi
        invariant
            lo <= i <= hi <= chars@.len(),
            inner == chars@.subrange(lo as int, hi as int),
            hex@ == bare(inner.take(i - lo)),
        decreases hi - i,
    {
        let c = chars[i];
        proof {
            assert(inner.take(i - lo + 1).drop_last() =~= inner.take(i - lo));
            assert(inner.take(i - lo + 1).last() == c);
        }
        if c != '-' {
            if 'A' <= c && c <= 'Z' {
                hex.push((c as u8 + 32) as char);
            } else {
                hex.push(c);
            }
        }
        i = i + 1;
    }
    assert(inner.take(inner.len() as int) =~= inner);
    if hex.as_str().unicode_len() == 32 && Class::HexDigit.holds_all(hex.as_str()) {
        Ok(hex)
    } else {
        Err(Error::about("not a GUID `", raw, "` (need 32 hexadecimal digits)"))
    }
}

/// The bytes of two texts put together.
proof fn lemma_encode_add(a: Seq<char>, b: Seq<char>)
    ensures
        encode_utf8(a + b) == encode_utf8(a) + encode_utf8(b),
    decreases a.len(),
{
    if a.len() == 0 {
        assert(a + b =~= b);
        assert(encode_utf8(a) + encode_utf8(b) =~= encode_utf8(b));
    } else {
        assert((a + b).drop_first() =~= a.drop_first() + b);
        lemma_encode_add(a.drop_first(), b);
        assert(encode_utf8(a + b) =~= encode_utf8(a) + encode_utf8(b));
    }
}

/// A border between characters is one in a shorter text that goes on beyond it.
proof fn lemma_boundary_in_front(all: Seq<u8>, front: Seq<u8>, index: int)
    requires
        valid_utf8(all),
        valid_utf8(front),
        0 <= index < front.len() <= all.len(),
        front == all.subrange(0, front.len() as int),
        is_char_boundary(all, index),
    ensures
        is_char_boundary(front, index),
{
    is_char_boundary_iff_not_is_continuation_byte(all, index);
    is_char_boundary_iff_not_is_continuation_byte(front, index);
    assert(front[index] == all[index]);
}

/// The part of a text from one byte up to another.
fn byte_range<'a>(s: &'a str, lo: usize, hi: usize) -> (r: &'a str)
    requires
        lo < hi <= encode_utf8(s@).len(),
        is_char_boundary(encode_utf8(s@), lo as int),
        is_char_boundary(encode_utf8(s@), hi as int),
    ensures
        encode_utf8(r@) == encode_utf8(s@).subrange(lo as int, hi as int),
{
    broadcast use vstd::utf8::encode_utf8_valid_utf8;

    let front = s.split_at(hi).0;
    proof {
        lemma_boundary_in_front(encode_utf8(s@), encode_utf8(front@), lo as int);
    }
    let r = front.split_at(lo).1;
    assert(encode_utf8(r@) =~= encode_utf8(s@).subrange(lo as int, hi as int));
    r
}

/// The bytes of a hyphen after a text.
proof fn lemma_encode_hyphen(s: Seq<char>)
    ensures
        encode_utf8(s.push('-')) == encode_utf8(s).push(0x2d),
{
    let dash = seq!['-'];
    is_ascii_chars_encode_utf8(dash);
    assert(encode_utf8(dash) =~= seq![0x2du8]);
    lemma_encode_add(s, dash);
    assert(s + dash =~= s.push('-'));
    assert(encode_utf8(s) + seq![0x2du8] =~= encode_utf8(s).push(0x2d));
}

/// For ASCII text grouping the bytes is grouping the characters.
proof fn lemma_grouped_ascii(hex: Seq<char>, r: Seq<char>)
    requires
        is_ascii_chars(hex),
        hex.len() >= 32,
        encode_utf8(r) == grouped(encode_utf8(hex), 0x2d),
    ensures
        r == grouped(hex, '-'),
{
    let t = grouped(hex, '-');
    is_ascii_chars_encode_utf8(hex);
    assert(is_ascii_chars(t)) by {
        assert forall|i: int| 0 <= i < t.len() implies '\0' <= #[trigger] t[i] <= '\u{7f}' by {
            assert(t[i] == '-' || exists|j: int| 0 <= j < hex.len() && t[i] == hex[j]);
        }
    }
    is_ascii_chars_encode_utf8(t);
    assert(encode_utf8(t) =~= grouped(encode_utf8(hex), 0x2d));
    encode_utf8_decode_utf8(r);
    encode_utf8_decode_utf8(t);
}

/// Every border between ASCII characters is one between characters.
proof fn lemma_ascii_boundaries(s: Seq<char>, index: int)
    requires
        is_ascii_chars(s),
        0 <= index <= s.len(),
    ensures
        encode_utf8(s).len() == s.len(),
        is_char_boundary(encode_utf8(s), index),
{
    broadcast use vstd::utf8::encode_utf8_valid_utf8;

    is_ascii_chars_encode_utf8(s);
    if index == s.len() {
        is_char_boundary_start_end_of_seq(encode_utf8(s));
    } else {
        is_char_boundary_iff_is_leading_byte(encode_utf8(s), index);
        let b = encode_utf8(s)[index];
        assert(s[index] as u8 == b);
        assert(b < 0x80 ==> is_leading_byte_width_1(b)) by (bit_vector);
    }
}

/// The first 32 bytes of a text in groups of 8, 4, 4, 4 and 12 with hyphens between
/// them. No character may stand across the border of a group.
pub fn guid_hyphenate(hex: &str) -> (r: String)
    requires
        encode_utf8(hex@).len() >= 32,
        is_char_boundary(encode_utf8(hex@), 8),
        is_char_boundary(encode_utf8(hex@), 12),
        is_char_boundary(encode_utf8(hex@), 16),
        is_char_boundary(encode_utf8(hex@), 20),
        is_char_boundary(encode_utf8(hex@), 32),
    ensures
        encode_utf8(r@) == grouped(encode_utf8(hex@), 0x2d),
        is_ascii_chars(hex@) ==> r@ == grouped(hex@, '-'),
{
    broadcast use {vstd::utf8::encode_utf8_valid_utf8, vstd::utf8::is_char_boundary_start_end_of_seq};

    let ghost all = encode_utf8(hex@);
    let a = byte_range(hex, 0, 8);
    let b = byte_range(hex, 8, 12);
    let c = byte_range(hex, 12, 16);
    let d = byte_range(hex, 16, 20);
    let e = byte_range(hex, 20, 32);
    let mut r = a.to_owned();
    r.push('-');
    r.append(b);
    r.push('-');
    r.append(c);
    r.push('-');
    r.append(d);
    r.push('-');
    r.append(e);
    proof {
        lemma_encode_hyphen(a@);
        lemma_encode_hyphen(b@);
        lemma_encode_hyphen(c@);
        lemma_encode_hyphen(d@);
        let s4 = d@.push('-') + e@;
        let s3 = c@.push('-') + s4;
        let s2 = b@.push('-') + s3;
        lemma_encode_add(d@.push('-'), e@);
        lemma_encode_add(c@.push('-'), s4);
        lemma_encode_add(b@.push('-'), s3);
        lemma_encode_add(a@.push('-'), s2);
        assert(r@ =~= a@.push('-') + s2);
        if is_ascii_chars(hex@) {
            is_ascii_chars_encode_utf8(hex@);
            lemma_grouped_ascii(hex@, r@);
        }
    }
    r
}

/// The canonical form of a GUID.
pub fn normalize_guid(raw: &str) -> (r: Result<String, Error>)
    ensures
        text_outcome(r) == normalized(raw@),
{
    match guid_hex(raw) {
        Err(e) => Err(e),
        Ok(hex) => {
            proof {
                lemma_ascii_len(Class::HexDigit, hex@);
                lemma_ascii_boundaries(hex@, 8);
                lemma_ascii_boundaries(hex@, 12);
                lemma_ascii_boundaries(hex@, 16);
                lemma_ascii_boundaries(hex@, 20);
                lemma_ascii_boundaries(hex@, 32);
            }
            Ok(guid_hyphenate(hex.as_str()))
        },
    }
}

/// A text between two characters.
fn enclosed(open: char, s: &str, close: char) -> (r: String)
    ensures
        r@ == seq![open] + s@.push(close),
{
    let mut r = String::new();
    r.push(open);
    r.append(s);
    r.push(close);
    assert(r@ =~= seq![open] + s@.push(close));
    r
}

/// A GUID in the form that a format specifier in upper case asks for.
pub fn format_guid(raw: &str, format: &str) -> (r: Result<String, Error>)
    ensures
        text_outcome(r) == formatted(raw@, format@),
{
    let d = match normalize_guid(raw) {
        Ok(d) => d,
        Err(e) => {
            return Err(e);
        },
    };
    if *format == *"N" {
        guid_hex(raw)
    } else if *format == *"D" {
        Ok(d)
    } else if *format == *"B" {
        Ok(enclosed('{', d.as_str(), '}'))
    } else if *format == *"P" {
        Ok(enclosed('(', d.as_str(), ')'))
    } else {
        Err(Error::about("unsupported GUID format `", format, "` (want N, D, B, or P)"))
    }
}

/// Validates the GUID under `guid` (or `id`).
pub fn op_valid_guid(opts: Json) -> (r: Result<Json, Error>)
    ensures
        outcome(r) == valid_answer(opts@),
{
    match aliased_str(&opts, "guid", "id") {
        None => Err(Error::missing("guid")),
        Some(guid) => Ok(verdict_json("guid", guid, guid_reason(guid))),
    }
}

/// Gives the canonical form of the GUID under `guid` (or `id`).
pub fn op_normalize_guid(opts: Json) -> (r: Result<Json, Error>)
    ensures
        outcome(r) == normalize_answer(opts@),
{
    match aliased_str(&opts, "guid", "id") {
        None => Err(Error::missing("guid")),
        Some(raw) => match normalize_guid(raw) {
            Ok(guid) => Ok(
                Json::empty().with("input", Json::text(raw)).with("guid", Json::Text(guid)),
            ),
            Err(e) => Err(e),
        },
    }
}

/// Writes the GUID under `guid` (or `id`) in the form that `format` asks for.
pub fn op_format_guid(opts: Json) -> (r: Result<Json, Error>)
    ensures
        outcome(r) == format_answer(opts@),
{
    let raw = match aliased_str(&opts, "guid", "id") {
        Some(raw) => raw,
        None => {
            return Err(Error::missing("guid"));
        },
    };
    let format = to_upper(
        match opt_str(&opts, "format") {
            Some(s) => s,
            None => "D",
        },
    );
    match format_guid(raw, format.as_str()) {
        Ok(guid) => Ok(
            Json::empty().with("input", Json::text(raw)).with("format", Json::Text(format)).with(
                "guid",
                Json::Text(guid),
            ),
        ),
        Err(e) => Err(e),
    }
}

proof fn lemma_bare_add(a: Seq<char>, b: Seq<char>)
    ensures
        bare(a + b) == bare(a) + bare(b),
    decreases b.len(),
{
    if b.len() == 0 {
        assert(a + b =~= a);
        assert(bare(a) + bare(b) =~= bare(a));
    } else {
        lemma_bare_add(a, b.drop_last());
        assert((a + b).drop_last() =~= a + b.drop_last());
        assert(bare(a + b) =~= bare(a) + bare(b));
    }
}

proof fn lemma_bare_hex(s: Seq<char>)
    requires
        Class::HexDigit.has_all(s),
    ensures
        bare(s) == lower(s),
        bare(s.push('-')) == lower(s),
    decreases s.len(),
{
    assert(s.push('-').drop_last() =~= s);
    if s.len() == 0 {
        assert(bare(s) =~= lower(s));
    } else {
        let front = s.drop_last();
        assert(Class::HexDigit.has(s[s.len() - 1]));
        assert forall|i: int| 0 <= i < front.len() implies Class::HexDigit.has(#[trigger] front[i]) by {
            assert(Class::HexDigit.has(s[i]));
        }
        lemma_bare_hex(front);
        assert(bare(s) =~= lower(s));
    }
}

/// The digits are in lower case already.
proof fn lemma_bare_lower(s: Seq<char>)
    ensures
        lower(bare(s)) == bare(s),
    decreases s.len(),
{
    if s.len() == 0 {
        assert(lower(bare(s)) =~= bare(s));
    } else {
        lemma_bare_lower(s.drop_last());
        if s.last() != '-' {
            let front = bare(s.drop_last());
            let c = ascii_lower(s.last());
            assert(ascii_lower(c) == c);
            assert(lower(front.push(c)) =~= lower(front).push(c));
        }
    }
}

/// The groups of 32 digits.
proof fn lemma_groups(hex: Seq<char>)
    requires
        is_guid_hex(hex),
    ensures
        split_on(grouped(hex, '-'), '-') == seq![
            hex.subrange(0, 8),
            hex.subrange(8, 12),
            hex.subrange(12, 16),
            hex.subrange(16, 20),
            hex.subrange(20, 32),
        ],
        forall|lo: int, hi: int|
            0 <= lo <= hi <= 32 ==> Class::HexDigit.has_all(#[trigger] hex.subrange(lo, hi)),
{
    assert forall|lo: int, hi: int| 0 <= lo <= hi <= 32 implies Class::HexDigit.has_all(
        #[trigger] hex.subrange(lo, hi),
    ) by {
        let part = hex.subrange(lo, hi);
        assert forall|i: int| 0 <= i < part.len() implies Class::HexDigit.has(#[trigger] part[i]) by {
            assert(Class::HexDigit.has(hex[lo + i]));
        }
    }
    let a = hex.subrange(0, 8);
    let b = hex.subrange(8, 12);
    let c = hex.subrange(12, 16);
    let d = hex.subrange(16, 20);
    let e = hex.subrange(20, 32);
    lemma_hex_one_piece(a);
    lemma_hex_one_piece(b);
    lemma_hex_one_piece(c);
    lemma_hex_one_piece(d);
    lemma_hex_one_piece(e);
    let s4 = d.push('-') + e;
    let s3 = c.push('-') + s4;
    let s2 = b.push('-') + s3;
    lemma_split_concat(d, e, '-');
    lemma_split_concat(c, s4, '-');
    lemma_split_concat(b, s3, '-');
    lemma_split_concat(a, s2, '-');
    assert(split_on(grouped(hex, '-'), '-') =~= seq![a, b, c, d, e]);
}

proof fn lemma_hex_one_piece(s: Seq<char>)
    requires
        Class::HexDigit.has_all(s),
    ensures
        split_on(s, '-') == seq![s],
{
    if s.contains('-') {
        let i = s.index_of('-');
        assert(Class::HexDigit.has(s[i]));
    }
    lemma_split_free(s, '-');
}

/// Grouping adds hyphens only.
proof fn lemma_bare_grouped(hex: Seq<char>)
    requires
        is_guid_hex(hex),
    ensures
        bare(grouped(hex, '-')) == lower(hex),
{
    lemma_groups(hex);
    let a = hex.subrange(0, 8);
    let b = hex.subrange(8, 12);
    let c = hex.subrange(12, 16);
    let d = hex.subrange(16, 20);
    let e = hex.subrange(20, 32);
    lemma_bare_hex(a);
    lemma_bare_hex(b);
    lemma_bare_hex(c);
    lemma_bare_hex(d);
    lemma_bare_hex(e);
    let s4 = d.push('-') + e;
    let s3 = c.push('-') + s4;
    let s2 = b.push('-') + s3;
    lemma_bare_add(d.push('-'), e);
    lemma_bare_add(c.push('-'), s4);
    lemma_bare_add(b.push('-'), s3);
    lemma_bare_add(a.push('-'), s2);
    assert(bare(grouped(hex, '-')) =~= lower(hex));
}

proof fn lemma_lower_hex(hex: Seq<char>)
    requires
        is_guid_hex(hex),
    ensures
        is_guid_hex(lower(hex)),
{
    assert forall|i: int| 0 <= i < lower(hex).len() implies Class::HexDigit.has(
        #[trigger] lower(hex)[i],
    ) by {
        assert(Class::HexDigit.has(hex[i]));
    }
}

/// A text in braces or parentheses, or one that begins with a digit, reads as what
/// stands inside.
proof fn lemma_reads_as(s: Seq<char>, inner: Seq<char>)
    requires
        inner.len() > 0,
        Class::HexDigit.has(inner.first()),
        Class::HexDigit.has(inner.last()),
        s == inner || s == seq!['{'] + inner.push('}') || s == seq!['('] + inner.push(')'),
    ensures
        unwrapped(trim(s)) == inner,
{
    lemma_trim_same(s);
    if s != inner {
        assert(s.subrange(1, s.len() - 1) =~= inner);
    }
}

/// Every form of a GUID has the digits of the GUID.
pub proof fn law_every_form_has_the_same_digits(raw: Seq<char>, format: Seq<char>)
    requires
        formatted(raw, format) is Ok,
    ensures
        digits_of(formatted(raw, format)->Ok_0) == digits_of(raw),
{
    let hex = digits_of(raw)->Ok_0;
    let d = grouped(hex, '-');
    lemma_bare_lower(unwrapped(trim(raw)));
    lemma_bare_grouped(hex);
    lemma_bare_hex(hex);
    assert(Class::HexDigit.has(hex[0]));
    assert(Class::HexDigit.has(hex[31]));
    assert(d.first() == hex[0]);
    assert(d.last() == hex[31]);
    let s = formatted(raw, format)->Ok_0;
    if format == "N"@ {
        lemma_reads_as(s, hex);
    } else {
        lemma_reads_as(s, d);
    }
}

/// The canonical form is the form `D`.
pub proof fn law_canonical_is_form_d(raw: Seq<char>)
    ensures
        normalized(raw) == formatted(raw, "D"@),
{
    reveal_strlit("N");
    reveal_strlit("D");
    assert("N"@[0] != "D"@[0]);
}

/// The canonical form of a canonical form is itself.
pub proof fn law_normalizing_twice(raw: Seq<char>)
    requires
        normalized(raw) is Ok,
    ensures
        normalized(normalized(raw)->Ok_0) == normalized(raw),
{
    law_canonical_is_form_d(raw);
    law_every_form_has_the_same_digits(raw, "D"@);
}

/// A text is a valid GUID exactly if it is 32 hexadecimal digits in groups of 8, 4, 4,
/// 4 and 12 with hyphens between them.
pub proof fn law_valid_guids(guid: Seq<char>)
    ensures
        guid_fault(guid) is None <==> exists|hex: Seq<char>| #[trigger]
            is_guid_hex(hex) && guid == grouped(hex, '-'),
{
    if guid_fault(guid) is None {
        let groups = split_on(guid, '-');
        assert forall|i: int| 0 <= i < 5 implies utf8_len(#[trigger] groups[i]) == groups[i].len() by {
            assert(Class::HexDigit.has_all(groups[i]));
            lemma_ascii_len(Class::HexDigit, groups[i]);
        }
        let (a, b, c, d, e) = (groups[0], groups[1], groups[2], groups[3], groups[4]);
        let hex = a + b + c + d + e;
        assert forall|i: int| 0 <= i < hex.len() implies Class::HexDigit.has(#[trigger] hex[i]) by {
            assert(Class::HexDigit.has_all(a) && Class::HexDigit.has_all(b)
                && Class::HexDigit.has_all(c) && Class::HexDigit.has_all(d)
                && Class::HexDigit.has_all(e));
            if i < 8 {
                assert(hex[i] == a[i]);
            } else if i < 12 {
                assert(hex[i] == b[i - 8]);
            } else if i < 16 {
                assert(hex[i] == c[i - 12]);
            } else if i < 20 {
                assert(hex[i] == d[i - 16]);
            } else {
                assert(hex[i] == e[i - 20]);
            }
        }
        assert(is_guid_hex(hex));
        assert(hex.subrange(0, 8) =~= a);
        assert(hex.subrange(8, 12) =~= b);
        assert(hex.subrange(12, 16) =~= c);
        assert(hex.subrange(16, 20) =~= d);
        assert(hex.subrange(20, 32) =~= e);
        lemma_groups(hex);
        assert(split_on(grouped(hex, '-'), '-') =~= groups);
        lemma_join_split(guid, '-');
        lemma_join_split(grouped(hex, '-'), '-');
        assert(guid == grouped(hex, '-'));
    }
    if exists|hex: Seq<char>| #[trigger] is_guid_hex(hex) && guid == grouped(hex, '-') {
        let hex = choose|hex: Seq<char>| #[trigger] is_guid_hex(hex) && guid == grouped(hex, '-');
        lemma_groups(hex);
        let groups = split_on(guid, '-');
        assert forall|i: int| 0 <= i < 5 implies Class::HexDigit.has_all(#[trigger] groups[i])
            && utf8_len(groups[i]) == groups[i].len() by {
            lemma_ascii_len(Class::HexDigit, groups[i]);
        }
        assert(is_ascii_chars(guid)) by {
            assert forall|i: int| 0 <= i < guid.len() implies '\0' <= #[trigger] guid[i]
                <= '\u{7f}' by {
                assert(guid[i] == '-' || exists|j: int| 0 <= j < hex.len() && guid[i] == hex[j]);
                if guid[i] != '-' {
                    let j = choose|j: int| 0 <= j < hex.len() && guid[i] == hex[j];
                    assert(Class::HexDigit.has(hex[j]));
                }
            }
        }
        is_ascii_chars_encode_utf8(guid);
    }
}

/// The canonical form of a GUID is valid and in lower case.
pub proof fn law_canonical_is_valid(raw: Seq<char>)
    requires
        normalized(raw) is Ok,
    ensures
        guid_fault(normalized(raw)->Ok_0) is None,
        lower(normalized(raw)->Ok_0) == normalized(raw)->Ok_0,
{
    assert(is_guid_hex(digits_of(raw)->Ok_0));
    law_valid_guids(normalized(raw)->Ok_0);
    law_normalizing_twice(raw);
    law_valid_guids_normalize_to_lower_case(normalized(raw)->Ok_0);
}

/// The canonical form of a valid GUID is the GUID in lower case.
pub proof fn law_valid_guids_normalize_to_lower_case(guid: Seq<char>)
    requires
        guid_fault(guid) is None,
    ensures
        normalized(guid) == Ok::<Seq<char>, Seq<char>>(lower(guid)),
{
    law_valid_guids(guid);
    let hex = choose|hex: Seq<char>| #[trigger] is_guid_hex(hex) && guid == grouped(hex, '-');
    lemma_bare_grouped(hex);
    lemma_lower_hex(hex);
    assert(Class::HexDigit.has(hex[0]));
    assert(Class::HexDigit.has(hex[31]));
    assert(guid.first() == hex[0]);
    assert(guid.last() == hex[31]);
    lemma_reads_as(guid, guid);
    assert(grouped(lower(hex), '-') =~= lower(guid));
}

/// Formatting without a format answers the GUID that normalizing answers, and fails as
/// normalizing does.
pub proof fn law_default_form_is_canonical(opts: JsonModel)
    requires
        opts.text_at("format"@) is None,
    ensures
        match (format_answer(opts), normalize_answer(opts)) {
            (Ok(f), Ok(n)) => {
                &&& f.text_at("guid"@) is Some
                &&& f.text_at("guid"@) == n.text_at("guid"@)
                &&& f.get("input"@) == n.get("input"@)
                &&& f.get("format"@) == Some(JsonModel::Text("D"@))
            },
            (Err(a), Err(b)) => a == b,
            _ => false,
        },
{
    broadcast use crate::json::lemma_get_with;

    reveal_strlit("D");
    reveal_strlit("N");
    reveal_strlit("input");
    reveal_strlit("format");
    reveal_strlit("guid");
    assert(upper("D"@) =~= "D"@);
    assert("N"@[0] != "D"@[0]);
    assert("input"@.len() == 5);
    assert("format"@.len() == 6);
    assert("guid"@.len() == 4);
}

/// The keys that stand in one object are distinct.
proof fn lemma_keys()
    ensures
        "guid"@ != "valid"@,
        "guid"@ != "reason"@,
        "valid"@ != "reason"@,
        "input"@ != "format"@,
        "input"@ != "guid"@,
        "format"@ != "guid"@,
{
    reveal_strlit("guid");
    reveal_strlit("valid");
    reveal_strlit("reason");
    reveal_strlit("input");
    reveal_strlit("format");
    assert("guid"@.len() == 4);
    assert("valid"@.len() == 5);
    assert("reason"@.len() == 6);
    assert("input"@.len() == 5);
    assert("format"@.len() == 6);
}

/// The answers are well-formed.
pub proof fn law_answers_are_well_formed(opts: JsonModel)
    ensures
        valid_answer(opts) matches Ok(v) ==> well_formed(v),
        normalize_answer(opts) matches Ok(v) ==> well_formed(v),
        format_answer(opts) matches Ok(v) ==> well_formed(v),
{
    broadcast use {crate::json::lemma_get_with, crate::json::lemma_well_formed_with};

    lemma_keys();
}

/// A hexadecimal digit.
pub open spec fn hex_digit(c: char) -> bool {
    '0' <= c <= '9' || 'a' <= c <= 'f' || 'A' <= c <= 'F'
}

/// Thirty-six characters: hyphens after the first 8, 4, 4 and 4 digits, and hexadecimal
/// digits everywhere else.
pub open spec fn guid_shape(s: Seq<char>) -> bool {
    s.len() == 36 && forall|i: int|
        0 <= i < 36 ==> if i == 8 || i == 13 || i == 18 || i == 23 {
            #[trigger] s[i] == '-'
        } else {
            hex_digit(s[i])
        }
}

/// Five groups of 8, 4, 4, 4 and 12 bytes with hyphens between them.
pub open spec fn five_groups(
    s: Seq<char>,
    a: Seq<char>,
    b: Seq<char>,
    c: Seq<char>,
    d: Seq<char>,
    e: Seq<char>,
) -> bool {
    &&& s == a.push('-') + (b.push('-') + (c.push('-') + (d.push('-') + e)))
    &&& !a.contains('-') && !b.contains('-') && !c.contains('-') && !d.contains('-')
        && !e.contains('-')
    &&& encode_utf8(a).len() == 8 && encode_utf8(b).len() == 4 && encode_utf8(c).len() == 4
        && encode_utf8(d).len() == 4 && encode_utf8(e).len() == 12
}

/// Whether a text is made of five such groups.
pub open spec fn in_five_groups(s: Seq<char>) -> bool {
    exists|a: Seq<char>, b: Seq<char>, c: Seq<char>, d: Seq<char>, e: Seq<char>|
        #[trigger] five_groups(s, a, b, c, d, e)
}

proof fn lemma_five_groups(s: Seq<char>)
    ensures
        ({
            let groups = split_on(s, '-');
            in_five_groups(s) <==> groups.len() == 5 && utf8_len(groups[0]) == 8 && utf8_len(
                groups[1],
            ) == 4 && utf8_len(groups[2]) == 4 && utf8_len(groups[3]) == 4 && utf8_len(groups[4])
                == 12
        }),
{
    let groups = split_on(s, '-');
    if in_five_groups(s) {
        let (a, b, c, d, e) = choose|
            a: Seq<char>,
            b: Seq<char>,
            c: Seq<char>,
            d: Seq<char>,
            e: Seq<char>,
        |
            #[trigger] five_groups(s, a, b, c, d, e);
        lemma_split_free(a, '-');
        lemma_split_free(b, '-');
        lemma_split_free(c, '-');
        lemma_split_free(d, '-');
        lemma_split_free(e, '-');
        lemma_split_concat(d, e, '-');
        lemma_split_concat(c, d.push('-') + e, '-');
        lemma_split_concat(b, c.push('-') + (d.push('-') + e), '-');
        lemma_split_concat(a, b.push('-') + (c.push('-') + (d.push('-') + e)), '-');
        assert(groups =~= seq![a, b, c, d, e]);
    }
    if groups.len() == 5 && utf8_len(groups[0]) == 8 && utf8_len(groups[1]) == 4 && utf8_len(
        groups[2],
    ) == 4 && utf8_len(groups[3]) == 4 && utf8_len(groups[4]) == 12 {
        crate::text::lemma_split_pieces_free(s, '-');
        lemma_join_split(s, '-');
        reveal_with_fuel(crate::text::join, 6);
        let (a, b, c, d, e) = (groups[0], groups[1], groups[2], groups[3], groups[4]);
        let front = groups.drop_last();
        assert(front.drop_last().drop_last().drop_last()[0] == a);
        assert(s =~= a.push('-') + (b.push('-') + (c.push('-') + (d.push('-') + e))));
        assert(five_groups(s, a, b, c, d, e));
    }
}

proof fn lemma_guid_shape(s: Seq<char>)
    ensures
        guid_fault(s) is None <==> guid_shape(s),
{
    law_valid_guids(s);
    if guid_fault(s) is None {
        let hex = choose|hex: Seq<char>| #[trigger] is_guid_hex(hex) && s == grouped(hex, '-');
        assert forall|i: int| 0 <= i < 32 implies hex_digit(#[trigger] hex[i]) by {
            assert(Class::HexDigit.has(hex[i]));
        }
        assert forall|i: int| 0 <= i < 36 implies if i == 8 || i == 13 || i == 18 || i == 23 {
            #[trigger] s[i] == '-'
        } else {
            hex_digit(s[i])
        } by {
            if i < 8 {
                assert(s[i] == hex[i]);
            } else if 8 < i < 13 {
                assert(s[i] == hex[i - 1]);
            } else if 13 < i < 18 {
                assert(s[i] == hex[i - 2]);
            } else if 18 < i < 23 {
                assert(s[i] == hex[i - 3]);
            } else if 23 < i {
                assert(s[i] == hex[i - 4]);
            }
        }
    }
    if guid_shape(s) {
        let hex = s.subrange(0, 8) + s.subrange(9, 13) + s.subrange(14, 18) + s.subrange(19, 23)
            + s.subrange(24, 36);
        assert forall|i: int| 0 <= i < hex.len() implies Class::HexDigit.has(#[trigger] hex[i]) by {
            let j = if i < 8 {
                i
            } else if i < 12 {
                i + 1
            } else if i < 16 {
                i + 2
            } else if i < 20 {
                i + 3
            } else {
                i + 4
            };
            assert(hex[i] == s[j]);
            assert(hex_digit(s[j]));
        }
        assert(grouped(hex, '-') =~= s);
        assert(is_guid_hex(hex));
    }
}

/// The verdict on the GUID that was asked about: valid exactly if it has the shape of one.
/// A wrong length is the reason before wrong groups, and these before a wrong digit.
pub proof fn law_guid_verdict(opts: JsonModel, guid: Seq<char>)
    requires
        has_text_or(opts, "guid"@, "id"@, guid),
    ensures
        valid_answer(opts) matches Ok(v) && {
            let n = encode_utf8(guid).len();
            &&& v->Object_0.len() == 3
            &&& accepts(v, "guid"@, guid) <==> guid_shape(guid)
            &&& n != 36 ==> refuses(v, "guid"@, guid, "must be 36 characters (8-4-4-4-12)"@)
            &&& n == 36 && !in_five_groups(guid) ==> refuses(
                v,
                "guid"@,
                guid,
                "must be five hyphen-separated groups of 8-4-4-4-12"@,
            )
            &&& n == 36 && in_five_groups(guid) && !guid_shape(guid) ==> refuses(
                v,
                "guid"@,
                guid,
                "must contain only hexadecimal digits"@,
            )
        },
{
    broadcast use crate::json::lemma_get_with;

    lemma_keys();
    lemma_guid_shape(guid);
    lemma_five_groups(guid);
}

/// The characters of a text but the hyphens.
pub open spec fn without_hyphens(s: Seq<char>) -> Seq<char> {
    s.filter(|c: char| c != '-')
}

proof fn lemma_bare(s: Seq<char>)
    ensures
        bare(s) == lower(without_hyphens(s)),
    decreases s.len(),
{
    reveal(Seq::filter);
    if s.len() > 0 {
        lemma_bare(s.drop_last());
        let front = without_hyphens(s.drop_last());
        if s.last() != '-' {
            assert(without_hyphens(s) == front.push(s.last()));
            assert(lower(front.push(s.last())) =~= lower(front).push(ascii_lower(s.last())));
        }
    } else {
        assert(lower(without_hyphens(s)) =~= Seq::empty());
    }
}

/// The pairs of signs that may stand around a GUID, and nothing.
pub open spec fn brackets(open: Seq<char>, close: Seq<char>) -> bool {
    ||| open.len() == 0 && close.len() == 0
    ||| open == seq!['{'] && close == seq!['}']
    ||| open == seq!['('] && close == seq![')']
}

/// A text that stands in a pair of braces or of parentheses.
pub open spec fn bracketed(s: Seq<char>) -> bool {
    s.len() >= 2 && (s[0] == '{' && s[s.len() - 1] == '}' || s[0] == '(' && s[s.len() - 1] == ')')
}

proof fn lemma_inner(
    before: Seq<char>,
    open: Seq<char>,
    inner: Seq<char>,
    close: Seq<char>,
    after: Seq<char>,
)
    requires
        all_white(before),
        all_white(after),
        brackets(open, close),
        open.len() == 0 ==> bare_ends(inner) && !bracketed(inner),
    ensures
        unwrapped(trim(before + (open + inner + close) + after)) == inner,
{
    let s = open + inner + close;
    crate::text::law_trim(before, s, after);
    if open.len() == 0 {
        assert(s =~= inner);
    } else {
        assert(s.subrange(1, s.len() - 1) =~= inner);
    }
}

/// Normalizing a GUID: the white space around it, a pair of braces or parentheses and the
/// hyphens are left out, and 32 hexadecimal digits must remain. They come back in lower
/// case, in the shape of a GUID.
pub proof fn law_normalized_guid(
    opts: JsonModel,
    before: Seq<char>,
    open: Seq<char>,
    inner: Seq<char>,
    close: Seq<char>,
    after: Seq<char>,
)
    requires
        has_text_or(opts, "guid"@, "id"@, before + (open + inner + close) + after),
        all_white(before),
        all_white(after),
        brackets(open, close),
        open.len() == 0 ==> bare_ends(inner) && !bracketed(inner),
    ensures
        ({
            let raw = before + (open + inner + close) + after;
            let digits = without_hyphens(inner);
            let answer = normalize_answer(opts);
            let whole = digits.len() == 32 && forall|i: int|
                0 <= i < 32 ==> hex_digit(#[trigger] digits[i]);
            &&& !whole ==> answer == Err::<JsonModel, Seq<char>>(
                "not a GUID `"@ + raw + "` (need 32 hexadecimal digits)"@,
            )
            &&& whole ==> {
                let v = answer->Ok_0;
                let guid = v.text_at("guid"@)->0;
                &&& answer is Ok
                &&& v->Object_0.len() == 2
                &&& v.get("input"@) == Some(JsonModel::Text(raw))
                &&& v.text_at("guid"@) is Some
                &&& guid_shape(guid)
                &&& without_hyphens(guid) == lower(digits)
            }
        }),
{
    broadcast use crate::json::lemma_get_with;

    lemma_keys();
    let raw = before + (open + inner + close) + after;
    let digits = without_hyphens(inner);
    lemma_inner(before, open, inner, close, after);
    lemma_bare(inner);
    let hex = lower(digits);
    assert(bare(inner) == hex);
    if digits.len() == 32 && forall|i: int| 0 <= i < 32 ==> hex_digit(#[trigger] digits[i]) {
        assert forall|i: int| 0 <= i < hex.len() implies Class::HexDigit.has(#[trigger] hex[i]) by {
            assert(hex_digit(digits[i]));
        }
        law_canonical_is_valid(raw);
        lemma_guid_shape(normalized(raw)->Ok_0);
        lemma_hyphens_out(hex);
    } else if is_guid_hex(hex) {
        assert forall|i: int| 0 <= i < 32 implies hex_digit(#[trigger] digits[i]) by {
            assert(Class::HexDigit.has(hex[i]));
            assert(hex[i] == ascii_lower(digits[i]));
        }
    }
}

proof fn lemma_hyphens_out(hex: Seq<char>)
    requires
        is_guid_hex(hex),
    ensures
        without_hyphens(grouped(hex, '-')) == hex,
{
    let keep = |c: char| c != '-';
    assert forall|i: int| 0 <= i < hex.len() implies #[trigger] hex[i] != '-' by {
        assert(Class::HexDigit.has(hex[i]));
    }
    let a = hex.subrange(0, 8);
    let b = hex.subrange(8, 12);
    let c = hex.subrange(12, 16);
    let d = hex.subrange(16, 20);
    let e = hex.subrange(20, 32);
    lemma_dash_out(a);
    lemma_dash_out(b);
    lemma_dash_out(c);
    lemma_dash_out(d);
    crate::text::lemma_filter_all(e, keep);
    Seq::filter_distributes_over_add(d.push('-'), e, keep);
    Seq::filter_distributes_over_add(c.push('-'), d.push('-') + e, keep);
    Seq::filter_distributes_over_add(b.push('-'), c.push('-') + (d.push('-') + e), keep);
    Seq::filter_distributes_over_add(
        a.push('-'),
        b.push('-') + (c.push('-') + (d.push('-') + e)),
        keep,
    );
    assert(a + (b + (c + (d + e))) =~= hex);
}

proof fn lemma_dash_out(s: Seq<char>)
    requires
        forall|i: int| 0 <= i < s.len() ==> #[trigger] s[i] != '-',
    ensures
        s.push('-').filter(|c: char| c != '-') == s,
{
    reveal(Seq::filter);
    crate::text::lemma_filter_all(s, |c: char| c != '-');
    assert(s.push('-').drop_last() =~= s);
}

/// Formatting a GUID that can be normalized: `N` leaves the hyphens of the canonical form
/// out, `D` is the canonical form, and `B` and `P` put it into braces and parentheses. The
/// format may be in either case; any other one is refused. A GUID that cannot be normalized
/// fails as it does there.
pub proof fn law_formatted_guid(opts: JsonModel, raw: Seq<char>, format: Seq<char>)
    requires
        has_text_or(opts, "guid"@, "id"@, raw),
        has_text(opts, "format"@, format),
    ensures
        ({
            let canonical = normalize_answer(opts);
            let answer = format_answer(opts);
            let d = canonical->Ok_0.text_at("guid"@)->0;
            let guid = answer->Ok_0.text_at("guid"@);
            let n = format == seq!['N'] || format == seq!['n'];
            let plain = format == seq!['D'] || format == seq!['d'];
            let b = format == seq!['B'] || format == seq!['b'];
            let p = format == seq!['P'] || format == seq!['p'];
            &&& canonical is Err ==> answer == canonical
            &&& canonical is Ok && !(n || plain || b || p) ==> answer == Err::<
                JsonModel,
                Seq<char>,
            >("unsupported GUID format `"@ + upper(format) + "` (want N, D, B, or P)"@)
            &&& canonical is Ok && (n || plain || b || p) ==> {
                &&& answer is Ok
                &&& answer->Ok_0->Object_0.len() == 3
                &&& answer->Ok_0.get("input"@) == Some(JsonModel::Text(raw))
                &&& answer->Ok_0.get("format"@) == Some(JsonModel::Text(upper(format)))
            }
            &&& canonical is Ok && n ==> guid == Some(without_hyphens(d))
            &&& canonical is Ok && plain ==> guid == Some(d)
            &&& canonical is Ok && b ==> guid == Some(seq!['{'] + d + seq!['}'])
            &&& canonical is Ok && p ==> guid == Some(seq!['('] + d + seq![')'])
        }),
{
    broadcast use crate::json::lemma_get_with;

    lemma_keys();
    lemma_one_letter(format, 'N', 'n');
    lemma_one_letter(format, 'D', 'd');
    lemma_one_letter(format, 'B', 'b');
    lemma_one_letter(format, 'P', 'p');
    reveal_strlit("N");
    reveal_strlit("D");
    reveal_strlit("B");
    reveal_strlit("P");
    assert("N"@ =~= seq!['N']);
    assert("D"@ =~= seq!['D']);
    assert("B"@ =~= seq!['B']);
    assert("P"@ =~= seq!['P']);
    assert(seq!['N'][0] == 'N' && seq!['D'][0] == 'D' && seq!['B'][0] == 'B' && seq!['P'][0]
        == 'P');
    if normalized(raw) is Ok {
        let hex = digits_of(raw)->Ok_0;
        lemma_hyphens_out(hex);
        let d = grouped(hex, '-');
        assert(seq!['{'] + d.push('}') =~= seq!['{'] + d + seq!['}']);
        assert(seq!['('] + d.push(')') =~= seq!['('] + d + seq![')']);
    }
}

proof fn lemma_one_letter(s: Seq<char>, capital: char, small: char)
    requires
        'A' <= capital <= 'Z',
        small as int == capital as int + 32,
    ensures
        upper(s) == seq![capital] <==> s == seq![capital] || s == seq![small],
{
    if upper(s) == seq![capital] {
        assert(upper(s).len() == s.len());
        assert(seq![capital].len() == 1);
        assert(upper(s)[0] == capital);
        if s[0] == capital {
            assert(s =~= seq![capital]);
        } else {
            assert(s =~= seq![small]);
        }
    }
    if s == seq![capital] || s == seq![small] {
        assert(upper(s) =~= seq![capital]);
    }
}

/// Without a GUID the option is reported as missing.
pub proof fn law_missing_guid(opts: JsonModel)
    requires
        lacks_text_or(opts, "guid"@, "id"@),
    ensures
        valid_answer(opts) == Err::<JsonModel, Seq<char>>("missing "@ + "guid"@),
        normalize_answer(opts) == Err::<JsonModel, Seq<char>>("missing "@ + "guid"@),
        format_answer(opts) == Err::<JsonModel, Seq<char>>("missing "@ + "guid"@),
{
}

} // verus!
