//! The naming rules of storage accounts, containers, queues, tables and Cosmos DB
//! resources.
use vstd::prelude::*;
use vstd::string::*;
use vstd::utf8::{encode_utf8, is_ascii_chars, is_ascii_chars_encode_utf8};

use crate::error::{missing, outcome, Error};
use crate::json::{empty_object, nullable, well_formed, Json, JsonModel};
use crate::options::{
    aliased, aliased_str, has_text, has_text_or, lacks_text, lacks_text_or, opt_str,
};
use crate::text::{
    chars_of, has_char, lemma_same_in_any_case, lower, opt_view, same_but_for_case, to_lower,
    utf8_len,
};

verus! {

/// A class of ASCII characters.
#[derive(Clone, Copy, Debug, PartialEq)]
pub enum Class {
    /// `a` to `z`, `0` to `9`.
    LowerOrDigit,
    /// `a` to `z`, `0` to `9`, `-`.
    DnsLabel,
    /// `a` to `z`, `A` to `Z`.
    Letter,
    /// `a` to `z`, `A` to `Z`, `0` to `9`.
    LetterOrDigit,
    /// `0` to `9`, `a` to `f`, `A` to `F`.
    HexDigit,
}

impl Class {
    /// Whether a character is of the class.
    pub open spec fn has(self, c: char) -> bool {
        match self {
            Class::LowerOrDigit => 'a' <= c <= 'z' || '0' <= c <= '9',
            Class::DnsLabel => 'a' <= c <= 'z' || '0' <= c <= '9' || c == '-',
            Class::Letter => 'a' <= c <= 'z' || 'A' <= c <= 'Z',
            Class::LetterOrDigit => 'a' <= c <= 'z' || 'A' <= c <= 'Z' || '0' <= c <= '9',
            Class::HexDigit => '0' <= c <= '9' || 'a' <= c <= 'f' || 'A' <= c <= 'F',
        }
    }

    /// Whether every character of a text is of the class.
    pub open spec fn has_all(self, s: Seq<char>) -> bool {
        forall|i: int| 0 <= i < s.len() ==> self.has(#[trigger] s[i])
    }

    /// Whether a character is of the class.
    pub fn holds(self, c: char) -> (r: bool)
        ensures
            r == self.has(c),
    {
        let lower = 'a' <= c && c <= 'z';
        let upper = 'A' <= c && c <= 'Z';
        let digit = '0' <= c && c <= '9';
        match self {
            Class::LowerOrDigit => lower || digit,
            Class::DnsLabel => lower || digit || c == '-',
            Class::Letter => lower || upper,
            Class::LetterOrDigit => lower || upper || digit,
            Class::HexDigit => digit || ('a' <= c && c <= 'f') || ('A' <= c && c <= 'F'),
        }
    }

    /// Whether every character of a text is of the class.
    pub fn holds_all(self, s: &str) -> (r: bool)
        ensures
            r == self.has_all(s@),
    {
        let chars = chars_of(s);
        let mut i: usize = 0;
        while i < chars.len()
            invariant
                i <= chars@.len(),
                chars@ == s@,
                forall|j: int| 0 <= j < i ==> self.has(#[trigger] s@[j]),
            decreases chars.len() - i,
        {
            if !self.holds(chars[i]) {
                assert(!self.has(s@[i as int]));
                return false;
            }
            i = i + 1;
        }
        true
    }
}

/// Two hyphens in a row.
pub open spec fn double_hyphen(s: Seq<char>) -> bool {
    exists|i: int| 0 <= i < s.len() - 1 && #[trigger] s[i] == '-' && s[i + 1] == '-'
}

/// Why a text is no storage account name.
pub open spec fn account_fault(name: Seq<char>) -> Option<Seq<char>> {
    if utf8_len(name) < 3 || utf8_len(name) > 24 {
        Some("must be 3-24 characters"@)
    } else if !Class::LowerOrDigit.has_all(name) {
        Some("only lowercase letters and numbers"@)
    } else {
        None
    }
}

/// Why a text is no DNS label as containers and queues are named by.
pub open spec fn label_fault(name: Seq<char>) -> Option<Seq<char>> {
    if utf8_len(name) < 3 || utf8_len(name) > 63 {
        Some("must be 3-63 characters"@)
    } else if !Class::DnsLabel.has_all(name) {
        Some("only lowercase letters, numbers, and hyphens"@)
    } else if !Class::LetterOrDigit.has(name.first()) {
        Some("must start with a letter or number"@)
    } else if double_hyphen(name) {
        Some("must not contain consecutive hyphens"@)
    } else if name.last() == '-' {
        Some("must not end with a hyphen"@)
    } else {
        None
    }
}

/// Why a text is no table name.
pub open spec fn table_fault(name: Seq<char>) -> Option<Seq<char>> {
    if utf8_len(name) < 3 || utf8_len(name) > 63 {
        Some("must be 3-63 characters"@)
    } else if !Class::Letter.has(name.first()) {
        Some("must begin with a letter"@)
    } else if !Class::LetterOrDigit.has_all(name) {
        Some("only alphanumeric characters (no hyphens or underscores)"@)
    } else if lower(name) == "tables"@ {
        Some("`tables` is a reserved table name"@)
    } else {
        None
    }
}

/// Why a text is no identifier of a Cosmos DB database or container.
pub open spec fn cosmos_fault(id: Seq<char>) -> Option<Seq<char>> {
    if id.len() == 0 {
        Some("must not be empty"@)
    } else if id.len() > 255 {
        Some("must be at most 255 characters"@)
    } else if id.contains('/') || id.contains('\\') {
        Some("must not contain `/` or `\\`"@)
    } else {
        None
    }
}

/// The answer of a validation: the text, whether it is valid, and why not.
pub open spec fn verdict(key: Seq<char>, text: Seq<char>, fault: Option<Seq<char>>) -> JsonModel {
    empty_object().with(key, JsonModel::Text(text)).with(
        "valid"@,
        JsonModel::Bool(fault is None),
    ).with("reason"@, nullable(fault))
}

/// What `op_valid_storage_account_name` answers.
pub open spec fn account_answer(opts: JsonModel) -> Result<JsonModel, Seq<char>> {
    match opts.text_at("name"@) {
        None => Err(missing("name"@)),
        Some(name) => Ok(verdict("name"@, name, account_fault(name))),
    }
}

/// What `op_valid_container_name` and `op_valid_queue_name` answer.
pub open spec fn label_answer(opts: JsonModel) -> Result<JsonModel, Seq<char>> {
    match opts.text_at("name"@) {
        None => Err(missing("name"@)),
        Some(name) => Ok(verdict("name"@, name, label_fault(name))),
    }
}

/// What `op_valid_table_name` answers.
pub open spec fn table_answer(opts: JsonModel) -> Result<JsonModel, Seq<char>> {
    match opts.text_at("name"@) {
        None => Err(missing("name"@)),
        Some(name) => Ok(verdict("name"@, name, table_fault(name))),
    }
}

/// What `op_valid_cosmos_id` answers.
pub open spec fn cosmos_answer(opts: JsonModel) -> Result<JsonModel, Seq<char>> {
    match aliased(opts, "id"@, "name"@) {
        None => Err(missing("id"@)),
        Some(id) => Ok(verdict("id"@, id, cosmos_fault(id))),
    }
}

/// The answer of a validation.
pub fn verdict_json(key: &str, text: &str, fault: Option<&str>) -> (r: Json)
    ensures
        r@ == verdict(key@, text@, opt_view(fault)),
{
    let valid = fault.is_none();
    let reason = match fault {
        Some(s) => Json::text(s),
        None => Json::Null,
    };
    Json::empty().with(key, Json::text(text)).with("valid", Json::Bool(valid)).with("reason", reason)
}

/// A text of one byte or more has a character.
proof fn lemma_not_empty(s: Seq<char>)
    requires
        utf8_len(s) > 0,
    ensures
        s.len() > 0,
{
    if s.len() == 0 {
        assert(utf8_len(s) == 0);
    }
}

/// Why a text is no storage account name.
pub fn account_name_reason(name: &str) -> (r: Option<&'static str>)
    ensures
        opt_view(r) == account_fault(name@),
{
    let n: usize = name.as_bytes().len();
    if n < 3 || n > 24 {
        Some("must be 3-24 characters")
    } else if !Class::LowerOrDigit.holds_all(name) {
        Some("only lowercase letters and numbers")
    } else {
        None
    }
}

/// Whether two hyphens come in a row.
fn has_double_hyphen(chars: &Vec<char>) -> (r: bool)
    ensures
        r == double_hyphen(chars@),
{
    let mut i: usize = 1;
    while i < chars.len()
        invariant
            1 <= i,
            forall|j: int|
                0 <= j < i - 1 && j < chars@.len() - 1 ==> !(#[trigger] chars@[j] == '-' && chars@[j
                    + 1] == '-'),
        decreases chars.len() - i,
    {
        if chars[i - 1] == '-' && chars[i] == '-' {
            assert(chars@[i - 1] == '-' && chars@[i - 1 + 1] == '-');
            return true;
        }
        i = i + 1;
    }
    false
}

/// Why a text is no DNS label as containers and queues are named by.
pub fn dns_label_reason(name: &str) -> (r: Option<&'static str>)
    ensures
        opt_view(r) == label_fault(name@),
{
    let n: usize = name.as_bytes().len();
    if n < 3 || n > 63 {
        return Some("must be 3-63 characters");
    }
    proof {
        lemma_not_empty(name@);
    }
    let chars = chars_of(name);
    if !Class::DnsLabel.holds_all(name) {
        Some("only lowercase letters, numbers, and hyphens")
    } else if !Class::LetterOrDigit.holds(chars[0]) {
        Some("must start with a letter or number")
    } else if has_double_hyphen(&chars) {
        Some("must not contain consecutive hyphens")
    } else if chars[chars.len() - 1] == '-' {
        Some("must not end with a hyphen")
    } else {
        None
    }
}

/// Why a text is no table name.
pub fn table_name_reason(name: &str) -> (r: Option<&'static str>)
    ensures
        opt_view(r) == table_fault(name@),
{
    let n: usize = name.as_bytes().len();
    if n < 3 || n > 63 {
        return Some("must be 3-63 characters");
    }
    proof {
        lemma_not_empty(name@);
    }
    let chars = chars_of(name);
    if !Class::Letter.holds(chars[0]) {
        Some("must begin with a letter")
    } else if !Class::LetterOrDigit.holds_all(name) {
        Some("only alphanumeric characters (no hyphens or underscores)")
    } else if *to_lower(name).as_str() == *"tables" {
        Some("`tables` is a reserved table name")
    } else {
        None
    }
}

/// Why a text is no identifier of a Cosmos DB database or container.
pub fn cosmos_id_reason(id: &str) -> (r: Option<&'static str>)
    ensures
        opt_view(r) == cosmos_fault(id@),
{
    let n: usize = id.unicode_len();
    if n == 0 {
        Some("must not be empty")
    } else if n > 255 {
        Some("must be at most 255 characters")
    } else if has_char(id, '/') || has_char(id, '\\') {
        Some("must not contain `/` or `\\`")
    } else {
        None
    }
}

/// Validates the storage account name under `name`.
pub fn op_valid_storage_account_name(opts: Json) -> (r: Result<Json, Error>)
    ensures
        outcome(r) == account_answer(opts@),
{
    match opt_str(&opts, "name") {
        None => Err(Error::missing("name")),
        Some(name) => Ok(verdict_json("name", name, account_name_reason(name))),
    }
}

/// Validates the container name under `name`.
pub fn op_valid_container_name(opts: Json) -> (r: Result<Json, Error>)
    ensures
        outcome(r) == label_answer(opts@),
{
    match opt_str(&opts, "name") {
        None => Err(Error::missing("name")),
        Some(name) => Ok(verdict_json("name", name, dns_label_reason(name))),
    }
}

/// Validates the queue name under `name`, by the rule for containers.
pub fn op_valid_queue_name(opts: Json) -> (r: Result<Json, Error>)
    ensures
        outcome(r) == label_answer(opts@),
{
    match opt_str(&opts, "name") {
        None => Err(Error::missing("name")),
        Some(name) => Ok(verdict_json("name", name, dns_label_reason(name))),
    }
}

/// Validates the table name under `name`.
pub fn op_valid_table_name(opts: Json) -> (r: Result<Json, Error>)
    ensures
        outcome(r) == table_answer(opts@),
{
    match opt_str(&opts, "name") {
        None => Err(Error::missing("name")),
        Some(name) => Ok(verdict_json("name", name, table_name_reason(name))),
    }
}

/// Validates the Cosmos DB identifier under `id` (or `name`).
pub fn op_valid_cosmos_id(opts: Json) -> (r: Result<Json, Error>)
    ensures
        outcome(r) == cosmos_answer(opts@),
{
    match aliased_str(&opts, "id", "name") {
        None => Err(Error::missing("id")),
        Some(id) => Ok(verdict_json("id", id, cosmos_id_reason(id))),
    }
}

/// A text of ASCII characters takes one byte for each.
pub proof fn lemma_ascii_len(class: Class, s: Seq<char>)
    requires
        class.has_all(s),
    ensures
        utf8_len(s) == s.len(),
        is_ascii_chars(s),
{
    assert forall|i: int| 0 <= i < s.len() implies 0 <= (#[trigger] s[i] as nat) < 128 by {
        assert(class.has(s[i]));
    }
    is_ascii_chars_encode_utf8(s);
}

/// A storage account name is valid exactly if it has 3 to 24 characters, all of them
/// lowercase letters and digits.
pub proof fn law_account_names(name: Seq<char>)
    ensures
        account_fault(name) is None <==> 3 <= name.len() <= 24 && Class::LowerOrDigit.has_all(name),
{
    if Class::LowerOrDigit.has_all(name) {
        lemma_ascii_len(Class::LowerOrDigit, name);
    }
}

/// A container or queue name is valid exactly if it has 3 to 63 characters, all of them
/// lowercase letters, digits and hyphens, neither first nor last a hyphen, and no two
/// hyphens in a row.
pub proof fn law_container_and_queue_names(name: Seq<char>)
    ensures
        label_fault(name) is None <==> {
            &&& 3 <= name.len() <= 63
            &&& Class::DnsLabel.has_all(name)
            &&& name.first() != '-'
            &&& name.last() != '-'
            &&& !double_hyphen(name)
        },
{
    if Class::DnsLabel.has_all(name) {
        lemma_ascii_len(Class::DnsLabel, name);
        if name.len() > 0 {
            assert(Class::DnsLabel.has(name[0]));
        }
    }
}

/// A table name is valid exactly if it has 3 to 63 characters, all of them letters and
/// digits, the first a letter, and is not `tables` in any case.
pub proof fn law_table_names(name: Seq<char>)
    ensures
        table_fault(name) is None <==> {
            &&& 3 <= name.len() <= 63
            &&& Class::LetterOrDigit.has_all(name)
            &&& Class::Letter.has(name.first())
            &&& lower(name) != "tables"@
        },
{
    if Class::LetterOrDigit.has_all(name) {
        lemma_ascii_len(Class::LetterOrDigit, name);
    }
}

/// A Cosmos DB id is valid exactly if it has 1 to 255 characters, none of them a slash
/// or a backslash.
pub proof fn law_cosmos_ids(id: Seq<char>)
    ensures
        cosmos_fault(id) is None <==> 1 <= id.len() <= 255 && !id.contains('/') && !id.contains(
            '\\',
        ),
{
}

/// The keys that stand in one object are distinct.
proof fn lemma_keys()
    ensures
        "name"@ != "valid"@,
        "name"@ != "reason"@,
        "valid"@ != "reason"@,
        "id"@ != "valid"@,
        "id"@ != "reason"@,
{
    reveal_strlit("name");
    reveal_strlit("valid");
    reveal_strlit("reason");
    reveal_strlit("id");
    assert("name"@.len() == 4);
    assert("valid"@.len() == 5);
    assert("reason"@.len() == 6);
    assert("id"@.len() == 2);
}

/// The answers are well-formed.
pub proof fn law_answers_are_well_formed(opts: JsonModel)
    ensures
        account_answer(opts) matches Ok(v) ==> well_formed(v),
        label_answer(opts) matches Ok(v) ==> well_formed(v),
        table_answer(opts) matches Ok(v) ==> well_formed(v),
        cosmos_answer(opts) matches Ok(v) ==> well_formed(v),
{
    broadcast use {crate::json::lemma_get_with, crate::json::lemma_well_formed_with};

    lemma_keys();
}

/// A validation found a text valid and gives no reason.
pub open spec fn accepts(v: JsonModel, key: Seq<char>, text: Seq<char>) -> bool {
    &&& v.get(key) == Some(JsonModel::Text(text))
    &&& v.get("valid"@) == Some(JsonModel::Bool(true))
    &&& v.get("reason"@) == Some(JsonModel::Null)
}

/// A validation found a text invalid for that reason.
pub open spec fn refuses(
    v: JsonModel,
    key: Seq<char>,
    text: Seq<char>,
    reason: Seq<char>,
) -> bool {
    &&& v.get(key) == Some(JsonModel::Text(text))
    &&& v.get("valid"@) == Some(JsonModel::Bool(false))
    &&& v.get("reason"@) == Some(JsonModel::Text(reason))
}

/// Lowercase letters and digits only.
pub open spec fn lower_or_digits(s: Seq<char>) -> bool {
    forall|i: int| 0 <= i < s.len() ==> 'a' <= #[trigger] s[i] <= 'z' || '0' <= s[i] <= '9'
}

/// Lowercase letters, digits and hyphens only.
pub open spec fn label_chars(s: Seq<char>) -> bool {
    forall|i: int|
        0 <= i < s.len() ==> 'a' <= #[trigger] s[i] <= 'z' || '0' <= s[i] <= '9' || s[i] == '-'
}

/// Two hyphens stand side by side.
pub open spec fn hyphen_pair(s: Seq<char>) -> bool {
    exists|i: int| 0 <= i < s.len() - 1 && #[trigger] s[i] == '-' && s[i + 1] == '-'
}

/// Letters and digits only.
pub open spec fn letters_or_digits(s: Seq<char>) -> bool {
    forall|i: int|
        0 <= i < s.len() ==> 'a' <= #[trigger] s[i] <= 'z' || 'A' <= s[i] <= 'Z' || '0' <= s[i]
            <= '9'
}

/// The verdict on the storage account name that was asked about: valid exactly if it has 3
/// to 24 characters, all of them lowercase letters and digits. A wrong length is the reason
/// before a wrong character.
pub proof fn law_account_verdict(opts: JsonModel, name: Seq<char>)
    requires
        has_text(opts, "name"@, name),
    ensures
        account_answer(opts) matches Ok(v) && {
            let n = encode_utf8(name).len();
            &&& v->Object_0.len() == 3
            &&& accepts(v, "name"@, name) <==> 3 <= name.len() <= 24 && lower_or_digits(name)
            &&& n < 3 || n > 24 ==> refuses(v, "name"@, name, "must be 3-24 characters"@)
            &&& 3 <= n <= 24 && !lower_or_digits(name) ==> refuses(
                v,
                "name"@,
                name,
                "only lowercase letters and numbers"@,
            )
        },
{
    broadcast use crate::json::lemma_get_with;

    lemma_keys();
    law_account_names(name);
    assert(Class::LowerOrDigit.has_all(name) <==> lower_or_digits(name)) by {
        if Class::LowerOrDigit.has_all(name) {
            assert forall|i: int| 0 <= i < name.len() implies 'a' <= #[trigger] name[i] <= 'z'
                || '0' <= name[i] <= '9' by {
                assert(Class::LowerOrDigit.has(name[i]));
            }
        }
    }
}

/// The verdict on the container or queue name that was asked about: valid exactly if it has
/// 3 to 63 characters, all of them lowercase letters, digits and hyphens, neither first nor
/// last a hyphen, and no two hyphens side by side. The first rule that is broken is the
/// reason.
pub proof fn law_container_and_queue_verdict(opts: JsonModel, name: Seq<char>)
    requires
        has_text(opts, "name"@, name),
    ensures
        label_answer(opts) matches Ok(v) && {
            let n = encode_utf8(name).len();
            let sized = 3 <= n <= 63;
            &&& v->Object_0.len() == 3
            &&& accepts(v, "name"@, name) <==> 3 <= name.len() <= 63 && label_chars(name)
                && name[0] != '-' && name[name.len() - 1] != '-' && !hyphen_pair(name)
            &&& !sized ==> refuses(v, "name"@, name, "must be 3-63 characters"@)
            &&& sized && !label_chars(name) ==> refuses(
                v,
                "name"@,
                name,
                "only lowercase letters, numbers, and hyphens"@,
            )
            &&& sized && label_chars(name) && name[0] == '-' ==> refuses(
                v,
                "name"@,
                name,
                "must start with a letter or number"@,
            )
            &&& sized && label_chars(name) && name[0] != '-' && hyphen_pair(name) ==> refuses(
                v,
                "name"@,
                name,
                "must not contain consecutive hyphens"@,
            )
            &&& sized && label_chars(name) && name[0] != '-' && !hyphen_pair(name)
                && name[name.len() - 1] == '-' ==> refuses(
                v,
                "name"@,
                name,
                "must not end with a hyphen"@,
            )
        },
{
    broadcast use crate::json::lemma_get_with;

    lemma_keys();
    law_container_and_queue_names(name);
    if 3 <= utf8_len(name) {
        lemma_not_empty(name);
    }
    assert(Class::DnsLabel.has_all(name) <==> label_chars(name)) by {
        if Class::DnsLabel.has_all(name) {
            assert forall|i: int| 0 <= i < name.len() implies 'a' <= #[trigger] name[i] <= 'z'
                || '0' <= name[i] <= '9' || name[i] == '-' by {
                assert(Class::DnsLabel.has(name[i]));
            }
        }
    }
    assert(double_hyphen(name) <==> hyphen_pair(name));
    if name.len() > 0 && Class::DnsLabel.has_all(name) {
        assert(Class::DnsLabel.has(name[0]));
        assert(name.first() == name[0]);
        assert(name.last() == name[name.len() - 1]);
    }
}

/// The verdict on the table name that was asked about: valid exactly if it has 3 to 63
/// characters, all of them letters and digits, the first a letter, and is not `tables` in
/// any case. The first rule that is broken is the reason.
pub proof fn law_table_verdict(opts: JsonModel, name: Seq<char>)
    requires
        has_text(opts, "name"@, name),
    ensures
        table_answer(opts) matches Ok(v) && {
            let n = encode_utf8(name).len();
            let sized = 3 <= n <= 63;
            let begins = 'a' <= name[0] <= 'z' || 'A' <= name[0] <= 'Z';
            let reserved = same_but_for_case(name, "tables"@);
            &&& v->Object_0.len() == 3
            &&& accepts(v, "name"@, name) <==> 3 <= name.len() <= 63 && letters_or_digits(name)
                && begins && !reserved
            &&& !sized ==> refuses(v, "name"@, name, "must be 3-63 characters"@)
            &&& sized && !begins ==> refuses(v, "name"@, name, "must begin with a letter"@)
            &&& sized && begins && !letters_or_digits(name) ==> refuses(
                v,
                "name"@,
                name,
                "only alphanumeric characters (no hyphens or underscores)"@,
            )
            &&& sized && begins && letters_or_digits(name) && reserved ==> refuses(
                v,
                "name"@,
                name,
                "`tables` is a reserved table name"@,
            )
        },
{
    broadcast use crate::json::lemma_get_with;

    lemma_keys();
    law_table_names(name);
    if 3 <= utf8_len(name) {
        lemma_not_empty(name);
    }
    assert(Class::LetterOrDigit.has_all(name) <==> letters_or_digits(name)) by {
        if Class::LetterOrDigit.has_all(name) {
            assert forall|i: int| 0 <= i < name.len() implies 'a' <= #[trigger] name[i] <= 'z'
                || 'A' <= name[i] <= 'Z' || '0' <= name[i] <= '9' by {
                assert(Class::LetterOrDigit.has(name[i]));
            }
        }
    }
    reveal_strlit("tables");
    lemma_same_in_any_case(name, "tables"@);
}

/// The verdict on the Cosmos DB id that was asked about: valid exactly if it has 1 to 255
/// characters, none of them a slash or a backslash.
pub proof fn law_cosmos_verdict(opts: JsonModel, id: Seq<char>)
    requires
        has_text_or(opts, "id"@, "name"@, id),
    ensures
        cosmos_answer(opts) matches Ok(v) && {
            let free = !id.contains('/') && !id.contains('\\');
            &&& v->Object_0.len() == 3
            &&& accepts(v, "id"@, id) <==> 1 <= id.len() <= 255 && free
            &&& id.len() == 0 ==> refuses(v, "id"@, id, "must not be empty"@)
            &&& id.len() > 255 ==> refuses(v, "id"@, id, "must be at most 255 characters"@)
            &&& 1 <= id.len() <= 255 && !free ==> refuses(
                v,
                "id"@,
                id,
                "must not contain `/` or `\\`"@,
            )
        },
{
    broadcast use crate::json::lemma_get_with;

    lemma_keys();
}

/// Without a text to validate, a validation reports which option is missing, and only then
/// it fails.
pub proof fn law_missing_names(opts: JsonModel)
    ensures
        account_answer(opts) is Err <==> lacks_text(opts, "name"@),
        account_answer(opts) matches Err(e) ==> e == "missing "@ + "name"@,
        label_answer(opts) is Err <==> lacks_text(opts, "name"@),
        label_answer(opts) matches Err(e) ==> e == "missing "@ + "name"@,
        table_answer(opts) is Err <==> lacks_text(opts, "name"@),
        table_answer(opts) matches Err(e) ==> e == "missing "@ + "name"@,
        cosmos_answer(opts) is Err <==> lacks_text_or(opts, "id"@, "name"@),
        cosmos_answer(opts) matches Err(e) ==> e == "missing "@ + "id"@,
{
}

} // verus!
