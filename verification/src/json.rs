//! JSON values: what a request carries and what an answer is made of.
use vstd::prelude::*;
use vstd::string::*;

use crate::text::{decimal_text, signed_decimal, signed_decimal_text};

verus! {

/// A JSON number. One that is no 64-bit integer is held as it is written.
#[derive(Debug, PartialEq)]
pub enum Number {
    Unsigned(u64),
    Signed(i64),
    Float(String),
}

/// A JSON value. The members of an object keep their order. The values that stand for a
/// document are those that are `well_formed`.
#[derive(Debug, PartialEq)]
pub enum Json {
    Null,
    Bool(bool),
    Number(Number),
    Text(String),
    Array(Vec<Json>),
    Object(Vec<(String, Json)>),
}

/// What a JSON number is: an integer, or the way another number is written.
#[verifier::ext_equal]
pub enum NumberModel {
    Integer(int),
    Float(Seq<char>),
}

/// What a JSON value is.
#[verifier::ext_equal]
pub enum JsonModel {
    Null,
    Bool(bool),
    Number(NumberModel),
    Text(Seq<char>),
    Array(Seq<JsonModel>),
    Object(Seq<(Seq<char>, JsonModel)>),
}

impl View for Number {
    type V = NumberModel;

    open spec fn view(&self) -> NumberModel {
        match self {
            Number::Unsigned(n) => NumberModel::Integer(*n as int),
            Number::Signed(n) => NumberModel::Integer(*n as int),
            Number::Float(s) => NumberModel::Float(s@),
        }
    }
}

/// The model of a JSON value.
pub open spec fn model(j: Json) -> JsonModel
    decreases j,
{
    match j {
        Json::Null => JsonModel::Null,
        Json::Bool(b) => JsonModel::Bool(b),
        Json::Number(n) => JsonModel::Number(n@),
        Json::Text(s) => JsonModel::Text(s@),
        Json::Array(items) => JsonModel::Array(
            Seq::new(
                items@.len(),
                |i: int|
                    if 0 <= i < items@.len() {
                        model(items@[i])
                    } else {
                        JsonModel::Null
                    },
            ),
        ),
        Json::Object(members) => JsonModel::Object(
            Seq::new(
                members@.len(),
                |i: int|
                    if 0 <= i < members@.len() {
                        (members@[i].0@, model(members@[i].1))
                    } else {
                        (Seq::empty(), JsonModel::Null)
                    },
            ),
        ),
    }
}

impl View for Json {
    type V = JsonModel;

    open spec fn view(&self) -> JsonModel {
        model(*self)
    }
}

/// The models of a list of values.
pub open spec fn items(list: Seq<Json>) -> Seq<JsonModel> {
    list.map_values(|j: Json| j@)
}

/// The models of an object's members.
pub open spec fn members(list: Seq<(String, Json)>) -> Seq<(Seq<char>, JsonModel)> {
    list.map_values(|m: (String, Json)| (m.0@, m.1@))
}

/// An array's model holds the models of its items.
pub broadcast proof fn lemma_array_model(list: Vec<Json>)
    ensures
        #[trigger] model(Json::Array(list)) == JsonModel::Array(items(list@)),
{
    assert(model(Json::Array(list))->Array_0 =~= items(list@));
}

/// An object's model holds the models of its members.
pub broadcast proof fn lemma_object_model(list: Vec<(String, Json)>)
    ensures
        #[trigger] model(Json::Object(list)) == JsonModel::Object(members(list@)),
{
    assert(model(Json::Object(list))->Object_0 =~= members(list@));
}

/// The value of the first member with that key.
pub open spec fn lookup(list: Seq<(Seq<char>, JsonModel)>, key: Seq<char>) -> Option<JsonModel>
    decreases list.len(),
{
    if list.len() == 0 {
        None
    } else if list.first().0 == key {
        Some(list.first().1)
    } else {
        lookup(list.drop_first(), key)
    }
}

/// How a number is written.
pub open spec fn number_text(n: NumberModel) -> Seq<char> {
    match n {
        NumberModel::Integer(k) => signed_decimal(k),
        NumberModel::Float(s) => s,
    }
}

/// A text, or null where there is none.
pub open spec fn nullable(s: Option<Seq<char>>) -> JsonModel {
    match s {
        Some(s) => JsonModel::Text(s),
        None => JsonModel::Null,
    }
}

/// An integer, or null where there is none.
pub open spec fn nullable_int(n: Option<int>) -> JsonModel {
    match n {
        Some(n) => JsonModel::Number(NumberModel::Integer(n)),
        None => JsonModel::Null,
    }
}

/// The object without members.
pub open spec fn empty_object() -> JsonModel {
    JsonModel::Object(Seq::empty())
}

impl JsonModel {
    /// An object with one more member at its end.
    pub open spec fn with(self, key: Seq<char>, value: JsonModel) -> JsonModel {
        match self {
            JsonModel::Object(list) => JsonModel::Object(list.push((key, value))),
            _ => self,
        }
    }

    /// The value that an object has under a key; nothing else has one.
    pub open spec fn get(self, key: Seq<char>) -> Option<JsonModel> {
        match self {
            JsonModel::Object(list) => lookup(list, key),
            _ => None,
        }
    }

    /// The text of a text value.
    pub open spec fn text(self) -> Option<Seq<char>> {
        match self {
            JsonModel::Text(s) => Some(s),
            _ => None,
        }
    }

    /// The items of an array.
    pub open spec fn array(self) -> Option<Seq<JsonModel>> {
        match self {
            JsonModel::Array(list) => Some(list),
            _ => None,
        }
    }

    /// The members of an object.
    pub open spec fn object(self) -> Option<Seq<(Seq<char>, JsonModel)>> {
        match self {
            JsonModel::Object(list) => Some(list),
            _ => None,
        }
    }

    /// The number, where it is an integer of 64 bits with a sign.
    pub open spec fn int64(self) -> Option<int> {
        match self {
            JsonModel::Number(NumberModel::Integer(n)) => if i64::MIN <= n <= i64::MAX {
                Some(n)
            } else {
                None
            },
            _ => None,
        }
    }

    /// The text that an object has under a key.
    pub open spec fn text_at(self, key: Seq<char>) -> Option<Seq<char>> {
        match self.get(key) {
            Some(v) => v.text(),
            None => None,
        }
    }

    /// What `text_at` gives, unless that is the empty text.
    pub open spec fn filled_text_at(self, key: Seq<char>) -> Option<Seq<char>> {
        match self.text_at(key) {
            Some(s) => if s.len() == 0 {
                None
            } else {
                Some(s)
            },
            None => None,
        }
    }
}

proof fn lemma_lookup_push(
    list: Seq<(Seq<char>, JsonModel)>,
    key: Seq<char>,
    value: JsonModel,
    wanted: Seq<char>,
)
    ensures
        lookup(list.push((key, value)), wanted) == match lookup(list, wanted) {
            Some(v) => Some(v),
            None => if key == wanted {
                Some(value)
            } else {
                None
            },
        },
    decreases list.len(),
{
    let longer = list.push((key, value));
    if list.len() == 0 {
        assert(longer.drop_first() =~= Seq::empty());
        assert(lookup(longer.drop_first(), wanted) is None);
    } else {
        assert(longer.drop_first() =~= list.drop_first().push((key, value)));
        lemma_lookup_push(list.drop_first(), key, value, wanted);
    }
}

/// A member added to an object is found unless one with its key stood there before,
/// and all others are found as before.
pub broadcast proof fn lemma_get_with(
    object: JsonModel,
    key: Seq<char>,
    value: JsonModel,
    wanted: Seq<char>,
)
    requires
        object is Object,
    ensures
        #[trigger] object.with(key, value).get(wanted) == match object.get(wanted) {
            Some(v) => Some(v),
            None => if key == wanted {
                Some(value)
            } else {
                None
            },
        },
{
    lemma_lookup_push(object->Object_0, key, value, wanted);
}

/// Decimal digits, one at least.
pub open spec fn digits(s: Seq<char>) -> bool {
    s.len() > 0 && forall|i: int| 0 <= i < s.len() ==> '0' <= #[trigger] s[i] <= '9'
}

/// The part of a number before the point: digits, the first of several not a zero.
pub open spec fn whole_part(s: Seq<char>) -> bool {
    digits(s) && (s.len() > 1 ==> s[0] != '0')
}

/// Nothing, or a point and digits.
pub open spec fn fraction_part(s: Seq<char>) -> bool {
    s.len() > 0 ==> s[0] == '.' && digits(s.skip(1))
}

/// Nothing, or an `e` and digits, which may have a sign.
pub open spec fn exponent_part(s: Seq<char>) -> bool {
    s.len() > 0 ==> (s[0] == 'e' || s[0] == 'E') && (digits(s.skip(1)) || s.len() > 1 && (s[1] == '+'
        || s[1] == '-') && digits(s.skip(2)))
}

/// How JSON writes a number that is no integer: with a fraction, an exponent, or both.
pub open spec fn float_text(s: Seq<char>) -> bool {
    exists|sign: Seq<char>, whole: Seq<char>, fraction: Seq<char>, exponent: Seq<char>|
        {
            &&& s == #[trigger] (sign + whole + fraction + exponent)
            &&& sign.len() == 0 || sign == seq!['-']
            &&& whole_part(whole)
            &&& fraction_part(fraction)
            &&& exponent_part(exponent)
            &&& fraction.len() + exponent.len() > 0
        }
}

/// No key twice.
pub open spec fn unique_keys(list: Seq<(Seq<char>, JsonModel)>) -> bool {
    forall|i: int, j: int|
        0 <= i < j < list.len() ==> (#[trigger] list[i]).0 != (#[trigger] list[j]).0
}

/// A value that a JSON document stands for: at every depth an object has no key twice, an
/// integer fits in 64 bits, and another number is written as JSON writes it.
pub open spec fn well_formed(v: JsonModel) -> bool
    decreases v,
{
    match v {
        JsonModel::Number(NumberModel::Integer(n)) => i64::MIN <= n <= u64::MAX,
        JsonModel::Number(NumberModel::Float(s)) => float_text(s),
        JsonModel::Array(list) => forall|i: int|
            0 <= i < list.len() ==> well_formed(#[trigger] list[i]),
        JsonModel::Object(list) => unique_keys(list) && forall|i: int|
            0 <= i < list.len() ==> well_formed((#[trigger] list[i]).1),
        _ => true,
    }
}

proof fn lemma_lookup_none(list: Seq<(Seq<char>, JsonModel)>, key: Seq<char>)
    requires
        lookup(list, key) is None,
    ensures
        forall|i: int| 0 <= i < list.len() ==> (#[trigger] list[i]).0 != key,
    decreases list.len(),
{
    if list.len() > 0 {
        lemma_lookup_none(list.drop_first(), key);
        assert forall|i: int| 0 <= i < list.len() implies (#[trigger] list[i]).0 != key by {
            if i > 0 {
                assert(list.drop_first()[i - 1] == list[i]);
            }
        }
    }
}

proof fn lemma_lookup_some(list: Seq<(Seq<char>, JsonModel)>, key: Seq<char>)
    requires
        lookup(list, key) is Some,
    ensures
        exists|i: int| 0 <= i < list.len() && (#[trigger] list[i]) == (key, lookup(list, key)->0),
    decreases list.len(),
{
    if list.first().0 == key {
        assert(list[0] == (key, lookup(list, key)->0));
    } else {
        lemma_lookup_some(list.drop_first(), key);
        let rest = list.drop_first();
        let i = choose|i: int|
            0 <= i < rest.len() && (#[trigger] rest[i]) == (key, lookup(rest, key)->0);
        assert(list[i + 1] == rest[i]);
    }
}

/// A well-formed object with one more well-formed member is well-formed, if its key is
/// new.
pub broadcast proof fn lemma_well_formed_with(
    object: JsonModel,
    key: Seq<char>,
    value: JsonModel,
)
    requires
        object is Object,
        well_formed(object),
        well_formed(value),
        object.get(key) is None,
    ensures
        #[trigger] well_formed(object.with(key, value)),
{
    let list = object->Object_0;
    let longer = list.push((key, value));
    lemma_lookup_none(list, key);
    assert forall|i: int, j: int| 0 <= i < j < longer.len() implies (#[trigger] longer[i]).0 != (
    #[trigger] longer[j]).0 by {
        assert(longer[i] == list[i]);
        if j < list.len() {
            assert(longer[j] == list[j]);
        }
    }
    assert forall|i: int| 0 <= i < longer.len() implies well_formed((#[trigger] longer[i]).1) by {
        if i < list.len() {
            assert(longer[i] == list[i]);
        }
    }
}

/// An array of well-formed values is well-formed.
pub proof fn lemma_well_formed_array(list: Seq<JsonModel>)
    requires
        forall|i: int| 0 <= i < list.len() ==> well_formed(#[trigger] list[i]),
    ensures
        well_formed(JsonModel::Array(list)),
{
}

/// An item of a well-formed array is well-formed.
proof fn lemma_item_well_formed(list: Seq<JsonModel>, i: int)
    requires
        well_formed(JsonModel::Array(list)),
        0 <= i < list.len(),
    ensures
        well_formed(list[i]),
{
    let v = JsonModel::Array(list);
    assert(v->Array_0[i] == list[i]);
    assert(well_formed(v->Array_0[i]));
}

/// An object of well-formed values without a key twice is well-formed.
pub proof fn lemma_well_formed_object(list: Seq<(Seq<char>, JsonModel)>)
    requires
        unique_keys(list),
        forall|i: int| 0 <= i < list.len() ==> well_formed((#[trigger] list[i]).1),
    ensures
        well_formed(JsonModel::Object(list)),
{
}

/// What stands in a well-formed object is well-formed.
pub proof fn lemma_get_well_formed(object: JsonModel, key: Seq<char>)
    requires
        well_formed(object),
        object.get(key) is Some,
    ensures
        well_formed(object.get(key)->0),
{
    let list = object->Object_0;
    lemma_lookup_some(list, key);
    let i = choose|i: int|
        0 <= i < list.len() && (#[trigger] list[i]) == (key, lookup(list, key)->0);
    assert(well_formed(list[i].1));
}

impl Json {
    /// The value that an object has under a key.
    pub fn get(&self, key: &str) -> (r: Option<&Json>)
        ensures
            r is Some == self@.get(key@) is Some,
            r matches Some(v) ==> self@.get(key@) == Some(v@),
    {
        match self {
            Json::Object(list) => {
                let ghost all = members(list@);
                proof {
                    lemma_object_model(*list);
                    assert(all.skip(0) =~= all);
                }
                let mut i: usize = 0;
                while i < list.len()
                    invariant
                        i <= list@.len(),
                        all == members(list@),
                        self@ == JsonModel::Object(all),
                        lookup(all, key@) == lookup(all.skip(i as int), key@),
                    decreases list.len() - i,
                {
                    assert(all.skip(i as int).first() == all[i as int]);
                    if *list[i].0.as_str() == *key {
                        return Some(&list[i].1);
                    }
                    assert(all.skip(i as int).drop_first() =~= all.skip(i + 1));
                    i = i + 1;
                }
                None
            },
            _ => None,
        }
    }

    /// The text of a text value.
    pub fn as_str(&self) -> (r: Option<&str>)
        ensures
            r is Some == self@.text() is Some,
            r matches Some(s) ==> self@.text() == Some(s@),
    {
        match self {
            Json::Text(s) => Some(s.as_str()),
            _ => None,
        }
    }

    /// The items of an array.
    pub fn as_array(&self) -> (r: Option<&Vec<Json>>)
        ensures
            r is Some == self@.array() is Some,
            r matches Some(list) ==> self@.array() == Some(items(list@)),
    {
        broadcast use lemma_array_model;

        match self {
            Json::Array(list) => Some(list),
            _ => None,
        }
    }

    /// The members of an object.
    pub fn as_object(&self) -> (r: Option<&Vec<(String, Json)>>)
        ensures
            r is Some == self@.object() is Some,
            r matches Some(list) ==> self@.object() == Some(members(list@)),
    {
        broadcast use lemma_object_model;

        match self {
            Json::Object(list) => Some(list),
            _ => None,
        }
    }

    /// The number, where it is an integer of 64 bits with a sign.
    pub fn as_i64(&self) -> (r: Option<i64>)
        ensures
            r is Some == self@.int64() is Some,
            r matches Some(n) ==> self@.int64() == Some(n as int),
    {
        match self {
            Json::Number(Number::Unsigned(n)) => if *n <= i64::MAX as u64 {
                Some(*n as i64)
            } else {
                None
            },
            Json::Number(Number::Signed(n)) => Some(*n),
            _ => None,
        }
    }

    /// A value with the same content.
    pub fn copy(&self) -> (r: Json)
        ensures
            r@ == self@,
        decreases self,
    {
        broadcast use lemma_array_model, lemma_object_model;

        match self {
            Json::Null => Json::Null,
            Json::Bool(b) => Json::Bool(*b),
            Json::Number(n) => Json::Number(n.copy()),
            Json::Text(s) => Json::Text(s.clone()),
            Json::Array(list) => {
                let mut r: Vec<Json> = Vec::new();
                let mut i: usize = 0;
                while i < list.len()
                    invariant
                        i <= list@.len(),
                        self == Json::Array(*list),
                        items(r@) == items(list@).take(i as int),
                    decreases list.len() - i,
                {
                    let ghost done = r@;
                    assert(decreases_to!(*self => self->Array_0@[i as int]));
                    r.push(list[i].copy());
                    assert(items(r@) =~= items(done).push(list@[i as int]@));
                    assert(items(r@) =~= items(list@).take(i + 1));
                    i = i + 1;
                }
                assert(items(list@).take(list@.len() as int) =~= items(list@));
                Json::Array(r)
            },
            Json::Object(list) => {
                let mut r: Vec<(String, Json)> = Vec::new();
                let mut i: usize = 0;
                while i < list.len()
                    invariant
                        i <= list@.len(),
                        self == Json::Object(*list),
                        members(r@) == members(list@).take(i as int),
                    decreases list.len() - i,
                {
                    let ghost done = r@;
                    assert(decreases_to!(*self => self->Object_0@[i as int].1));
                    r.push((list[i].0.clone(), list[i].1.copy()));
                    assert(members(r@) =~= members(done).push((list@[i as int].0@, list@[i as int].1@)));
                    assert(members(r@) =~= members(list@).take(i + 1));
                    i = i + 1;
                }
                assert(members(list@).take(list@.len() as int) =~= members(list@));
                Json::Object(r)
            },
        }
    }

    /// A text value.
    pub fn text(s: &str) -> (r: Json)
        ensures
            r@ == JsonModel::Text(s@),
    {
        Json::Text(s.to_owned())
    }

    /// A text value, or null where there is no text.
    pub fn nullable(s: &Option<String>) -> (r: Json)
        ensures
            r@ == nullable(crate::text::opt_text(*s)),
    {
        match s {
            Some(s) => Json::Text(s.clone()),
            None => Json::Null,
        }
    }

    /// An integer without a sign.
    pub fn count(n: u64) -> (r: Json)
        ensures
            r@ == JsonModel::Number(NumberModel::Integer(n as int)),
    {
        Json::Number(Number::Unsigned(n))
    }

    /// An array of those items.
    pub fn array(list: Vec<Json>) -> (r: Json)
        ensures
            r@ == JsonModel::Array(items(list@)),
    {
        broadcast use lemma_array_model;

        Json::Array(list)
    }

    /// The object without members.
    pub fn empty() -> (r: Json)
        ensures
            r@ == empty_object(),
    {
        let list: Vec<(String, Json)> = Vec::new();
        assert(members(list@) =~= Seq::empty());
        Json::object(list)
    }

    /// An object with one more member at its end.
    pub fn with(self, key: &str, value: Json) -> (r: Json)
        ensures
            r@ == self@.with(key@, value@),
    {
        broadcast use lemma_object_model;

        match self {
            Json::Object(list) => {
                let mut list = list;
                let ghost before = list@;
                list.push((key.to_owned(), value));
                assert(members(list@) =~= members(before).push((key@, value@)));
                Json::Object(list)
            },
            other => other,
        }
    }

    /// An object with those members.
    pub fn object(list: Vec<(String, Json)>) -> (r: Json)
        ensures
            r@ == JsonModel::Object(members(list@)),
    {
        broadcast use lemma_object_model;

        Json::Object(list)
    }
}

impl Number {
    /// A number with the same content.
    pub fn copy(&self) -> (r: Number)
        ensures
            r@ == self@,
    {
        match self {
            Number::Unsigned(n) => Number::Unsigned(*n),
            Number::Signed(n) => Number::Signed(*n),
            Number::Float(s) => Number::Float(s.clone()),
        }
    }

    /// How the number is written.
    pub fn text(&self) -> (r: String)
        ensures
            r@ == number_text(self@),
    {
        match self {
            Number::Unsigned(n) => decimal_text(*n),
            Number::Signed(n) => signed_decimal_text(*n),
            Number::Float(s) => s.clone(),
        }
    }
}

/// A key finds the first member that has it, and nothing where none has it.
pub proof fn law_lookup(list: Seq<(Seq<char>, JsonModel)>, key: Seq<char>, i: int)
    ensures
        (forall|k: int| 0 <= k < list.len() ==> (#[trigger] list[k]).0 != key) ==>
            JsonModel::Object(
            list,
        ).get(key) is None,
        0 <= i < list.len() && list[i].0 == key && (forall|k: int|
            0 <= k < i ==> (#[trigger] list[k]).0 != key) ==> JsonModel::Object(list).get(key)
            == Some(list[i].1),
    decreases list.len(),
{
    if list.len() > 0 && list[0].0 != key {
        let rest = list.drop_first();
        law_lookup(rest, key, i - 1);
        assert forall|k: int| 0 <= k < rest.len() implies #[trigger] rest[k] == list[k + 1] by {}
    }
}

/// What is no object has nothing under a key.
pub proof fn law_no_members(v: JsonModel, key: Seq<char>)
    ensures
        !(v is Object) ==> v.get(key) is None,
{
}

/// A value stands for what it holds: a truth value for itself, a number for the integer or
/// for the way that it is written, a text for its characters, an array for its items in
/// order and an object for its members in order.
pub proof fn law_models(
    b: bool,
    n: u64,
    k: i64,
    s: String,
    list: Vec<Json>,
    pairs: Vec<(String, Json)>,
    i: int,
)
    ensures
        Json::Null@ is Null,
        Json::Bool(b)@ == JsonModel::Bool(b),
        Json::Number(Number::Unsigned(n))@ == JsonModel::Number(NumberModel::Integer(n as int)),
        Json::Number(Number::Signed(k))@ == JsonModel::Number(NumberModel::Integer(k as int)),
        Json::Number(Number::Float(s))@ == JsonModel::Number(NumberModel::Float(s@)),
        Json::Text(s)@ == JsonModel::Text(s@),
        Json::Array(list)@ is Array,
        Json::Array(list)@->Array_0.len() == list@.len(),
        0 <= i < list@.len() ==> Json::Array(list)@->Array_0[i] == list@[i]@,
        Json::Object(pairs)@ is Object,
        Json::Object(pairs)@->Object_0.len() == pairs@.len(),
        0 <= i < pairs@.len() ==> Json::Object(pairs)@->Object_0[i].0 == pairs@[i].0@
            && Json::Object(pairs)@->Object_0[i].1 == pairs@[i].1@,
{
}

/// A member that is added to an object comes last, and those before it stay.
pub proof fn law_with(list: Seq<(Seq<char>, JsonModel)>, key: Seq<char>, value: JsonModel, i: int)
    ensures
        empty_object()->Object_0.len() == 0 && empty_object() is Object,
        ({
            let longer = JsonModel::Object(list).with(key, value);
            &&& longer is Object
            &&& longer->Object_0.len() == list.len() + 1
            &&& 0 <= i < list.len() ==> longer->Object_0[i] == list[i]
            &&& longer->Object_0[list.len() as int].0 == key
            &&& longer->Object_0[list.len() as int].1 == value
        }),
{
}

/// An array is well-formed exactly if its items are, an object exactly if its members are
/// and no key comes twice, and an integer exactly if it fits in 64 bits, with a sign or
/// without. Null, truth values and texts always are.
pub proof fn law_well_formed(
    b: bool,
    n: int,
    s: Seq<char>,
    list: Seq<JsonModel>,
    pairs: Seq<(Seq<char>, JsonModel)>,
)
    ensures
        well_formed(JsonModel::Null) && well_formed(JsonModel::Bool(b)) && well_formed(
            JsonModel::Text(s),
        ),
        well_formed(JsonModel::Number(NumberModel::Integer(n))) <==> -0x8000_0000_0000_0000 <= n
            < 0x1_0000_0000_0000_0000,
        well_formed(JsonModel::Array(list)) <==> forall|i: int|
            0 <= i < list.len() ==> well_formed(#[trigger] list[i]),
        well_formed(JsonModel::Object(pairs)) <==> {
            &&& forall|i: int| 0 <= i < pairs.len() ==> well_formed((#[trigger] pairs[i]).1)
            &&& forall|i: int, j: int|
                0 <= i < pairs.len() && 0 <= j < pairs.len() && (#[trigger] pairs[i]).0 == (
                #[trigger] pairs[j]).0 ==> i == j
        },
{
    if well_formed(JsonModel::Array(list)) {
        assert forall|i: int| 0 <= i < list.len() implies well_formed(#[trigger] list[i]) by {
            lemma_item_well_formed(list, i);
        }
    }
    if unique_keys(pairs) {
        assert forall|i: int, j: int|
            0 <= i < pairs.len() && 0 <= j < pairs.len() && (#[trigger] pairs[i]).0 == (
            #[trigger] pairs[j]).0 implies i == j by {
            if i < j {
                assert(pairs[i].0 != pairs[j].0);
            } else if j < i {
                assert(pairs[j].0 != pairs[i].0);
            }
        }
    }
}

} // verus!
