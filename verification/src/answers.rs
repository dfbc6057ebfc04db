//! What answers are made of: lists of texts, and numbers that may be absent.
use vstd::prelude::*;

use crate::json::{
    items, lemma_well_formed_array, nullable_int, well_formed, Json, JsonModel, Number,
    NumberModel,
};
use crate::text::{opt_text, texts};

verus! {

/// A size as a number.
pub open spec fn size_of(size: Option<u64>) -> Option<int> {
    match size {
        Some(n) => Some(n as int),
        None => None,
    }
}

/// A signed number as a number.
pub open spec fn number_of(n: Option<i64>) -> Option<int> {
    match n {
        Some(n) => Some(n as int),
        None => None,
    }
}

/// The names that there are, in order.
pub open spec fn present(names: Seq<Option<String>>) -> Seq<Seq<char>> {
    names.filter_map(|n: Option<String>| opt_text(n))
}

/// An array of texts.
pub open spec fn text_array(list: Seq<Seq<char>>) -> JsonModel {
    JsonModel::Array(list.map_values(|s: Seq<char>| JsonModel::Text(s)))
}

/// The names that there are, in order.
pub fn present_names(names: Vec<Option<String>>) -> (r: Vec<String>)
    ensures
        texts(r@) == present(names@),
{
    let ghost f = |n: Option<String>| opt_text(n);
    let mut r: Vec<String> = Vec::new();
    let mut i: usize = 0;
    assert(texts(r@) =~= names@.take(0).filter_map(f));
    while i < names.len()
        invariant
            i <= names@.len(),
            f == |n: Option<String>| opt_text(n),
            texts(r@) == names@.take(i as int).filter_map(f),
        decreases names.len() - i,
    {
        let ghost before = r@;
        proof {
            assert(names@.take(i + 1).drop_last() =~= names@.take(i as int));
            assert(names@.take(i + 1).last() == names@[i as int]);
        }
        match &names[i] {
            Some(name) => {
                r.push(name.clone());
                assert(texts(r@) =~= texts(before) + seq![name@]);
            },
            None => {},
        }
        i = i + 1;
    }
    assert(names@.take(names@.len() as int) =~= names@);
    r
}

/// An array of texts.
pub fn text_list(list: &Vec<String>) -> (r: Json)
    ensures
        r@ == text_array(texts(list@)),
{
    let ghost want = texts(list@).map_values(|s: Seq<char>| JsonModel::Text(s));
    let mut r: Vec<Json> = Vec::new();
    let mut i: usize = 0;
    while i < list.len()
        invariant
            i <= list@.len(),
            want == texts(list@).map_values(|s: Seq<char>| JsonModel::Text(s)),
            items(r@) == want.take(i as int),
        decreases list.len() - i,
    {
        let ghost before = r@;
        r.push(Json::Text(list[i].clone()));
        assert(items(r@) =~= items(before).push(want[i as int]));
        assert(items(r@) =~= want.take(i + 1));
        i = i + 1;
    }
    assert(want.take(want.len() as int) =~= want);
    Json::array(r)
}

/// A size, or null where there is none.
pub fn size_json(size: Option<u64>) -> (r: Json)
    ensures
        r@ == nullable_int(size_of(size)),
{
    match size {
        Some(n) => Json::count(n),
        None => Json::Null,
    }
}

/// A signed number, or null where there is none.
pub fn number_json(n: Option<i64>) -> (r: Json)
    ensures
        r@ == nullable_int(number_of(n)),
{
    match n {
        Some(n) => if n >= 0 {
            Json::count(n as u64)
        } else {
            Json::Number(Number::Signed(n))
        },
        None => Json::Null,
    }
}

/// An array of texts is well-formed.
pub broadcast proof fn lemma_well_formed_texts(list: Seq<Seq<char>>)
    ensures
        #[trigger] well_formed(text_array(list)),
{
    lemma_well_formed_array(list.map_values(|s: Seq<char>| JsonModel::Text(s)));
}

/// A name that is there is listed, at its place, and one that is absent is not.
pub proof fn law_present(names: Seq<Option<String>>, name: String)
    ensures
        present(Seq::empty()).len() == 0,
        present(names.push(Some(name))) == present(names).push(name@),
        present(names.push(None)) == present(names),
{
    let f = |n: Option<String>| opt_text(n);
    assert(names.push(Some(name)).drop_last() =~= names);
    assert(names.push(None).drop_last() =~= names);
    assert(present(names.push(Some(name))) =~= present(names).push(name@));
}

/// An array of texts holds each of them at its place.
pub proof fn law_text_array(list: Seq<Seq<char>>, i: int)
    ensures
        text_array(list) is Array,
        text_array(list)->Array_0.len() == list.len(),
        0 <= i < list.len() ==> text_array(list)->Array_0[i] == JsonModel::Text(list[i]),
{
}

/// A number that is there is answered as it is, and one that is absent as null.
pub proof fn law_numbers(size: u64, n: i64)
    ensures
        nullable_int(size_of(Some(size))) == JsonModel::Number(NumberModel::Integer(size as int)),
        nullable_int(size_of(None)) is Null,
        nullable_int(number_of(Some(n))) == JsonModel::Number(NumberModel::Integer(n as int)),
        nullable_int(number_of(None)) is Null,
{
}

/// A member that holds a text, or null where there is none.
pub open spec fn holds_text(member: Option<JsonModel>, s: Option<String>) -> bool {
    match s {
        Some(s) => member == Some(JsonModel::Text(s@)),
        None => member == Some(JsonModel::Null),
    }
}

/// A member that holds a size, or null where there is none.
pub open spec fn holds_size(member: Option<JsonModel>, n: Option<u64>) -> bool {
    match n {
        Some(n) => member == Some(JsonModel::Number(NumberModel::Integer(n as int))),
        None => member == Some(JsonModel::Null),
    }
}

/// A member that holds a number, or null where there is none.
pub open spec fn holds_number(member: Option<JsonModel>, n: Option<i64>) -> bool {
    match n {
        Some(n) => member == Some(JsonModel::Number(NumberModel::Integer(n as int))),
        None => member == Some(JsonModel::Null),
    }
}

/// A member that holds one text for each of a list, in order.
pub open spec fn holds_texts(member: Option<JsonModel>, list: Seq<String>) -> bool {
    &&& member is Some
    &&& member->0 is Array
    &&& member->0->Array_0.len() == list.len()
    &&& forall|i: int|
        0 <= i < list.len() ==> #[trigger] member->0->Array_0[i] == JsonModel::Text(list[i]@)
}

/// A member that holds one object for each of a list, in order; its only member, `id`, has
/// the text, or null where there is none.
pub open spec fn holds_ids(member: Option<JsonModel>, list: Seq<Option<String>>) -> bool {
    &&& member is Some
    &&& member->0 is Array
    &&& member->0->Array_0.len() == list.len()
    &&& forall|i: int|
        0 <= i < list.len() ==> {
            let object = #[trigger] member->0->Array_0[i];
            &&& object is Object
            &&& object->Object_0.len() == 1
            &&& holds_text(object.get("id"@), list[i])
        }
}

} // verus!
