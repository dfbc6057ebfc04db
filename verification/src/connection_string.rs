//! Connection strings: `Key=Value;Key=Value`.
use vstd::prelude::*;
use vstd::string::*;

use crate::error::{missing, outcome, text_outcome, Error};
use crate::json::{
    digits, empty_object, exponent_part, float_text, fraction_part, lemma_get_well_formed,
    lemma_well_formed_object, members, number_text, well_formed, whole_part, Json, JsonModel,
    NumberModel,
};
use crate::options::{aliased, aliased_str, has_text_or, lacks_text_or};
use crate::text::{
    all_white, decimal, has_char, join, once_split, pieces_of, split_on, split_once, texts, trim,
    trimmed,
};

verus! {

/// A key and its value.
pub type PairModel = (Seq<char>, Seq<char>);

/// The texts of a list of pairs.
pub open spec fn pairs(list: Seq<(String, String)>) -> Seq<PairModel> {
    list.map_values(|p: (String, String)| (p.0@, p.1@))
}

/// The pieces between semicolons, without those that are blank.
pub open spec fn settings(text: Seq<char>) -> Seq<Seq<char>> {
    split_on(text, ';').filter(|s: Seq<char>| trim(s).len() > 0)
}

/// Whether a list of pairs has that key.
pub open spec fn has_key(list: Seq<PairModel>, key: Seq<char>) -> bool {
    exists|i: int| 0 <= i < list.len() && (#[trigger] list[i]).0 == key
}

/// The list with the value of a key replaced where it stands, or the pair added at
/// the end if the key is new.
pub open spec fn put(list: Seq<PairModel>, key: Seq<char>, value: Seq<char>) -> Seq<PairModel> {
    if has_key(list, key) {
        list.map_values(
            |p: PairModel|
                if p.0 == key {
                    (key, value)
                } else {
                    p
                },
        )
    } else {
        list.push((key, value))
    }
}

/// The message for a piece without `=`, which is shown without the white space around it.
pub open spec fn malformed(piece: Seq<char>) -> Seq<char> {
    "malformed pair (no `=`): "@ + trim(piece)
}

/// The pairs that the pieces give in order, or the message for the first piece
/// without `=`. The key ends at the first `=` and is trimmed; the value is all that
/// follows it, white space and further `=` included.
pub open spec fn collected(pieces: Seq<Seq<char>>) -> Result<Seq<PairModel>, Seq<char>>
    decreases pieces.len(),
{
    if pieces.len() == 0 {
        Ok(Seq::empty())
    } else {
        match collected(pieces.drop_last()) {
            Err(e) => Err(e),
            Ok(list) => match split_once(pieces.last(), '=') {
                Some((key, value)) => Ok(put(list, trim(key), value)),
                None => Err(malformed(pieces.last())),
            },
        }
    }
}

/// The pairs of a connection string, which must have one.
pub open spec fn parsed(text: Seq<char>) -> Result<Seq<PairModel>, Seq<char>> {
    match collected(settings(text)) {
        Err(e) => Err(e),
        Ok(list) => if list.len() == 0 {
            Err("empty connection string"@)
        } else {
            Ok(list)
        },
    }
}

/// The pairs as a JSON object.
pub open spec fn pairs_json(list: Seq<PairModel>) -> JsonModel {
    JsonModel::Object(list.map_values(|p: PairModel| (p.0, JsonModel::Text(p.1))))
}

/// What `op_parse_connection_string` answers.
pub open spec fn parse_answer(opts: JsonModel) -> Result<JsonModel, Seq<char>> {
    match aliased(opts, "connection_string"@, "dsn"@) {
        None => Err(missing("connection_string"@)),
        Some(text) => match parsed(text) {
            Ok(list) => Ok(empty_object().with("pairs"@, pairs_json(list))),
            Err(e) => Err(e),
        },
    }
}

/// How a value is written in a connection string.
pub open spec fn value_text(value: JsonModel) -> Option<Seq<char>> {
    match value {
        JsonModel::Text(s) => Some(s),
        JsonModel::Number(n) => Some(number_text(n)),
        JsonModel::Bool(b) => Some(
            if b {
                "true"@
            } else {
                "false"@
            },
        ),
        _ => None,
    }
}

/// What is wrong with a member of `pairs`, if anything.
pub open spec fn member_fault(m: (Seq<char>, JsonModel)) -> Option<Seq<char>> {
    if m.0.len() == 0 || m.0.contains('=') || m.0.contains(';') {
        Some("invalid key `"@ + m.0 + "` (non-empty, no `=` or `;`)"@)
    } else {
        match value_text(m.1) {
            None => Some("value for `"@ + m.0 + "` must be a string, number, or bool"@),
            Some(value) => if value.contains(';') {
                Some("value for `"@ + m.0 + "` must not contain `;`"@)
            } else {
                None
            },
        }
    }
}

/// What is wrong with the first member that has a fault.
pub open spec fn first_fault(list: Seq<(Seq<char>, JsonModel)>) -> Option<Seq<char>>
    decreases list.len(),
{
    if list.len() == 0 {
        None
    } else {
        match first_fault(list.drop_last()) {
            Some(e) => Some(e),
            None => member_fault(list.last()),
        }
    }
}

/// A member of `pairs` as it stands in a connection string.
pub open spec fn setting(m: (Seq<char>, JsonModel)) -> Seq<char> {
    m.0.push('=') + value_text(m.1)->0
}

/// The connection string that has those members, which must be faultless and one at
/// least.
pub open spec fn built(list: Seq<(Seq<char>, JsonModel)>) -> Result<Seq<char>, Seq<char>> {
    if list.len() == 0 {
        Err("pairs must not be empty"@)
    } else {
        match first_fault(list) {
            Some(e) => Err(e),
            None => Ok(join(list.map_values(|m: (Seq<char>, JsonModel)| setting(m)), ';')),
        }
    }
}

/// What `op_build_connection_string` answers.
pub open spec fn build_answer(opts: JsonModel) -> Result<JsonModel, Seq<char>> {
    let asked = match opts.get("pairs"@) {
        Some(v) => v.object(),
        None => None,
    };
    match asked {
        None => Err("missing pairs (object)"@),
        Some(list) => match built(list) {
            Ok(text) => Ok(empty_object().with("connection_string"@, JsonModel::Text(text))),
            Err(e) => Err(e),
        },
    }
}

/// No key twice.
pub open spec fn distinct_keys(list: Seq<PairModel>) -> bool {
    forall|i: int, j: int|
        0 <= i < j < list.len() ==> (#[trigger] list[i]).0 != (#[trigger] list[j]).0
}

/// Sets the value of a key where it stands, or adds the pair at the end.
fn put_pair(list: &mut Vec<(String, String)>, key: String, value: String)
    requires
        distinct_keys(pairs(old(list)@)),
    ensures
        pairs(final(list)@) == put(pairs(old(list)@), key@, value@),
        distinct_keys(pairs(final(list)@)),
{
    let ghost before = pairs(list@);
    let ghost k = key@;
    let ghost v = value@;
    let mut i: usize = 0;
    while i < list.len()
        invariant
            i <= list@.len(),
            before == pairs(list@),
            before == pairs(old(list)@),
            distinct_keys(before),
            k == key@,
            v == value@,
            forall|j: int| 0 <= j < i ==> (#[trigger] before[j]).0 != k,
        decreases list.len() - i,
    {
        assert(before[i as int].0 == list@[i as int].0@);
        if *list[i].0.as_str() == *key.as_str() {
            list.set(i, (key, value));
            proof {
                assert(has_key(before, k));
                assert forall|j: int| i < j < before.len() implies (#[trigger] before[j]).0 != k by {
                    assert(before[i as int].0 == k);
                }
                assert(pairs(list@) =~= put(before, k, v));
                let after = pairs(list@);
                assert forall|a: int, b: int| 0 <= a < b < after.len() implies (
                #[trigger] after[a]).0 != (#[trigger] after[b]).0 by {
                    assert(after[a].0 == before[a].0);
                    assert(after[b].0 == before[b].0);
                }
            }
            return;
        }
        i = i + 1;
    }
    list.push((key, value));
    proof {
        assert(!has_key(before, k));
        assert(pairs(list@) =~= before.push((k, v)));
    }
}

/// The pieces between semicolons, without those that are blank.
fn settings_of(text: &str) -> (r: Vec<String>)
    ensures
        texts(r@) == settings(text@),
{
    let pieces = pieces_of(text, ';');
    let ghost all = texts(pieces@);
    let ghost full = |s: Seq<char>| trim(s).len() > 0;
    let mut r: Vec<String> = Vec::new();
    let mut i: usize = 0;
    proof {
        reveal(Seq::filter);
        assert(texts(r@) =~= all.take(0).filter(full));
    }
    while i < pieces.len()
        invariant
            i <= pieces@.len(),
            all == texts(pieces@),
            full == |s: Seq<char>| trim(s).len() > 0,
            texts(r@) == all.take(i as int).filter(full),
        decreases pieces.len() - i,
    {
        let ghost before = r@;
        proof {
            reveal(Seq::filter);
            assert(all.take(i + 1).drop_last() =~= all.take(i as int));
            assert(all.take(i + 1).last() == pieces@[i as int]@);
        }
        if !trimmed(pieces[i].as_str()).as_str().is_empty() {
            r.push(pieces[i].clone());
            assert(texts(r@) =~= texts(before).push(pieces@[i as int]@));
        }
        i = i + 1;
    }
    assert(all.take(all.len() as int) =~= all);
    r
}

proof fn lemma_collect_stops(pieces: Seq<Seq<char>>, n: int)
    requires
        0 <= n <= pieces.len(),
        collected(pieces.take(n)) is Err,
    ensures
        collected(pieces) == collected(pieces.take(n)),
    decreases pieces.len(),
{
    if n == pieces.len() {
        assert(pieces.take(n) =~= pieces);
    } else {
        assert(pieces.drop_last().take(n) =~= pieces.take(n));
        lemma_collect_stops(pieces.drop_last(), n);
    }
}

/// The pairs of a connection string.
pub fn parse_connection_string(text: &str) -> (r: Result<Vec<(String, String)>, Error>)
    ensures
        match r {
            Ok(list) => parsed(text@) == Ok::<Seq<PairModel>, Seq<char>>(pairs(list@))
                && distinct_keys(pairs(list@)),
            Err(e) => parsed(text@) == Err::<Seq<PairModel>, Seq<char>>(e@),
        },
{
    let pieces = settings_of(text);
    let ghost all = texts(pieces@);
    let mut list: Vec<(String, String)> = Vec::new();
    let mut i: usize = 0;
    assert(pairs(list@) =~= Seq::empty());
    while i < pieces.len()
        invariant
            i <= pieces@.len(),
            all == texts(pieces@),
            all == settings(text@),
            distinct_keys(pairs(list@)),
            collected(all.take(i as int)) == Ok::<Seq<PairModel>, Seq<char>>(pairs(list@)),
        decreases pieces.len() - i,
    {
        let ghost upto = all.take(i + 1);
        proof {
            assert(upto.drop_last() =~= all.take(i as int));
            assert(upto.last() == pieces@[i as int]@);
        }
        match once_split(pieces[i].as_str(), '=') {
            Some((key, value)) => put_pair(&mut list, trimmed(key.as_str()), value),
            None => {
                proof {
                    lemma_collect_stops(all, i + 1);
                }
                let shown = trimmed(pieces[i].as_str());
                return Err(Error::of("malformed pair (no `=`): ", shown.as_str()));
            },
        }
        i = i + 1;
    }
    assert(all.take(all.len() as int) =~= all);
    if list.len() == 0 {
        return Err(Error::new("empty connection string"));
    }
    Ok(list)
}

/// How a value is written in a connection string.
fn written(value: &Json) -> (r: Option<String>)
    ensures
        crate::text::opt_text(r) == value_text(value@),
{
    match value {
        Json::Text(s) => Some(s.clone()),
        Json::Number(n) => Some(n.text()),
        Json::Bool(b) => if *b {
            Some("true".to_owned())
        } else {
            Some("false".to_owned())
        },
        _ => None,
    }
}

proof fn lemma_fault_stops(list: Seq<(Seq<char>, JsonModel)>, n: int)
    requires
        0 <= n <= list.len(),
        first_fault(list.take(n)) is Some,
    ensures
        first_fault(list) == first_fault(list.take(n)),
    decreases list.len(),
{
    if n == list.len() {
        assert(list.take(n) =~= list);
    } else {
        assert(list.drop_last().take(n) =~= list.take(n));
        lemma_fault_stops(list.drop_last(), n);
    }
}

/// The connection string that has those members.
pub fn build_connection_string(list: &Vec<(String, Json)>) -> (r: Result<String, Error>)
    ensures
        text_outcome(r) == built(members(list@)),
{
    if list.len() == 0 {
        return Err(Error::new("pairs must not be empty"));
    }
    let ghost all = members(list@);
    let ghost want = all.map_values(|m: (Seq<char>, JsonModel)| setting(m));
    let mut text = String::new();
    let mut i: usize = 0;
    while i < list.len()
        invariant
            i <= list@.len(),
            all == members(list@),
            all.len() > 0,
            want == all.map_values(|m: (Seq<char>, JsonModel)| setting(m)),
            first_fault(all.take(i as int)) is None,
            text@ == join(want.take(i as int), ';'),
        decreases list.len() - i,
    {
        let ghost before = text@;
        let ghost m = all[i as int];
        proof {
            assert(m.0 == list@[i as int].0@);
            assert(all.take(i + 1).drop_last() =~= all.take(i as int));
            assert(all.take(i + 1).last() == m);
            assert(want.take(i + 1).drop_last() =~= want.take(i as int));
            assert(want.take(i + 1).last() == setting(m));
            if member_fault(m) is Some {
                lemma_fault_stops(all, i + 1);
            }
        }
        let key = list[i].0.as_str();
        if key.is_empty() || has_char(key, '=') || has_char(key, ';') {
            return Err(Error::about("invalid key `", key, "` (non-empty, no `=` or `;`)"));
        }
        let value = match written(&list[i].1) {
            Some(value) => value,
            None => {
                return Err(
                    Error::about("value for `", key, "` must be a string, number, or bool"),
                );
            },
        };
        if has_char(value.as_str(), ';') {
            return Err(Error::about("value for `", key, "` must not contain `;`"));
        }
        if i > 0 {
            text.push(';');
        }
        text.append(key);
        text.push('=');
        text.append(value.as_str());
        proof {
            if i == 0 {
                assert(text@ =~= setting(m));
            } else {
                assert(text@ =~= before.push(';') + setting(m));
            }
        }
        i = i + 1;
    }
    assert(all.take(all.len() as int) =~= all);
    assert(want.take(want.len() as int) =~= want);
    Ok(text)
}

/// Takes the connection string under `connection_string` (or `dsn`) apart.
pub fn op_parse_connection_string(opts: Json) -> (r: Result<Json, Error>)
    ensures
        outcome(r) == parse_answer(opts@),
{
    let text = match aliased_str(&opts, "connection_string", "dsn") {
        Some(text) => text,
        None => {
            return Err(Error::missing("connection_string"));
        },
    };
    let list = match parse_connection_string(text) {
        Ok(list) => list,
        Err(e) => {
            return Err(e);
        },
    };
    let ghost all = pairs(list@);
    let ghost want = all.map_values(|p: PairModel| (p.0, JsonModel::Text(p.1)));
    let mut object: Vec<(String, Json)> = Vec::new();
    let mut i: usize = 0;
    while i < list.len()
        invariant
            i <= list@.len(),
            all == pairs(list@),
            want == all.map_values(|p: PairModel| (p.0, JsonModel::Text(p.1))),
            members(object@) == want.take(i as int),
        decreases list.len() - i,
    {
        let ghost before = object@;
        object.push((list[i].0.clone(), Json::Text(list[i].1.clone())));
        assert(members(object@) =~= members(before).push(want[i as int]));
        assert(members(object@) =~= want.take(i + 1));
        i = i + 1;
    }
    assert(want.take(want.len() as int) =~= want);
    Ok(Json::empty().with("pairs", Json::object(object)))
}

/// Puts a connection string together from the members of `pairs`, in their order.
pub fn op_build_connection_string(opts: Json) -> (r: Result<Json, Error>)
    ensures
        outcome(r) == build_answer(opts@),
{
    let asked = match opts.get("pairs") {
        Some(v) => v.as_object(),
        None => None,
    };
    match asked {
        None => Err(Error::new("missing pairs (object)")),
        Some(list) => match build_connection_string(list) {
            Ok(text) => Ok(Json::empty().with("connection_string", Json::Text(text))),
            Err(e) => Err(e),
        },
    }
}

/// A pair that a connection string gives: a key with no `=`, no `;` and no white space
/// around it, and a value with no `;`.
pub open spec fn readable_pair(p: PairModel) -> bool {
    &&& !p.0.contains('=')
    &&& !p.0.contains(';')
    &&& trim(p.0) == p.0
    &&& !p.1.contains(';')
}

/// A pair that a connection string can hold and give back: a readable one whose key is
/// not empty.
pub open spec fn sound_pair(p: PairModel) -> bool {
    p.0.len() > 0 && readable_pair(p)
}

/// The members of an object of texts.
pub open spec fn text_members(list: Seq<PairModel>) -> Seq<(Seq<char>, JsonModel)> {
    list.map_values(|p: PairModel| (p.0, JsonModel::Text(p.1)))
}

/// The pairs that members ask for.
pub open spec fn written_pairs(list: Seq<(Seq<char>, JsonModel)>) -> Seq<PairModel> {
    list.map_values(|m: (Seq<char>, JsonModel)| (m.0, value_text(m.1)->0))
}

proof fn lemma_no_fault(list: Seq<(Seq<char>, JsonModel)>)
    ensures
        first_fault(list) is None <==> forall|i: int|
            0 <= i < list.len() ==> member_fault(#[trigger] list[i]) is None,
    decreases list.len(),
{
    if list.len() > 0 {
        let front = list.drop_last();
        lemma_no_fault(front);
        assert(list.last() == list[list.len() - 1]);
        if first_fault(list) is None {
            assert forall|i: int| 0 <= i < list.len() implies member_fault(
                #[trigger] list[i],
            ) is None by {
                if i < front.len() {
                    assert(front[i] == list[i]);
                }
            }
        } else if forall|i: int| 0 <= i < list.len() ==> member_fault(#[trigger] list[i]) is None {
            assert forall|i: int| 0 <= i < front.len() implies member_fault(
                #[trigger] front[i],
            ) is None by {
                assert(front[i] == list[i]);
            }
        }
    }
}

/// A sound pair as it is written: one piece that is not blank, split again where it was
/// joined.
proof fn lemma_sound_setting(p: PairModel)
    requires
        sound_pair(p),
    ensures
        ({
            let s = p.0.push('=') + p.1;
            &&& trim(s).len() > 0
            &&& !s.contains(';')
            &&& split_once(s, '=') == Some(p)
        }),
{
    let s = p.0.push('=') + p.1;
    assert(s[p.0.len() as int] == '=');
    crate::text::lemma_trim_keeps(s, '=');
    if s.contains(';') {
        let i = s.index_of(';');
        if i < p.0.len() {
            assert(p.0[i] == ';');
        } else if i > p.0.len() {
            assert(p.1[i - p.0.len() - 1] == ';');
        }
    }
    crate::text::lemma_split_once_joined(p.0, p.1, '=');
}

/// The pieces of sound pairs give the pairs.
proof fn lemma_collect_sound(list: Seq<PairModel>, pieces: Seq<Seq<char>>)
    requires
        pieces.len() == list.len(),
        distinct_keys(list),
        forall|i: int|
            0 <= i < list.len() ==> sound_pair(#[trigger] list[i]) && pieces[i] == list[i].0.push('=')
                + list[i].1,
    ensures
        collected(pieces) == Ok::<Seq<PairModel>, Seq<char>>(list),
    decreases list.len(),
{
    if list.len() == 0 {
        assert(list =~= Seq::empty());
    } else {
        let front = list.drop_last();
        let n = list.len() - 1;
        assert forall|i: int| 0 <= i < front.len() implies sound_pair(#[trigger] front[i])
            && pieces.drop_last()[i] == front[i].0.push('=') + front[i].1 by {
            assert(front[i] == list[i]);
        }
        assert(distinct_keys(front)) by {
            assert forall|i: int, j: int| 0 <= i < j < front.len() implies (#[trigger] front[i]).0
                != (#[trigger] front[j]).0 by {
                assert(front[i] == list[i]);
                assert(front[j] == list[j]);
            }
        }
        lemma_collect_sound(front, pieces.drop_last());
        assert(sound_pair(list[n]));
        lemma_sound_setting(list[n]);
        assert(pieces.last() == pieces[n]);
        assert(!has_key(front, list[n].0)) by {
            assert forall|i: int| 0 <= i < front.len() implies (#[trigger] front[i]).0 != list[n].0 by {
                assert(front[i] == list[i]);
            }
        }
        assert(front.push(list[n]) =~= list);
    }
}

/// The text whose pieces are sound pairs has those pairs.
proof fn lemma_parse_joined(list: Seq<PairModel>, pieces: Seq<Seq<char>>)
    requires
        list.len() > 0,
        pieces.len() == list.len(),
        distinct_keys(list),
        forall|i: int|
            0 <= i < list.len() ==> sound_pair(#[trigger] list[i]) && pieces[i] == list[i].0.push('=')
                + list[i].1,
    ensures
        parsed(join(pieces, ';')) == Ok::<Seq<PairModel>, Seq<char>>(list),
{
    let text = join(pieces, ';');
    assert forall|i: int| 0 <= i < pieces.len() implies !(#[trigger] pieces[i]).contains(';')
        && trim(pieces[i]).len() > 0 by {
        assert(sound_pair(list[i]));
        lemma_sound_setting(list[i]);
    }
    crate::text::lemma_split_join(pieces, ';');
    assert(split_on(text, ';') == pieces);
    crate::text::lemma_filter_all(pieces, |s: Seq<char>| trim(s).len() > 0);
    lemma_collect_sound(list, pieces);
}

proof fn lemma_pairs_come_back(list: Seq<(Seq<char>, JsonModel)>)
    requires
        built(list) is Ok,
        distinct_keys(written_pairs(list)),
        forall|i: int| 0 <= i < list.len() ==> trim((#[trigger] list[i]).0) == list[i].0,
    ensures
        parsed(built(list)->Ok_0) == Ok::<Seq<PairModel>, Seq<char>>(written_pairs(list)),
{
    lemma_no_fault(list);
    let want = list.map_values(|m: (Seq<char>, JsonModel)| setting(m));
    let found = written_pairs(list);
    assert forall|i: int| 0 <= i < found.len() implies sound_pair(#[trigger] found[i]) && want[i]
        == found[i].0.push('=') + found[i].1 by {
        assert(member_fault(list[i]) is None);
        assert(trim(list[i].0) == list[i].0);
    }
    lemma_parse_joined(found, want);
}

proof fn lemma_read_pair(piece: Seq<char>, p: PairModel)
    requires
        !piece.contains(';'),
        split_once(piece, '=') == Some(p),
    ensures
        readable_pair((trim(p.0), p.1)),
{
    crate::text::lemma_split_once(piece, '=');
    crate::text::lemma_trim_contains(p.0, '=');
    crate::text::lemma_trim_contains(p.0, ';');
    crate::text::lemma_trim_twice(p.0);
    if p.0.contains(';') {
        let i = p.0.index_of(';');
        assert(piece[i] == ';');
    }
    if p.1.contains(';') {
        let i = p.1.index_of(';');
        assert(piece[p.0.len() + 1 + i] == ';');
    }
}

proof fn lemma_put_keeps(list: Seq<PairModel>, p: PairModel)
    requires
        distinct_keys(list),
        forall|i: int| 0 <= i < list.len() ==> readable_pair(#[trigger] list[i]),
        readable_pair(p),
    ensures
        distinct_keys(put(list, p.0, p.1)),
        forall|i: int|
            0 <= i < put(list, p.0, p.1).len() ==> readable_pair(#[trigger] put(list, p.0, p.1)[i]),
        put(list, p.0, p.1).len() > 0,
{
    let after = put(list, p.0, p.1);
    if has_key(list, p.0) {
        assert forall|i: int| 0 <= i < after.len() implies readable_pair(#[trigger] after[i]) by {
            assert(readable_pair(list[i]));
        }
        assert forall|i: int, j: int| 0 <= i < j < after.len() implies (#[trigger] after[i]).0 != (
        #[trigger] after[j]).0 by {
            assert(after[i].0 == list[i].0);
            assert(after[j].0 == list[j].0);
        }
    } else {
        assert forall|i: int| 0 <= i < after.len() implies readable_pair(#[trigger] after[i]) by {
            if i < list.len() {
                assert(readable_pair(list[i]));
            }
        }
        assert forall|i: int, j: int| 0 <= i < j < after.len() implies (#[trigger] after[i]).0 != (
        #[trigger] after[j]).0 by {
            assert(after[i] == list[i]);
            if j < list.len() {
                assert(after[j] == list[j]);
            }
        }
    }
}

proof fn lemma_collected_readable(pieces: Seq<Seq<char>>)
    requires
        forall|i: int|
            0 <= i < pieces.len() ==> !(#[trigger] pieces[i]).contains(';'),
    ensures
        collected(pieces) matches Ok(list) ==> {
            &&& distinct_keys(list)
            &&& forall|i: int| 0 <= i < list.len() ==> readable_pair(#[trigger] list[i])
        },
    decreases pieces.len(),
{
    if pieces.len() > 0 {
        let front = pieces.drop_last();
        assert forall|i: int| 0 <= i < front.len() implies !(#[trigger] front[i]).contains(';') by {
            assert(front[i] == pieces[i]);
        }
        lemma_collected_readable(front);
        assert(pieces.last() == pieces[pieces.len() - 1]);
        match collected(front) {
            Ok(list) => match split_once(pieces.last(), '=') {
                Some(p) => {
                    lemma_read_pair(pieces.last(), p);
                    lemma_put_keeps(list, (trim(p.0), p.1));
                },
                None => {},
            },
            Err(e) => {},
        }
    }
}

/// What a connection string gives: at least one pair, no key twice, and each pair
/// readable.
pub proof fn law_parsed_pairs_are_readable(text: Seq<char>)
    ensures
        parsed(text) matches Ok(list) ==> {
            &&& list.len() > 0
            &&& distinct_keys(list)
            &&& forall|i: int| 0 <= i < list.len() ==> readable_pair(#[trigger] list[i])
        },
{
    let full = |s: Seq<char>| trim(s).len() > 0;
    let pieces = split_on(text, ';');
    crate::text::lemma_split_pieces_free(text, ';');
    let kept = settings(text);
    assert forall|i: int| 0 <= i < kept.len() implies !(#[trigger] kept[i]).contains(';') by {
        assert(pieces.filter(full).contains(kept[i]));
        pieces.lemma_filter_contains_rev(full, kept[i]);
        let k = pieces.index_of(kept[i]);
        assert(kept[i] == pieces[k]);
    }
    lemma_collected_readable(kept);
}

/// Taking apart what was put together gives the pairs back exactly if no key comes twice
/// and no key has white space around it.
pub proof fn law_parse_inverts_build(list: Seq<(Seq<char>, JsonModel)>)
    requires
        built(list) is Ok,
    ensures
        parsed(built(list)->Ok_0) == Ok::<Seq<PairModel>, Seq<char>>(written_pairs(list)) <==> {
            &&& distinct_keys(written_pairs(list))
            &&& forall|i: int| 0 <= i < list.len() ==> trim((#[trigger] list[i]).0) == list[i].0
        },
{
    let found = written_pairs(list);
    if distinct_keys(found) && forall|i: int|
        0 <= i < list.len() ==> trim((#[trigger] list[i]).0) == list[i].0 {
        lemma_pairs_come_back(list);
    }
    if parsed(built(list)->Ok_0) == Ok::<Seq<PairModel>, Seq<char>>(found) {
        law_parsed_pairs_are_readable(built(list)->Ok_0);
        assert forall|i: int| 0 <= i < list.len() implies trim((#[trigger] list[i]).0)
            == list[i].0 by {
            assert(readable_pair(found[i]));
        }
    }
}

proof fn lemma_built_of_texts(list: Seq<PairModel>)
    requires
        list.len() > 0,
        forall|i: int| 0 <= i < list.len() ==> sound_pair(#[trigger] list[i]),
    ensures
        built(text_members(list)) == Ok::<Seq<char>, Seq<char>>(
            join(list.map_values(|p: PairModel| p.0.push('=') + p.1), ';'),
        ),
        written_pairs(text_members(list)) == list,
{
    let all = text_members(list);
    lemma_no_fault(all);
    assert forall|i: int| 0 <= i < all.len() implies member_fault(#[trigger] all[i]) is None by {
        assert(sound_pair(list[i]));
    }
    assert(written_pairs(all) =~= list);
    assert(all.map_values(|m: (Seq<char>, JsonModel)| setting(m)) =~= list.map_values(
        |p: PairModel| p.0.push('=') + p.1,
    ));
}

/// A connection string that was taken apart can be put together again unless it has
/// an empty key, and the result has the same pairs.
pub proof fn law_rebuilt_string_has_the_same_pairs(text: Seq<char>)
    requires
        parsed(text) is Ok,
        !has_key(parsed(text)->Ok_0, Seq::empty()),
    ensures
        built(text_members(parsed(text)->Ok_0)) is Ok,
        parsed(built(text_members(parsed(text)->Ok_0))->Ok_0) == parsed(text),
{
    let list = parsed(text)->Ok_0;
    law_parsed_pairs_are_readable(text);
    assert forall|i: int| 0 <= i < list.len() implies sound_pair(#[trigger] list[i]) by {
        assert(readable_pair(list[i]));
        if list[i].0.len() == 0 {
            assert(list[i].0 =~= Seq::empty());
        }
    }
    lemma_built_of_texts(list);
    lemma_parse_joined(list, list.map_values(|p: PairModel| p.0.push('=') + p.1));
}

/// A connection string in the form that a build gives: every piece between semicolons
/// is a sound pair, and no key comes twice.
pub open spec fn canonical(text: Seq<char>) -> bool {
    let pieces = split_on(text, ';');
    &&& forall|i: int|
        0 <= i < pieces.len() ==> split_once(#[trigger] pieces[i], '=') is Some && sound_pair(
            split_once(pieces[i], '=')->0,
        )
    &&& distinct_keys(pieces.map_values(|s: Seq<char>| split_once(s, '=')->0))
}

proof fn lemma_canonical_comes_back(text: Seq<char>)
    requires
        canonical(text),
    ensures
        parsed(text) is Ok,
        built(text_members(parsed(text)->Ok_0)) == Ok::<Seq<char>, Seq<char>>(text),
{
    let pieces = split_on(text, ';');
    let list = pieces.map_values(|s: Seq<char>| split_once(s, '=')->0);
    crate::text::lemma_split_some(text, ';');
    assert forall|i: int| 0 <= i < list.len() implies sound_pair(#[trigger] list[i]) && pieces[i]
        == list[i].0.push('=') + list[i].1 by {
        assert(sound_pair(split_once(pieces[i], '=')->0));
        crate::text::lemma_split_once(pieces[i], '=');
    }
    crate::text::lemma_join_split(text, ';');
    lemma_parse_joined(list, pieces);
    lemma_built_of_texts(list);
    assert(list.map_values(|p: PairModel| p.0.push('=') + p.1) =~= pieces);
}

/// A connection string comes back character by character when it is taken apart and put
/// together again, exactly if it is canonical.
pub proof fn law_build_inverts_parse(text: Seq<char>)
    ensures
        canonical(text) <==> parsed(text) is Ok && built(text_members(parsed(text)->Ok_0)) == Ok::<
            Seq<char>,
            Seq<char>,
        >(text),
{
    if canonical(text) {
        lemma_canonical_comes_back(text);
    }
    if parsed(text) is Ok && built(text_members(parsed(text)->Ok_0)) == Ok::<Seq<char>, Seq<char>>(
        text,
    ) {
        let list = parsed(text)->Ok_0;
        let all = text_members(list);
        let pieces = list.map_values(|p: PairModel| p.0.push('=') + p.1);
        law_parsed_pairs_are_readable(text);
        lemma_no_fault(all);
        assert forall|i: int| 0 <= i < list.len() implies sound_pair(#[trigger] list[i])
            && !pieces[i].contains(';') && split_once(pieces[i], '=') == Some(list[i]) by {
            assert(readable_pair(list[i]));
            assert(member_fault(all[i]) is None);
            lemma_sound_setting(list[i]);
            crate::text::lemma_split_once_joined(list[i].0, list[i].1, '=');
        }
        lemma_built_of_texts(list);
        crate::text::lemma_split_join(pieces, ';');
        assert(pieces.map_values(|s: Seq<char>| split_once(s, '=')->0) =~= list);
    }
}

/// Building from the answer of a parse gives a connection string, unless a key was
/// empty, and parsing that string gives the same answer.
pub proof fn law_build_from_a_parse_answer(opts: JsonModel, text: Seq<char>)
    requires
        aliased(opts, "connection_string"@, "dsn"@) == Some(text),
        parsed(text) is Ok,
        !has_key(parsed(text)->Ok_0, Seq::empty()),
    ensures
        parse_answer(opts) is Ok,
        build_answer(parse_answer(opts)->Ok_0) is Ok,
        parse_answer(build_answer(parse_answer(opts)->Ok_0)->Ok_0) == parse_answer(opts),
        canonical(text) ==> build_answer(parse_answer(opts)->Ok_0) == Ok::<JsonModel, Seq<char>>(
            empty_object().with("connection_string"@, JsonModel::Text(text)),
        ),
{
    broadcast use crate::json::lemma_get_with;

    law_rebuilt_string_has_the_same_pairs(text);
    if canonical(text) {
        law_build_inverts_parse(text);
    }
}

/// The answers are well-formed.
pub proof fn law_answers_are_well_formed(opts: JsonModel)
    ensures
        parse_answer(opts) matches Ok(v) ==> well_formed(v),
        build_answer(opts) matches Ok(v) ==> well_formed(v),
{
    broadcast use {crate::json::lemma_get_with, crate::json::lemma_well_formed_with};

    if parse_answer(opts) is Ok {
        let text = aliased(opts, "connection_string"@, "dsn"@)->0;
        let list = parsed(text)->Ok_0;
        let all = list.map_values(|p: PairModel| (p.0, JsonModel::Text(p.1)));
        law_parsed_pairs_are_readable(text);
        assert forall|i: int, j: int| 0 <= i < j < all.len() implies (#[trigger] all[i]).0 != (
        #[trigger] all[j]).0 by {
            assert(list[i].0 != list[j].0);
        }
        lemma_well_formed_object(all);
    }
}

/// Parsing the answer of a build gives the pairs that the build was asked for, if the
/// options are well-formed and no key has white space around it.
pub proof fn law_parse_of_a_build_answer(opts: JsonModel, list: Seq<(Seq<char>, JsonModel)>)
    requires
        well_formed(opts),
        opts.get("pairs"@) == Some(JsonModel::Object(list)),
        build_answer(opts) is Ok,
        forall|i: int| 0 <= i < list.len() ==> trim((#[trigger] list[i]).0) == list[i].0,
    ensures
        parse_answer(build_answer(opts)->Ok_0) == Ok::<JsonModel, Seq<char>>(
            empty_object().with("pairs"@, pairs_json(written_pairs(list))),
        ),
{
    broadcast use crate::json::lemma_get_with;

    let found = written_pairs(list);
    lemma_get_well_formed(opts, "pairs"@);
    assert forall|i: int, j: int| 0 <= i < j < found.len() implies (#[trigger] found[i]).0 != (
    #[trigger] found[j]).0 by {
        assert(list[i].0 != list[j].0);
    }
    law_parse_inverts_build(list);
}

proof fn lemma_decimal_digits(n: nat)
    ensures
        digits(decimal(n)),
    decreases n,
{
    if n >= 10 {
        lemma_decimal_digits(n / 10);
    }
}

proof fn lemma_digits_free(s: Seq<char>, c: char)
    requires
        digits(s),
        !('0' <= c <= '9'),
    ensures
        !s.contains(c),
{
    if s.contains(c) {
        let i = s.index_of(c);
        assert('0' <= s[i] <= '9');
    }
}

proof fn lemma_float_free(s: Seq<char>)
    requires
        float_text(s),
    ensures
        !s.contains(';'),
{
    let (sign, whole, fraction, exponent) = choose|
        sign: Seq<char>,
        whole: Seq<char>,
        fraction: Seq<char>,
        exponent: Seq<char>,
    |
        {
            &&& s == #[trigger] (sign + whole + fraction + exponent)
            &&& sign.len() == 0 || sign == seq!['-']
            &&& whole_part(whole)
            &&& fraction_part(fraction)
            &&& exponent_part(exponent)
            &&& fraction.len() + exponent.len() > 0
        };
    lemma_digits_free(whole, ';');
    if fraction.contains(';') {
        let i = fraction.index_of(';');
        lemma_digits_free(fraction.skip(1), ';');
        assert(fraction.skip(1)[i - 1] == ';');
    }
    if exponent.contains(';') {
        let i = exponent.index_of(';');
        if digits(exponent.skip(1)) {
            lemma_digits_free(exponent.skip(1), ';');
            assert(exponent.skip(1)[i - 1] == ';');
        } else {
            lemma_digits_free(exponent.skip(2), ';');
            assert(exponent.skip(2)[i - 2] == ';');
        }
    }
    crate::text::lemma_contains_add(sign, whole, ';');
    crate::text::lemma_contains_add(sign + whole, fraction, ';');
    crate::text::lemma_contains_add(sign + whole + fraction, exponent, ';');
}

/// Every well-formed number and every boolean can stand in a connection string, under
/// every key that can.
pub proof fn law_numbers_and_booleans_can_be_written(key: Seq<char>, value: JsonModel)
    requires
        well_formed(value),
        value is Number || value is Bool,
        key.len() > 0,
        !key.contains('='),
        !key.contains(';'),
    ensures
        member_fault((key, value)) is None,
{
    match value {
        JsonModel::Number(NumberModel::Integer(n)) => {
            let size = if n < 0 {
                (-n) as nat
            } else {
                n as nat
            };
            lemma_decimal_digits(size);
            lemma_digits_free(decimal(size), ';');
            crate::text::lemma_contains_add(seq!['-'], decimal(size), ';');
        },
        JsonModel::Number(NumberModel::Float(s)) => {
            lemma_float_free(s);
        },
        _ => {
            reveal_strlit("true");
            reveal_strlit("false");
        },
    }
}

/// What an answer has under `pairs`.
pub open spec fn answered_pairs(answer: Result<JsonModel, Seq<char>>) -> Seq<
    (Seq<char>, JsonModel),
> {
    answer->Ok_0.get("pairs"@)->0->Object_0
}

/// Whether a member has that key.
pub open spec fn keyed(list: Seq<(Seq<char>, JsonModel)>, key: Seq<char>) -> bool {
    exists|i: int| 0 <= i < list.len() && (#[trigger] list[i]).0 == key
}

/// How one more pair changes the members: a key that is there gets the value and keeps its
/// place, and a new one comes last. All others stay.
pub open spec fn takes_pair(
    before: Seq<(Seq<char>, JsonModel)>,
    after: Seq<(Seq<char>, JsonModel)>,
    key: Seq<char>,
    value: Seq<char>,
) -> bool {
    &&& keyed(before, key) ==> after.len() == before.len() && forall|i: int|
        0 <= i < before.len() ==> (#[trigger] after[i]) == (
            before[i].0,
            if before[i].0 == key {
                JsonModel::Text(value)
            } else {
                before[i].1
            },
        )
    &&& !keyed(before, key) ==> after == before.push((key, JsonModel::Text(value)))
}

proof fn lemma_blank(s: Seq<char>)
    ensures
        trim(s).len() == 0 <==> all_white(s),
{
    if all_white(s) {
        crate::text::law_trim(s, Seq::empty(), Seq::empty());
        assert(s + Seq::<char>::empty() + Seq::<char>::empty() =~= s);
    }
    if trim(s).len() == 0 {
        crate::text::law_trimmed_part(s);
        let (i, j) = choose|i: int, j: int|
            0 <= i <= j <= s.len() && trim(s) == #[trigger] s.subrange(i, j) && all_white(
                s.subrange(0, i),
            ) && all_white(s.subrange(j, s.len() as int));
        assert(i == j);
        assert forall|k: int| 0 <= k < s.len() implies crate::text::is_white(#[trigger] s[k]) by {
            if k < i {
                assert(crate::text::is_white(s.subrange(0, i)[k]));
            } else {
                assert(crate::text::is_white(s.subrange(j, s.len() as int)[k - j]));
            }
        }
    }
}

proof fn lemma_settings_append(text: Seq<char>, piece: Seq<char>)
    requires
        !piece.contains(';'),
    ensures
        settings(text.push(';') + piece) == if all_white(piece) {
            settings(text)
        } else {
            settings(text).push(piece)
        },
{
    reveal(Seq::filter);
    lemma_blank(piece);
    crate::text::lemma_split_append(text, piece, ';');
    let pieces = split_on(text, ';');
    assert(pieces.push(piece).drop_last() =~= pieces);
}

proof fn lemma_settings_of_one(piece: Seq<char>)
    requires
        !piece.contains(';'),
    ensures
        settings(piece) == if all_white(piece) {
            Seq::empty()
        } else {
            seq![piece]
        },
{
    reveal(Seq::filter);
    reveal_with_fuel(Seq::filter, 2);
    lemma_blank(piece);
    crate::text::lemma_split_free(piece, ';');
    assert(seq![piece].drop_last() =~= Seq::<Seq<char>>::empty());
    assert(Seq::<Seq<char>>::empty().push(piece) =~= seq![piece]);
}

proof fn lemma_messages()
    ensures
        forall|s: Seq<char>|
            #[trigger] ("malformed pair (no `=`): "@ + s) != "empty connection string"@,
{
    reveal_strlit("malformed pair (no `=`): ");
    reveal_strlit("empty connection string");
    let m = "malformed pair (no `=`): "@;
    assert(m[0] == 'm');
    assert forall|s: Seq<char>| #[trigger] (m + s) != "empty connection string"@ by {
        assert((m + s)[0] == 'm');
    }
}

proof fn lemma_pair_taken(list: Seq<PairModel>, key: Seq<char>, value: Seq<char>)
    ensures
        takes_pair(
            pairs_json(list)->Object_0,
            pairs_json(put(list, key, value))->Object_0,
            key,
            value,
        ),
{
    let before = pairs_json(list)->Object_0;
    let after = pairs_json(put(list, key, value))->Object_0;
    assert(has_key(list, key) <==> keyed(before, key)) by {
        if has_key(list, key) {
            let i = choose|i: int| 0 <= i < list.len() && (#[trigger] list[i]).0 == key;
            assert(before[i].0 == key);
        }
        if keyed(before, key) {
            let i = choose|i: int| 0 <= i < before.len() && (#[trigger] before[i]).0 == key;
            assert(list[i].0 == key);
        }
    }
    if !has_key(list, key) {
        assert(after =~= before.push((key, JsonModel::Text(value))));
    }
}

/// A connection string of one piece: nothing if it is blank, an error if it has no `=`, and
/// otherwise one pair, whose key is what stands before the first `=`, without the white
/// space around it, and whose value is all that follows.
pub proof fn law_one_piece(opts: JsonModel, piece: Seq<char>, key: Seq<char>, value: Seq<char>)
    requires
        has_text_or(opts, "connection_string"@, "dsn"@, piece),
        !piece.contains(';'),
    ensures
        all_white(piece) ==> parse_answer(opts) == Err::<JsonModel, Seq<char>>(
            "empty connection string"@,
        ),
        !all_white(piece) && !piece.contains('=') ==> parse_answer(opts) == Err::<
            JsonModel,
            Seq<char>,
        >("malformed pair (no `=`): "@ + trim(piece)),
        piece == key.push('=') + value && !key.contains('=') ==> parse_answer(opts) is Ok
            && answered_pairs(parse_answer(opts)) == seq![(trim(key), JsonModel::Text(value))]
            && parse_answer(opts)->Ok_0->Object_0.len() == 1,
{
    broadcast use crate::json::lemma_get_with;

    lemma_settings_of_one(piece);
    reveal_with_fuel(collected, 2);
    crate::text::lemma_split_once(piece, '=');
    if piece == key.push('=') + value && !key.contains('=') {
        crate::text::lemma_split_once_joined(key, value, '=');
        assert(piece[key.len() as int] == '=');
        assert(!all_white(piece));
        let none = Seq::<PairModel>::empty();
        assert(seq![piece].drop_last() =~= Seq::<Seq<char>>::empty());
        assert(seq![piece].last() == piece);
        assert(collected(seq![piece]) == Ok::<Seq<PairModel>, Seq<char>>(
            put(none, trim(key), value),
        ));
        assert(pairs_json(put(none, trim(key), value))->Object_0 =~= seq![
            (trim(key), JsonModel::Text(value)),
        ]);
    } else if !all_white(piece) && !piece.contains('=') {
        assert(seq![piece].drop_last() =~= Seq::<Seq<char>>::empty());
        assert(seq![piece].last() == piece);
        if split_once(piece, '=') is Some {
            let (a, b) = split_once(piece, '=')->0;
            assert(piece[a.len() as int] == '=');
        }
    }
}

/// One more piece after a connection string: a blank one changes nothing; one without `=`
/// makes it malformed; and any other one adds its pair, or gives a key that is there
/// another value. What was malformed before stays so.
pub proof fn law_one_more_piece(
    opts: JsonModel,
    longer: JsonModel,
    text: Seq<char>,
    piece: Seq<char>,
    key: Seq<char>,
    value: Seq<char>,
)
    requires
        has_text_or(opts, "connection_string"@, "dsn"@, text),
        has_text_or(longer, "connection_string"@, "dsn"@, text.push(';') + piece),
        !piece.contains(';'),
    ensures
        ({
            let before = parse_answer(opts);
            let after = parse_answer(longer);
            let malformed_before = before is Err && before->Err_0 != "empty connection string"@;
            let pair = piece == key.push('=') + value && !key.contains('=');
            &&& all_white(piece) || malformed_before ==> after == before
            &&& !all_white(piece) && !malformed_before && !piece.contains('=') ==> after == Err::<
                JsonModel,
                Seq<char>,
            >("malformed pair (no `=`): "@ + trim(piece))
            &&& pair && before is Ok ==> after is Ok && takes_pair(
                answered_pairs(before),
                answered_pairs(after),
                trim(key),
                value,
            )
            &&& pair && before is Err && !malformed_before ==> after is Ok && answered_pairs(after)
                == seq![(trim(key), JsonModel::Text(value))]
        }),
{
    broadcast use crate::json::lemma_get_with;

    lemma_messages();
    lemma_settings_append(text, piece);
    let pieces = settings(text);
    assert(pieces.push(piece).drop_last() =~= pieces);
    assert(pieces.push(piece).last() == piece);
    crate::text::lemma_split_once(piece, '=');
    lemma_collect_errors(pieces);
    let pair = piece == key.push('=') + value && !key.contains('=');
    if pair {
        crate::text::lemma_split_once_joined(key, value, '=');
        assert(piece[key.len() as int] == '=');
        assert(!all_white(piece));
        match collected(pieces) {
            Ok(list) => {
                lemma_pair_taken(list, trim(key), value);
                if list.len() == 0 {
                    assert(list =~= Seq::empty());
                    assert(pairs_json(put(list, trim(key), value))->Object_0 =~= seq![
                        (trim(key), JsonModel::Text(value)),
                    ]);
                }
                lemma_put_not_empty(list, trim(key), value);
            },
            Err(e) => {},
        }
    } else if !all_white(piece) && !piece.contains('=') {
        if split_once(piece, '=') is Some {
            let (a, b) = split_once(piece, '=')->0;
            assert(piece[a.len() as int] == '=');
        }
    }
}

proof fn lemma_put_not_empty(list: Seq<PairModel>, key: Seq<char>, value: Seq<char>)
    ensures
        put(list, key, value).len() > 0,
{
    if has_key(list, key) {
        let i = choose|i: int| 0 <= i < list.len() && (#[trigger] list[i]).0 == key;
        assert(list.len() > 0);
    }
}

proof fn lemma_collect_errors(pieces: Seq<Seq<char>>)
    ensures
        collected(pieces) matches Err(e) ==> e != "empty connection string"@,
    decreases pieces.len(),
{
    lemma_messages();
    if pieces.len() > 0 {
        lemma_collect_errors(pieces.drop_last());
    }
}

/// Blank pieces in front of a connection string change nothing.
pub proof fn law_blank_piece_in_front(
    opts: JsonModel,
    longer: JsonModel,
    text: Seq<char>,
    blank: Seq<char>,
)
    requires
        has_text_or(opts, "connection_string"@, "dsn"@, text),
        has_text_or(longer, "connection_string"@, "dsn"@, blank.push(';') + text),
        all_white(blank),
        !blank.contains(';'),
    ensures
        parse_answer(longer) == parse_answer(opts),
{
    reveal(Seq::filter);
    lemma_settings_of_one(blank);
    crate::text::lemma_split_concat(blank, text, ';');
    crate::text::lemma_split_free(blank, ';');
    let full = |s: Seq<char>| trim(s).len() > 0;
    Seq::filter_distributes_over_add(split_on(blank, ';'), split_on(text, ';'), full);
    assert(split_on(blank, ';').filter(full) =~= Seq::<Seq<char>>::empty());
    assert(Seq::<Seq<char>>::empty() + split_on(text, ';').filter(full) =~= split_on(
        text,
        ';',
    ).filter(full));
    assert(settings(blank.push(';') + text) == settings(text));
}

/// Without a connection string to parse the option is reported as missing.
pub proof fn law_missing_string(opts: JsonModel)
    requires
        lacks_text_or(opts, "connection_string"@, "dsn"@),
    ensures
        parse_answer(opts) == Err::<JsonModel, Seq<char>>("missing "@ + "connection_string"@),
{
}

/// Building needs an object of pairs, and a pair in it.
pub proof fn law_missing_pairs(opts: JsonModel)
    ensures
        !(opts.get("pairs"@) matches Some(JsonModel::Object(_))) ==> build_answer(opts) == Err::<
            JsonModel,
            Seq<char>,
        >("missing pairs (object)"@),
        opts.get("pairs"@) == Some(JsonModel::Object(Seq::empty())) ==> build_answer(opts) == Err::<
            JsonModel,
            Seq<char>,
        >("pairs must not be empty"@),
{
}

/// The text `written` is how a value stands in a connection string: a text as it is, a
/// number in decimal or as it was written, and a boolean by its name.
pub open spec fn stands_as(value: JsonModel, written: Seq<char>) -> bool {
    match value {
        JsonModel::Text(s) => written == s,
        JsonModel::Bool(b) => (b ==> written == "true"@) && (!b ==> written == "false"@),
        JsonModel::Number(NumberModel::Float(s)) => written == s,
        JsonModel::Number(NumberModel::Integer(n)) => if n < 0 {
            written.len() > 1 && written[0] == '-' && written.skip(1) == decimal((-n) as nat)
        } else {
            written == decimal(n as nat)
        },
        _ => false,
    }
}

/// One more member for a build: what failed before fails as before; a bad key, a value that
/// is no scalar, and a value with a `;` fail, in that order; and otherwise the key, an `=`
/// and the value follow the string that was built before, after a `;`.
pub proof fn law_one_more_member(
    opts: JsonModel,
    longer: JsonModel,
    list: Seq<(Seq<char>, JsonModel)>,
    key: Seq<char>,
    value: JsonModel,
    written: Seq<char>,
)
    requires
        opts.get("pairs"@) == Some(JsonModel::Object(list)),
        longer.get("pairs"@) == Some(JsonModel::Object(list.push((key, value)))),
    ensures
        ({
            let before = build_answer(opts);
            let after = build_answer(longer);
            let open = list.len() == 0 || before is Ok;
            let bad_key = key.len() == 0 || key.contains('=') || key.contains(';');
            let scalar = value is Text || value is Number || value is Bool;
            let head = if list.len() == 0 {
                Seq::empty()
            } else {
                before->Ok_0.text_at("connection_string"@)->0.push(';')
            };
            &&& !open ==> after == before
            &&& open && bad_key ==> after == Err::<JsonModel, Seq<char>>(
                "invalid key `"@ + key + "` (non-empty, no `=` or `;`)"@,
            )
            &&& open && !bad_key && !scalar ==> after == Err::<JsonModel, Seq<char>>(
                "value for `"@ + key + "` must be a string, number, or bool"@,
            )
            &&& open && !bad_key && stands_as(value, written) && written.contains(';') ==> after
                == Err::<JsonModel, Seq<char>>("value for `"@ + key + "` must not contain `;`"@)
            &&& open && !bad_key && stands_as(value, written) && !written.contains(';') ==> after
                is Ok && after->Ok_0.get("connection_string"@) == Some(
                JsonModel::Text(head + (key.push('=') + written)),
            ) && after->Ok_0->Object_0.len() == 1
        }),
{
    broadcast use crate::json::lemma_get_with;

    let all = list.push((key, value));
    let m = (key, value);
    assert(all.drop_last() =~= list);
    assert(all.last() == m);
    if stands_as(value, written) {
        match value {
            JsonModel::Number(NumberModel::Integer(n)) => {
                crate::text::law_signed_decimal(n);
                if n < 0 {
                    assert(written =~= seq!['-'] + decimal((-n) as nat));
                }
            },
            _ => {},
        }
        assert(value_text(value) == Some(written));
    }
    let f = |m: (Seq<char>, JsonModel)| setting(m);
    assert(all.map_values(f).drop_last() =~= list.map_values(f));
    assert(all.map_values(f).last() == setting(m));
    if list.len() == 0 {
        assert(first_fault(list) is None);
        assert(Seq::<char>::empty() + setting(m) =~= setting(m));
    }
}

/// A list of pairs has each key and its value, in order.
pub proof fn law_pairs(list: Seq<(String, String)>, i: int)
    ensures
        pairs(list).len() == list.len(),
        0 <= i < list.len() ==> pairs(list)[i].0 == list[i].0@ && pairs(list)[i].1 == list[i].1@,
{
}

} // verus!
