//! Azure resource identifiers:
//! `/subscriptions/{sub}/resourceGroups/{rg}/providers/{provider}/{type}/{name}...`.
use vstd::prelude::*;
use vstd::string::*;

use crate::error::{missing, outcome, text_outcome, Error};
use crate::json::{
    empty_object, items, lemma_well_formed_array, nullable, well_formed, Json, JsonModel,
};
use crate::options::{
    aliased, aliased_str, filled_str, has_text_or, lacks_text_or, nonempty_text, owned,
};
use crate::text::{
    lemma_same_in_any_case, lower, opt_text, pieces_of, same_but_for_case, split_on, split_once,
    texts, to_lower,
};

verus! {

/// One type of a resource with the name of the instance; a list of instances
/// has no name.
#[derive(Debug, PartialEq)]
pub struct ResourceKind {
    pub kind: String,
    pub name: Option<String>,
}

/// The parts of a resource identifier.
#[derive(Debug, PartialEq)]
pub struct ResourceId {
    pub subscription: Option<String>,
    pub resource_group: Option<String>,
    pub provider: Option<String>,
    pub types: Vec<ResourceKind>,
}

/// A type and, if there is one, a name.
pub type KindModel = (Seq<char>, Option<Seq<char>>);

/// What the parts of a resource identifier are.
#[verifier::ext_equal]
pub struct ResourceIdModel {
    pub subscription: Option<Seq<char>>,
    pub resource_group: Option<Seq<char>>,
    pub provider: Option<Seq<char>>,
    pub types: Seq<KindModel>,
}

impl View for ResourceKind {
    type V = KindModel;

    open spec fn view(&self) -> KindModel {
        (self.kind@, opt_text(self.name))
    }
}

/// The models of a list of types.
pub open spec fn kinds(list: Seq<ResourceKind>) -> Seq<KindModel> {
    list.map_values(|k: ResourceKind| k@)
}

impl View for ResourceId {
    type V = ResourceIdModel;

    open spec fn view(&self) -> ResourceIdModel {
        ResourceIdModel {
            subscription: opt_text(self.subscription),
            resource_group: opt_text(self.resource_group),
            provider: opt_text(self.provider),
            types: kinds(self.types@),
        }
    }
}

/// The segments of a path: what stands between slashes and is not empty.
pub open spec fn path_segments(id: Seq<char>) -> Seq<Seq<char>> {
    split_on(id, '/').filter(|s: Seq<char>| s.len() > 0)
}

/// The segments after the provider, two by two: a type and its name. A last
/// type may have no name.
pub open spec fn paired(segments: Seq<Seq<char>>) -> Seq<KindModel> {
    Seq::new(
        ((segments.len() + 1) / 2) as nat,
        |k: int|
            (
                segments[2 * k],
                if 2 * k + 1 < segments.len() {
                    Some(segments[2 * k + 1])
                } else {
                    None
                },
            ),
    )
}

/// The parts that the segments give, added to those found before. A label in any
/// case takes the segment after it; a segment that is no label is passed over; the
/// first provider ends the search for labels.
pub open spec fn scanned(segments: Seq<Seq<char>>, found: ResourceIdModel) -> ResourceIdModel
    decreases segments.len(),
{
    if segments.len() == 0 {
        found
    } else if segments.len() >= 2 && lower(segments[0]) == "subscriptions"@ {
        scanned(
            segments.skip(2),
            ResourceIdModel { subscription: Some(segments[1]), ..found },
        )
    } else if segments.len() >= 2 && lower(segments[0]) == "resourcegroups"@ {
        scanned(
            segments.skip(2),
            ResourceIdModel { resource_group: Some(segments[1]), ..found },
        )
    } else if segments.len() >= 2 && lower(segments[0]) == "providers"@ {
        ResourceIdModel {
            provider: Some(segments[1]),
            types: paired(segments.skip(2)),
            ..found
        }
    } else {
        scanned(segments.skip(1), found)
    }
}

/// No parts at all.
pub open spec fn no_parts() -> ResourceIdModel {
    ResourceIdModel {
        subscription: None,
        resource_group: None,
        provider: None,
        types: Seq::empty(),
    }
}

/// The parts of a resource identifier, which must have a segment.
pub open spec fn parsed(id: Seq<char>) -> Result<ResourceIdModel, Seq<char>> {
    let segments = path_segments(id);
    if segments.len() == 0 {
        Err("empty resource id"@)
    } else {
        Ok(scanned(segments, no_parts()))
    }
}

/// A slash and a segment.
pub open spec fn segment(s: Seq<char>) -> Seq<char> {
    seq!['/'] + s
}

/// A labelled segment, if there is one.
pub open spec fn section(label: Seq<char>, value: Option<Seq<char>>) -> Seq<char> {
    match value {
        Some(s) => segment(label) + segment(s),
        None => Seq::empty(),
    }
}

/// A type and its name as segments.
pub open spec fn kind_path(kind: KindModel) -> Seq<char> {
    match kind.1 {
        Some(name) => segment(kind.0) + segment(name),
        None => segment(kind.0),
    }
}

/// Types and their names as segments, in order.
pub open spec fn kinds_path(list: Seq<KindModel>) -> Seq<char>
    decreases list.len(),
{
    if list.len() == 0 {
        Seq::empty()
    } else {
        kinds_path(list.drop_last()) + kind_path(list.last())
    }
}

/// A type without a name before the last one.
pub open spec fn nameless_before_last(types: Seq<KindModel>) -> bool {
    exists|i: int| 0 <= i < types.len() - 1 && (#[trigger] types[i]).1 is None
}

/// The identifier that has those parts. Types need a provider, only the last of them may
/// have no name, and something must be there.
pub open spec fn built(parts: ResourceIdModel) -> Result<Seq<char>, Seq<char>> {
    let id = section("subscriptions"@, parts.subscription) + section(
        "resourceGroups"@,
        parts.resource_group,
    ) + section("providers"@, parts.provider) + kinds_path(parts.types);
    if parts.types.len() > 0 && parts.provider is None {
        Err("provider required when types is non-empty"@)
    } else if nameless_before_last(parts.types) {
        Err("only the last type entry may omit `name`"@)
    } else if id.len() == 0 {
        Err("no resource id parts supplied"@)
    } else {
        Ok(id)
    }
}

/// A type and its name as a JSON object.
pub open spec fn kind_json(kind: KindModel) -> JsonModel {
    empty_object().with("type"@, JsonModel::Text(kind.0)).with("name"@, nullable(kind.1))
}

/// The parts of an identifier as a JSON object. The last type and its name stand in
/// members of their own too.
pub open spec fn parts_json(parts: ResourceIdModel) -> JsonModel {
    empty_object().with("subscription"@, nullable(parts.subscription)).with(
        "resource_group"@,
        nullable(parts.resource_group),
    ).with("provider"@, nullable(parts.provider)).with(
        "types"@,
        JsonModel::Array(parts.types.map_values(|k: KindModel| kind_json(k))),
    ).with(
        "resource_type"@,
        if parts.types.len() == 0 {
            JsonModel::Null
        } else {
            JsonModel::Text(parts.types.last().0)
        },
    ).with(
        "name"@,
        if parts.types.len() == 0 {
            JsonModel::Null
        } else {
            nullable(parts.types.last().1)
        },
    )
}

/// What `op_parse_resource_id` answers.
pub open spec fn parse_answer(opts: JsonModel) -> Result<JsonModel, Seq<char>> {
    match aliased(opts, "id"@, "resource_id"@) {
        None => Err(missing("id"@)),
        Some(id) => match parsed(id) {
            Ok(parts) => Ok(parts_json(parts)),
            Err(e) => Err(e),
        },
    }
}

/// The type and name that an entry of `types` asks for; an empty text is none.
pub open spec fn entry_kind(entry: JsonModel) -> Option<KindModel> {
    match entry.filled_text_at("type"@) {
        Some(kind) => Some((kind, entry.filled_text_at("name"@))),
        None => None,
    }
}

/// The entries of `types`; nothing that is no array has any.
pub open spec fn type_entries(opts: JsonModel) -> Seq<JsonModel> {
    match opts.get("types"@) {
        Some(v) => match v.array() {
            Some(list) => list,
            None => Seq::empty(),
        },
        None => Seq::empty(),
    }
}

/// The parts that the options of a build ask for.
pub open spec fn asked_parts(opts: JsonModel) -> ResourceIdModel {
    ResourceIdModel {
        subscription: opts.filled_text_at("subscription"@),
        resource_group: opts.filled_text_at("resource_group"@),
        provider: opts.filled_text_at("provider"@),
        types: type_entries(opts).map_values(|t: JsonModel| entry_kind(t)->0),
    }
}

/// What `op_build_resource_id` answers.
pub open spec fn build_answer(opts: JsonModel) -> Result<JsonModel, Seq<char>> {
    let entries = type_entries(opts);
    let parts = asked_parts(opts);
    if entries.len() > 0 && parts.provider is None {
        Err("provider required when types is non-empty"@)
    } else if exists|i: int| 0 <= i < entries.len() && entry_kind(#[trigger] entries[i]) is None {
        Err("type entry missing `type`"@)
    } else {
        match built(parts) {
            Ok(id) => Ok(empty_object().with("id"@, JsonModel::Text(id))),
            Err(e) => Err(e),
        }
    }
}

/// The segments of a path.
fn segments_of(id: &str) -> (r: Vec<String>)
    ensures
        texts(r@) == path_segments(id@),
{
    let pieces = pieces_of(id, '/');
    let ghost all = texts(pieces@);
    let ghost full = |s: Seq<char>| s.len() > 0;
    let mut r: Vec<String> = Vec::new();
    let mut i: usize = 0;
    proof {
        reveal(Seq::filter);
        assert(texts(r@) =~= all.take(0).filter(full));
    }
    while i < pieces.len()
        invariant
            i <= pieces@.len(),
            all == texts(pieces@),
            full == |s: Seq<char>| s.len() > 0,
            texts(r@) == all.take(i as int).filter(full),
        decreases pieces.len() - i,
    {
        let ghost before = r@;
        proof {
            reveal(Seq::filter);
            assert(all.take(i + 1).drop_last() =~= all.take(i as int));
            assert(all.take(i + 1).last() == pieces@[i as int]@);
        }
        if !pieces[i].as_str().is_empty() {
            r.push(pieces[i].clone());
            assert(texts(r@) =~= texts(before).push(pieces@[i as int]@));
        }
        i = i + 1;
    }
    assert(all.take(all.len() as int) =~= all);
    r
}

/// The segments from `start` on, two by two.
fn paired_from(segments: &Vec<String>, start: usize) -> (r: Vec<ResourceKind>)
    requires
        start <= segments@.len(),
    ensures
        kinds(r@) == paired(texts(segments@).skip(start as int)),
{
    let ghost rest = texts(segments@).skip(start as int);
    let mut r: Vec<ResourceKind> = Vec::new();
    let mut i: usize = start;
    while i < segments.len()
        invariant
            start <= i <= segments@.len(),
            rest == texts(segments@).skip(start as int),
            i < segments@.len() ==> i - start == 2 * r@.len(),
            i == segments@.len() ==> r@.len() == (rest.len() + 1) / 2,
            r@.len() <= paired(rest).len(),
            kinds(r@) == paired(rest).take(r@.len() as int),
        decreases segments.len() - i,
    {
        let ghost before = r@;
        let ghost k = before.len() as int;
        assert(rest[2 * k] == segments@[i as int]@);
        if segments.len() - i >= 2 {
            assert(rest[2 * k + 1] == segments@[i + 1]@);
            r.push(
                ResourceKind { kind: segments[i].clone(), name: Some(segments[i + 1].clone()) },
            );
            i = i + 2;
        } else {
            r.push(ResourceKind { kind: segments[i].clone(), name: None });
            i = i + 1;
        }
        assert(kinds(r@) =~= kinds(before).push(paired(rest)[k]));
        assert(kinds(r@) =~= paired(rest).take(k + 1));
    }
    assert(paired(rest).take(paired(rest).len() as int) =~= paired(rest));
    r
}

/// The parts of a resource identifier.
pub fn parse_resource_id(id: &str) -> (r: Result<ResourceId, Error>)
    ensures
        match r {
            Ok(parts) => parsed(id@) == Ok::<ResourceIdModel, Seq<char>>(parts@),
            Err(e) => parsed(id@) == Err::<ResourceIdModel, Seq<char>>(e@),
        },
{
    let segments = segments_of(id);
    if segments.len() == 0 {
        return Err(Error::new("empty resource id"));
    }
    let ghost all = texts(segments@);
    let mut parts = ResourceId {
        subscription: None,
        resource_group: None,
        provider: None,
        types: Vec::new(),
    };
    let mut i: usize = 0;
    proof {
        assert(all.skip(0) =~= all);
        assert(parts@ =~= no_parts());
    }
    while i < segments.len()
        invariant
            i <= segments@.len(),
            all == texts(segments@),
            all.len() > 0,
            all == path_segments(id@),
            parts.types@.len() == 0,
            parts.provider is None,
            scanned(all, no_parts()) == scanned(all.skip(i as int), parts@),
        decreases segments.len() - i,
    {
        let label = to_lower(segments[i].as_str());
        let ghost rest = all.skip(i as int);
        let ghost before = parts@;
        proof {
            assert(rest[0] == segments@[i as int]@);
            assert(rest.skip(1) =~= all.skip(i + 1));
            if i + 1 < all.len() {
                assert(rest[1] == segments@[i + 1]@);
                assert(rest.skip(2) =~= all.skip(i + 2));
            }
        }
        if segments.len() - i >= 2 && *label.as_str() == *"subscriptions" {
            parts.subscription = Some(segments[i + 1].clone());
            assert(parts@ =~= ResourceIdModel { subscription: Some(rest[1]), ..before });
            i = i + 2;
        } else if segments.len() - i >= 2 && *label.as_str() == *"resourcegroups" {
            parts.resource_group = Some(segments[i + 1].clone());
            assert(parts@ =~= ResourceIdModel { resource_group: Some(rest[1]), ..before });
            i = i + 2;
        } else if segments.len() - i >= 2 && *label.as_str() == *"providers" {
            parts.provider = Some(segments[i + 1].clone());
            parts.types = paired_from(&segments, i + 2);
            assert(parts@ =~= ResourceIdModel {
                provider: Some(rest[1]),
                types: paired(rest.skip(2)),
                ..before
            });
            return Ok(parts);
        } else {
            i = i + 1;
        }
    }
    Ok(parts)
}

/// Adds a slash and a segment.
fn push_segment(id: &mut String, s: &str)
    ensures
        final(id)@ == old(id)@ + segment(s@),
{
    id.push('/');
    id.append(s);
    assert(id@ =~= old(id)@ + segment(s@));
}

/// Adds a labelled segment, if there is one.
fn push_section(id: &mut String, label: &str, value: &Option<String>)
    ensures
        final(id)@ == old(id)@ + section(label@, opt_text(*value)),
{
    match value {
        Some(s) => {
            push_segment(id, label);
            push_segment(id, s.as_str());
            assert(id@ =~= old(id)@ + (segment(label@) + segment(s@)));
        },
        None => {
            assert(id@ =~= old(id)@ + Seq::<char>::empty());
        },
    }
}

/// Whether a type without a name comes before the last one.
fn has_nameless_before_last(types: &Vec<ResourceKind>) -> (r: bool)
    ensures
        r == nameless_before_last(kinds(types@)),
{
    let ghost all = kinds(types@);
    let mut i: usize = 1;
    while i < types.len()
        invariant
            1 <= i,
            all == kinds(types@),
            forall|j: int|
                0 <= j < i - 1 && j < all.len() - 1 ==> (#[trigger] all[j]).1 is Some,
        decreases types.len() - i,
    {
        assert(all[i - 1] == types@[i - 1]@);
        if types[i - 1].name.is_none() {
            assert(all[i - 1].1 is None);
            return true;
        }
        i = i + 1;
    }
    false
}

/// The identifier that has those parts.
pub fn build_resource_id(parts: &ResourceId) -> (r: Result<String, Error>)
    ensures
        text_outcome(r) == built(parts@),
{
    if parts.types.len() > 0 && parts.provider.is_none() {
        return Err(Error::new("provider required when types is non-empty"));
    }
    if has_nameless_before_last(&parts.types) {
        return Err(Error::new("only the last type entry may omit `name`"));
    }
    let mut id = String::new();
    push_section(&mut id, "subscriptions", &parts.subscription);
    push_section(&mut id, "resourceGroups", &parts.resource_group);
    push_section(&mut id, "providers", &parts.provider);
    let ghost head = id@;
    let ghost all = kinds(parts.types@);
    let mut i: usize = 0;
    assert(head + kinds_path(all.take(0)) =~= head);
    while i < parts.types.len()
        invariant
            i <= parts.types@.len(),
            all == kinds(parts.types@),
            id@ == head + kinds_path(all.take(i as int)),
        decreases parts.types.len() - i,
    {
        let ghost before = id@;
        push_segment(&mut id, parts.types[i].kind.as_str());
        match &parts.types[i].name {
            Some(name) => push_segment(&mut id, name.as_str()),
            None => {},
        }
        proof {
            assert(all.take(i + 1).drop_last() =~= all.take(i as int));
            assert(all.take(i + 1).last() == parts.types@[i as int]@);
            assert(id@ =~= before + kind_path(parts.types@[i as int]@));
            assert(id@ =~= head + kinds_path(all.take(i + 1)));
        }
        i = i + 1;
    }
    assert(all.take(all.len() as int) =~= all);
    assert(head =~= section("subscriptions"@, parts@.subscription) + section(
        "resourceGroups"@,
        parts@.resource_group,
    ) + section("providers"@, parts@.provider));
    if id.as_str().is_empty() {
        return Err(Error::new("no resource id parts supplied"));
    }
    Ok(id)
}

/// The parts of an identifier as a JSON object.
pub fn resource_id_json(parts: &ResourceId) -> (r: Json)
    ensures
        r@ == parts_json(parts@),
{
    let mut list: Vec<Json> = Vec::new();
    let ghost all = kinds(parts.types@);
    let ghost want = all.map_values(|k: KindModel| kind_json(k));
    let mut i: usize = 0;
    while i < parts.types.len()
        invariant
            i <= parts.types@.len(),
            all == kinds(parts.types@),
            want == all.map_values(|k: KindModel| kind_json(k)),
            items(list@) == want.take(i as int),
        decreases parts.types.len() - i,
    {
        let ghost before = list@;
        let kind = &parts.types[i];
        list.push(
            Json::empty().with("type", Json::text(kind.kind.as_str())).with(
                "name",
                Json::nullable(&kind.name),
            ),
        );
        assert(items(list@) =~= items(before).push(kind_json(kind@)));
        assert(items(list@) =~= want.take(i + 1));
        i = i + 1;
    }
    assert(want.take(want.len() as int) =~= want);
    let n: usize = parts.types.len();
    let (last_type, last_name) = if n == 0 {
        (Json::Null, Json::Null)
    } else {
        assert(all.last() == parts.types@[n - 1]@);
        (
            Json::text(parts.types[n - 1].kind.as_str()),
            Json::nullable(&parts.types[n - 1].name),
        )
    };
    Json::empty().with("subscription", Json::nullable(&parts.subscription)).with(
        "resource_group",
        Json::nullable(&parts.resource_group),
    ).with("provider", Json::nullable(&parts.provider)).with("types", Json::array(list)).with(
        "resource_type",
        last_type,
    ).with("name", last_name)
}

/// Takes the resource identifier under `id` (or `resource_id`) apart.
pub fn op_parse_resource_id(opts: Json) -> (r: Result<Json, Error>)
    ensures
        outcome(r) == parse_answer(opts@),
{
    match aliased_str(&opts, "id", "resource_id") {
        None => Err(Error::missing("id")),
        Some(id) => match parse_resource_id(id) {
            Ok(parts) => Ok(resource_id_json(&parts)),
            Err(e) => Err(e),
        },
    }
}

/// Puts a resource identifier together from `subscription`, `resource_group`,
/// `provider` and `types`, a list of objects with a `type` and a `name`; the last may have
/// no `name`.
pub fn op_build_resource_id(opts: Json) -> (r: Result<Json, Error>)
    ensures
        outcome(r) == build_answer(opts@),
{
    let mut parts = ResourceId {
        subscription: owned(filled_str(&opts, "subscription")),
        resource_group: owned(filled_str(&opts, "resource_group")),
        provider: owned(filled_str(&opts, "provider")),
        types: Vec::new(),
    };
    let ghost entries = type_entries(opts@);
    let ghost want = entries.map_values(|t: JsonModel| entry_kind(t)->0);
    match opts.get("types") {
        Some(v) => match v.as_array() {
            Some(list) => {
                if list.len() > 0 && parts.provider.is_none() {
                    return Err(Error::new("provider required when types is non-empty"));
                }
                let mut types: Vec<ResourceKind> = Vec::new();
                let mut i: usize = 0;
                while i < list.len()
                    invariant
                        i <= list@.len(),
                        entries == items(list@),
                        entries == type_entries(opts@),
                        entries.len() > 0 ==> asked_parts(opts@).provider is Some,
                        want == entries.map_values(|t: JsonModel| entry_kind(t)->0),
                        forall|j: int|
                            0 <= j < i ==> entry_kind(#[trigger] entries[j]) is Some,
                        kinds(types@) == want.take(i as int),
                    decreases list.len() - i,
                {
                    let ghost before = types@;
                    assert(entries[i as int] == list@[i as int]@);
                    match filled_str(&list[i], "type") {
                        None => {
                            assert(entry_kind(entries[i as int]) is None);
                            return Err(Error::new("type entry missing `type`"));
                        },
                        Some(kind) => {
                            types.push(
                                ResourceKind {
                                    kind: kind.to_owned(),
                                    name: owned(filled_str(&list[i], "name")),
                                },
                            );
                        },
                    }
                    assert(kinds(types@) =~= kinds(before).push(want[i as int]));
                    assert(kinds(types@) =~= want.take(i + 1));
                    i = i + 1;
                }
                assert(want.take(want.len() as int) =~= want);
                parts.types = types;
            },
            None => {},
        },
        None => {},
    }
    assert(parts@ =~= asked_parts(opts@));
    match build_resource_id(&parts) {
        Ok(id) => Ok(Json::empty().with("id", Json::Text(id))),
        Err(e) => Err(e),
    }
}

/// A segment that a path can hold and give back.
pub open spec fn plain(s: Seq<char>) -> bool {
    s.len() > 0 && !s.contains('/')
}

/// Nothing, or a segment that a path can hold and give back.
pub open spec fn absent_or_plain(s: Option<Seq<char>>) -> bool {
    s matches Some(t) ==> plain(t)
}

/// Parts that stand for an identifier: every text is a segment, types come with a
/// provider, only the last type may have no name, and something is there.
pub open spec fn sound_parts(parts: ResourceIdModel) -> bool {
    &&& absent_or_plain(parts.subscription)
    &&& absent_or_plain(parts.resource_group)
    &&& absent_or_plain(parts.provider)
    &&& forall|i: int|
        0 <= i < parts.types.len() ==> plain((#[trigger] parts.types[i]).0) && absent_or_plain(
            parts.types[i].1,
        )
    &&& forall|i: int|
        0 <= i < parts.types.len() - 1 ==> (#[trigger] parts.types[i]).1 is Some
    &&& parts.types.len() > 0 ==> parts.provider is Some
    &&& parts.subscription is Some || parts.resource_group is Some || parts.provider is Some
}

/// Segments, each with a slash before it.
spec fn path(segments: Seq<Seq<char>>) -> Seq<char>
    decreases segments.len(),
{
    if segments.len() == 0 {
        Seq::empty()
    } else {
        path(segments.drop_last()).push('/') + segments.last()
    }
}

spec fn labelled(label: Seq<char>, value: Option<Seq<char>>) -> Seq<Seq<char>> {
    match value {
        Some(s) => seq![label, s],
        None => Seq::empty(),
    }
}

spec fn flat(list: Seq<KindModel>) -> Seq<Seq<char>>
    decreases list.len(),
{
    if list.len() == 0 {
        Seq::empty()
    } else {
        flat(list.drop_last()) + match list.last().1 {
            Some(name) => seq![list.last().0, name],
            None => seq![list.last().0],
        }
    }
}

proof fn lemma_path_add(a: Seq<Seq<char>>, b: Seq<Seq<char>>)
    ensures
        path(a + b) == path(a) + path(b),
    decreases b.len(),
{
    if b.len() == 0 {
        assert(a + b =~= a);
        assert(path(a) + path(b) =~= path(a));
    } else {
        lemma_path_add(a, b.drop_last());
        assert((a + b).drop_last() =~= a + b.drop_last());
        assert(path(a + b) =~= path(a) + path(b));
    }
}

proof fn lemma_path_one(s: Seq<char>)
    ensures
        path(seq![s]) == segment(s),
{
    assert(seq![s].drop_last() =~= Seq::<Seq<char>>::empty());
    reveal_with_fuel(path, 2);
    assert(path(seq![s]) =~= segment(s));
}

proof fn lemma_path_two(s: Seq<char>, t: Seq<char>)
    ensures
        path(seq![s, t]) == segment(s) + segment(t),
{
    lemma_path_one(s);
    lemma_path_one(t);
    lemma_path_add(seq![s], seq![t]);
    assert(seq![s] + seq![t] =~= seq![s, t]);
}

proof fn lemma_path_labelled(label: Seq<char>, value: Option<Seq<char>>)
    ensures
        path(labelled(label, value)) == section(label, value),
{
    match value {
        Some(s) => lemma_path_two(label, s),
        None => {},
    }
}

proof fn lemma_path_flat(list: Seq<KindModel>)
    ensures
        path(flat(list)) == kinds_path(list),
    decreases list.len(),
{
    if list.len() > 0 {
        lemma_path_flat(list.drop_last());
        match list.last().1 {
            Some(name) => {
                lemma_path_two(list.last().0, name);
                lemma_path_add(flat(list.drop_last()), seq![list.last().0, name]);
            },
            None => {
                lemma_path_one(list.last().0);
                lemma_path_add(flat(list.drop_last()), seq![list.last().0]);
            },
        }
    }
}

proof fn lemma_split_path(segments: Seq<Seq<char>>)
    requires
        forall|i: int| 0 <= i < segments.len() ==> plain(#[trigger] segments[i]),
    ensures
        split_on(path(segments), '/') == seq![Seq::<char>::empty()] + segments,
    decreases segments.len(),
{
    if segments.len() > 0 {
        let front = segments.drop_last();
        assert forall|i: int| 0 <= i < front.len() implies plain(#[trigger] front[i]) by {
            assert(front[i] == segments[i]);
        }
        lemma_split_path(front);
        assert(plain(segments[segments.len() - 1]));
        crate::text::lemma_split_append(path(front), segments.last(), '/');
        assert((seq![Seq::<char>::empty()] + front).push(segments.last()) =~= seq![
            Seq::<char>::empty(),
        ] + segments);
    } else {
        assert(seq![Seq::<char>::empty()] + segments =~= seq![Seq::<char>::empty()]);
    }
}

proof fn lemma_path_segments(segments: Seq<Seq<char>>)
    requires
        forall|i: int| 0 <= i < segments.len() ==> plain(#[trigger] segments[i]),
    ensures
        path_segments(path(segments)) == segments,
{
    let full = |s: Seq<char>| s.len() > 0;
    let blank = seq![Seq::<char>::empty()];
    lemma_split_path(segments);
    Seq::filter_distributes_over_add(blank, segments, full);
    crate::text::lemma_filter_all(segments, full);
    assert(blank.filter(full) =~= Seq::empty()) by {
        reveal_with_fuel(Seq::filter, 2);
        assert(blank.drop_last() =~= Seq::<Seq<char>>::empty());
    }
    assert(Seq::<Seq<char>>::empty() + segments =~= segments);
}

/// Where every type but the last has a name, the flat list alternates.
proof fn lemma_flat(list: Seq<KindModel>)
    requires
        forall|i: int| 0 <= i < list.len() - 1 ==> (#[trigger] list[i]).1 is Some,
    ensures
        paired(flat(list)) == list,
        list.len() > 0 && list.last().1 is Some ==> flat(list).len() == 2 * list.len(),
        list.len() > 0 && list.last().1 is None ==> flat(list).len() == 2 * list.len() - 1,
        list.len() == 0 ==> flat(list).len() == 0,
    decreases list.len(),
{
    if list.len() > 0 {
        let front = list.drop_last();
        assert forall|i: int| 0 <= i < front.len() - 1 implies (#[trigger] front[i]).1 is Some by {
            assert(front[i] == list[i]);
        }
        lemma_flat(front);
        if front.len() > 0 {
            assert(front.last() == list[list.len() - 2]);
        }
        let whole = flat(list);
        assert(flat(front).len() == 2 * front.len());
        assert forall|k: int| 0 <= k < list.len() implies paired(whole)[k] == #[trigger] list[k] by {
            if k < front.len() {
                assert(paired(flat(front))[k] == front[k]);
                assert(whole[2 * k] == flat(front)[2 * k]);
                assert(whole[2 * k + 1] == flat(front)[2 * k + 1]);
            }
        }
        assert(paired(whole) =~= list);
    } else {
        assert(paired(flat(list)) =~= list);
    }
}

proof fn lemma_flat_plain(list: Seq<KindModel>)
    requires
        forall|i: int|
            0 <= i < list.len() ==> plain((#[trigger] list[i]).0) && absent_or_plain(list[i].1),
    ensures
        forall|i: int| 0 <= i < flat(list).len() ==> plain(#[trigger] flat(list)[i]),
    decreases list.len(),
{
    if list.len() > 0 {
        let front = list.drop_last();
        assert forall|i: int| 0 <= i < front.len() implies plain((#[trigger] front[i]).0)
            && absent_or_plain(front[i].1) by {
            assert(front[i] == list[i]);
        }
        lemma_flat_plain(front);
        assert(list.last() == list[list.len() - 1]);
        assert forall|i: int| 0 <= i < flat(list).len() implies plain(#[trigger] flat(list)[i]) by {
            if i < flat(front).len() {
                assert(flat(list)[i] == flat(front)[i]);
            }
        }
    }
}

proof fn lemma_labels()
    ensures
        lower("subscriptions"@) == "subscriptions"@,
        lower("resourceGroups"@) == "resourcegroups"@,
        lower("providers"@) == "providers"@,
        "subscriptions"@ != "resourcegroups"@,
        "subscriptions"@ != "providers"@,
        "resourcegroups"@ != "providers"@,
        plain("subscriptions"@),
        plain("resourceGroups"@),
        plain("providers"@),
{
    reveal_strlit("subscriptions");
    reveal_strlit("resourceGroups");
    reveal_strlit("resourcegroups");
    reveal_strlit("providers");
    assert(lower("subscriptions"@) =~= "subscriptions"@);
    assert(lower("resourceGroups"@) =~= "resourcegroups"@);
    assert(lower("providers"@) =~= "providers"@);
}

proof fn lemma_scan_labelled(label: Seq<char>, value: Seq<char>, rest: Seq<Seq<char>>)
    ensures
        (seq![label, value] + rest)[0] == label,
        (seq![label, value] + rest)[1] == value,
        (seq![label, value] + rest).skip(2) == rest,
{
    assert((seq![label, value] + rest).skip(2) =~= rest);
}

/// The segments of the identifier that has those parts.
spec fn part_segments(parts: ResourceIdModel) -> Seq<Seq<char>> {
    labelled("subscriptions"@, parts.subscription) + (labelled(
        "resourceGroups"@,
        parts.resource_group,
    ) + (labelled("providers"@, parts.provider) + flat(parts.types)))
}

proof fn lemma_labelled_plain(label: Seq<char>, value: Option<Seq<char>>, rest: Seq<Seq<char>>)
    requires
        plain(label),
        absent_or_plain(value),
        forall|i: int| 0 <= i < rest.len() ==> plain(#[trigger] rest[i]),
    ensures
        forall|i: int|
            0 <= i < (labelled(label, value) + rest).len() ==> plain(
                #[trigger] (labelled(label, value) + rest)[i],
            ),
{
    let all = labelled(label, value) + rest;
    let n = labelled(label, value).len();
    assert forall|i: int| 0 <= i < all.len() implies plain(#[trigger] all[i]) by {
        if i >= n {
            assert(all[i] == rest[i - n]);
        }
    }
}

proof fn lemma_part_segments_plain(parts: ResourceIdModel)
    requires
        sound_parts(parts),
    ensures
        forall|i: int|
            0 <= i < part_segments(parts).len() ==> plain(#[trigger] part_segments(parts)[i]),
{
    lemma_labels();
    lemma_flat_plain(parts.types);
    let tail = labelled("providers"@, parts.provider) + flat(parts.types);
    lemma_labelled_plain("providers"@, parts.provider, flat(parts.types));
    lemma_labelled_plain("resourceGroups"@, parts.resource_group, tail);
    lemma_labelled_plain(
        "subscriptions"@,
        parts.subscription,
        labelled("resourceGroups"@, parts.resource_group) + tail,
    );
}

proof fn lemma_built_path(parts: ResourceIdModel)
    requires
        sound_parts(parts),
    ensures
        built(parts) == Ok::<Seq<char>, Seq<char>>(path(part_segments(parts))),
        part_segments(parts).len() > 0,
{
    let subs = labelled("subscriptions"@, parts.subscription);
    let groups = labelled("resourceGroups"@, parts.resource_group);
    let tail = labelled("providers"@, parts.provider) + flat(parts.types);
    lemma_path_add(subs, groups + tail);
    lemma_path_add(groups, tail);
    lemma_path_add(labelled("providers"@, parts.provider), flat(parts.types));
    lemma_path_labelled("subscriptions"@, parts.subscription);
    lemma_path_labelled("resourceGroups"@, parts.resource_group);
    lemma_path_labelled("providers"@, parts.provider);
    lemma_path_flat(parts.types);
    let id = section("subscriptions"@, parts.subscription) + section(
        "resourceGroups"@,
        parts.resource_group,
    ) + section("providers"@, parts.provider) + kinds_path(parts.types);
    assert(path(part_segments(parts)) =~= id);
    assert(path(part_segments(parts)).len() > 0);
}

proof fn lemma_scan_part_segments(parts: ResourceIdModel)
    requires
        sound_parts(parts),
    ensures
        scanned(part_segments(parts), no_parts()) == parts,
{
    lemma_labels();
    lemma_flat(parts.types);
    let groups = labelled("resourceGroups"@, parts.resource_group);
    let tail = labelled("providers"@, parts.provider) + flat(parts.types);
    let segments = part_segments(parts);
    let found0 = no_parts();
    let found1 = ResourceIdModel { subscription: parts.subscription, ..found0 };
    let found2 = ResourceIdModel { resource_group: parts.resource_group, ..found1 };
    assert(scanned(segments, found0) == scanned(groups + tail, found1)) by {
        match parts.subscription {
            Some(s) => {
                lemma_scan_labelled("subscriptions"@, s, groups + tail);
            },
            None => {
                assert(segments =~= groups + tail);
            },
        }
    }
    assert(scanned(groups + tail, found1) == scanned(tail, found2)) by {
        match parts.resource_group {
            Some(s) => {
                lemma_scan_labelled("resourceGroups"@, s, tail);
            },
            None => {
                assert(groups + tail =~= tail);
            },
        }
    }
    assert(scanned(tail, found2) =~= parts) by {
        match parts.provider {
            Some(s) => {
                lemma_scan_labelled("providers"@, s, flat(parts.types));
            },
            None => {
                assert(parts.types =~= Seq::empty());
                assert(tail =~= Seq::<Seq<char>>::empty());
            },
        }
    }
}

proof fn lemma_sound_parts_come_back(parts: ResourceIdModel)
    requires
        sound_parts(parts),
    ensures
        built(parts) is Ok,
        parsed(built(parts)->Ok_0) == Ok::<ResourceIdModel, Seq<char>>(parts),
{
    lemma_built_path(parts);
    lemma_part_segments_plain(parts);
    lemma_path_segments(part_segments(parts));
    lemma_scan_part_segments(parts);
}

/// Parts that name nothing.
pub open spec fn blank_parts(parts: ResourceIdModel) -> bool {
    parts.subscription is None && parts.resource_group is None && parts.provider is None
        && parts.types.len() == 0
}

proof fn lemma_segments_plain(id: Seq<char>)
    ensures
        forall|i: int| 0 <= i < path_segments(id).len() ==> plain(#[trigger] path_segments(id)[i]),
{
    let full = |s: Seq<char>| s.len() > 0;
    let pieces = split_on(id, '/');
    crate::text::lemma_split_pieces_free(id, '/');
    assert forall|i: int| 0 <= i < path_segments(id).len() implies plain(
        #[trigger] path_segments(id)[i],
    ) by {
        let s = path_segments(id)[i];
        pieces.lemma_filter_pred(full, i);
        assert(pieces.filter(full).contains(s));
        pieces.lemma_filter_contains_rev(full, s);
        let k = pieces.index_of(s);
        assert(!pieces[k].contains('/'));
    }
}

proof fn lemma_scan_sound(segments: Seq<Seq<char>>, found: ResourceIdModel)
    requires
        forall|i: int| 0 <= i < segments.len() ==> plain(#[trigger] segments[i]),
        absent_or_plain(found.subscription),
        absent_or_plain(found.resource_group),
        found.provider is None,
        found.types.len() == 0,
    ensures
        sound_parts(scanned(segments, found)) || blank_parts(scanned(segments, found)),
    decreases segments.len(),
{
    if segments.len() > 0 {
        assert(plain(segments[0]));
        assert forall|i: int| 0 <= i < segments.skip(1).len() implies plain(
            #[trigger] segments.skip(1)[i],
        ) by {
            assert(plain(segments[i + 1]));
        }
        lemma_scan_sound(segments.skip(1), found);
        if segments.len() >= 2 {
            assert(plain(segments[1]));
            let rest = segments.skip(2);
            assert forall|i: int| 0 <= i < rest.len() implies plain(#[trigger] rest[i]) by {
                assert(plain(segments[i + 2]));
            }
            lemma_scan_sound(
                rest,
                ResourceIdModel { subscription: Some(segments[1]), ..found },
            );
            lemma_scan_sound(
                rest,
                ResourceIdModel { resource_group: Some(segments[1]), ..found },
            );
            let types = paired(rest);
            assert forall|i: int| 0 <= i < types.len() implies plain((#[trigger] types[i]).0)
                && absent_or_plain(types[i].1) by {
                assert(plain(rest[2 * i]));
                if 2 * i + 1 < rest.len() {
                    assert(plain(rest[2 * i + 1]));
                }
            }
        }
    }
}

/// What is taken apart gives sound parts, or names nothing at all.
pub proof fn law_parsed_parts_are_sound(id: Seq<char>)
    ensures
        parsed(id) matches Ok(parts) ==> sound_parts(parts) || blank_parts(parts),
{
    lemma_segments_plain(id);
    lemma_scan_sound(path_segments(id), no_parts());
}

/// Taking apart what was put together gives the parts back exactly if they are sound.
pub proof fn law_parse_inverts_build(parts: ResourceIdModel)
    ensures
        sound_parts(parts) <==> built(parts) is Ok && parsed(built(parts)->Ok_0) == Ok::<
            ResourceIdModel,
            Seq<char>,
        >(parts),
{
    if sound_parts(parts) {
        lemma_sound_parts_come_back(parts);
    }
    if built(parts) is Ok && parsed(built(parts)->Ok_0) == Ok::<ResourceIdModel, Seq<char>>(parts) {
        law_parsed_parts_are_sound(built(parts)->Ok_0);
    }
}

/// An identifier that was taken apart can be put together again unless it names
/// nothing, and the result has the same parts.
pub proof fn law_rebuilt_id_has_the_same_parts(id: Seq<char>)
    requires
        parsed(id) is Ok,
        !blank_parts(parsed(id)->Ok_0),
    ensures
        built(parsed(id)->Ok_0) is Ok,
        parsed(built(parsed(id)->Ok_0)->Ok_0) == parsed(id),
{
    law_parsed_parts_are_sound(id);
    law_parse_inverts_build(parsed(id)->Ok_0);
}

/// An identifier comes back character by character when it is taken apart and put
/// together again, exactly if a build gives it from sound parts.
pub proof fn law_build_inverts_parse(id: Seq<char>)
    ensures
        parsed(id) is Ok && built(parsed(id)->Ok_0) == Ok::<Seq<char>, Seq<char>>(id)
            <==> exists|parts: ResourceIdModel| #[trigger]
            sound_parts(parts) && built(parts) == Ok::<Seq<char>, Seq<char>>(id),
{
    if exists|parts: ResourceIdModel| #[trigger]
        sound_parts(parts) && built(parts) == Ok::<Seq<char>, Seq<char>>(id) {
        let parts = choose|parts: ResourceIdModel| #[trigger]
            sound_parts(parts) && built(parts) == Ok::<Seq<char>, Seq<char>>(id);
        law_parse_inverts_build(parts);
    }
    if parsed(id) is Ok && built(parsed(id)->Ok_0) == Ok::<Seq<char>, Seq<char>>(id) {
        law_parsed_parts_are_sound(id);
    }
}

/// The keys that stand in one object are distinct.
proof fn lemma_keys()
    ensures
        "type"@ != "name"@,
        "subscription"@ != "resource_group"@,
        "subscription"@ != "provider"@,
        "subscription"@ != "types"@,
        "subscription"@ != "resource_type"@,
        "subscription"@ != "name"@,
        "resource_group"@ != "provider"@,
        "resource_group"@ != "types"@,
        "resource_group"@ != "resource_type"@,
        "resource_group"@ != "name"@,
        "provider"@ != "types"@,
        "provider"@ != "resource_type"@,
        "provider"@ != "name"@,
        "types"@ != "resource_type"@,
        "types"@ != "name"@,
        "resource_type"@ != "name"@,
{
    reveal_strlit("type");
    reveal_strlit("name");
    reveal_strlit("subscription");
    reveal_strlit("resource_group");
    reveal_strlit("provider");
    reveal_strlit("types");
    reveal_strlit("resource_type");
    assert("name"@.len() == 4);
    assert("subscription"@.len() == 12);
    assert("resource_group"@.len() == 14);
    assert("provider"@.len() == 8);
    assert("types"@.len() == 5);
    assert("resource_type"@.len() == 13);
    assert("type"@[0] != "name"@[0]);
}

proof fn lemma_asked_parts_of_json(parts: ResourceIdModel)
    requires
        sound_parts(parts),
    ensures
        asked_parts(parts_json(parts)) == parts,
        forall|i: int|
            0 <= i < type_entries(parts_json(parts)).len() ==> entry_kind(
                #[trigger] type_entries(parts_json(parts))[i],
            ) is Some,
{
    broadcast use crate::json::lemma_get_with;

    lemma_keys();
    let j = parts_json(parts);
    let entries = type_entries(j);
    assert(entries == parts.types.map_values(|k: KindModel| kind_json(k)));
    assert forall|i: int| 0 <= i < entries.len() implies entry_kind(#[trigger] entries[i]) == Some(
        parts.types[i],
    ) by {
        assert(plain(parts.types[i].0));
        assert(entries[i] == kind_json(parts.types[i]));
    }
    assert(asked_parts(j).types =~= parts.types);
    assert(asked_parts(j) =~= parts);
}

/// Building from the answer of a parse gives an identifier, unless the first one
/// named nothing, and parsing that identifier gives the same answer.
pub proof fn law_build_from_a_parse_answer(opts: JsonModel, id: Seq<char>)
    requires
        aliased(opts, "id"@, "resource_id"@) == Some(id),
        parsed(id) is Ok,
        !blank_parts(parsed(id)->Ok_0),
    ensures
        parse_answer(opts) is Ok,
        build_answer(parse_answer(opts)->Ok_0) is Ok,
        parse_answer(build_answer(parse_answer(opts)->Ok_0)->Ok_0) == parse_answer(opts),
{
    broadcast use crate::json::lemma_get_with;

    let parts = parsed(id)->Ok_0;
    law_parsed_parts_are_sound(id);
    law_parse_inverts_build(parts);
    lemma_asked_parts_of_json(parts);
}

/// Parts whose texts hold no slash.
pub open spec fn slash_free(parts: ResourceIdModel) -> bool {
    &&& parts.subscription matches Some(s) ==> !s.contains('/')
    &&& parts.resource_group matches Some(s) ==> !s.contains('/')
    &&& parts.provider matches Some(s) ==> !s.contains('/')
    &&& forall|i: int|
        0 <= i < parts.types.len() ==> !(#[trigger] parts.types[i]).0.contains('/') && (
        parts.types[i].1 matches Some(s) ==> !s.contains('/'))
}

/// Parsing the answer of a build gives the parts that the build was asked for, if no text
/// among them holds a slash.
pub proof fn law_parse_of_a_build_answer(opts: JsonModel)
    requires
        build_answer(opts) is Ok,
        slash_free(asked_parts(opts)),
    ensures
        parse_answer(build_answer(opts)->Ok_0) == Ok::<JsonModel, Seq<char>>(
            parts_json(asked_parts(opts)),
        ),
{
    broadcast use crate::json::lemma_get_with;

    let parts = asked_parts(opts);
    let entries = type_entries(opts);
    assert forall|i: int| 0 <= i < parts.types.len() implies plain((#[trigger] parts.types[i]).0)
        && absent_or_plain(parts.types[i].1) by {
        assert(entry_kind(entries[i]) is Some);
    }
    assert(parts.types.len() == entries.len());
    if parts.types.len() == 0 {
        assert(kinds_path(parts.types) =~= Seq::empty());
    }
    assert(sound_parts(parts));
    law_parse_inverts_build(parts);
}

/// The answers are well-formed.
pub proof fn law_answers_are_well_formed(opts: JsonModel)
    ensures
        parse_answer(opts) matches Ok(v) ==> well_formed(v),
        build_answer(opts) matches Ok(v) ==> well_formed(v),
{
    broadcast use {crate::json::lemma_get_with, crate::json::lemma_well_formed_with};

    lemma_keys();
    if parse_answer(opts) is Ok {
        let parts = parsed(aliased(opts, "id"@, "resource_id"@)->0)->Ok_0;
        let list = parts.types.map_values(|k: KindModel| kind_json(k));
        assert forall|i: int| 0 <= i < list.len() implies well_formed(#[trigger] list[i]) by {
            assert(list[i] == kind_json(parts.types[i]));
        }
        lemma_well_formed_array(list);
        assert(well_formed(parts_json(parts)));
    }
}

/// A path segment: not empty, and without a slash.
pub open spec fn is_segment(s: Seq<char>) -> bool {
    s.len() > 0 && forall|i: int| 0 <= i < s.len() ==> #[trigger] s[i] != '/'
}

/// What an answer has under `types`.
pub open spec fn answered_types(v: JsonModel) -> Seq<JsonModel> {
    v.get("types"@)->0->Array_0
}

/// An entry of `types` with that type and that name.
pub open spec fn type_entry(entry: JsonModel, kind: Seq<char>, name: JsonModel) -> bool {
    &&& entry->Object_0.len() == 2
    &&& entry.get("type"@) == Some(JsonModel::Text(kind))
    &&& entry.get("name"@) == Some(name)
}

/// An answer that names nothing.
pub open spec fn names_nothing(v: JsonModel) -> bool {
    &&& v.get("subscription"@) == Some(JsonModel::Null)
    &&& v.get("resource_group"@) == Some(JsonModel::Null)
    &&& v.get("provider"@) == Some(JsonModel::Null)
    &&& v.get("types"@) == Some(JsonModel::Array(Seq::empty()))
    &&& v.get("resource_type"@) == Some(JsonModel::Null)
    &&& v.get("name"@) == Some(JsonModel::Null)
}

/// The label of a subscription, in any case.
pub open spec fn subscription_label(s: Seq<char>) -> bool {
    same_but_for_case(s, "subscriptions"@)
}

/// The label of a resource group, in any case.
pub open spec fn group_label(s: Seq<char>) -> bool {
    same_but_for_case(s, "resourcegroups"@)
}

/// The label of a provider, in any case.
pub open spec fn provider_label(s: Seq<char>) -> bool {
    same_but_for_case(s, "providers"@)
}

proof fn lemma_label_names(s: Seq<char>)
    ensures
        lower(s) == "subscriptions"@ <==> subscription_label(s),
        lower(s) == "resourcegroups"@ <==> group_label(s),
        lower(s) == "providers"@ <==> provider_label(s),
        "subscriptions"@ != "resourcegroups"@,
        "subscriptions"@ != "providers"@,
        "resourcegroups"@ != "providers"@,
{
    reveal_strlit("subscriptions");
    reveal_strlit("resourcegroups");
    reveal_strlit("providers");
    lemma_same_in_any_case(s, "subscriptions"@);
    lemma_same_in_any_case(s, "resourcegroups"@);
    lemma_same_in_any_case(s, "providers"@);
    assert("subscriptions"@.len() == 13);
    assert("resourcegroups"@.len() == 14);
    assert("providers"@.len() == 9);
}

proof fn lemma_segments_of_one(s: Seq<char>)
    requires
        !s.contains('/'),
    ensures
        path_segments(s) == if s.len() == 0 {
            Seq::empty()
        } else {
            seq![s]
        },
{
    reveal(Seq::filter);
    reveal_with_fuel(Seq::filter, 2);
    crate::text::lemma_split_free(s, '/');
    assert(seq![s].drop_last() =~= Seq::<Seq<char>>::empty());
    assert(Seq::<Seq<char>>::empty().push(s) =~= seq![s]);
}

proof fn lemma_segments_add(a: Seq<char>, b: Seq<char>)
    ensures
        path_segments(a.push('/') + b) == path_segments(a) + path_segments(b),
{
    crate::text::lemma_split_concat(a, b, '/');
    Seq::filter_distributes_over_add(
        split_on(a, '/'),
        split_on(b, '/'),
        |s: Seq<char>| s.len() > 0,
    );
}

proof fn lemma_segments_cons(s: Seq<char>, rest: Seq<char>)
    requires
        is_segment(s),
    ensures
        path_segments(s.push('/') + rest) == seq![s] + path_segments(rest),
        path_segments(s) == seq![s],
{
    assert(!s.contains('/'));
    lemma_segments_of_one(s);
    lemma_segments_add(s, rest);
}

proof fn lemma_scan_found(segments: Seq<Seq<char>>, found: ResourceIdModel)
    requires
        found.provider is None,
        found.types.len() == 0,
    ensures
        ({
            let r = scanned(segments, no_parts());
            scanned(segments, found) == ResourceIdModel {
                subscription: if r.subscription is Some {
                    r.subscription
                } else {
                    found.subscription
                },
                resource_group: if r.resource_group is Some {
                    r.resource_group
                } else {
                    found.resource_group
                },
                provider: r.provider,
                types: r.types,
            }
        }),
    decreases segments.len(),
{
    if segments.len() == 0 {
        assert(found.types =~= Seq::empty());
    } else {
        lemma_scan_found(segments.skip(1), found);
        if segments.len() >= 2 {
            let rest = segments.skip(2);
            lemma_scan_found(
                rest,
                ResourceIdModel { subscription: Some(segments[1]), ..found },
            );
            lemma_scan_found(
                rest,
                ResourceIdModel { subscription: Some(segments[1]), ..no_parts() },
            );
            lemma_scan_found(
                rest,
                ResourceIdModel { resource_group: Some(segments[1]), ..found },
            );
            lemma_scan_found(
                rest,
                ResourceIdModel { resource_group: Some(segments[1]), ..no_parts() },
            );
        }
    }
}

/// The type and the name of the resource are those of the last entry under `types`. Without
/// entries both are null.
pub proof fn law_resource_is_the_last_pair(opts: JsonModel)
    ensures
        parse_answer(opts) matches Ok(v) ==> {
            let types = answered_types(v);
            &&& v->Object_0.len() == 6
            &&& v.get("types"@) is Some && v.get("types"@)->0 is Array
            &&& types.len() > 0 ==> {
                &&& v.get("resource_type"@) is Some
                &&& v.get("resource_type"@) == types[types.len() - 1].get("type"@)
                &&& v.get("name"@) is Some
                &&& v.get("name"@) == types[types.len() - 1].get("name"@)
            }
            &&& types.len() == 0 ==> v.get("resource_type"@) == Some(JsonModel::Null) && v.get(
                "name"@,
            ) == Some(JsonModel::Null)
        },
{
    broadcast use crate::json::lemma_get_with;

    lemma_keys();
    if parse_answer(opts) is Ok {
        let parts = parsed(aliased(opts, "id"@, "resource_id"@)->0)->Ok_0;
        let list = parts.types.map_values(|k: KindModel| kind_json(k));
        if list.len() > 0 {
            assert(list[list.len() - 1] == kind_json(parts.types.last()));
        }
    }
}

proof fn lemma_slash_in_front(id: Seq<char>)
    ensures
        path_segments(seq!['/'] + id) == path_segments(id),
{
    let none = Seq::<char>::empty();
    lemma_segments_of_one(none);
    lemma_segments_add(none, id);
    assert(seq!['/'] + id =~= none.push('/') + id);
    assert(Seq::<Seq<char>>::empty() + path_segments(id) =~= path_segments(id));
}

proof fn lemma_slash_behind(id: Seq<char>)
    ensures
        path_segments(id.push('/')) == path_segments(id),
{
    let none = Seq::<char>::empty();
    lemma_segments_of_one(none);
    lemma_segments_add(id, none);
    assert(id.push('/') =~= id.push('/') + none);
    assert(path_segments(id) + Seq::<Seq<char>>::empty() =~= path_segments(id));
}

proof fn lemma_two_slashes(a: Seq<char>, b: Seq<char>)
    ensures
        path_segments(a.push('/').push('/') + b) == path_segments(a.push('/') + b),
{
    lemma_slash_behind(a);
    lemma_segments_add(a.push('/'), b);
    lemma_segments_add(a, b);
}

/// Slashes in front, at the end, or twice in a row change nothing.
pub proof fn law_slashes(
    opts: JsonModel,
    other: JsonModel,
    id: Seq<char>,
    more: Seq<char>,
    a: Seq<char>,
    b: Seq<char>,
)
    requires
        has_text_or(opts, "id"@, "resource_id"@, id),
        has_text_or(other, "id"@, "resource_id"@, more),
        more == seq!['/'] + id || more == id.push('/') || id == a.push('/') + b && more == a.push(
            '/',
        ).push('/') + b,
    ensures
        parse_answer(other) == parse_answer(opts),
{
    if more == seq!['/'] + id {
        lemma_slash_in_front(id);
    } else if more == id.push('/') {
        lemma_slash_behind(id);
    } else {
        lemma_two_slashes(a, b);
    }
    assert(parsed(more) == parsed(id));
}

/// An identifier without a segment is refused, and so is a request without one.
pub proof fn law_refused_ids(opts: JsonModel, id: Seq<char>)
    ensures
        lacks_text_or(opts, "id"@, "resource_id"@) ==> parse_answer(opts) == Err::<
            JsonModel,
            Seq<char>,
        >("missing "@ + "id"@),
        has_text_or(opts, "id"@, "resource_id"@, id) ==> (parse_answer(opts) is Err <==> forall|
            i: int,
        |
            0 <= i < id.len() ==> #[trigger] id[i] == '/'),
        has_text_or(opts, "id"@, "resource_id"@, id) && parse_answer(opts) is Err ==> parse_answer(
            opts,
        ) == Err::<JsonModel, Seq<char>>("empty resource id"@),
{
    lemma_segments_exist(id);
}

proof fn lemma_segments_exist(id: Seq<char>)
    ensures
        path_segments(id).len() == 0 <==> forall|i: int|
            0 <= i < id.len() ==> #[trigger] id[i] == '/',
    decreases id.len(),
{
    crate::text::lemma_split_once(id, '/');
    match split_once(id, '/') {
        None => {
            lemma_segments_of_one(id);
            if id.len() > 0 {
                assert(id.contains(id[0]));
            }
        },
        Some((a, b)) => {
            lemma_segments_of_one(a);
            lemma_segments_add(a, b);
            lemma_segments_exist(b);
            assert(id == a.push('/') + b);
            if path_segments(id).len() == 0 {
                assert(a.len() == 0);
                assert forall|i: int| 0 <= i < id.len() implies #[trigger] id[i] == '/' by {
                    if i > 0 {
                        assert(b[i - 1] == '/');
                    }
                }
            }
            if forall|i: int| 0 <= i < id.len() ==> #[trigger] id[i] == '/' {
                if a.len() > 0 {
                    assert(id[0] == a[0]);
                    assert(a.contains('/'));
                }
                assert forall|i: int| 0 <= i < b.len() implies #[trigger] b[i] == '/' by {
                    assert(id[a.len() + 1 + i] == b[i]);
                }
            }
        },
    }
}

/// A segment by itself names nothing, be it a label or not.
pub proof fn law_lone_segment(opts: JsonModel, s: Seq<char>)
    requires
        has_text_or(opts, "id"@, "resource_id"@, s),
        is_segment(s),
    ensures
        parse_answer(opts) is Ok && names_nothing(parse_answer(opts)->Ok_0),
{
    broadcast use crate::json::lemma_get_with;

    lemma_keys();
    lemma_segments_cons(s, Seq::empty());
    reveal_with_fuel(scanned, 3);
    assert(seq![s].skip(1) =~= Seq::<Seq<char>>::empty());
    assert(scanned(seq![s], no_parts()) == no_parts());
    assert(no_parts().types.map_values(|k: KindModel| kind_json(k)) =~= Seq::empty());
}

/// A segment that is no label is passed over.
pub proof fn law_other_segment(opts: JsonModel, rest_opts: JsonModel, s: Seq<char>, rest: Seq<char>)
    requires
        has_text_or(opts, "id"@, "resource_id"@, s.push('/') + rest),
        has_text_or(rest_opts, "id"@, "resource_id"@, rest),
        is_segment(s),
        !subscription_label(s) && !group_label(s) && !provider_label(s),
    ensures
        parse_answer(opts) is Ok,
        parse_answer(rest_opts) is Ok ==> parse_answer(opts) == parse_answer(rest_opts),
        parse_answer(rest_opts) is Err ==> names_nothing(parse_answer(opts)->Ok_0),
{
    broadcast use crate::json::lemma_get_with;

    lemma_keys();
    lemma_label_names(s);
    lemma_segments_cons(s, rest);
    let all = seq![s] + path_segments(rest);
    assert(all.skip(1) =~= path_segments(rest));
    assert(all[0] == s);
    assert(no_parts().types.map_values(|k: KindModel| kind_json(k)) =~= Seq::empty());
}

/// What an answer has under a key, or null where there is no answer.
pub open spec fn member_or_null(answer: Result<JsonModel, Seq<char>>, key: Seq<char>) -> JsonModel {
    match answer {
        Ok(v) => v.get(key)->0,
        Err(_) => JsonModel::Null,
    }
}

/// A label and the segment after it in front of a path: the segment is the subscription, or
/// the resource group, unless the path names another one, and all else is what the path
/// names.
pub proof fn law_labelled_segment(
    opts: JsonModel,
    rest_opts: JsonModel,
    label: Seq<char>,
    value: Seq<char>,
    rest: Seq<char>,
)
    requires
        has_text_or(opts, "id"@, "resource_id"@, label.push('/') + (value.push('/') + rest)),
        has_text_or(rest_opts, "id"@, "resource_id"@, rest),
        is_segment(value),
        subscription_label(label) || group_label(label),
    ensures
        ({
            let answer = parse_answer(opts);
            let after = parse_answer(rest_opts);
            let own = if subscription_label(label) {
                "subscription"@
            } else {
                "resource_group"@
            };
            let other = if subscription_label(label) {
                "resource_group"@
            } else {
                "subscription"@
            };
            let named = member_or_null(after, own);
            &&& answer is Ok
            &&& answer->Ok_0.get(own) == Some(
                if named == JsonModel::Null {
                    JsonModel::Text(value)
                } else {
                    named
                },
            )
            &&& answer->Ok_0.get(other) == Some(member_or_null(after, other))
            &&& answer->Ok_0.get("provider"@) == Some(member_or_null(after, "provider"@))
            &&& answer->Ok_0.get("types"@) == Some(
                if after is Ok {
                    after->Ok_0.get("types"@)->0
                } else {
                    JsonModel::Array(Seq::empty())
                },
            )
        }),
{
    broadcast use crate::json::lemma_get_with;

    lemma_keys();
    lemma_label_names(label);
    lemma_label_segment(label);
    lemma_segments_cons(value, rest);
    lemma_segments_cons(label, value.push('/') + rest);
    let tail = path_segments(rest);
    let all = seq![label] + (seq![value] + tail);
    assert(all.skip(2) =~= tail);
    assert(all[0] == label && all[1] == value);
    if subscription_label(label) {
        lemma_scan_found(tail, ResourceIdModel { subscription: Some(value), ..no_parts() });
    } else {
        lemma_scan_found(tail, ResourceIdModel { resource_group: Some(value), ..no_parts() });
    }
    assert(no_parts().types.map_values(|k: KindModel| kind_json(k)) =~= Seq::empty());
}

proof fn lemma_label_segment(label: Seq<char>)
    requires
        subscription_label(label) || group_label(label) || provider_label(label),
    ensures
        is_segment(label),
{
    reveal_strlit("subscriptions");
    reveal_strlit("resourcegroups");
    reveal_strlit("providers");
    assert("subscriptions"@.len() == 13);
    assert("resourcegroups"@.len() == 14);
    assert("providers"@.len() == 9);
    assert forall|i: int| 0 <= i < label.len() implies #[trigger] label[i] != '/' by {
        assert(label[i] == label[i]);
        if subscription_label(label) {
            assert('a' <= "subscriptions"@[i] <= 'z');
        } else if group_label(label) {
            assert('a' <= "resourcegroups"@[i] <= 'z');
        } else {
            assert('a' <= "providers"@[i] <= 'z');
        }
    }
}

/// A provider in front of a path: nothing but it and the types is named. The path gives the
/// types two by two, a type and its name; a last type may have no name.
pub proof fn law_provider_and_types(
    opts: JsonModel,
    rest_opts: JsonModel,
    label: Seq<char>,
    provider: Seq<char>,
    kind: Seq<char>,
    name: Seq<char>,
    rest: Seq<char>,
    id: Seq<char>,
)
    requires
        provider_label(label),
        is_segment(provider),
        is_segment(kind),
        is_segment(name),
        has_text_or(opts, "id"@, "resource_id"@, label.push('/') + (provider.push('/') + id)),
        has_text_or(rest_opts, "id"@, "resource_id"@, label.push('/') + (provider.push('/') + rest)),
    ensures
        ({
            let answer = parse_answer(opts);
            let shorter = parse_answer(rest_opts);
            let v = answer->Ok_0;
            &&& answer is Ok && shorter is Ok
            &&& v.get("subscription"@) == Some(JsonModel::Null)
            &&& v.get("resource_group"@) == Some(JsonModel::Null)
            &&& v.get("provider"@) == Some(JsonModel::Text(provider))
            &&& id.len() == 0 ==> answered_types(v).len() == 0
            &&& id == kind ==> answered_types(v).len() == 1 && type_entry(
                answered_types(v)[0],
                kind,
                JsonModel::Null,
            )
            &&& id == kind.push('/') + (name.push('/') + rest) ==> {
                let types = answered_types(v);
                &&& types.len() == 1 + answered_types(shorter->Ok_0).len()
                &&& type_entry(types[0], kind, JsonModel::Text(name))
                &&& types.skip(1) == answered_types(shorter->Ok_0)
            }
        }),
{
    broadcast use crate::json::lemma_get_with;

    lemma_keys();
    lemma_label_names(label);
    lemma_label_segment(label);
    lemma_segments_cons(provider, id);
    lemma_segments_cons(label, provider.push('/') + id);
    lemma_segments_cons(provider, rest);
    lemma_segments_cons(label, provider.push('/') + rest);
    let own = path_segments(id);
    let tail = path_segments(rest);
    let all = seq![label] + (seq![provider] + own);
    let fewer = seq![label] + (seq![provider] + tail);
    assert(all.skip(2) =~= own);
    assert(fewer.skip(2) =~= tail);
    assert(all[0] == label && all[1] == provider);
    assert(fewer[0] == label && fewer[1] == provider);
    let f = |k: KindModel| kind_json(k);
    let types = paired(own).map_values(f);
    let before = paired(tail).map_values(f);
    if id.len() == 0 {
        lemma_segments_of_one(id);
    }
    if id == kind {
        lemma_segments_cons(kind, rest);
        assert(types[0] == kind_json(paired(own)[0]));
    }
    if id == kind.push('/') + (name.push('/') + rest) {
        lemma_segments_cons(name, rest);
        lemma_segments_cons(kind, name.push('/') + rest);
        assert(own =~= seq![kind, name] + tail);
        assert(paired(own).len() == 1 + paired(tail).len());
        assert(paired(own)[0] == (kind, Some(name)));
        assert(types[0] == kind_json(paired(own)[0]));
        assert forall|k: int| 0 <= k < before.len() implies #[trigger] types.skip(1)[k]
            == before[k] by {
            assert(types.skip(1)[k] == kind_json(paired(own)[k + 1]));
            assert(own[2 * (k + 1)] == tail[2 * k]);
            if 2 * k + 1 < tail.len() {
                assert(own[2 * (k + 1) + 1] == tail[2 * k + 1]);
            }
        }
        assert(types.skip(1) =~= before);
    }
}

/// What a text adds to an identifier after a label, if there is one.
pub open spec fn labelled_text(label: Seq<char>, s: Option<Seq<char>>) -> Seq<char> {
    match s {
        Some(s) => label + s,
        None => Seq::empty(),
    }
}

/// Building without types gives the subscription, the resource group and the provider, each
/// after its label and in that order. There must be one of them.
pub proof fn law_build_without_types(opts: JsonModel)
    requires
        opts.get("types"@) matches Some(JsonModel::Array(list)) ==> list.len() == 0,
    ensures
        ({
            let subscription = nonempty_text(opts, "subscription"@);
            let group = nonempty_text(opts, "resource_group"@);
            let provider = nonempty_text(opts, "provider"@);
            let answer = build_answer(opts);
            if subscription is None && group is None && provider is None {
                answer == Err::<JsonModel, Seq<char>>("no resource id parts supplied"@)
            } else {
                &&& answer is Ok
                &&& answer->Ok_0->Object_0.len() == 1
                &&& answer->Ok_0.get("id"@) == Some(
                    JsonModel::Text(
                        labelled_text("/subscriptions/"@, subscription) + labelled_text(
                            "/resourceGroups/"@,
                            group,
                        ) + labelled_text("/providers/"@, provider),
                    ),
                )
            }
        }),
{
    broadcast use crate::json::lemma_get_with;

    let parts = asked_parts(opts);
    assert(type_entries(opts) =~= Seq::empty());
    assert(parts.types =~= Seq::empty());
    lemma_sections(parts);
    let id = section("subscriptions"@, parts.subscription) + section(
        "resourceGroups"@,
        parts.resource_group,
    ) + section("providers"@, parts.provider);
    assert(id + kinds_path(parts.types) =~= id);
    lemma_section_len("subscriptions"@, parts.subscription);
    lemma_section_len("resourceGroups"@, parts.resource_group);
    lemma_section_len("providers"@, parts.provider);
}

proof fn lemma_section_len(label: Seq<char>, value: Option<Seq<char>>)
    ensures
        value is Some ==> section(label, value).len() > 0,
        value is None ==> section(label, value).len() == 0,
{
}

proof fn lemma_sections(parts: ResourceIdModel)
    ensures
        section("subscriptions"@, parts.subscription) == labelled_text(
            "/subscriptions/"@,
            parts.subscription,
        ),
        section("resourceGroups"@, parts.resource_group) == labelled_text(
            "/resourceGroups/"@,
            parts.resource_group,
        ),
        section("providers"@, parts.provider) == labelled_text("/providers/"@, parts.provider),
{
    reveal_strlit("subscriptions");
    reveal_strlit("resourceGroups");
    reveal_strlit("providers");
    reveal_strlit("/subscriptions/");
    reveal_strlit("/resourceGroups/");
    reveal_strlit("/providers/");
    assert(segment("subscriptions"@).push('/') =~= "/subscriptions/"@);
    assert(segment("resourceGroups"@).push('/') =~= "/resourceGroups/"@);
    assert(segment("providers"@).push('/') =~= "/providers/"@);
    assert(section("subscriptions"@, parts.subscription) =~= labelled_text(
        "/subscriptions/"@,
        parts.subscription,
    ));
    assert(section("resourceGroups"@, parts.resource_group) =~= labelled_text(
        "/resourceGroups/"@,
        parts.resource_group,
    ));
    assert(section("providers"@, parts.provider) =~= labelled_text(
        "/providers/"@,
        parts.provider,
    ));
}

/// One more type for a build: it needs a provider, a `type`, and a name of the type before
/// it. Its own type and name then follow the identifier that was built before.
pub proof fn law_build_one_more_type(
    opts: JsonModel,
    longer: JsonModel,
    list: Seq<JsonModel>,
    entry: JsonModel,
)
    requires
        opts.get("types"@) == Some(JsonModel::Array(list)),
        longer.get("types"@) == Some(JsonModel::Array(list.push(entry))),
        opts.get("subscription"@) == longer.get("subscription"@),
        opts.get("resource_group"@) == longer.get("resource_group"@),
        opts.get("provider"@) == longer.get("provider"@),
    ensures
        ({
            let before = build_answer(opts);
            let after = build_answer(longer);
            let kind = nonempty_text(entry, "type"@);
            let name = nonempty_text(entry, "name"@);
            let no_type = Err::<JsonModel, Seq<char>>("type entry missing `type`"@);
            let no_name = Err::<JsonModel, Seq<char>>("only the last type entry may omit `name`"@);
            let unnamed = list.len() > 0 && nonempty_text(list[list.len() - 1], "name"@) is None;
            if nonempty_text(longer, "provider"@) is None {
                after == Err::<JsonModel, Seq<char>>("provider required when types is non-empty"@)
            } else if before == no_type || kind is None {
                after == no_type
            } else if before == no_name || unnamed {
                after == no_name
            } else {
                &&& before is Ok && after is Ok
                &&& after->Ok_0->Object_0.len() == 1
                &&& after->Ok_0.get("id"@) == Some(
                    JsonModel::Text(
                        before->Ok_0.text_at("id"@)->0 + (seq!['/'] + kind->0) + labelled_text(
                            seq!['/'],
                            name,
                        ),
                    ),
                )
            }
        }),
{
    broadcast use crate::json::lemma_get_with;

    lemma_build_messages();
    let all = list.push(entry);
    let parts = asked_parts(opts);
    let more = asked_parts(longer);
    let kind = nonempty_text(entry, "type"@);
    let name = nonempty_text(entry, "name"@);
    assert(type_entries(longer) == all);
    assert(type_entries(opts) == list);
    assert(more.types =~= parts.types.push(entry_kind(entry)->0));
    assert(more.types.drop_last() =~= parts.types);
    if nonempty_text(longer, "provider"@) is Some {
        assert(all[list.len() as int] == entry);
        if kind is None {
            assert(entry_kind(all[list.len() as int]) is None);
        } else if exists|i: int| 0 <= i < list.len() && entry_kind(#[trigger] list[i]) is None {
            let i = choose|i: int| 0 <= i < list.len() && entry_kind(#[trigger] list[i]) is None;
            assert(entry_kind(all[i]) is None);
        } else {
            assert forall|i: int| 0 <= i < all.len() implies entry_kind(
                #[trigger] all[i],
            ) is Some by {
                if i < list.len() {
                    assert(all[i] == list[i]);
                }
            }
            if nameless_before_last(parts.types) {
                let i = choose|i: int|
                    0 <= i < parts.types.len() - 1 && (#[trigger] parts.types[i]).1 is None;
                assert(more.types[i].1 is None);
            } else if list.len() > 0 && nonempty_text(list[list.len() - 1], "name"@) is None {
                assert(more.types[list.len() - 1].1 is None);
            } else {
                assert forall|i: int| 0 <= i < more.types.len() - 1 implies (
                #[trigger] more.types[i]).1 is Some by {
                    assert(more.types[i] == parts.types[i]);
                }
                let head = section("subscriptions"@, parts.subscription) + section(
                    "resourceGroups"@,
                    parts.resource_group,
                ) + section("providers"@, parts.provider);
                lemma_section_len("providers"@, parts.provider);
                assert(kinds_path(more.types) == kinds_path(parts.types) + kind_path(
                    (kind->0, name),
                ));
                assert(head + kinds_path(more.types) =~= head + kinds_path(parts.types) + (seq!['/']
                    + kind->0) + labelled_text(seq!['/'], name));
            }
        }
    }
}

proof fn lemma_build_messages()
    ensures
        "type entry missing `type`"@ != "only the last type entry may omit `name`"@,
        "type entry missing `type`"@ != "no resource id parts supplied"@,
        "only the last type entry may omit `name`"@ != "no resource id parts supplied"@,
        "type entry missing `type`"@ != "provider required when types is non-empty"@,
        "only the last type entry may omit `name`"@ != "provider required when types is non-empty"@,
{
    reveal_strlit("type entry missing `type`");
    reveal_strlit("only the last type entry may omit `name`");
    reveal_strlit("no resource id parts supplied");
    reveal_strlit("provider required when types is non-empty");
    assert("type entry missing `type`"@[0] == 't');
    assert("only the last type entry may omit `name`"@[0] == 'o');
    assert("no resource id parts supplied"@[0] == 'n');
    assert("provider required when types is non-empty"@[0] == 'p');
}

/// The parts of an identifier, each by its name, and its types in order.
pub proof fn law_identifier_parts(parts: ResourceId, i: int)
    ensures
        parts@.subscription == opt_text(parts.subscription),
        parts@.resource_group == opt_text(parts.resource_group),
        parts@.provider == opt_text(parts.provider),
        parts@.types.len() == parts.types@.len(),
        0 <= i < parts.types@.len() ==> parts@.types[i].0 == parts.types@[i].kind@
            && parts@.types[i].1 == opt_text(parts.types@[i].name),
{
}

/// An identifier that is built of any parts without types: the subscription, the resource
/// group and the provider, each after its label and in that order.
pub proof fn law_built_without_types(parts: ResourceIdModel)
    requires
        parts.types.len() == 0,
    ensures
        ({
            let id = labelled_text("/subscriptions/"@, parts.subscription) + labelled_text(
                "/resourceGroups/"@,
                parts.resource_group,
            ) + labelled_text("/providers/"@, parts.provider);
            let nothing = parts.subscription is None && parts.resource_group is None
                && parts.provider is None;
            &&& nothing ==> built(parts) == Err::<Seq<char>, Seq<char>>(
                "no resource id parts supplied"@,
            )
            &&& !nothing ==> built(parts) == Ok::<Seq<char>, Seq<char>>(id)
        }),
{
    assert(parts.types =~= Seq::empty());
    lemma_sections(parts);
    let id = section("subscriptions"@, parts.subscription) + section(
        "resourceGroups"@,
        parts.resource_group,
    ) + section("providers"@, parts.provider);
    assert(id + kinds_path(parts.types) =~= id);
    lemma_section_len("subscriptions"@, parts.subscription);
    lemma_section_len("resourceGroups"@, parts.resource_group);
    lemma_section_len("providers"@, parts.provider);
}

/// One more type for an identifier that is built of any parts: it needs a provider, and a
/// name of the type before it. Its own type and name then follow, each after a slash.
pub proof fn law_built_with_one_more_type(
    parts: ResourceIdModel,
    kind: Seq<char>,
    name: Option<Seq<char>>,
)
    ensures
        ({
            let types = parts.types;
            let longer = ResourceIdModel { types: types.push((kind, name)), ..parts };
            let no_provider = Err::<Seq<char>, Seq<char>>(
                "provider required when types is non-empty"@,
            );
            let no_name = Err::<Seq<char>, Seq<char>>("only the last type entry may omit `name`"@);
            let unnamed = types.len() > 0 && types[types.len() - 1].1 is None;
            &&& parts.provider is None ==> built(longer) == no_provider
            &&& parts.provider is Some && (unnamed || built(parts) == no_name) ==> built(longer)
                == no_name
            &&& parts.provider is Some && !unnamed && built(parts) != no_name ==> built(parts) is Ok
                && built(longer) == Ok::<Seq<char>, Seq<char>>(
                built(parts)->Ok_0 + (seq!['/'] + kind) + labelled_text(seq!['/'], name),
            )
        }),
{
    let types = parts.types;
    let more = types.push((kind, name));
    let longer = ResourceIdModel { types: more, ..parts };
    lemma_section_len("providers"@, parts.provider);
    assert(more.drop_last() =~= types);
    if nameless_before_last(types) {
        let i = choose|i: int| 0 <= i < types.len() - 1 && (#[trigger] types[i]).1 is None;
        assert(more[i].1 is None);
    }
    if types.len() > 0 && types[types.len() - 1].1 is None {
        assert(more[types.len() - 1].1 is None);
        assert(nameless_before_last(more));
    }
    if nameless_before_last(more) {
        let i = choose|i: int| 0 <= i < more.len() - 1 && (#[trigger] more[i]).1 is None;
        assert(types[i].1 is None);
    }
    let head = section("subscriptions"@, parts.subscription) + section(
        "resourceGroups"@,
        parts.resource_group,
    ) + section("providers"@, parts.provider);
    assert(head + kinds_path(more) =~= head + kinds_path(types) + (seq!['/'] + kind)
        + labelled_text(seq!['/'], name));
    lemma_provider_first();
}

proof fn lemma_provider_first()
    ensures
        "provider required when types is non-empty"@ != "only the last type entry may omit `name`"@,
        "no resource id parts supplied"@ != "only the last type entry may omit `name`"@,
{
    reveal_strlit("provider required when types is non-empty");
    reveal_strlit("only the last type entry may omit `name`");
    reveal_strlit("no resource id parts supplied");
    assert("provider required when types is non-empty"@[0] == 'p');
    assert("only the last type entry may omit `name`"@[0] == 'o');
    assert("no resource id parts supplied"@[0] == 'n');
}

} // verus!
