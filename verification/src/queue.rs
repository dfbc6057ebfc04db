//! Storage Queues: what a request asks for, and how what the service gave is answered.
use vstd::prelude::*;
use vstd::string::*;

use crate::answers::{
    holds_number, holds_text, law_present, lemma_well_formed_texts, number_json, number_of, present,
    present_names, text_array, text_list,
};
use crate::error::Error;
use crate::json::{
    empty_object, items, lemma_get_with, lemma_well_formed_array, lemma_well_formed_with, nullable,
    nullable_int, well_formed, Json, JsonModel,
    NumberModel,
};
use crate::options::{has_text, lacks_text, req_str, required};
use crate::text::opt_text;

verus! {

/// A message to send: the queue and the text.
#[derive(Debug, PartialEq)]
pub struct NewMessage {
    pub queue: String,
    pub body: String,
}

impl View for NewMessage {
    type V = (Seq<char>, Seq<char>);

    open spec fn view(&self) -> (Seq<char>, Seq<char>) {
        (self.queue@, self.body@)
    }
}

/// A message that was received: the queue, its id, and the receipt that it came with.
#[derive(Debug, PartialEq)]
pub struct MessageTarget {
    pub queue: String,
    pub message_id: String,
    pub pop_receipt: String,
}

impl View for MessageTarget {
    type V = (Seq<char>, Seq<char>, Seq<char>);

    open spec fn view(&self) -> (Seq<char>, Seq<char>, Seq<char>) {
        (self.queue@, self.message_id@, self.pop_receipt@)
    }
}

/// How many messages to receive at most, and for how many seconds to hide them.
#[derive(Debug, PartialEq)]
pub struct ReceiveLimits {
    pub max: Option<i32>,
    pub visibility: Option<i32>,
}

/// A limit as a number.
pub open spec fn limit_number(n: Option<i32>) -> Option<int> {
    match n {
        Some(n) => Some(n as int),
        None => None,
    }
}

impl View for ReceiveLimits {
    type V = (Option<int>, Option<int>);

    open spec fn view(&self) -> (Option<int>, Option<int>) {
        (limit_number(self.max), limit_number(self.visibility))
    }
}

/// A message as the service gave it.
#[derive(Debug, PartialEq)]
pub struct Message {
    pub message_id: Option<String>,
    pub pop_receipt: Option<String>,
    pub body: Option<String>,
    pub dequeue_count: Option<i64>,
}

/// The low half of a 64-bit integer, read as a signed number.
pub open spec fn low_half(n: int) -> int {
    let m = n % 0x1_0000_0000;
    if m < 0x8000_0000 {
        m
    } else {
        m - 0x1_0000_0000
    }
}

/// The integer under a key, in 32 bits.
pub open spec fn limit_of(opts: JsonModel, key: Seq<char>) -> Option<int> {
    let found = match opts.get(key) {
        Some(v) => v.int64(),
        None => None,
    };
    match found {
        Some(n) => Some(low_half(n)),
        None => None,
    }
}

/// The limits of a request to receive.
pub open spec fn limits_of(opts: JsonModel) -> (Option<int>, Option<int>) {
    (limit_of(opts, "max"@), limit_of(opts, "visibility"@))
}

/// The message that a request sends: `queue` first, then `body`.
pub open spec fn new_message_of(opts: JsonModel) -> Result<(Seq<char>, Seq<char>), Seq<char>> {
    match required(opts, "queue"@) {
        Err(e) => Err(e),
        Ok(queue) => match required(opts, "body"@) {
            Err(e) => Err(e),
            Ok(body) => Ok((queue, body)),
        },
    }
}

/// The message that a request is about: `queue` first, then `message_id`, then
/// `pop_receipt`.
pub open spec fn message_of(opts: JsonModel) -> Result<
    (Seq<char>, Seq<char>, Seq<char>),
    Seq<char>,
> {
    match required(opts, "queue"@) {
        Err(e) => Err(e),
        Ok(queue) => match required(opts, "message_id"@) {
            Err(e) => Err(e),
            Ok(id) => match required(opts, "pop_receipt"@) {
                Err(e) => Err(e),
                Ok(receipt) => Ok((queue, id, receipt)),
            },
        },
    }
}

/// A message as a JSON object.
pub open spec fn message_json(m: Message) -> JsonModel {
    empty_object().with("message_id"@, nullable(opt_text(m.message_id))).with(
        "pop_receipt"@,
        nullable(opt_text(m.pop_receipt)),
    ).with("body"@, nullable(opt_text(m.body))).with(
        "dequeue_count"@,
        nullable_int(number_of(m.dequeue_count)),
    )
}

/// The keys that stand in one object are distinct.
proof fn lemma_keys()
    ensures
        "queue"@ != "sent"@,
        "queue"@ != "messages"@,
        "queue"@ != "deleted"@,
        "queue"@ != "cleared"@,
        "queue"@ != "created"@,
        "queue"@ != "approximate_message_count"@,
        "message_id"@ != "pop_receipt"@,
        "message_id"@ != "body"@,
        "message_id"@ != "dequeue_count"@,
        "pop_receipt"@ != "body"@,
        "pop_receipt"@ != "dequeue_count"@,
        "body"@ != "dequeue_count"@,
{
    reveal_strlit("queue");
    reveal_strlit("sent");
    reveal_strlit("messages");
    reveal_strlit("deleted");
    reveal_strlit("cleared");
    reveal_strlit("created");
    reveal_strlit("approximate_message_count");
    reveal_strlit("message_id");
    reveal_strlit("pop_receipt");
    reveal_strlit("body");
    reveal_strlit("dequeue_count");
    assert("queue"@.len() == 5);
    assert("sent"@.len() == 4);
    assert("messages"@.len() == 8);
    assert("deleted"@.len() == 7);
    assert("cleared"@.len() == 7);
    assert("created"@.len() == 7);
    assert("approximate_message_count"@.len() == 25);
    assert("message_id"@.len() == 10);
    assert("pop_receipt"@.len() == 11);
    assert("body"@.len() == 4);
    assert("dequeue_count"@.len() == 13);
}

/// The message that a request sends.
pub fn new_message(opts: &Json) -> (r: Result<NewMessage, Error>)
    ensures
        match r {
            Ok(m) => new_message_of(opts@) == Ok::<(Seq<char>, Seq<char>), Seq<char>>(m@),
            Err(e) => new_message_of(opts@) == Err::<(Seq<char>, Seq<char>), Seq<char>>(e@),
        },
        r matches Ok(m) ==> has_text(opts@, "queue"@, m.queue@) && has_text(
            opts@,
            "body"@,
            m.body@,
        ),
{
    let queue = match req_str(opts, "queue") {
        Ok(s) => s,
        Err(e) => {
            return Err(e);
        },
    };
    match req_str(opts, "body") {
        Ok(body) => Ok(NewMessage { queue: queue.to_owned(), body: body.to_owned() }),
        Err(e) => Err(e),
    }
}

/// The message that a request is about.
pub fn message_target(opts: &Json) -> (r: Result<MessageTarget, Error>)
    ensures
        match r {
            Ok(m) => message_of(opts@) == Ok::<(Seq<char>, Seq<char>, Seq<char>), Seq<char>>(m@),
            Err(e) => message_of(opts@) == Err::<(Seq<char>, Seq<char>, Seq<char>), Seq<char>>(e@),
        },
        r matches Ok(m) ==> has_text(opts@, "queue"@, m.queue@) && has_text(
            opts@,
            "message_id"@,
            m.message_id@,
        ) && has_text(opts@, "pop_receipt"@, m.pop_receipt@),
{
    let queue = match req_str(opts, "queue") {
        Ok(s) => s,
        Err(e) => {
            return Err(e);
        },
    };
    let message_id = match req_str(opts, "message_id") {
        Ok(s) => s,
        Err(e) => {
            return Err(e);
        },
    };
    match req_str(opts, "pop_receipt") {
        Ok(receipt) => Ok(
            MessageTarget {
                queue: queue.to_owned(),
                message_id: message_id.to_owned(),
                pop_receipt: receipt.to_owned(),
            },
        ),
        Err(e) => Err(e),
    }
}

/// The low half of a 64-bit integer.
fn low_half_of(n: i64) -> (r: i32)
    ensures
        r == low_half(n as int),
{
    let r: i32 = #[verifier::truncate] (n as i32);
    proof {
        let m: i64 = n % 0x1_0000_0000i64;
        assert(m < 0x8000_0000i64 ==> (n as i32) as i64 == m) by (bit_vector)
            requires
                m == n % 0x1_0000_0000i64,
        ;
        assert(m >= 0x8000_0000i64 ==> (n as i32) as i64 == m - 0x1_0000_0000i64) by (bit_vector)
            requires
                m == n % 0x1_0000_0000i64,
        ;
    }
    r
}

/// The integer under a key, in 32 bits.
fn limit(opts: &Json, key: &str) -> (r: Option<i32>)
    ensures
        match r {
            Some(n) => limit_of(opts@, key@) == Some(n as int),
            None => limit_of(opts@, key@) is None,
        },
{
    let found = match opts.get(key) {
        Some(v) => v.as_i64(),
        None => None,
    };
    match found {
        Some(n) => Some(low_half_of(n)),
        None => None,
    }
}

/// What a request to receive asks for.
pub fn receive_limits(opts: &Json) -> (r: ReceiveLimits)
    ensures
        r@ == limits_of(opts@),
        match r.max {
            Some(n) => limit_of(opts@, "max"@) == Some(n as int),
            None => limit_of(opts@, "max"@) is None,
        },
        match r.visibility {
            Some(n) => limit_of(opts@, "visibility"@) == Some(n as int),
            None => limit_of(opts@, "visibility"@) is None,
        },
{
    ReceiveLimits { max: limit(opts, "max"), visibility: limit(opts, "visibility") }
}

/// The answer of a listing of queues.
pub open spec fn list_json(names: Seq<Option<String>>) -> JsonModel {
    empty_object().with("queues"@, text_array(present(names)))
}

/// The answer of a listing of queues.
pub fn list_answer(names: Vec<Option<String>>) -> (r: Json)
    ensures
        r@ == list_json(names@),
        well_formed(r@),
{
    broadcast use {lemma_get_with, lemma_well_formed_with, lemma_well_formed_texts};

    Json::empty().with("queues", text_list(&present_names(names)))
}

/// The answer of sending a message.
pub open spec fn send_json(queue: Seq<char>, sent: Option<Json>) -> JsonModel {
    empty_object().with("queue"@, JsonModel::Text(queue)).with(
        "sent"@,
        match sent {
            Some(v) => v@,
            None => JsonModel::Null,
        },
    )
}

/// The answer of sending a message: what the service says of it, or null.
pub fn send_answer(queue: &str, sent: Option<Json>) -> (r: Json)
    ensures
        r@ == send_json(queue@, sent),
        (sent matches Some(v) ==> well_formed(v@)) ==> well_formed(r@),
{
    broadcast use {lemma_get_with, lemma_well_formed_with};

    proof {
        lemma_keys();
    }
    let sent = match sent {
        Some(v) => v,
        None => Json::Null,
    };
    Json::empty().with("queue", Json::text(queue)).with("sent", sent)
}

/// The answer of receiving messages.
pub open spec fn receive_json(queue: Seq<char>, messages: Seq<Message>) -> JsonModel {
    empty_object().with("queue"@, JsonModel::Text(queue)).with(
        "messages"@,
        JsonModel::Array(messages.map_values(|m: Message| message_json(m))),
    )
}

/// The answer of receiving messages.
pub fn receive_answer(queue: &str, messages: &Vec<Message>) -> (r: Json)
    ensures
        r@ == receive_json(queue@, messages@),
        well_formed(r@),
{
    broadcast use {lemma_get_with, lemma_well_formed_with};

    let ghost want = messages@.map_values(|m: Message| message_json(m));
    let mut r: Vec<Json> = Vec::new();
    let mut i: usize = 0;
    while i < messages.len()
        invariant
            i <= messages@.len(),
            want == messages@.map_values(|m: Message| message_json(m)),
            items(r@) == want.take(i as int),
        decreases messages.len() - i,
    {
        let ghost before = r@;
        let m = &messages[i];
        r.push(
            Json::empty().with("message_id", Json::nullable(&m.message_id)).with(
                "pop_receipt",
                Json::nullable(&m.pop_receipt),
            ).with("body", Json::nullable(&m.body)).with(
                "dequeue_count",
                number_json(m.dequeue_count),
            ),
        );
        assert(items(r@) =~= items(before).push(want[i as int]));
        assert(items(r@) =~= want.take(i + 1));
        i = i + 1;
    }
    assert(want.take(want.len() as int) =~= want);
    proof {
        lemma_keys();
        assert forall|k: int| 0 <= k < want.len() implies well_formed(#[trigger] want[k]) by {
            assert(want[k] == message_json(messages@[k]));
        }
        lemma_well_formed_array(want);
    }
    Json::empty().with("queue", Json::text(queue)).with("messages", Json::array(r))
}

/// The answer of the deletion of a message or a queue.
pub open spec fn delete_json(queue: Seq<char>) -> JsonModel {
    empty_object().with("queue"@, JsonModel::Text(queue)).with(
        "deleted"@,
        JsonModel::Bool(true),
    )
}

/// The answer of deleting a message, or a queue.
pub fn delete_answer(queue: &str) -> (r: Json)
    ensures
        r@ == delete_json(queue@),
        well_formed(r@),
{
    broadcast use {lemma_get_with, lemma_well_formed_with};

    proof {
        lemma_keys();
    }
    Json::empty().with("queue", Json::text(queue)).with("deleted", Json::Bool(true))
}

/// The answer of clearing a queue.
pub open spec fn clear_json(queue: Seq<char>) -> JsonModel {
    empty_object().with("queue"@, JsonModel::Text(queue)).with(
        "cleared"@,
        JsonModel::Bool(true),
    )
}

/// The answer of clearing a queue.
pub fn clear_answer(queue: &str) -> (r: Json)
    ensures
        r@ == clear_json(queue@),
        well_formed(r@),
{
    broadcast use {lemma_get_with, lemma_well_formed_with};

    proof {
        lemma_keys();
    }
    Json::empty().with("queue", Json::text(queue)).with("cleared", Json::Bool(true))
}

/// The answer of the creation of a queue.
pub open spec fn create_json(queue: Seq<char>) -> JsonModel {
    empty_object().with("queue"@, JsonModel::Text(queue)).with(
        "created"@,
        JsonModel::Bool(true),
    )
}

/// The answer of creating a queue.
pub fn create_answer(queue: &str) -> (r: Json)
    ensures
        r@ == create_json(queue@),
        well_formed(r@),
{
    broadcast use {lemma_get_with, lemma_well_formed_with};

    proof {
        lemma_keys();
    }
    Json::empty().with("queue", Json::text(queue)).with("created", Json::Bool(true))
}

/// The answer with the properties of a queue.
pub open spec fn properties_json(queue: Seq<char>, count: Option<i64>) -> JsonModel {
    empty_object().with("queue"@, JsonModel::Text(queue)).with(
        "approximate_message_count"@,
        nullable_int(number_of(count)),
    )
}

/// The answer with the properties of a queue.
pub fn properties_answer(queue: &str, count: Option<i64>) -> (r: Json)
    ensures
        r@ == properties_json(queue@, count),
        well_formed(r@),
{
    broadcast use {lemma_get_with, lemma_well_formed_with};

    proof {
        lemma_keys();
    }
    Json::empty().with("queue", Json::text(queue)).with(
        "approximate_message_count",
        number_json(count),
    )
}

/// A limit that fits in 32 bits is taken as it is.
pub proof fn law_limits_that_fit_are_kept(n: int)
    requires
        i32::MIN <= n <= i32::MAX,
    ensures
        low_half(n) == n,
{
}

/// A request to send names the queue and the text. The first that is missing is reported.
pub proof fn law_new_message(opts: JsonModel, queue: Seq<char>, body: Seq<char>)
    ensures
        lacks_text(opts, "queue"@) ==>
            new_message_of(opts)
            == Err::<(Seq<char>, Seq<char>), Seq<char>>("missing "@ + "queue"@),
        has_text(opts, "queue"@, queue) && lacks_text(opts, "body"@) ==>
            new_message_of(opts) == Err::<(Seq<char>, Seq<char>), Seq<char>>("missing "@ + "body"@),
        has_text(opts, "queue"@, queue) && has_text(opts, "body"@, body) ==>
            new_message_of(opts) == Ok::<(Seq<char>, Seq<char>), Seq<char>>((queue, body)),
{
}

/// A request about a message names the queue, the message and its receipt. The first that
/// is missing is reported.
pub proof fn law_message_target(
    opts: JsonModel,
    queue: Seq<char>,
    id: Seq<char>,
    receipt: Seq<char>,
)
    ensures
        lacks_text(opts, "queue"@) ==>
            message_of(opts)
            == Err::<(Seq<char>, Seq<char>, Seq<char>), Seq<char>>("missing "@ + "queue"@),
        has_text(opts, "queue"@, queue) && lacks_text(opts, "message_id"@) ==>
            message_of(opts)
            == Err::<(Seq<char>, Seq<char>, Seq<char>), Seq<char>>("missing "@ + "message_id"@),
        has_text(opts, "queue"@, queue) && has_text(opts, "message_id"@, id)
            && lacks_text(opts, "pop_receipt"@) ==>
            message_of(opts)
            == Err::<(Seq<char>, Seq<char>, Seq<char>), Seq<char>>("missing "@ + "pop_receipt"@),
        has_text(opts, "queue"@, queue) && has_text(opts, "message_id"@, id)
            && has_text(opts, "pop_receipt"@, receipt) ==>
            message_of(opts)
            == Ok::<(Seq<char>, Seq<char>, Seq<char>), Seq<char>>((queue, id, receipt)),
{
}

/// A limit is the integer under its key, as far as it fits in 64 bits with a sign; of that
/// the 32 lower bits are taken, as a number with a sign. Another value is no limit.
pub proof fn law_limit(opts: JsonModel, key: Seq<char>, n: int)
    ensures
        opts.get(key) == Some(JsonModel::Number(NumberModel::Integer(n))) && i64::MIN <= n
            <= i64::MAX ==> {
            let limit = limit_of(opts, key);
            &&& limit is Some
            &&& i32::MIN <= limit->0 <= i32::MAX
            &&& (n - limit->0) % 0x1_0000_0000 == 0
        },
        opts.get(key) == Some(JsonModel::Number(NumberModel::Integer(n))) && !(i64::MIN <= n
            <= i64::MAX) ==> limit_of(opts, key) is None,
        !(opts.get(key) matches Some(JsonModel::Number(NumberModel::Integer(_)))) ==> limit_of(
            opts,
            key,
        ) is None,
{
}

/// The number of messages is limited by `max` and the time by `visibility`.
pub proof fn law_limits(opts: JsonModel)
    ensures
        limits_of(opts).0 == limit_of(opts, "max"@),
        limits_of(opts).1 == limit_of(opts, "visibility"@),
{
}

/// A listing of queues has the name of each that has one, in order.
pub proof fn law_listed_queues(names: Seq<Option<String>>, name: String)
    ensures
        list_json(names) is Object,
        list_json(names)->Object_0.len() == 1,
        list_json(names).get("queues"@) is Some && list_json(names).get("queues"@)->0 is Array,
        list_json(Seq::empty()).get("queues"@)->0->Array_0.len() == 0,
        list_json(names.push(Some(name))).get("queues"@)->0->Array_0
            == list_json(names).get("queues"@)->0->Array_0.push(JsonModel::Text(name@)),
        list_json(names.push(None)).get("queues"@)->0->Array_0
            == list_json(names).get("queues"@)->0->Array_0,
{
    broadcast use lemma_get_with;

    law_present(names, name);
    let texts = |s: Seq<char>| JsonModel::Text(s);
    assert(present(names).push(name@).map_values(texts)
        =~= present(names).map_values(texts).push(JsonModel::Text(name@)));
}

/// A message that was sent is answered as the service gave it, and with null where it gave none.
pub proof fn law_sent(queue: Seq<char>, sent: Option<Json>)
    ensures
        send_json(queue, sent) is Object,
        send_json(queue, sent)->Object_0.len() == 2,
        send_json(queue, sent).get("queue"@) == Some(JsonModel::Text(queue)),
        sent is None ==> send_json(queue, sent).get("sent"@) == Some(JsonModel::Null),
        sent is Some ==> send_json(queue, sent).get("sent"@) == Some(sent->0@),
{
    broadcast use lemma_get_with;

    lemma_keys();
}

/// Each message that was received is answered, in order, with each of its parts under its own key.
pub proof fn law_received(queue: Seq<char>, messages: Seq<Message>, i: int)
    ensures
        receive_json(queue, messages) is Object,
        receive_json(queue, messages)->Object_0.len() == 2,
        receive_json(queue, messages).get("queue"@) == Some(JsonModel::Text(queue)),
        receive_json(queue, messages).get("messages"@) is Some
            && receive_json(queue, messages).get("messages"@)->0 is Array
            && receive_json(queue, messages).get("messages"@)->0->Array_0.len() == messages.len(),
        0 <= i < messages.len() ==> {
            let shown = receive_json(queue, messages).get("messages"@)->0->Array_0[i];
            &&& shown is Object
            &&& shown->Object_0.len() == 4
            &&& holds_text(shown.get("message_id"@), messages[i].message_id)
            &&& holds_text(shown.get("pop_receipt"@), messages[i].pop_receipt)
            &&& holds_text(shown.get("body"@), messages[i].body)
            &&& holds_number(shown.get("dequeue_count"@), messages[i].dequeue_count)
        },
{
    broadcast use lemma_get_with;

    lemma_keys();
}

/// A deletion is answered with the queue.
pub proof fn law_deleted(queue: Seq<char>)
    ensures
        delete_json(queue) is Object,
        delete_json(queue)->Object_0.len() == 2,
        delete_json(queue).get("queue"@) == Some(JsonModel::Text(queue)),
        delete_json(queue).get("deleted"@) == Some(JsonModel::Bool(true)),
{
    broadcast use lemma_get_with;

    lemma_keys();
}

/// A queue that was cleared is answered with its name.
pub proof fn law_cleared(queue: Seq<char>)
    ensures
        clear_json(queue) is Object,
        clear_json(queue)->Object_0.len() == 2,
        clear_json(queue).get("queue"@) == Some(JsonModel::Text(queue)),
        clear_json(queue).get("cleared"@) == Some(JsonModel::Bool(true)),
{
    broadcast use lemma_get_with;

    lemma_keys();
}

/// The creation of a queue is answered with its name.
pub proof fn law_created(queue: Seq<char>)
    ensures
        create_json(queue) is Object,
        create_json(queue)->Object_0.len() == 2,
        create_json(queue).get("queue"@) == Some(JsonModel::Text(queue)),
        create_json(queue).get("created"@) == Some(JsonModel::Bool(true)),
{
    broadcast use lemma_get_with;

    lemma_keys();
}

/// A queue is answered with the number of its messages.
pub proof fn law_queue_properties(queue: Seq<char>, count: Option<i64>)
    ensures
        properties_json(queue, count) is Object,
        properties_json(queue, count)->Object_0.len() == 2,
        properties_json(queue, count).get("queue"@) == Some(JsonModel::Text(queue)),
        holds_number(properties_json(queue, count).get("approximate_message_count"@), count),
{
    broadcast use lemma_get_with;

    lemma_keys();
}

/// The parts of what a request asks for, each by its name.
pub proof fn law_request_parts(
    new: NewMessage,
    target: MessageTarget,
    limits: ReceiveLimits,
    max: i32,
    visibility: i32,
)
    ensures
        new@.0 == new.queue@ && new@.1 == new.body@,
        target@.0 == target.queue@ && target@.1 == target.message_id@ && target@.2
            == target.pop_receipt@,
        limits@.0 == Some(max as int) <==> limits.max == Some(max),
        limits@.0 is None <==> limits.max is None,
        limits@.1 == Some(visibility as int) <==> limits.visibility == Some(visibility),
        limits@.1 is None <==> limits.visibility is None,
{
}

} // verus!
