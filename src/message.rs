use vstd::prelude::*;
use crate::json::{Json, is_str, member, find_member, lemma_member_at, lemma_member_absent};

verus! {

/// What a message asks for or answers, told apart on the wire by its `type`.
#[derive(Debug, Clone, PartialEq, Eq)]
pub enum Payload {
    Echo { echo: String },
    EchoOk { echo: String },
    Init { node_id: String, node_ids: Vec<String> },
    InitOk,
}

/// The correlation ids of a message and its payload.
#[derive(Debug, Clone, PartialEq, Eq)]
pub struct Body {
    /// Wire name `msg_id`.
    pub id: Option<u64>,
    pub in_reply_to: Option<u64>,
    pub payload: Payload,
}

/// The envelope: sender, recipient and body.
#[derive(Debug, Clone, PartialEq, Eq)]
pub struct Message {
    pub src: String,
    /// Wire name `dest`.
    pub dst: String,
    pub body: Body,
}

/// A line of input that is not the wire form of a message.
#[derive(Debug, PartialEq, Eq, Structural)]
pub struct MalformedInput;

pub ghost enum PayloadModel {
    Echo { echo: Seq<char> },
    EchoOk { echo: Seq<char> },
    Init { node_id: Seq<char>, node_ids: Seq<Seq<char>> },
    InitOk,
}

pub ghost struct BodyModel {
    pub id: Option<u64>,
    pub in_reply_to: Option<u64>,
    pub payload: PayloadModel,
}

pub ghost struct MessageModel {
    pub src: Seq<char>,
    pub dst: Seq<char>,
    pub body: BodyModel,
}

/// A list of strings, each by its characters.
pub open spec fn strings_view(v: Seq<String>) -> Seq<Seq<char>> {
    Seq::new(v.len(), |i: int| v[i]@)
}

impl View for Payload {
    type V = PayloadModel;

    open spec fn view(&self) -> PayloadModel {
        match self {
            Payload::Echo { echo } => PayloadModel::Echo { echo: echo@ },
            Payload::EchoOk { echo } => PayloadModel::EchoOk { echo: echo@ },
            Payload::Init { node_id, node_ids } => PayloadModel::Init {
                node_id: node_id@,
                node_ids: strings_view(node_ids@),
            },
            Payload::InitOk => PayloadModel::InitOk,
        }
    }
}

impl View for Body {
    type V = BodyModel;

    open spec fn view(&self) -> BodyModel {
        BodyModel { id: self.id, in_reply_to: self.in_reply_to, payload: self.payload@ }
    }
}

impl View for Message {
    type V = MessageModel;

    open spec fn view(&self) -> MessageModel {
        MessageModel { src: self.src@, dst: self.dst@, body: self.body@ }
    }
}

// ---- the wire form ----

/// The value of the `type` member for a payload.
pub open spec fn type_tag(p: PayloadModel) -> Seq<char> {
    match p {
        PayloadModel::Echo { .. } => "echo"@,
        PayloadModel::EchoOk { .. } => "echo_ok"@,
        PayloadModel::Init { .. } => "init"@,
        PayloadModel::InitOk => "init_ok"@,
    }
}

/// `j` is the JSON array of the strings `ss`, in order.
pub open spec fn is_str_array(j: Json, ss: Seq<Seq<char>>) -> bool {
    &&& j matches Json::Array(items)
    &&& items@.len() == ss.len()
    &&& forall|i: int| 0 <= i < ss.len() ==> is_str(#[trigger] items@[i], ss[i])
}

/// A one-key sequence when the id is present, else empty.
pub open spec fn optional_key(key: Seq<char>, id: Option<u64>) -> Seq<Seq<char>> {
    if id is Some {
        seq![key]
    } else {
        seq![]
    }
}

/// The keys of a payload's own fields.
pub open spec fn payload_keys(p: PayloadModel) -> Seq<Seq<char>> {
    match p {
        PayloadModel::Echo { .. } | PayloadModel::EchoOk { .. } => seq!["echo"@],
        PayloadModel::Init { .. } => seq!["node_id"@, "node_ids"@],
        PayloadModel::InitOk => seq![],
    }
}

/// The keys of the wire form of a body, in the order they are written:
/// the tag, the ids that are present, then the payload's fields.
pub open spec fn body_keys(b: BodyModel) -> Seq<Seq<char>> {
    seq!["type"@] + optional_key("msg_id"@, b.id) + optional_key("in_reply_to"@, b.in_reply_to)
        + payload_keys(b.payload)
}

/// `v` is what the wire form of `b` holds under `key`.
pub open spec fn body_value(b: BodyModel, key: Seq<char>, v: Json) -> bool {
    if key == "type"@ {
        is_str(v, type_tag(b.payload))
    } else if key == "msg_id"@ {
        b.id matches Some(n) && v == Json::UInt(n)
    } else if key == "in_reply_to"@ {
        b.in_reply_to matches Some(n) && v == Json::UInt(n)
    } else if key == "echo"@ {
        match b.payload {
            PayloadModel::Echo { echo } => is_str(v, echo),
            PayloadModel::EchoOk { echo } => is_str(v, echo),
            _ => false,
        }
    } else if key == "node_id"@ {
        b.payload matches PayloadModel::Init { node_id, .. } && is_str(v, node_id)
    } else if key == "node_ids"@ {
        b.payload matches PayloadModel::Init { node_ids, .. } && is_str_array(v, node_ids)
    } else {
        false
    }
}

/// `j` is the wire form of the body `b`: one flat object holding the tag, the
/// ids that are present (absent ones are left out, never null) and the
/// payload's fields.
pub open spec fn encodes_body(j: Json, b: BodyModel) -> bool {
    &&& j matches Json::Object(fields)
    &&& fields@.len() == body_keys(b).len()
    &&& forall|i: int|
        0 <= i < fields@.len() ==> (#[trigger] fields@[i]).0@ == body_keys(b)[i] && body_value(
            b,
            body_keys(b)[i],
            fields@[i].1,
        )
}

/// `j` is the wire form of the message `m`.
pub open spec fn encodes(j: Json, m: MessageModel) -> bool {
    &&& j matches Json::Object(fields)
    &&& fields@.len() == 3
    &&& fields@[0].0@ == "src"@ && is_str(fields@[0].1, m.src)
    &&& fields@[1].0@ == "dest"@ && is_str(fields@[1].1, m.dst)
    &&& fields@[2].0@ == "body"@ && encodes_body(fields@[2].1, m.body)
}

// ---- reading the wire form ----

/// The string held by a member, if it is one.
pub open spec fn str_of(j: Option<Json>) -> Option<Seq<char>> {
    match j {
        Some(Json::Str(s)) => Some(s@),
        _ => None,
    }
}

/// An optional id: absent or null gives `Some(None)`, a 64-bit unsigned
/// integer gives `Some(Some(n))`, anything else is malformed (`None`).
pub open spec fn id_of(j: Option<Json>) -> Option<Option<u64>> {
    match j {
        None => Some(None),
        Some(Json::Null) => Some(None),
        Some(Json::UInt(n)) => Some(Some(n)),
        _ => None,
    }
}

/// The strings of a member that is an array of strings.
pub open spec fn str_array_of(j: Option<Json>) -> Option<Seq<Seq<char>>> {
    match j {
        Some(Json::Array(items)) => if forall|i: int| 0 <= i < items@.len() ==> #[trigger] items@[i] is Str {
            Some(Seq::new(items@.len(), |i: int| items@[i]->Str_0@))
        } else {
            None
        },
        _ => None,
    }
}

/// The payload of a body's members, chosen by the `type` member.
pub open spec fn payload_of(fields: Seq<(String, Json)>) -> Option<PayloadModel> {
    match str_of(member(fields, "type"@)) {
        Some(t) => if t == "echo"@ {
            match str_of(member(fields, "echo"@)) {
                Some(e) => Some(PayloadModel::Echo { echo: e }),
                None => None,
            }
        } else if t == "echo_ok"@ {
            match str_of(member(fields, "echo"@)) {
                Some(e) => Some(PayloadModel::EchoOk { echo: e }),
                None => None,
            }
        } else if t == "init"@ {
            match (str_of(member(fields, "node_id"@)), str_array_of(member(fields, "node_ids"@))) {
                (Some(id), Some(ids)) => Some(PayloadModel::Init { node_id: id, node_ids: ids }),
                _ => None,
            }
        } else if t == "init_ok"@ {
            Some(PayloadModel::InitOk)
        } else {
            None
        },
        None => None,
    }
}

/// The body that a member holds, if it is well formed.
pub open spec fn body_of(j: Option<Json>) -> Option<BodyModel> {
    match j {
        Some(Json::Object(fields)) => match (
            id_of(member(fields@, "msg_id"@)),
            id_of(member(fields@, "in_reply_to"@)),
            payload_of(fields@),
        ) {
            (Some(id), Some(irt), Some(p)) => Some(BodyModel { id, in_reply_to: irt, payload: p }),
            _ => None,
        },
        _ => None,
    }
}

/// The message that a JSON value stands for; `None` when it is malformed.
/// Members that the message does not use are ignored.
pub open spec fn decode_message(j: Json) -> Option<MessageModel> {
    match j {
        Json::Object(fields) => match (
            str_of(member(fields@, "src"@)),
            str_of(member(fields@, "dest"@)),
            body_of(member(fields@, "body"@)),
        ) {
            (Some(s), Some(d), Some(b)) => Some(MessageModel { src: s, dst: d, body: b }),
            _ => None,
        },
        _ => None,
    }
}

// ---- the round trip ----

/// In an object whose keys are `ks`, all distinct, a key's member is the value
/// at the key's position, and a key not among them has none.
proof fn lemma_member_of_keys(fields: Seq<(String, Json)>, ks: Seq<Seq<char>>, key: Seq<char>)
    requires
        fields.len() == ks.len(),
        forall|i: int| 0 <= i < fields.len() ==> (#[trigger] fields[i]).0@ == ks[i],
        forall|i: int, k: int| 0 <= i < k < ks.len() ==> ks[i] != ks[k],
    ensures
        forall|i: int| 0 <= i < ks.len() && ks[i] == key ==> member(fields, key) == Some(fields[i].1),
        (forall|i: int| 0 <= i < ks.len() ==> ks[i] != key) ==> member(fields, key) is None,
{
    assert forall|i: int| 0 <= i < ks.len() && ks[i] == key implies member(fields, key) == Some(
        fields[i].1,
    ) by {
        assert forall|k: int| 0 <= k < i implies fields[k].0@ != key by {
            assert(fields[k].0@ == ks[k]);
        }
        lemma_member_at(fields, key, i);
    }
    if forall|i: int| 0 <= i < ks.len() ==> ks[i] != key {
        assert forall|k: int| 0 <= k < fields.len() implies fields[k].0@ != key by {
            assert(fields[k].0@ == ks[k]);
        }
        lemma_member_absent(fields, key);
    }
}

/// The lengths and first characters of the wire names, which tell them apart.
proof fn reveal_wire_names()
    ensures
        "src"@.len() == 3,
        "src"@[0] == 's',
        "dest"@.len() == 4,
        "dest"@[0] == 'd',
        "body"@.len() == 4,
        "body"@[0] == 'b',
        "type"@.len() == 4,
        "type"@[0] == 't',
        "msg_id"@.len() == 6,
        "msg_id"@[0] == 'm',
        "in_reply_to"@.len() == 11,
        "in_reply_to"@[0] == 'i',
        "echo"@.len() == 4,
        "echo"@[0] == 'e',
        "node_id"@.len() == 7,
        "node_id"@[0] == 'n',
        "node_ids"@.len() == 8,
        "node_ids"@[0] == 'n',
        "echo_ok"@.len() == 7,
        "echo_ok"@[0] == 'e',
        "init"@.len() == 4,
        "init"@[0] == 'i',
        "init_ok"@.len() == 7,
        "init_ok"@[0] == 'i',
{
    reveal_strlit("src");
    reveal_strlit("dest");
    reveal_strlit("body");
    reveal_strlit("type");
    reveal_strlit("msg_id");
    reveal_strlit("in_reply_to");
    reveal_strlit("echo");
    reveal_strlit("node_id");
    reveal_strlit("node_ids");
    reveal_strlit("echo_ok");
    reveal_strlit("init");
    reveal_strlit("init_ok");
}

/// No key is written twice in a body.
proof fn lemma_body_keys_distinct(b: BodyModel)
    ensures
        forall|i: int, k: int|
            0 <= i < k < body_keys(b).len() ==> body_keys(b)[i] != body_keys(b)[k],
{
    reveal_wire_names();
    let ks = body_keys(b);
    assert forall|i: int, k: int| 0 <= i < k < ks.len() implies ks[i] != ks[k] by {
    }
}

/// Reading the wire form of a body gives the body back.
proof fn lemma_body_round_trip(j: Json, b: BodyModel)
    requires
        encodes_body(j, b),
    ensures
        body_of(Some(j)) == Some(b),
{
    reveal_wire_names();
    let fields = j->Object_0@;
    let ks = body_keys(b);
    lemma_body_keys_distinct(b);
    lemma_member_of_keys(fields, ks, "type"@);
    lemma_member_of_keys(fields, ks, "msg_id"@);
    lemma_member_of_keys(fields, ks, "in_reply_to"@);
    lemma_member_of_keys(fields, ks, "echo"@);
    lemma_member_of_keys(fields, ks, "node_id"@);
    lemma_member_of_keys(fields, ks, "node_ids"@);
    assert(ks[0] == "type"@);
    assert(body_value(b, ks[0], fields[0].1));
    assert(member(fields, "type"@) == Some(fields[0].1));
    let ids = optional_key("msg_id"@, b.id) + optional_key("in_reply_to"@, b.in_reply_to);
    let pk = payload_keys(b.payload);
    assert(ks =~= seq!["type"@] + ids + pk);
    // where each key stands
    let n: int = 1 + ids.len() as int;
    if b.id is Some {
        assert(ks[1] == "msg_id"@);
        assert(body_value(b, ks[1], fields[1].1));
    } else {
        assert forall|i: int| 0 <= i < ks.len() implies ks[i] != "msg_id"@ by {
            if 1 <= i < n {
                assert(ks[i] == "in_reply_to"@);
            }
        }
    }
    if b.in_reply_to is Some {
        assert(ks[n - 1] == "in_reply_to"@);
        assert(body_value(b, ks[n - 1], fields[n - 1].1));
    } else {
        assert forall|i: int| 0 <= i < ks.len() implies ks[i] != "in_reply_to"@ by {
            if 1 <= i < n {
                assert(ks[i] == "msg_id"@);
            }
        }
    }
    assert(id_of(member(fields, "msg_id"@)) == Some(b.id));
    assert(id_of(member(fields, "in_reply_to"@)) == Some(b.in_reply_to));
    match b.payload {
        PayloadModel::Echo { echo } => {
            assert(ks[n] == "echo"@);
            assert(body_value(b, ks[n], fields[n].1));
        },
        PayloadModel::EchoOk { echo } => {
            assert(ks[n] == "echo"@);
            assert(body_value(b, ks[n], fields[n].1));
        },
        PayloadModel::Init { node_id, node_ids } => {
            assert(ks[n] == "node_id"@);
            assert(ks[n + 1] == "node_ids"@);
            assert(body_value(b, ks[n], fields[n].1));
            assert(body_value(b, ks[n + 1], fields[n + 1].1));
            let items = fields[n + 1].1->Array_0@;
            assert(Seq::new(items.len(), |i: int| items[i]->Str_0@) =~= node_ids);
        },
        PayloadModel::InitOk => {},
    }
    assert(payload_of(fields) == Some(b.payload));
}

/// Reading the wire form of a message gives the message back, field for
/// field, absent ids included.
pub proof fn lemma_round_trip(j: Json, m: MessageModel)
    requires
        encodes(j, m),
    ensures
        decode_message(j) == Some(m),
{
    reveal_wire_names();
    let fields = j->Object_0@;
    lemma_member_at(fields, "src"@, 0);
    lemma_member_at(fields, "dest"@, 1);
    lemma_member_at(fields, "body"@, 2);
    lemma_body_round_trip(fields[2].1, m.body);
}

// ---- encoding ----

/// The wire tag of a payload.
fn wire_tag(p: &Payload) -> (r: String)
    ensures
        r@ == type_tag(p@),
{
    match p {
        Payload::Echo { .. } => "echo".to_owned(),
        Payload::EchoOk { .. } => "echo_ok".to_owned(),
        Payload::Init { .. } => "init".to_owned(),
        Payload::InitOk => "init_ok".to_owned(),
    }
}

/// The JSON array of the strings `v`, in order.
fn string_array(v: &Vec<String>) -> (r: Json)
    ensures
        is_str_array(r, strings_view(v@)),
{
    let mut items: Vec<Json> = Vec::new();
    let mut i: usize = 0;
    while i < v.len()
        invariant
            i <= v@.len(),
            items@.len() == i,
            forall|k: int| 0 <= k < i ==> is_str(#[trigger] items@[k], v@[k]@),
        decreases v@.len() - i,
    {
        items.push(Json::Str(v[i].clone()));
        i = i + 1;
    }
    Json::Array(items)
}

/// The wire form of a body.
pub fn encode_body(b: &Body) -> (r: Json)
    ensures
        encodes_body(r, b@),
{
    proof {
        reveal_wire_names();
    }
    let ghost bm = b@;
    let ghost ks = body_keys(bm);
    let mut fields: Vec<(String, Json)> = Vec::new();
    fields.push(("type".to_owned(), Json::Str(wire_tag(&b.payload))));
    if let Some(n) = b.id {
        fields.push(("msg_id".to_owned(), Json::UInt(n)));
    }
    if let Some(n) = b.in_reply_to {
        fields.push(("in_reply_to".to_owned(), Json::UInt(n)));
    }
    let ghost head = fields@;
    assert(ks.subrange(0, head.len() as int) =~= seq!["type"@] + optional_key("msg_id"@, bm.id)
        + optional_key("in_reply_to"@, bm.in_reply_to));
    match &b.payload {
        Payload::Echo { echo } => {
            fields.push(("echo".to_owned(), Json::Str(echo.clone())));
        },
        Payload::EchoOk { echo } => {
            fields.push(("echo".to_owned(), Json::Str(echo.clone())));
        },
        Payload::Init { node_id, node_ids } => {
            fields.push(("node_id".to_owned(), Json::Str(node_id.clone())));
            fields.push(("node_ids".to_owned(), string_array(node_ids)));
        },
        Payload::InitOk => {},
    }
    assert(fields@.len() == ks.len());
    assert forall|i: int| 0 <= i < fields@.len() implies (#[trigger] fields@[i]).0@ == ks[i]
        && body_value(bm, ks[i], fields@[i].1) by {
        if i < head.len() {
            assert(ks[i] == ks.subrange(0, head.len() as int)[i]);
        }
    }
    Json::Object(fields)
}

/// The wire form of a message: `src`, `dest` and the flat `body` object.
pub fn encode(m: &Message) -> (r: Json)
    ensures
        encodes(r, m@),
{
    proof {
        reveal_wire_names();
    }
    let mut fields: Vec<(String, Json)> = Vec::new();
    fields.push(("src".to_owned(), Json::Str(m.src.clone())));
    fields.push(("dest".to_owned(), Json::Str(m.dst.clone())));
    fields.push(("body".to_owned(), encode_body(&m.body)));
    Json::Object(fields)
}

// ---- decoding ----

/// The string member `key` of `fields`, if there is one.
fn str_member(fields: &Vec<(String, Json)>, key: &str) -> (r: Option<String>)
    ensures
        match r {
            Some(s) => str_of(member(fields@, key@)) == Some(s@),
            None => str_of(member(fields@, key@)) is None,
        },
{
    let k = key.to_owned();
    match find_member(fields, &k) {
        Some(i) => match &fields[i].1 {
            Json::Str(s) => Some(s.clone()),
            _ => None,
        },
        None => None,
    }
}

/// The optional id member `key` of `fields`; `None` when it is malformed.
fn id_member(fields: &Vec<(String, Json)>, key: &str) -> (r: Option<Option<u64>>)
    ensures
        r == id_of(member(fields@, key@)),
{
    let k = key.to_owned();
    match find_member(fields, &k) {
        Some(i) => match &fields[i].1 {
            Json::Null => Some(None),
            Json::UInt(n) => Some(Some(*n)),
            _ => None,
        },
        None => Some(None),
    }
}

/// The member `key` of `fields` as a list of strings, if it is an array of strings.
fn str_array_member(fields: &Vec<(String, Json)>, key: &str) -> (r: Option<Vec<String>>)
    ensures
        match r {
            Some(v) => str_array_of(member(fields@, key@)) == Some(strings_view(v@)),
            None => str_array_of(member(fields@, key@)) is None,
        },
{
    let k = key.to_owned();
    let i = match find_member(fields, &k) {
        Some(i) => i,
        None => return None,
    };
    let items = match &fields[i].1 {
        Json::Array(items) => items,
        _ => return None,
    };
    assert(member(fields@, key@) == Some(Json::Array(*items)));
    let mut out: Vec<String> = Vec::new();
    let mut n: usize = 0;
    while n < items.len()
        invariant
            member(fields@, key@) == Some(Json::Array(*items)),
            n <= items@.len(),
            out@.len() == n,
            forall|k: int| 0 <= k < n ==> #[trigger] items@[k] is Str && out@[k]@ == items@[k]->Str_0@,
        decreases items@.len() - n,
    {
        match &items[n] {
            Json::Str(s) => out.push(s.clone()),
            _ => {
                assert(!(items@[n as int] is Str));
                return None;
            },
        }
        n = n + 1;
    }
    assert(strings_view(out@) =~= Seq::new(items@.len(), |k: int| items@[k]->Str_0@));
    Some(out)
}

/// The payload that the members of a body hold, chosen by their `type`.
fn decode_payload(fields: &Vec<(String, Json)>) -> (r: Option<Payload>)
    ensures
        match r {
            Some(p) => payload_of(fields@) == Some(p@),
            None => payload_of(fields@) is None,
        },
{
    let t = match str_member(fields, "type") {
        Some(t) => t,
        None => return None,
    };
    if t == "echo".to_owned() {
        match str_member(fields, "echo") {
            Some(echo) => Some(Payload::Echo { echo }),
            None => None,
        }
    } else if t == "echo_ok".to_owned() {
        match str_member(fields, "echo") {
            Some(echo) => Some(Payload::EchoOk { echo }),
            None => None,
        }
    } else if t == "init".to_owned() {
        match (str_member(fields, "node_id"), str_array_member(fields, "node_ids")) {
            (Some(node_id), Some(node_ids)) => Some(Payload::Init { node_id, node_ids }),
            _ => None,
        }
    } else if t == "init_ok".to_owned() {
        Some(Payload::InitOk)
    } else {
        None
    }
}

/// The body that `j` stands for, if it is well formed.
pub fn decode_body(j: &Json) -> (r: Option<Body>)
    ensures
        match r {
            Some(b) => body_of(Some(*j)) == Some(b@),
            None => body_of(Some(*j)) is None,
        },
{
    let fields = match j {
        Json::Object(fields) => fields,
        _ => return None,
    };
    let id = match id_member(fields, "msg_id") {
        Some(id) => id,
        None => return None,
    };
    let in_reply_to = match id_member(fields, "in_reply_to") {
        Some(id) => id,
        None => return None,
    };
    match decode_payload(fields) {
        Some(payload) => Some(Body { id, in_reply_to, payload }),
        None => None,
    }
}

/// The message that `j` stands for. Fails exactly when `j` is not the wire
/// form of a message: not an object, a missing or ill-typed `src`, `dest` or
/// `body`, an unknown `type`, or a payload field missing or of the wrong type.
pub fn decode(j: &Json) -> (r: Result<Message, MalformedInput>)
    ensures
        match r {
            Ok(m) => decode_message(*j) == Some(m@),
            Err(_) => decode_message(*j) is None,
        },
{
    let fields = match j {
        Json::Object(fields) => fields,
        _ => return Err(MalformedInput),
    };
    let src = match str_member(fields, "src") {
        Some(s) => s,
        None => return Err(MalformedInput),
    };
    let dst = match str_member(fields, "dest") {
        Some(s) => s,
        None => return Err(MalformedInput),
    };
    let k = "body".to_owned();
    let body = match find_member(fields, &k) {
        Some(i) => decode_body(&fields[i].1),
        None => None,
    };
    match body {
        Some(body) => Ok(Message { src, dst, body }),
        None => Err(MalformedInput),
    }
}

} // verus!
