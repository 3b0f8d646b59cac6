use echo_node::json::{find_member, Json};
use echo_node::message::{decode, encode, Body, MalformedInput, Message, Payload};

fn s(t: &str) -> Json {
    Json::Str(t.to_string())
}

fn obj(members: Vec<(&str, Json)>) -> Json {
    Json::Object(members.into_iter().map(|(k, v)| (k.to_string(), v)).collect())
}

fn envelope(body: Json) -> Json {
    obj(vec![("src", s("c1")), ("dest", s("n1")), ("body", body)])
}

#[test]
fn encode_writes_members_in_order() {
    let m = Message {
        src: "n1".to_string(),
        dst: "c1".to_string(),
        body: Body {
            id: Some(4),
            in_reply_to: Some(3),
            payload: Payload::Init { node_id: "n1".to_string(), node_ids: vec!["n1".to_string()] },
        },
    };
    let expected = obj(vec![
        ("src", s("n1")),
        ("dest", s("c1")),
        (
            "body",
            obj(vec![
                ("type", s("init")),
                ("msg_id", Json::UInt(4)),
                ("in_reply_to", Json::UInt(3)),
                ("node_id", s("n1")),
                ("node_ids", Json::Array(vec![s("n1")])),
            ]),
        ),
    ]);
    assert_eq!(encode(&m), expected);
}

#[test]
fn encode_omits_absent_ids() {
    let m = Message {
        src: "a".to_string(),
        dst: "b".to_string(),
        body: Body { id: None, in_reply_to: None, payload: Payload::InitOk },
    };
    let expected = obj(vec![("src", s("a")), ("dest", s("b")), ("body", obj(vec![("type", s("init_ok"))]))]);
    assert_eq!(encode(&m), expected);
}

#[test]
fn decode_reads_echo() {
    let j = envelope(obj(vec![("type", s("echo")), ("msg_id", Json::UInt(9)), ("echo", s("hi"))]));
    let m = decode(&j).unwrap();
    assert_eq!(m.src, "c1");
    assert_eq!(m.dst, "n1");
    assert_eq!(m.body.id, Some(9));
    assert_eq!(m.body.in_reply_to, None);
    assert_eq!(m.body.payload, Payload::Echo { echo: "hi".to_string() });
}

#[test]
fn decode_takes_null_id_as_absent() {
    let j = envelope(obj(vec![("type", s("init_ok")), ("msg_id", Json::Null), ("in_reply_to", Json::UInt(1))]));
    let m = decode(&j).unwrap();
    assert_eq!(m.body.id, None);
    assert_eq!(m.body.in_reply_to, Some(1));
    assert_eq!(m.body.payload, Payload::InitOk);
}

#[test]
fn decode_ignores_unknown_members() {
    let j = obj(vec![
        ("id", Json::UInt(1)),
        ("src", s("c1")),
        ("dest", s("n1")),
        ("body", obj(vec![("extra", Json::Bool(true)), ("type", s("echo_ok")), ("echo", s("x"))])),
    ]);
    let m = decode(&j).unwrap();
    assert_eq!(m.body.payload, Payload::EchoOk { echo: "x".to_string() });
}

#[test]
fn decode_refuses_unknown_type() {
    let j = envelope(obj(vec![("type", s("broadcast")), ("message", Json::UInt(1))]));
    assert_eq!(decode(&j), Err(MalformedInput));
}

#[test]
fn decode_refuses_missing_payload_field() {
    let j = envelope(obj(vec![("type", s("echo")), ("msg_id", Json::UInt(1))]));
    assert_eq!(decode(&j), Err(MalformedInput));
    let j = envelope(obj(vec![("type", s("init")), ("node_id", s("n1"))]));
    assert_eq!(decode(&j), Err(MalformedInput));
}

#[test]
fn decode_refuses_wrong_field_types() {
    let bodies = vec![
        obj(vec![("type", s("echo")), ("msg_id", s("1")), ("echo", s("x"))]),
        obj(vec![("type", s("echo")), ("msg_id", Json::OtherNumber("-1".to_string())), ("echo", s("x"))]),
        obj(vec![("type", s("echo")), ("in_reply_to", Json::OtherNumber("1.5".to_string())), ("echo", s("x"))]),
        obj(vec![("type", s("echo")), ("echo", Json::UInt(3))]),
        obj(vec![("type", s("init")), ("node_id", s("n1")), ("node_ids", Json::Array(vec![s("n1"), Json::UInt(2)]))]),
        obj(vec![("type", s("init")), ("node_id", s("n1")), ("node_ids", s("n1"))]),
        obj(vec![("type", Json::Null)]),
        Json::Array(vec![]),
    ];
    for body in bodies {
        assert_eq!(decode(&envelope(body)), Err(MalformedInput));
    }
}

#[test]
fn decode_refuses_bad_envelope() {
    assert_eq!(decode(&Json::Null), Err(MalformedInput));
    assert_eq!(decode(&s("{}")), Err(MalformedInput));
    let body = obj(vec![("type", s("init_ok"))]);
    let no_dest = obj(vec![("src", s("c1")), ("body", body)]);
    assert_eq!(decode(&no_dest), Err(MalformedInput));
    let body = obj(vec![("type", s("init_ok"))]);
    let bad_src = obj(vec![("src", Json::UInt(1)), ("dest", s("n1")), ("body", body)]);
    assert_eq!(decode(&bad_src), Err(MalformedInput));
}

#[test]
fn first_occurrence_of_a_key_is_used() {
    let fields = vec![
        ("a".to_string(), Json::UInt(1)),
        ("b".to_string(), Json::UInt(2)),
        ("a".to_string(), Json::UInt(3)),
    ];
    assert_eq!(find_member(&fields, &"a".to_string()), Some(0));
    assert_eq!(find_member(&fields, &"b".to_string()), Some(1));
    assert_eq!(find_member(&fields, &"c".to_string()), None);
}
