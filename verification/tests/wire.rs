use node_runtime::json::clone_members;
use node_runtime::payload::{read_texts, typed};
use node_runtime::wire::{
    decode_fields, encode_checked, encode_fields, find, message_from_json, message_to_json, read_id, read_payload,
};
use node_runtime::{Body, DecodeError, DecodeKind, Fields, Init, InitPayload, Json, Message, Payload};

fn text(s: &str) -> Json {
    Json::Text(s.to_string())
}

fn member(name: &str, value: Json) -> (String, Json) {
    (name.to_string(), value)
}

fn message(id: Option<usize>, in_reply_to: Option<usize>, payload: Fields) -> Message<Fields> {
    Message { src: "n1".to_string(), dst: "c1".to_string(), body: Body { id, in_reply_to, payload } }
}

fn syntax(line: &str) -> DecodeError {
    DecodeError { line: line.to_string(), kind: DecodeKind::Syntax }
}

fn shape(line: &str) -> DecodeError {
    DecodeError { line: line.to_string(), kind: DecodeKind::Shape }
}

#[test]
fn find_gives_the_first_member_of_that_name() {
    let members = vec![member("a", Json::Unsigned(1)), member("b", Json::Unsigned(2)), member("a", Json::Unsigned(3))];
    assert_eq!(find(&members, "a"), Some(&Json::Unsigned(1)));
    assert_eq!(find(&members, "b"), Some(&Json::Unsigned(2)));
    assert_eq!(find(&members, "c"), None);
    assert_eq!(find(&Vec::new(), "a"), None);
}

#[test]
fn read_id_tells_absent_from_malformed() {
    assert_eq!(read_id(None), Some(None));
    assert_eq!(read_id(Some(&Json::Null)), Some(None));
    assert_eq!(read_id(Some(&Json::Unsigned(0))), Some(Some(0)));
    assert_eq!(read_id(Some(&Json::Unsigned(17))), Some(Some(17)));
    assert_eq!(read_id(Some(&Json::Negative(-1))), None);
    assert_eq!(read_id(Some(&Json::Real("1.0".to_string()))), None);
    assert_eq!(read_id(Some(&text("1"))), None);
    assert_eq!(read_id(Some(&Json::Bool(true))), None);
}

#[test]
fn read_payload_leaves_the_identifiers_out() {
    let body = vec![
        member("type", text("echo")),
        member("msg_id", Json::Unsigned(1)),
        member("echo", text("hi")),
        member("in_reply_to", Json::Unsigned(2)),
        member("extra", Json::Null),
    ];
    assert_eq!(
        read_payload(&body),
        vec![member("type", text("echo")), member("echo", text("hi")), member("extra", Json::Null)]
    );
    assert_eq!(read_payload(&Vec::new()), Vec::new());
}

#[test]
fn encodes_members_in_wire_order() {
    let m = message(Some(3), Some(2), vec![member("type", text("echo_ok")), member("echo", text("hi"))]);
    assert_eq!(
        encode_fields(&m),
        "{\"src\":\"n1\",\"dest\":\"c1\",\"body\":{\"msg_id\":3,\"in_reply_to\":2,\"type\":\"echo_ok\",\"echo\":\"hi\"}}"
    );
}

#[test]
fn encode_omits_absent_identifiers() {
    let payload = vec![member("type", text("tick"))];
    assert_eq!(
        encode_fields(&message(None, None, payload.clone())),
        "{\"src\":\"n1\",\"dest\":\"c1\",\"body\":{\"type\":\"tick\"}}"
    );
    assert_eq!(
        encode_fields(&message(Some(9), None, payload.clone())),
        "{\"src\":\"n1\",\"dest\":\"c1\",\"body\":{\"msg_id\":9,\"type\":\"tick\"}}"
    );
    assert_eq!(
        encode_fields(&message(None, Some(4), payload)),
        "{\"src\":\"n1\",\"dest\":\"c1\",\"body\":{\"in_reply_to\":4,\"type\":\"tick\"}}"
    );
}

#[test]
fn encode_never_nests_the_payload() {
    let m = message(Some(1), None, vec![member("type", text("x"))]);
    let line = encode_fields(&m);
    assert!(!line.contains("payload"));
    assert!(!line.contains("\"dst\""));
    assert!(!line.contains("\"id\""));
}

#[test]
fn message_to_json_lays_out_the_tree() {
    let m = message(Some(1), None, vec![member("type", text("x"))]);
    assert_eq!(
        message_to_json(&m),
        Json::Object(vec![
            member("src", text("n1")),
            member("dest", text("c1")),
            member("body", Json::Object(vec![member("msg_id", Json::Unsigned(1)), member("type", text("x"))])),
        ])
    );
}

#[test]
fn decodes_a_message() {
    let line = "{\"src\":\"c1\",\"dest\":\"n1\",\"body\":{\"type\":\"echo\",\"msg_id\":1,\"echo\":\"hi\"}}";
    let expected = Message {
        src: "c1".to_string(),
        dst: "n1".to_string(),
        body: Body {
            id: Some(1),
            in_reply_to: None,
            payload: vec![member("type", text("echo")), member("echo", text("hi"))],
        },
    };
    assert_eq!(decode_fields(line), Ok(expected));
}

#[test]
fn decode_ignores_other_outer_members_and_reads_null_identifiers_as_absent() {
    let line = "{\"id\":7,\"src\":\"a\",\"dest\":\"b\",\"body\":{\"msg_id\":null,\"in_reply_to\":null}}";
    let expected = Message {
        src: "a".to_string(),
        dst: "b".to_string(),
        body: Body { id: None, in_reply_to: None, payload: Vec::new() },
    };
    assert_eq!(decode_fields(line), Ok(expected));
}

#[test]
fn decode_refuses_what_is_not_json() {
    for line in ["", "hello", "{\"src\":\"a\"", "{\"src\":\"a\",\"dest\":\"b\",\"body\":{}} trailing"] {
        assert_eq!(decode_fields(line), Err(syntax(line)));
    }
}

#[test]
fn decode_refuses_json_that_is_no_message() {
    let lines = [
        "[]",
        "null",
        "{}",
        "{\"dest\":\"b\",\"body\":{}}",
        "{\"src\":\"a\",\"body\":{}}",
        "{\"src\":\"a\",\"dest\":\"b\"}",
        "{\"src\":\"a\",\"dst\":\"b\",\"body\":{}}",
        "{\"src\":1,\"dest\":\"b\",\"body\":{}}",
        "{\"src\":\"a\",\"dest\":\"b\",\"body\":[]}",
        "{\"src\":\"a\",\"dest\":\"b\",\"body\":{\"msg_id\":-1}}",
        "{\"src\":\"a\",\"dest\":\"b\",\"body\":{\"msg_id\":\"1\"}}",
        "{\"src\":\"a\",\"dest\":\"b\",\"body\":{\"msg_id\":1.5}}",
        "{\"src\":\"a\",\"dest\":\"b\",\"body\":{\"in_reply_to\":true}}",
    ];
    for line in lines {
        assert_eq!(decode_fields(line), Err(shape(line)));
    }
}

#[test]
fn message_from_json_refuses_what_is_no_object() {
    assert_eq!(message_from_json(&Json::Null), None);
    assert_eq!(message_from_json(&Json::Array(vec![])), None);
    assert_eq!(message_from_json(&text("x")), None);
}

#[test]
fn flatten_round_trip() {
    let messages = vec![
        message(None, None, Vec::new()),
        message(Some(0), Some(usize::MAX), vec![member("type", text("echo")), member("echo", text("a \"quoted\" \n line"))]),
        message(
            Some(5),
            None,
            vec![
                member("type", text("topology")),
                member(
                    "topology",
                    Json::Object(vec![
                        member("n1", Json::Array(vec![text("n2"), text("n3")])),
                        member("n2", Json::Array(vec![])),
                    ]),
                ),
                member("delta", Json::Negative(-4)),
                member("ratio", Json::Real("0.5".to_string())),
                member("flag", Json::Bool(true)),
                member("nothing", Json::Null),
            ],
        ),
    ];
    for m in messages {
        assert_eq!(decode_fields(&encode_fields(&m)), Ok(m.clone()));
        assert_eq!(message_from_json(&message_to_json(&m)), Some(m));
    }
}

#[test]
fn typed_round_trip() {
    let init = InitPayload::Init(Init {
        node_id: "n1".to_string(),
        node_ids: vec!["n1".to_string(), "n2".to_string(), "n3".to_string()],
    });
    for payload in [init, InitPayload::InitOk] {
        let m = Message {
            src: "c1".to_string(),
            dst: "n1".to_string(),
            body: Body { id: Some(1), in_reply_to: Some(0), payload },
        };
        assert_eq!(Message::<InitPayload>::decode(&m.encode()), Ok(m));
    }
}

#[test]
fn init_payload_lies_flat_with_its_tag_first() {
    let init = InitPayload::Init(Init { node_id: "n1".to_string(), node_ids: vec!["n1".to_string(), "n2".to_string()] });
    assert_eq!(
        init.to_fields(),
        vec![
            member("type", text("init")),
            member("node_id", text("n1")),
            member("node_ids", Json::Array(vec![text("n1"), text("n2")])),
        ]
    );
    assert_eq!(InitPayload::InitOk.to_fields(), vec![member("type", text("init_ok"))]);
}

#[test]
fn init_payload_is_read_from_its_members() {
    let fields = vec![
        member("node_ids", Json::Array(vec![text("n2"), text("n1")])),
        member("other", Json::Unsigned(1)),
        member("node_id", text("n2")),
        member("type", text("init")),
    ];
    assert_eq!(
        InitPayload::from_fields(&fields),
        Some(InitPayload::Init(Init { node_id: "n2".to_string(), node_ids: vec!["n2".to_string(), "n1".to_string()] }))
    );
    assert_eq!(InitPayload::from_fields(&vec![member("type", text("init_ok"))]), Some(InitPayload::InitOk));
}

#[test]
fn init_payload_refuses_other_members() {
    let refused = vec![
        Vec::new(),
        vec![member("type", text("echo"))],
        vec![member("type", Json::Unsigned(1))],
        vec![member("type", text("init"))],
        vec![member("type", text("init")), member("node_id", text("n1"))],
        vec![member("type", text("init")), member("node_ids", Json::Array(vec![]))],
        vec![member("type", text("init")), member("node_id", Json::Unsigned(1)), member("node_ids", Json::Array(vec![]))],
        vec![member("type", text("init")), member("node_id", text("n1")), member("node_ids", text("n1"))],
        vec![member("type", text("init")), member("node_id", text("n1")), member("node_ids", Json::Array(vec![text("n1"), Json::Unsigned(2)]))],
    ];
    for fields in refused {
        assert_eq!(InitPayload::from_fields(&fields), None);
    }
}

#[test]
fn fields_are_their_own_payload() {
    let fields = vec![member("type", text("x")), member("n", Json::Unsigned(1))];
    assert_eq!(<Fields as Payload>::from_fields(&fields), Some(fields.clone()));
    assert_eq!(fields.to_fields(), fields);
}

#[test]
fn typed_decode_reports_a_refused_payload() {
    let line = "{\"src\":\"a\",\"dest\":\"b\",\"body\":{\"type\":\"echo\"}}";
    assert_eq!(
        Message::<InitPayload>::decode(line),
        Err(DecodeError { line: line.to_string(), kind: DecodeKind::Payload })
    );
    assert_eq!(Message::<InitPayload>::decode("{"), Err(syntax("{")));
    assert_eq!(Message::<InitPayload>::decode("{}"), Err(shape("{}")));
}

#[test]
fn with_payload_keeps_the_header() {
    let m = message(Some(1), Some(2), Vec::new()).with_payload(7u8);
    assert_eq!(m, Message { src: "n1".to_string(), dst: "c1".to_string(), body: Body { id: Some(1), in_reply_to: Some(2), payload: 7u8 } });
}

#[test]
fn read_texts_wants_strings_only() {
    assert_eq!(read_texts(&vec![]), Some(vec![]));
    assert_eq!(read_texts(&vec![text("a"), text("b")]), Some(vec!["a".to_string(), "b".to_string()]));
    assert_eq!(read_texts(&vec![text("a"), Json::Null]), None);
    assert_eq!(read_texts(&vec![Json::Unsigned(1)]), None);
}

#[test]
fn typed_gives_the_message_or_the_failure() {
    let m = message(Some(4), None, vec![member("type", text("x"))]);
    assert_eq!(
        typed(m.clone(), Some('p'), "the line"),
        Ok(Message { src: "n1".to_string(), dst: "c1".to_string(), body: Body { id: Some(4), in_reply_to: None, payload: 'p' } })
    );
    assert_eq!(
        typed::<char>(m, None, "the line"),
        Err(DecodeError { line: "the line".to_string(), kind: DecodeKind::Payload })
    );
}

#[test]
fn clone_members_copies_every_member() {
    let members = vec![member("a", Json::Array(vec![Json::Unsigned(1)])), member("b", text("t"))];
    assert_eq!(clone_members(&members), members);
    assert_eq!(clone_members(&Vec::new()), Vec::new());
}

#[test]
fn flatten_keeps_the_header_and_lays_the_payload_out() {
    let m = Message {
        src: "a".to_string(),
        dst: "b".to_string(),
        body: Body { id: Some(1), in_reply_to: None, payload: InitPayload::InitOk },
    };
    assert_eq!(
        m.flatten(),
        Message {
            src: "a".to_string(),
            dst: "b".to_string(),
            body: Body { id: Some(1), in_reply_to: None, payload: vec![member("type", text("init_ok"))] },
        }
    );
}

#[test]
fn a_payload_cannot_pass_for_the_header() {
    let payload = vec![
        member("msg_id", Json::Unsigned(99)),
        member("type", text("x")),
        member("in_reply_to", Json::Unsigned(98)),
    ];
    let m = message(Some(1), None, payload);
    let line = encode_fields(&m);
    assert_eq!(line, "{\"src\":\"n1\",\"dest\":\"c1\",\"body\":{\"msg_id\":1,\"type\":\"x\"}}");
    assert_eq!(decode_fields(&line), Ok(message(Some(1), None, vec![member("type", text("x"))])));
}

#[test]
fn encode_checked_gives_the_line_that_reads_back() {
    let m = message(Some(3), Some(2), vec![member("type", text("echo_ok")), member("echo", text("hi"))]);
    let line = encode_checked(&m).unwrap();
    assert_eq!(line, encode_fields(&m));
    assert_eq!(decode_fields(&line), Ok(m));
}

#[test]
fn encode_checked_refuses_what_does_not_read_back() {
    let not_a_number = message(None, None, vec![member("x", Json::Real("abc".to_string()))]);
    assert_eq!(encode_checked(&not_a_number), None);
    let twice = message(None, None, vec![member("x", Json::Unsigned(1)), member("x", Json::Unsigned(2))]);
    assert_eq!(encode_checked(&twice), None);
    let wrong_kind = message(None, None, vec![member("x", Json::Negative(5))]);
    assert_eq!(encode_checked(&wrong_kind), None);
}
