//! The wire format: how a message is laid out as a JSON object, and how a
//! JSON object is read back as a message.
//!
//! A message is an object with the members `src`, `dest` and `body`. The body
//! holds `msg_id` and `in_reply_to`, each left out when absent, and after
//! them the members of the payload.

use crate::error::{DecodeError, DecodeErrorView, DecodeKind};
use crate::json::{json_parse, json_text, lemma_object_view, members_view, Json, JsonView, Members};
use crate::message::{Body, Envelope, Fields, Header, Message};
use vstd::prelude::*;

verus! {

/// The value of the first member called `name`, if there is one.
pub open spec fn lookup(members: Members, name: Seq<char>) -> Option<JsonView>
    decreases members.len(),
{
    if members.len() == 0 {
        None
    } else if members[0].0 == name {
        Some(members[0].1)
    } else {
        lookup(members.skip(1), name)
    }
}

/// Members that come before the first one that could match do not matter.
pub proof fn lemma_lookup_skip(members: Members, name: Seq<char>, n: int)
    requires
        0 <= n <= members.len(),
        forall|k: int| 0 <= k < n ==> members[k].0 != name,
    ensures
        lookup(members, name) == lookup(members.skip(n), name),
    decreases n,
{
    if n == 0 {
        assert(members.skip(0) =~= members);
    } else {
        lemma_lookup_skip(members.skip(1), name, n - 1);
        assert(members.skip(1).skip(n - 1) =~= members.skip(n));
    }
}

/// Finds the first member called `name`.
pub fn find<'a>(members: &'a Vec<(String, Json)>, name: &str) -> (found: Option<&'a Json>)
    ensures
        match found {
            Some(json) => lookup(members_view(members@), name@) == Some(json@),
            None => lookup(members_view(members@), name@) is None,
        },
{
    let ghost all = members_view(members@);
    let wanted = name.to_owned();
    let mut i: usize = 0;
    while i < members.len()
        invariant
            i <= members.len(),
            all == members_view(members@),
            wanted@ == name@,
            forall|k: int| 0 <= k < i ==> all[k].0 != name@,
        decreases members.len() - i,
    {
        if members[i].0 == wanted {
            proof {
                lemma_lookup_skip(all, name@, i as int);
            }
            return Some(&members[i].1);
        }
        i += 1;
    }
    proof {
        lemma_lookup_skip(all, name@, i as int);
    }
    None
}

/// Whether a member of the body belongs to the header rather than to the
/// payload.
pub open spec fn is_header(name: Seq<char>) -> bool {
    name == "msg_id"@ || name == "in_reply_to"@
}

/// Whether no member is named like an identifier.
pub open spec fn has_no_header(members: Members) -> bool {
    forall|k: int| 0 <= k < members.len() ==> !is_header(#[trigger] members[k].0)
}

/// The members of a body that belong to the payload, in order.
pub open spec fn payload_members(body: Members) -> Members
    decreases body.len(),
{
    if body.len() == 0 {
        Seq::empty()
    } else if is_header(body.last().0) {
        payload_members(body.drop_last())
    } else {
        payload_members(body.drop_last()).push(body.last())
    }
}

/// How an identifier is read: an absent member and `null` both stand for no
/// identifier, an integer that fits is the identifier, and anything else is
/// malformed (the outer `None`).
pub open spec fn decode_id(found: Option<JsonView>) -> Option<Option<usize>> {
    match found {
        None => Some(None),
        Some(JsonView::Null) => Some(None),
        Some(JsonView::Unsigned(n)) => if n <= usize::MAX {
            Some(Some(n as usize))
        } else {
            None
        },
        Some(_) => None,
    }
}

/// The message that a JSON value stands for, if it stands for one: an object
/// whose `src` and `dest` are strings and whose `body` is an object with
/// well-formed identifiers. Other members of the outer object are ignored.
pub open spec fn decode_message(value: JsonView) -> Option<Envelope<Members>> {
    match value {
        JsonView::Object(top) => match (
            lookup(top, "src"@),
            lookup(top, "dest"@),
            lookup(top, "body"@),
        ) {
            (
                Some(JsonView::Text(src)),
                Some(JsonView::Text(dst)),
                Some(JsonView::Object(body)),
            ) => match (
                decode_id(lookup(body, "msg_id"@)),
                decode_id(lookup(body, "in_reply_to"@)),
            ) {
                (Some(id), Some(in_reply_to)) => Some(
                    Envelope {
                        header: Header { src, dst, id, in_reply_to },
                        payload: payload_members(body),
                    },
                ),
                _ => None,
            },
            _ => None,
        },
        _ => None,
    }
}

/// The member that carries an identifier, or nothing where there is none.
pub open spec fn encode_id(name: Seq<char>, id: Option<usize>) -> Members {
    match id {
        Some(n) => seq![(name, JsonView::Unsigned(n as u64))],
        None => Seq::empty(),
    }
}

/// The body of a message on the wire: `msg_id`, `in_reply_to`, then the
/// payload. A member of the payload that is named like an identifier is
/// left out, so that the payload cannot pass for the header.
pub open spec fn encode_body(header: Header, payload: Members) -> Members {
    encode_id("msg_id"@, header.id) + encode_id("in_reply_to"@, header.in_reply_to)
        + payload_members(payload)
}

/// A message on the wire: `src`, `dest`, `body`, in this order.
pub open spec fn encode_message(message: Envelope<Members>) -> JsonView {
    JsonView::Object(
        seq![
            ("src"@, JsonView::Text(message.header.src)),
            ("dest"@, JsonView::Text(message.header.dst)),
            ("body"@, JsonView::Object(encode_body(message.header, message.payload))),
        ],
    )
}

/// Reads an identifier from the member found for it.
pub fn read_id(found: Option<&Json>) -> (id: Option<Option<usize>>)
    ensures
        id == decode_id(
            match found {
                Some(json) => Some(json@),
                None => None,
            },
        ),
{
    match found {
        None => Some(None),
        Some(Json::Null) => Some(None),
        Some(Json::Unsigned(n)) => {
            if *n <= usize::MAX as u64 {
                Some(Some(*n as usize))
            } else {
                None
            }
        },
        Some(_) => None,
    }
}

/// Copies the payload out of a body.
pub fn read_payload(body: &Vec<(String, Json)>) -> (fields: Fields)
    ensures
        members_view(fields@) == payload_members(members_view(body@)),
{
    let ghost all = members_view(body@);
    let msg_id = "msg_id".to_owned();
    let in_reply_to = "in_reply_to".to_owned();
    let mut fields: Fields = Vec::new();
    let mut i: usize = 0;
    assert(all.take(0) =~= Seq::empty());
    assert(members_view(fields@) =~= Seq::empty());
    while i < body.len()
        invariant
            i <= body.len(),
            all == members_view(body@),
            msg_id@ == "msg_id"@,
            in_reply_to@ == "in_reply_to"@,
            members_view(fields@) == payload_members(all.take(i as int)),
        decreases body.len() - i,
    {
        let ghost before = members_view(fields@);
        assert(all.take(i + 1).drop_last() =~= all.take(i as int));
        assert(all.take(i + 1).last() == all[i as int]);
        if !(body[i].0 == msg_id || body[i].0 == in_reply_to) {
            fields.push((body[i].0.clone(), body[i].1.clone()));
            assert(members_view(fields@) =~= before.push(all[i as int]));
        }
        i += 1;
    }
    assert(all.take(i as int) =~= all);
    fields
}

/// Reads a message from a JSON value; `None` where the value is not a
/// message.
pub fn message_from_json(json: &Json) -> (decoded: Option<Message<Fields>>)
    ensures
        match decoded {
            Some(message) => decode_message(json@) == Some(message@),
            None => decode_message(json@) is None,
        },
{
    let top = match json {
        Json::Object(top) => top,
        _ => { return None; },
    };
    proof {
        lemma_object_view(*top);
    }
    let src = match find(top, "src") {
        Some(Json::Text(src)) => src.clone(),
        _ => { return None; },
    };
    let dst = match find(top, "dest") {
        Some(Json::Text(dst)) => dst.clone(),
        _ => { return None; },
    };
    let body = match find(top, "body") {
        Some(Json::Object(body)) => body,
        _ => { return None; },
    };
    proof {
        lemma_object_view(*body);
    }
    let id = match read_id(find(body, "msg_id")) {
        Some(id) => id,
        None => { return None; },
    };
    let in_reply_to = match read_id(find(body, "in_reply_to")) {
        Some(in_reply_to) => in_reply_to,
        None => { return None; },
    };
    let payload = read_payload(body);
    Some(Message { src, dst, body: Body { id, in_reply_to, payload } })
}

/// Lays a message out as a JSON value.
pub fn message_to_json(message: &Message<Fields>) -> (json: Json)
    ensures
        json@ == encode_message(message@),
{
    let mut body: Vec<(String, Json)> = Vec::new();
    if let Some(id) = message.body.id {
        body.push(("msg_id".to_owned(), Json::Unsigned(id as u64)));
    }
    if let Some(id) = message.body.in_reply_to {
        body.push(("in_reply_to".to_owned(), Json::Unsigned(id as u64)));
    }
    let ghost head = members_view(body@);
    assert(head =~= encode_id("msg_id"@, message.body.id) + encode_id(
        "in_reply_to"@,
        message.body.in_reply_to,
    ));
    let mut payload = read_payload(&message.body.payload);
    let ghost rest = members_view(payload@);
    body.append(&mut payload);
    assert(members_view(body@) =~= head + rest);
    let mut top: Vec<(String, Json)> = Vec::new();
    top.push(("src".to_owned(), Json::Text(message.src.clone())));
    top.push(("dest".to_owned(), Json::Text(message.dst.clone())));
    proof {
        lemma_object_view(body);
    }
    top.push(("body".to_owned(), Json::Object(body)));
    proof {
        lemma_object_view(top);
        assert(members_view(top@) =~= encode_message(message@)->Object_0);
    }
    Json::Object(top)
}

/// A name that no member bears is not found.
pub proof fn lemma_lookup_absent(members: Members, name: Seq<char>)
    requires
        forall|k: int| 0 <= k < members.len() ==> members[k].0 != name,
    ensures
        lookup(members, name) is None,
{
    lemma_lookup_skip(members, name, members.len() as int);
}

/// The payload of two runs of members is the payload of the first followed
/// by the payload of the second.
pub proof fn lemma_payload_members_concat(a: Members, b: Members)
    ensures
        payload_members(a + b) == payload_members(a) + payload_members(b),
    decreases b.len(),
{
    if b.len() == 0 {
        assert(a + b =~= a);
        assert(payload_members(a) + payload_members(b) =~= payload_members(a));
    } else {
        lemma_payload_members_concat(a, b.drop_last());
        assert((a + b).drop_last() =~= a + b.drop_last());
        assert((a + b).last() == b.last());
        if !is_header(b.last().0) {
            assert((payload_members(a) + payload_members(b.drop_last())).push(b.last())
                =~= payload_members(a) + payload_members(b.drop_last()).push(b.last()));
        }
    }
}

/// Members none of which is named like an identifier are all payload.
pub proof fn lemma_payload_members_all(members: Members)
    requires
        has_no_header(members),
    ensures
        payload_members(members) == members,
    decreases members.len(),
{
    if members.len() > 0 {
        lemma_payload_members_all(members.drop_last());
        assert(members.drop_last().push(members.last()) =~= members);
    }
}

/// The members that carry identifiers are no payload.
pub proof fn lemma_payload_members_of_ids(header: Header)
    ensures
        payload_members(
            encode_id("msg_id"@, header.id) + encode_id("in_reply_to"@, header.in_reply_to),
        ) == Seq::<(Seq<char>, JsonView)>::empty(),
{
    let first = encode_id("msg_id"@, header.id);
    let second = encode_id("in_reply_to"@, header.in_reply_to);
    lemma_payload_members_concat(first, second);
    assert(payload_members(first) =~= Seq::empty()) by {
        if header.id is Some {
            assert(first.drop_last().len() == 0);
            assert(payload_members(first.drop_last()) =~= Seq::empty());
            assert(is_header(first.last().0));
        }
    }
    assert(payload_members(second) =~= Seq::empty()) by {
        if header.in_reply_to is Some {
            assert(second.drop_last().len() == 0);
            assert(payload_members(second.drop_last()) =~= Seq::empty());
            assert(is_header(second.last().0));
        }
    }
}

/// What is kept as payload has no member named like an identifier.
pub proof fn lemma_payload_members_has_no_header(body: Members)
    ensures
        has_no_header(payload_members(body)),
    decreases body.len(),
{
    if body.len() > 0 {
        lemma_payload_members_has_no_header(body.drop_last());
    }
}

/// An identifier is read back from a body as it was written into it.
pub proof fn lemma_ids_round_trip(header: Header, payload: Members)
    ensures
        decode_id(lookup(encode_body(header, payload), "msg_id"@)) == Some(header.id),
        decode_id(lookup(encode_body(header, payload), "in_reply_to"@)) == Some(
            header.in_reply_to,
        ),
{
    reveal_strlit("msg_id");
    reveal_strlit("in_reply_to");
    let body = encode_body(header, payload);
    let first = encode_id("msg_id"@, header.id);
    let second = encode_id("in_reply_to"@, header.in_reply_to);
    let rest = payload_members(payload);
    lemma_payload_members_has_no_header(payload);
    assert("msg_id"@ != "in_reply_to"@) by {
        assert("msg_id"@.len() == 6);
        assert("in_reply_to"@.len() == 11);
    }
    let n: int = (first.len() + second.len()) as int;
    assert(forall|k: int| n <= k < body.len() ==> body[k] == rest[k - n]);
    if header.id is None {
        lemma_lookup_absent(body, "msg_id"@);
    }
    if header.in_reply_to is None {
        lemma_lookup_absent(body, "in_reply_to"@);
    } else {
        lemma_lookup_skip(body, "in_reply_to"@, first.len() as int);
    }
}

/// Laying a message out and reading it back gives the header again, and of
/// the payload the members that are not named like an identifier.
pub proof fn lemma_encode_then_decode(message: Envelope<Members>)
    ensures
        decode_message(encode_message(message)) == Some(
            Envelope { header: message.header, payload: payload_members(message.payload) },
        ),
{
    reveal_strlit("src");
    reveal_strlit("dest");
    reveal_strlit("body");
    let body = encode_body(message.header, message.payload);
    let top = encode_message(message)->Object_0;
    assert("src"@ != "dest"@) by {
        assert("src"@.len() == 3);
        assert("dest"@.len() == 4);
    }
    assert("src"@ != "body"@) by {
        assert("src"@.len() == 3);
        assert("body"@.len() == 4);
    }
    assert("dest"@ != "body"@) by {
        assert("dest"@[0] == 'd');
        assert("body"@[0] == 'b');
    }
    lemma_lookup_skip(top, "dest"@, 1);
    lemma_lookup_skip(top, "body"@, 2);
    lemma_ids_round_trip(message.header, message.payload);
    let ids = encode_id("msg_id"@, message.header.id) + encode_id(
        "in_reply_to"@,
        message.header.in_reply_to,
    );
    let rest = payload_members(message.payload);
    lemma_payload_members_concat(ids, rest);
    lemma_payload_members_of_ids(message.header);
    lemma_payload_members_has_no_header(message.payload);
    lemma_payload_members_all(rest);
    assert(payload_members(body) =~= rest);
}

/// Laying a message out and reading it back gives the message again, for
/// every message whose payload has no member named `msg_id` or
/// `in_reply_to`.
pub proof fn lemma_message_round_trip(message: Envelope<Members>)
    requires
        has_no_header(message.payload),
    ensures
        decode_message(encode_message(message)) == Some(message),
{
    lemma_encode_then_decode(message);
    lemma_payload_members_all(message.payload);
}

/// What a line of input stands for: the message it holds, or why it holds
/// none.
pub open spec fn decode_line(line: Seq<char>) -> Result<Envelope<Members>, DecodeErrorView> {
    match json_parse(line) {
        None => Err(DecodeErrorView { line, kind: DecodeKind::Syntax }),
        Some(value) => match decode_message(value) {
            None => Err(DecodeErrorView { line, kind: DecodeKind::Shape }),
            Some(message) => Ok(message),
        },
    }
}

/// The line of output that stands for a message.
pub open spec fn encode_line(message: Envelope<Members>) -> Seq<char> {
    json_text(encode_message(message))
}

/// Reads a line as a message, with the payload as it lies on the wire.
pub fn decode_fields(line: &str) -> (decoded: Result<Message<Fields>, DecodeError>)
    ensures
        match decoded {
            Ok(message) => decode_line(line@) == Ok::<_, DecodeErrorView>(message@),
            Err(error) => decode_line(line@) == Err::<Envelope<Members>, _>(error@),
        },
{
    match Json::parse(line) {
        None => Err(DecodeError { line: line.to_owned(), kind: DecodeKind::Syntax }),
        Some(json) => match message_from_json(&json) {
            None => Err(DecodeError { line: line.to_owned(), kind: DecodeKind::Shape }),
            Some(message) => Ok(message),
        },
    }
}

/// Writes a message as one line, without the newline that ends it.
pub fn encode_fields(message: &Message<Fields>) -> (line: String)
    ensures
        line@ == encode_line(message@),
{
    message_to_json(message).to_text()
}

/// Writing a message as a line and reading the line back gives the header
/// again, and of the payload the members that are not named like an
/// identifier, for every message whose text `serde_json` reads back as the
/// value that it printed. So it gives the message again where the payload
/// has no member named `msg_id` or `in_reply_to`.
pub proof fn lemma_line_round_trip(message: Envelope<Members>)
    requires
        json_parse(json_text(encode_message(message))) == Some(encode_message(message)),
    ensures
        decode_line(encode_line(message)) == Ok::<_, DecodeErrorView>(
            Envelope { header: message.header, payload: payload_members(message.payload) },
        ),
        has_no_header(message.payload) ==> decode_line(encode_line(message)) == Ok::<
            _,
            DecodeErrorView,
        >(message),
{
    lemma_encode_then_decode(message);
    if has_no_header(message.payload) {
        lemma_payload_members_all(message.payload);
    }
}

/// Writes a message as one line and reads the line back to see whether it
/// holds the value that was written. Gives the line where it does: that
/// line is then read back as the message, but for payload members named
/// like an identifier. Gives `None` where it does not.
pub fn encode_checked(message: &Message<Fields>) -> (line: Option<String>)
    ensures
        match line {
            Some(line) => {
                &&& line@ == encode_line(message@)
                &&& json_parse(line@) == Some(encode_message(message@))
                &&& decode_line(line@) == Ok::<_, DecodeErrorView>(
                    Envelope {
                        header: message@.header,
                        payload: payload_members(message@.payload),
                    },
                )
            },
            None => json_parse(encode_line(message@)) != Some(encode_message(message@)),
        },
{
    let json = message_to_json(message);
    let line = json.to_text();
    match Json::parse(line.as_str()) {
        Some(back) => {
            if back.same(&json) {
                proof {
                    lemma_line_round_trip(message@);
                }
                Some(line)
            } else {
                None
            }
        },
        None => None,
    }
}

} // verus!
