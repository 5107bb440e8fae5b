//! Payloads: what the node logic puts into a message, and how the payload of
//! the startup exchange lies on the wire.

use crate::json::{
    clone_members, items_view, lemma_array_view, members_view, Json, JsonView, Members,
};
use crate::error::{DecodeError, DecodeErrorView, DecodeKind};
use crate::message::{
    texts_view, Body, Envelope, Fields, Header, Init, InitPayload, InitPayloadView, InitView,
    Message,
};
use crate::wire::{
    decode_fields, decode_line, decode_message, encode_fields, encode_line, encode_message, find,
    has_no_header, lemma_lookup_skip, lemma_message_round_trip, lookup,
};
use vstd::prelude::*;

verus! {

/// A type of payload: it can be read from the members that lie beside the
/// identifiers in a body, and it can be laid out as such members.
///
/// The members a payload lays out must not be named `msg_id` or
/// `in_reply_to`: such a member never reaches the wire, and none is handed
/// to `from_fields`.
pub trait Payload: Sized {
    /// Reads a payload; `None` where the members are no payload of this type.
    fn from_fields(fields: &Fields) -> Option<Self>;

    /// The members that stand for the payload.
    fn to_fields(&self) -> Fields;
}

/// The strings that a list of values holds, if all of them are strings.
pub open spec fn texts_of(items: Seq<JsonView>) -> Option<Seq<Seq<char>>> {
    if forall|i: int| 0 <= i < items.len() ==> items[i] is Text {
        Some(Seq::new(items.len(), |i: int| items[i]->Text_0))
    } else {
        None
    }
}

/// A list of strings as a list of values.
pub open spec fn text_items(texts: Seq<Seq<char>>) -> Seq<JsonView> {
    Seq::new(texts.len(), |i: int| JsonView::Text(texts[i]))
}

/// The payload of the startup exchange that some members stand for: `type`
/// is `init` beside a string `node_id` and a list of strings `node_ids`, or
/// `type` is `init_ok`. Other members are ignored.
pub open spec fn decode_init_payload(fields: Members) -> Option<InitPayloadView> {
    match lookup(fields, "type"@) {
        Some(JsonView::Text(tag)) => if tag == "init"@ {
            match (lookup(fields, "node_id"@), lookup(fields, "node_ids"@)) {
                (Some(JsonView::Text(node_id)), Some(JsonView::Array(items))) => match texts_of(
                    items,
                ) {
                    Some(node_ids) => Some(InitPayloadView::Init(InitView { node_id, node_ids })),
                    None => None,
                },
                _ => None,
            }
        } else if tag == "init_ok"@ {
            Some(InitPayloadView::InitOk)
        } else {
            None
        },
        _ => None,
    }
}

/// The members that stand for a payload of the startup exchange: `type`
/// first, then what the variant holds.
pub open spec fn encode_init_payload(payload: InitPayloadView) -> Members {
    match payload {
        InitPayloadView::Init(init) => seq![
            ("type"@, JsonView::Text("init"@)),
            ("node_id"@, JsonView::Text(init.node_id)),
            ("node_ids"@, JsonView::Array(text_items(init.node_ids))),
        ],
        InitPayloadView::InitOk => seq![("type"@, JsonView::Text("init_ok"@))],
    }
}

/// Copies the strings out of a list of values; `None` where one of them is
/// not a string.
pub fn read_texts(items: &Vec<Json>) -> (texts: Option<Vec<String>>)
    ensures
        match texts {
            Some(texts) => texts_of(items_view(items@)) == Some(texts_view(texts@)),
            None => texts_of(items_view(items@)) is None,
        },
{
    let ghost values = items_view(items@);
    let mut texts: Vec<String> = Vec::new();
    let mut i: usize = 0;
    while i < items.len()
        invariant
            i <= items.len(),
            values == items_view(items@),
            texts@.len() == i,
            forall|k: int| 0 <= k < i ==> values[k] == JsonView::Text(#[trigger] texts@[k]@),
        decreases items.len() - i,
    {
        match &items[i] {
            Json::Text(text) => {
                texts.push(text.clone());
            },
            _ => {
                assert(!(values[i as int] is Text));
                return None;
            },
        }
        i += 1;
    }
    assert forall|k: int| 0 <= k < values.len() implies values[k] == JsonView::Text(
        texts_view(texts@)[k],
    ) by {
        assert(values[k] == JsonView::Text(texts@[k]@));
    }
    assert(texts_of(values)->Some_0 =~= texts_view(texts@));
    Some(texts)
}

impl Payload for InitPayload {
    fn from_fields(fields: &Fields) -> (payload: Option<InitPayload>)
        ensures
            match payload {
                Some(payload) => decode_init_payload(members_view(fields@)) == Some(payload@),
                None => decode_init_payload(members_view(fields@)) is None,
            },
    {
        let tag = match find(fields, "type") {
            Some(Json::Text(tag)) => tag,
            _ => { return None; },
        };
        if *tag == "init".to_owned() {
            let node_id = match find(fields, "node_id") {
                Some(Json::Text(node_id)) => node_id.clone(),
                _ => { return None; },
            };
            let items = match find(fields, "node_ids") {
                Some(Json::Array(items)) => items,
                _ => { return None; },
            };
            proof {
                lemma_array_view(*items);
            }
            match read_texts(items) {
                Some(node_ids) => Some(InitPayload::Init(Init { node_id, node_ids })),
                None => None,
            }
        } else if *tag == "init_ok".to_owned() {
            Some(InitPayload::InitOk)
        } else {
            None
        }
    }

    fn to_fields(&self) -> (fields: Fields)
        ensures
            members_view(fields@) == encode_init_payload(self@),
    {
        let mut fields: Fields = Vec::new();
        match self {
            InitPayload::Init(init) => {
                let mut items: Vec<Json> = Vec::new();
                let mut i: usize = 0;
                while i < init.node_ids.len()
                    invariant
                        i <= init.node_ids.len(),
                        items@.len() == i,
                        forall|k: int|
                            0 <= k < i ==> (#[trigger] items@[k])@ == JsonView::Text(
                                init.node_ids@[k]@,
                            ),
                    decreases init.node_ids.len() - i,
                {
                    items.push(Json::Text(init.node_ids[i].clone()));
                    i += 1;
                }
                proof {
                    lemma_array_view(items);
                    assert(Json::Array(items)@->Array_0 =~= text_items(init@.node_ids));
                }
                fields.push(("type".to_owned(), Json::Text("init".to_owned())));
                fields.push(("node_id".to_owned(), Json::Text(init.node_id.clone())));
                fields.push(("node_ids".to_owned(), Json::Array(items)));
                assert(members_view(fields@) =~= encode_init_payload(self@));
            },
            InitPayload::InitOk => {
                fields.push(("type".to_owned(), Json::Text("init_ok".to_owned())));
                assert(members_view(fields@) =~= encode_init_payload(self@));
            },
        }
        fields
    }
}

/// A payload taken as it lies on the wire: every list of members is one.
impl Payload for Fields {
    fn from_fields(fields: &Fields) -> (payload: Option<Fields>)
        ensures
            payload matches Some(copy) && members_view(copy@) == members_view(fields@),
    {
        Some(clone_members(fields))
    }

    fn to_fields(&self) -> (fields: Fields)
        ensures
            members_view(fields@) == members_view(self@),
    {
        clone_members(self)
    }
}

/// What becomes of a message once its payload was read: the typed message,
/// or the line's failure to hold a payload of the expected type.
pub fn typed<P>(message: Message<Fields>, payload: Option<P>, line: &str) -> (typed: Result<
    Message<P>,
    DecodeError,
>)
    ensures
        match payload {
            Some(payload) => typed matches Ok(typed) && typed.header() == message.header()
                && typed.body.payload == payload,
            None => typed matches Err(error) && error@ == (DecodeErrorView {
                line: line@,
                kind: DecodeKind::Payload,
            }),
        },
{
    match payload {
        Some(payload) => Ok(message.with_payload(payload)),
        None => Err(DecodeError { line: line.to_owned(), kind: DecodeKind::Payload }),
    }
}

impl<P: Payload> Message<P> {
    /// Reads a line as a message with a payload of this type.
    ///
    /// A line that holds no message fails as [`decode_line`] says. For one
    /// that holds a message the payload type is asked, with the members of
    /// the payload as they lie on the wire: the result is the message's
    /// header with the payload that the type read from them, or the
    /// `Payload` failure where it read none.
    pub fn decode(line: &str) -> (decoded: Result<Message<P>, DecodeError>)
        ensures
            match decode_line(line@) {
                Err(error) => decoded matches Err(found) && found@ == error,
                Ok(message) => exists|fields: Fields|
                    #![trigger members_view(fields@)]
                    {
                        &&& members_view(fields@) == message.payload
                        &&& match decoded {
                            Ok(typed) => typed.header() == message.header && call_ensures(
                                P::from_fields,
                                (&fields,),
                                Some(typed.body.payload),
                            ),
                            Err(found) => found@ == (DecodeErrorView {
                                line: line@,
                                kind: DecodeKind::Payload,
                            }) && call_ensures(P::from_fields, (&fields,), None),
                        }
                    },
            },
    {
        match decode_fields(line) {
            Err(error) => Err(error),
            Ok(message) => {
                let payload = P::from_fields(&message.body.payload);
                let ghost fields = message.body.payload;
                let decoded = typed(message, payload, line);
                assert(members_view(fields@) == decode_line(line@)->Ok_0.payload);
                decoded
            },
        }
    }

    /// The message with its payload as it lies on the wire: the same
    /// header, and the members that the payload type lays out for the
    /// payload.
    pub fn flatten(&self) -> (flat: Message<Fields>)
        ensures
            flat.header() == self.header(),
            call_ensures(P::to_fields, (&self.body.payload,), flat.body.payload),
    {
        Message {
            src: self.src.clone(),
            dst: self.dst.clone(),
            body: Body {
                id: self.body.id,
                in_reply_to: self.body.in_reply_to,
                payload: self.body.payload.to_fields(),
            },
        }
    }

    /// Writes the message as one line, without the newline that ends it:
    /// the header, and beside it the members that the payload type lays out
    /// for the payload.
    pub fn encode(&self) -> (line: String)
        ensures
            self.encodes_to(line@),
    {
        let flat = self.flatten();
        let line = encode_fields(&flat);
        assert(members_view(flat.body.payload@) == flat@.payload);
        line
    }

    /// Whether `line` is a line for this message: the header, and beside it
    /// members that the payload type lays out for the payload.
    pub open spec fn encodes_to(&self, line: Seq<char>) -> bool {
        exists|fields: Fields|
            #![trigger members_view(fields@)]
            call_ensures(P::to_fields, (&self.body.payload,), fields) && line == encode_line(
                Envelope { header: self.header(), payload: members_view(fields@) },
            )
    }
}

/// The strings of a list are read back from the values that stand for them.
pub proof fn lemma_texts_round_trip(texts: Seq<Seq<char>>)
    ensures
        texts_of(text_items(texts)) == Some(texts),
{
    assert(texts_of(text_items(texts))->Some_0 =~= texts);
}

/// Reading back the members of a payload of the startup exchange gives the
/// payload again.
pub proof fn lemma_init_payload_round_trip(payload: InitPayloadView)
    ensures
        decode_init_payload(encode_init_payload(payload)) == Some(payload),
{
    reveal_strlit("type");
    reveal_strlit("node_id");
    reveal_strlit("node_ids");
    reveal_strlit("init");
    reveal_strlit("init_ok");
    let fields = encode_init_payload(payload);
    assert("init"@ != "init_ok"@) by {
        assert("init"@.len() == 4);
        assert("init_ok"@.len() == 7);
    }
    match payload {
        InitPayloadView::Init(init) => {
            assert("type"@ != "node_id"@) by {
                assert("type"@.len() == 4);
                assert("node_id"@.len() == 7);
            }
            assert("type"@ != "node_ids"@) by {
                assert("type"@.len() == 4);
                assert("node_ids"@.len() == 8);
            }
            assert("node_id"@ != "node_ids"@) by {
                assert("node_id"@.len() == 7);
                assert("node_ids"@.len() == 8);
            }
            lemma_lookup_skip(fields, "node_id"@, 1);
            lemma_lookup_skip(fields, "node_ids"@, 2);
            lemma_texts_round_trip(init.node_ids);
        },
        InitPayloadView::InitOk => {},
    }
}

/// No member of a payload of the startup exchange is named like an
/// identifier.
pub proof fn lemma_init_payload_has_no_header(payload: InitPayloadView)
    ensures
        has_no_header(encode_init_payload(payload)),
{
    reveal_strlit("type");
    reveal_strlit("node_id");
    reveal_strlit("node_ids");
    reveal_strlit("msg_id");
    reveal_strlit("in_reply_to");
    assert("type"@.len() == 4);
    assert("node_id"@.len() == 7);
    assert("node_ids"@.len() == 8);
    assert("msg_id"@.len() == 6);
    assert("in_reply_to"@.len() == 11);
}

/// A message with a payload of any type is read back as it was laid out,
/// header and payload both. The type is given by how it lays a payload out
/// (`lay`) and how it reads one (`read`); what is asked of it is that it
/// reads back what it laid out and that it lays out no member named `msg_id`
/// or `in_reply_to`.
pub proof fn lemma_typed_round_trip<T>(
    header: Header,
    payload: T,
    lay: spec_fn(T) -> Members,
    read: spec_fn(Members) -> Option<T>,
)
    requires
        read(lay(payload)) == Some(payload),
        has_no_header(lay(payload)),
    ensures
        decode_message(encode_message(Envelope { header, payload: lay(payload) })) matches Some(
            message,
        ) && message.header == header && read(message.payload) == Some(payload),
{
    lemma_message_round_trip(Envelope { header, payload: lay(payload) });
}

/// A message of the startup exchange is read back as it was laid out.
pub proof fn lemma_init_message_round_trip(header: Header, payload: InitPayloadView)
    ensures
        decode_message(
            encode_message(Envelope { header, payload: encode_init_payload(payload) }),
        ) matches Some(message) && message.header == header && decode_init_payload(
            message.payload,
        ) == Some(payload),
{
    lemma_init_payload_has_no_header(payload);
    lemma_init_payload_round_trip(payload);
    lemma_typed_round_trip(
        header,
        payload,
        |p: InitPayloadView| encode_init_payload(p),
        |fields: Members| decode_init_payload(fields),
    );
}

} // verus!
