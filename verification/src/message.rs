//! The messages that travel on the wire, and the values they stand for.

use crate::json::{members_view, Json, Members};
use vstd::prelude::*;

verus! {

/// One message: who sent it, whom it is for, and what it says.
#[derive(Debug, Clone, PartialEq, Eq)]
pub struct Message<Payload> {
    /// The node this message came from.
    pub src: String,
    /// The node this message is for; `dest` on the wire.
    pub dst: String,
    /// What the message says.
    pub body: Body<Payload>,
}

/// The body of a message: two optional identifiers and the payload.
#[derive(Debug, Clone, PartialEq, Eq)]
pub struct Body<Payload> {
    /// The sender's identifier for this message; `msg_id` on the wire.
    pub id: Option<usize>,
    /// The identifier of the message that this one answers.
    pub in_reply_to: Option<usize>,
    /// The part that belongs to the node logic; on the wire its fields lie
    /// beside the two identifiers, in the same object.
    pub payload: Payload,
}

/// What the first message tells a node: its own name and the names of all
/// the nodes of the cluster, in the order in which they were assigned.
#[derive(Debug, Clone, PartialEq, Eq)]
pub struct Init {
    pub node_id: String,
    pub node_ids: Vec<String>,
}

/// The payload of the two messages of the startup exchange.
#[derive(Debug, Clone, PartialEq, Eq)]
pub enum InitPayload {
    /// The request: `"type": "init"`.
    Init(Init),
    /// The acknowledgement: `"type": "init_ok"`.
    InitOk,
}

/// A payload as it lies on the wire: the members of the body other than the
/// two identifiers, in order. A member named `msg_id` or `in_reply_to` is no
/// part of a payload and is left out when a message is laid out.
pub type Fields = Vec<(String, Json)>;

/// The part of a message that does not depend on the payload.
pub ghost struct Header {
    pub src: Seq<char>,
    pub dst: Seq<char>,
    pub id: Option<usize>,
    pub in_reply_to: Option<usize>,
}

/// The value of a message with a payload of type `T`.
pub ghost struct Envelope<T> {
    pub header: Header,
    pub payload: T,
}

/// The value of an [`Init`].
pub ghost struct InitView {
    pub node_id: Seq<char>,
    pub node_ids: Seq<Seq<char>>,
}

/// The value of an [`InitPayload`].
pub ghost enum InitPayloadView {
    Init(InitView),
    InitOk,
}

impl<Payload> Message<Payload> {
    /// The header of the message.
    pub open spec fn header(self) -> Header {
        Header {
            src: self.src@,
            dst: self.dst@,
            id: self.body.id,
            in_reply_to: self.body.in_reply_to,
        }
    }

    /// The same message with another payload.
    pub fn with_payload<Other>(self, payload: Other) -> (message: Message<Other>)
        ensures
            message.header() == self.header(),
            message.body.payload == payload,
    {
        Message {
            src: self.src,
            dst: self.dst,
            body: Body { id: self.body.id, in_reply_to: self.body.in_reply_to, payload },
        }
    }
}

/// The values of a list of strings, string by string.
pub open spec fn texts_view(texts: Seq<String>) -> Seq<Seq<char>> {
    Seq::new(texts.len(), |i: int| texts[i]@)
}

impl View for Init {
    type V = InitView;

    open spec fn view(&self) -> InitView {
        InitView {
            node_id: self.node_id@,
            node_ids: texts_view(self.node_ids@),
        }
    }
}

impl View for InitPayload {
    type V = InitPayloadView;

    open spec fn view(&self) -> InitPayloadView {
        match self {
            InitPayload::Init(init) => InitPayloadView::Init(init@),
            InitPayload::InitOk => InitPayloadView::InitOk,
        }
    }
}

impl View for Message<Fields> {
    type V = Envelope<Members>;

    open spec fn view(&self) -> Envelope<Members> {
        Envelope { header: self.header(), payload: members_view(self.body.payload@) }
    }
}

impl View for Message<InitPayload> {
    type V = Envelope<InitPayloadView>;

    open spec fn view(&self) -> Envelope<InitPayloadView> {
        Envelope { header: self.header(), payload: self.body.payload@ }
    }
}

} // verus!
