//! What kind of message a server sent, decided from its envelope alone.

use crate::v2::envelope::{
    envelope_views, frame_of, read_frame, subscription_view, version_is_two, Envelope, EnvelopeView,
    ErrorMember, ErrorMemberView, IdForm, RawFrame, RawFrameView,
};
use crate::v2::error::{ErrorObjectView, JsonRpcErrorObject};
use crate::v2::params::{SubscriptionId, SubscriptionIdView};
use vstd::prelude::*;
use vstd::string::*;

verus! {

/// What a message of the server says.
pub ghost enum MessageView {
    Response { id: u64, result: Seq<char>, granted: Option<SubscriptionIdView> },
    Failure { id: u64, error: ErrorObjectView },
    SubscriptionNotice { subscription: SubscriptionIdView, payload: Seq<char> },
    Notification { method: Seq<char> },
    Malformed,
}

/// A message of the server.
#[derive(Debug)]
pub enum Message {
    /// The result of the request with this id, as JSON text, and the
    /// subscription id that the result holds, if it holds one.
    Response { id: u64, result: String, granted: Option<SubscriptionId> },
    /// The error that the request with this id ended in.
    Failure { id: u64, error: JsonRpcErrorObject },
    /// An item of a subscription, as JSON text.
    SubscriptionNotice { subscription: SubscriptionId, payload: String },
    /// A notification that belongs to no subscription.
    Notification { method: String },
    /// An object that is none of these.
    Malformed,
}

impl View for Message {
    type V = MessageView;

    open spec fn view(&self) -> MessageView {
        match self {
            Message::Response { id, result, granted } => MessageView::Response {
                id: *id,
                result: result@,
                granted: subscription_view(*granted),
            },
            Message::Failure { id, error } => MessageView::Failure { id: *id, error: error@ },
            Message::SubscriptionNotice { subscription, payload } => {
                MessageView::SubscriptionNotice { subscription: subscription@, payload: payload@ }
            },
            Message::Notification { method } => MessageView::Notification { method: method@ },
            Message::Malformed => MessageView::Malformed,
        }
    }
}

/// The views of a vector of messages, in order.
pub open spec fn message_views(v: Seq<Message>) -> Seq<MessageView> {
    Seq::new(v.len(), |i: int| v[i]@)
}

/// What an object with an id says to a client: a response where it has a
/// result and nothing else, a failure where it has an error object and
/// nothing else.
pub open spec fn answer_of(id: u64, e: EnvelopeView) -> MessageView {
    if e.method is Some {
        MessageView::Malformed
    } else {
        match (e.result, e.error) {
            (Some(result), ErrorMemberView::Absent) => MessageView::Response {
                id,
                result,
                granted: e.granted,
            },
            (None, ErrorMemberView::Object(error)) => MessageView::Failure { id, error },
            _ => MessageView::Malformed,
        }
    }
}

/// What an object without an id says to a client: a notification where it
/// names a method and has neither result nor error; an item of a subscription
/// where its parameters name one and carry a payload.
pub open spec fn notice_of(e: EnvelopeView) -> MessageView {
    match (e.method, e.result, e.error) {
        (Some(method), None, ErrorMemberView::Absent) => match (e.subscription, e.payload) {
            (Some(subscription), Some(payload)) => MessageView::SubscriptionNotice {
                subscription,
                payload,
            },
            _ => MessageView::Notification { method },
        },
        _ => MessageView::Malformed,
    }
}

/// What an envelope says to a client. The version must be `2.0`, and an id,
/// where there is one, a whole number within `u64`.
pub open spec fn message_of(e: EnvelopeView) -> MessageView {
    if e.version != Some("2.0"@) {
        MessageView::Malformed
    } else {
        match e.id {
            Some(id) => match id.form {
                IdForm::Natural(n) => answer_of(n, e),
                _ => MessageView::Malformed,
            },
            None => notice_of(e),
        }
    }
}

/// Decides what an envelope says to a client.
pub fn classify(envelope: Envelope) -> (r: Message)
    ensures
        r@ == message_of(envelope@),
{
    if !version_is_two(&envelope.version) {
        return Message::Malformed;
    }
    match envelope.id {
        Some(id) => match id.form {
            IdForm::Natural(n) => {
                if envelope.method.is_some() {
                    return Message::Malformed;
                }
                match (envelope.result, envelope.error) {
                    (Some(result), ErrorMember::Absent) => Message::Response {
                        id: n,
                        result,
                        granted: envelope.granted,
                    },
                    (None, ErrorMember::Object(error)) => Message::Failure { id: n, error },
                    _ => Message::Malformed,
                }
            },
            _ => Message::Malformed,
        },
        None => match (envelope.method, envelope.result, envelope.error) {
            (Some(method), None, ErrorMember::Absent) => match (
                envelope.subscription,
                envelope.payload,
            ) {
                (Some(subscription), Some(payload)) => Message::SubscriptionNotice {
                    subscription,
                    payload,
                },
                _ => Message::Notification { method },
            },
            _ => Message::Malformed,
        },
    }
}

/// What a frame says to a client.
pub ghost enum InboundView {
    Single(MessageView),
    Batch(Seq<MessageView>),
    Malformed,
}

/// A frame of the server: one message, a batch of them, or nothing that can
/// be read.
#[derive(Debug)]
pub enum Inbound {
    Single(Message),
    Batch(Vec<Message>),
    Malformed,
}

impl View for Inbound {
    type V = InboundView;

    open spec fn view(&self) -> InboundView {
        match self {
            Inbound::Single(m) => InboundView::Single(m@),
            Inbound::Batch(v) => InboundView::Batch(message_views(v@)),
            Inbound::Malformed => InboundView::Malformed,
        }
    }
}

/// What each envelope of a list says to a client.
pub open spec fn messages_of(envelopes: Seq<EnvelopeView>) -> Seq<MessageView> {
    Seq::new(envelopes.len(), |i: int| message_of(envelopes[i]))
}

/// What a frame that was read says to a client.
pub open spec fn inbound_of(frame: RawFrameView) -> InboundView {
    match frame {
        RawFrameView::Single(e) => InboundView::Single(message_of(e)),
        RawFrameView::Batch(envelopes) => InboundView::Batch(messages_of(envelopes)),
        RawFrameView::Malformed => InboundView::Malformed,
    }
}

/// Decides what a frame that was read says to a client.
pub fn classify_frame(frame: RawFrame) -> (r: Inbound)
    ensures
        r@ == inbound_of(frame@),
{
    match frame {
        RawFrame::Single(e) => Inbound::Single(classify(e)),
        RawFrame::Batch(envelopes) => {
            let ghost all = envelope_views(envelopes@);
            let mut messages: Vec<Message> = Vec::new();
            for e in it: envelopes
                invariant
                    messages.len() == it.index(),
                    all == envelope_views(it.seq()),
                    forall|k: int|
                        0 <= k < messages.len() ==> (#[trigger] messages[k])@ == message_of(
                            all[k],
                        ),
            {
                messages.push(classify(e));
            }
            assert(message_views(messages@) =~= messages_of(all));
            Inbound::Batch(messages)
        },
        RawFrame::Malformed => Inbound::Malformed,
    }
}

/// Reads the text of a frame and decides what it says to a client.
pub fn read_inbound(text: &str) -> (r: Inbound)
    ensures
        r@ == inbound_of(frame_of(text@)),
{
    classify_frame(read_frame(text))
}

} // verus!
