//! Routing the requests of a connection to the methods of a server.
//!
//! The server does not run the handlers here. For each request it decides
//! which handler is to be invoked, with which id and parameters; where none
//! is, it puts the error that answers the request on the queue of the
//! connection.

use crate::server::{
    batch_response_text, collect_batch_response, enqueued, error_sent, send_error, RpcSender,
};
use crate::server::methods::{looked_up, Methods};
use crate::text::texts;
use crate::v2::envelope::{
    envelope_views, frame_of, read_frame, text_view, version_is_two, Envelope, EnvelopeView,
    ErrorMember, IdForm, RawFrame, RawFrameView,
};
use crate::v2::error::{JsonRpcErrorCode, JsonRpcErrorObject};
use vstd::prelude::*;
use vstd::string::*;

verus! {

/// What an invocation says.
pub ghost struct InvocationView {
    pub handler: int,
    pub id: Option<Seq<char>>,
    pub params: Option<Seq<char>>,
}

/// A handler to invoke: its place among the methods, the id of the request
/// as it came (none for a notification), and the parameters as JSON text
/// (none where the request has none).
#[derive(Debug)]
pub struct Invocation {
    pub handler: usize,
    pub id: Option<String>,
    pub params: Option<String>,
}

impl View for Invocation {
    type V = InvocationView;

    open spec fn view(&self) -> InvocationView {
        InvocationView {
            handler: self.handler as int,
            id: text_view(self.id),
            params: text_view(self.params),
        }
    }
}

/// The views of a vector of invocations, in order.
pub open spec fn invocation_views(v: Seq<Invocation>) -> Seq<InvocationView> {
    Seq::new(v.len(), |i: int| v[i]@)
}

/// What is decided of one request: a handler serves it, an error answers
/// it, or nothing is done.
pub ghost enum Routing {
    Serve(InvocationView),
    Refuse { id: Option<Seq<char>>, code: JsonRpcErrorCode },
    Ignore,
}

/// Whether an envelope is a request: its version is `2.0`, it names a
/// method, its id, where it has one, is a number or a string, and it has
/// neither result nor error.
pub open spec fn is_request(e: EnvelopeView) -> bool {
    &&& e.version == Some("2.0"@)
    &&& e.method is Some
    &&& e.id matches Some(id) ==> id.form != IdForm::Other
    &&& e.result is None
    &&& e.error is Absent
}

/// The id under which an envelope is answered: its own, where that is a
/// number or a string.
pub open spec fn echoed_id(e: EnvelopeView) -> Option<Seq<char>> {
    match e.id {
        Some(id) => if id.form != IdForm::Other {
            Some(id.text)
        } else {
            None
        },
        None => None,
    }
}

/// What is decided of an envelope, given the places of the handlers by
/// name: what is no request is refused as invalid; a request for a method
/// that is registered is served by its handler; a request for another method
/// is refused, and a notification for another method is ignored, for a
/// notification gets no answer.
pub open spec fn routing(places: Map<Seq<char>, usize>, e: EnvelopeView) -> Routing {
    if !is_request(e) {
        Routing::Refuse { id: echoed_id(e), code: JsonRpcErrorCode::InvalidRequest }
    } else {
        match looked_up(places, e.method.unwrap()) {
            Some(place) => Routing::Serve(
                InvocationView { handler: place as int, id: echoed_id(e), params: e.params },
            ),
            None => if e.id is Some {
                Routing::Refuse { id: echoed_id(e), code: JsonRpcErrorCode::MethodNotFound }
            } else {
                Routing::Ignore
            },
        }
    }
}

/// The queue of a connection after a request was routed: where the request
/// was refused, the error frame is added, if it can be written.
pub open spec fn queue_after(queue: Seq<Seq<char>>, routing: Routing) -> Seq<Seq<char>> {
    match routing {
        Routing::Refuse { id, code } => enqueued(
            queue,
            error_sent(id, JsonRpcErrorObject::spec_from_code(code)),
        ),
        _ => queue,
    }
}

/// The invocations of a batch: one for each request that is served, in the
/// order of the batch.
pub open spec fn batch_served(places: Map<Seq<char>, usize>, envelopes: Seq<EnvelopeView>) -> Seq<
    InvocationView,
>
    decreases envelopes.len(),
{
    if envelopes.len() == 0 {
        Seq::empty()
    } else {
        match routing(places, envelopes.last()) {
            Routing::Serve(invocation) => batch_served(places, envelopes.drop_last()).push(
                invocation,
            ),
            _ => batch_served(places, envelopes.drop_last()),
        }
    }
}

/// The error frames of a batch: one for each request that is refused, in
/// the order of the batch, behind what the queue held.
pub open spec fn batch_refused(
    places: Map<Seq<char>, usize>,
    envelopes: Seq<EnvelopeView>,
    queue: Seq<Seq<char>>,
) -> Seq<Seq<char>>
    decreases envelopes.len(),
{
    if envelopes.len() == 0 {
        queue
    } else {
        queue_after(
            batch_refused(places, envelopes.drop_last(), queue),
            routing(places, envelopes.last()),
        )
    }
}

/// What a dispatch says.
pub ghost enum DispatchView {
    Nothing,
    Single(InvocationView),
    Batch { invocations: Seq<InvocationView>, responses: Seq<Seq<char>> },
}

/// What is to be done for a frame.
#[derive(Debug)]
pub enum Dispatch {
    /// Nothing is to be invoked.
    Nothing,
    /// One handler is to be invoked; its answer goes on the queue of the
    /// connection.
    Single(Invocation),
    /// The handlers of a batch are to be invoked. Their answers go behind
    /// the responses given here, and all of them are sent as one frame.
    Batch { invocations: Vec<Invocation>, responses: Vec<String> },
}

impl View for Dispatch {
    type V = DispatchView;

    open spec fn view(&self) -> DispatchView {
        match self {
            Dispatch::Nothing => DispatchView::Nothing,
            Dispatch::Single(invocation) => DispatchView::Single(invocation@),
            Dispatch::Batch { invocations, responses } => DispatchView::Batch {
                invocations: invocation_views(invocations@),
                responses: texts(responses@),
            },
        }
    }
}

/// What is to be done for a frame, and the queue of the connection after
/// it: a frame that cannot be read is answered by a parse error, an empty
/// batch by an invalid request, both without an id; a single request is
/// routed; the requests of a batch are routed one by one, and the errors
/// among their answers are kept for the one frame that answers the batch.
pub open spec fn dispatching(
    places: Map<Seq<char>, usize>,
    frame: RawFrameView,
    queue: Seq<Seq<char>>,
) -> (
    DispatchView,
    Seq<Seq<char>>,
) {
    match frame {
        RawFrameView::Malformed => (
            DispatchView::Nothing,
            enqueued(
                queue,
                error_sent(None, JsonRpcErrorObject::spec_from_code(JsonRpcErrorCode::ParseError)),
            ),
        ),
        RawFrameView::Single(e) => match routing(places, e) {
            Routing::Serve(invocation) => (DispatchView::Single(invocation), queue),
            other => (DispatchView::Nothing, queue_after(queue, other)),
        },
        RawFrameView::Batch(envelopes) => if envelopes.len() == 0 {
            (
                DispatchView::Nothing,
                enqueued(
                    queue,
                    error_sent(
                        None,
                        JsonRpcErrorObject::spec_from_code(JsonRpcErrorCode::InvalidRequest),
                    ),
                ),
            )
        } else {
            (
                DispatchView::Batch {
                    invocations: batch_served(places, envelopes),
                    responses: batch_refused(places, envelopes, Seq::empty()),
                },
                queue,
            )
        },
    }
}

fn copy_text(text: &Option<String>) -> (r: Option<String>)
    ensures
        text_view(r) == text_view(*text),
{
    match text {
        Some(t) => Some(t.clone()),
        None => None,
    }
}

fn check_request(envelope: &Envelope) -> (b: bool)
    ensures
        b == is_request(envelope@),
{
    if !version_is_two(&envelope.version) {
        return false;
    }
    if envelope.method.is_none() || envelope.result.is_some() {
        return false;
    }
    match &envelope.error {
        ErrorMember::Absent => {},
        _ => {
            return false;
        },
    }
    match &envelope.id {
        Some(id) => match id.form {
            IdForm::Other => false,
            _ => true,
        },
        None => true,
    }
}

fn echo(envelope: &Envelope) -> (r: Option<&str>)
    ensures
        crate::v2::response::id_view(r) == echoed_id(envelope@),
{
    match &envelope.id {
        Some(id) => match id.form {
            IdForm::Other => None,
            _ => Some(id.text.as_str()),
        },
        None => None,
    }
}

impl<H> Methods<H> {
    /// Routes one request. Where a handler serves it, the invocation is
    /// returned; where it is refused, the error that answers it is put on
    /// the queue, which then holds one frame more.
    pub fn route(&self, envelope: &Envelope, tx: &mut RpcSender) -> (r: Option<Invocation>)
        requires
            self.wf(),
        ensures
            r matches Some(found) ==> found.handler < self.handlers().len(),
            routing(self.places(), envelope@) is Refuse ==> texts(final(tx)@).len() == texts(
                old(tx)@,
            ).len() + 1,
            match routing(self.places(), envelope@) {
                Routing::Serve(invocation) => r matches Some(found) && found@ == invocation,
                _ => r is None,
            },
            texts(final(tx)@) == queue_after(texts(old(tx)@), routing(self.places(), envelope@)),
    {
        if !check_request(envelope) {
            send_error(
                echo(envelope),
                tx,
                JsonRpcErrorObject::from(JsonRpcErrorCode::InvalidRequest),
            );
            return None;
        }
        let found = match &envelope.method {
            Some(method) => self.place(method.as_str()),
            None => None,
        };
        match found {
            Some(handler) => {
                let id = match echo(envelope) {
                    Some(text) => Some(String::from_str(text)),
                    None => None,
                };
                Some(Invocation { handler, id, params: copy_text(&envelope.params) })
            },
            None => {
                if envelope.id.is_some() {
                    send_error(
                        echo(envelope),
                        tx,
                        JsonRpcErrorObject::from(JsonRpcErrorCode::MethodNotFound),
                    );
                }
                None
            },
        }
    }

    /// Decides what is to be done for a frame that a client sent.
    pub fn dispatch(&self, text: &str, tx: &mut RpcSender) -> (r: Dispatch)
        requires
            self.wf(),
        ensures
            (r@, texts(final(tx)@)) == dispatching(
                self.places(),
                frame_of(text@),
                texts(old(tx)@),
            ),
    {
        match read_frame(text) {
            RawFrame::Malformed => {
                send_error(None, tx, JsonRpcErrorObject::from(JsonRpcErrorCode::ParseError));
                Dispatch::Nothing
            },
            RawFrame::Single(envelope) => match self.route(&envelope, tx) {
                Some(invocation) => Dispatch::Single(invocation),
                None => Dispatch::Nothing,
            },
            RawFrame::Batch(envelopes) => {
                if envelopes.len() == 0 {
                    send_error(None, tx, JsonRpcErrorObject::from(JsonRpcErrorCode::InvalidRequest));
                    return Dispatch::Nothing;
                }
                let ghost all = envelope_views(envelopes@);
                let mut invocations: Vec<Invocation> = Vec::new();
                let mut responses: Vec<String> = Vec::new();
                let mut i: usize = 0;
                proof {
                    assert(all.take(0) =~= Seq::<EnvelopeView>::empty());
                    assert(invocation_views(invocations@) =~= Seq::<InvocationView>::empty());
                    assert(texts(responses@) =~= Seq::<Seq<char>>::empty());
                }
                while i < envelopes.len()
                    invariant
                        i <= envelopes.len(),
                        self.wf(),
                        all == envelope_views(envelopes@),
                        invocation_views(invocations@) == batch_served(
                            self.places(),
                            all.take(i as int),
                        ),
                        texts(responses@) == batch_refused(
                            self.places(),
                            all.take(i as int),
                            Seq::empty(),
                        ),
                    decreases envelopes.len() - i,
                {
                    proof {
                        assert(all.take(i + 1).drop_last() =~= all.take(i as int));
                        assert(all.take(i + 1).last() == envelopes[i as int]@);
                    }
                    let ghost earlier = invocation_views(invocations@);
                    match self.route(&envelopes[i], &mut responses) {
                        Some(invocation) => {
                            invocations.push(invocation);
                            assert(invocation_views(invocations@) =~= earlier.push(invocation@));
                        },
                        None => {},
                    }
                    i += 1;
                }
                proof {
                    assert(all.take(envelopes.len() as int) =~= all);
                }
                Dispatch::Batch { invocations, responses }
            },
        }
    }
}

/// Puts the one frame that answers a batch on the queue of the connection:
/// a JSON array of the responses that were gathered, in their order.
pub fn finish_batch(responses: &Vec<String>, tx: &mut RpcSender)
    ensures
        texts(final(tx)@) == texts(old(tx)@).push(batch_response_text(texts(responses@))),
{
    let frame = collect_batch_response(responses);
    tx.push(frame);
    assert(texts(tx@) =~= texts(old(tx)@).push(frame@));
}

} // verus!
