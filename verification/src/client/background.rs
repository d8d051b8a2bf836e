//! The multiplexer of a client.
//!
//! One value of `Background` stands for one connection. It gives out the
//! request ids, keeps the registry of what the callers wait for, and decides,
//! for each frame that comes from the server and for each closing of the
//! connection, which waits end and with what. It does no input or output: its
//! caller writes the frames that it returns, and performs the actions that
//! it returns on the callers' channels.

use crate::client::effects::{
    abandoned_reason, action_views, all_answers, answer_id, answer_ids, batch_reply, batch_result,
    drained, ending, is_answer, lemma_failure_sticks, on_batch, on_failure, on_inbound, on_message,
    on_notice, on_response, refusal, result_view, single_id, Action, ActionView, Answer, Effect,
};
use crate::client::ids::{first_free, run_end, run_of, successor, RequestIdManager};
use crate::client::inbound::{
    inbound_of, message_views, read_inbound, Inbound, InboundView, Message,
};
use crate::client::manager::RequestManager;
use crate::client::pending::{
    admissible, answers, batch_of, in_flight, lemma_in_flight_push, lemma_in_flight_remove,
    lemma_in_flight_update, lemma_owner_of, lemma_subscriber_of, lemma_update, owned, owner_of,
    owns, pending_views, status_of, subscriber_of, well_formed, Pending, PendingView, RequestStatus,
};
use crate::error::{Error, ErrorView};
use crate::text::texts;
use crate::v2::envelope::{frame_of, subscription_view, text_view};
use crate::v2::error::{ErrorResponseView, JsonRpcErrorAlloc, JsonRpcErrorObject};
use crate::v2::params::{
    subscription_id_text, JsonRpcParams, ParamsView, SubscriptionId, SubscriptionIdView,
};
use crate::v2::request::{
    batch_text, call_views, call_writable, calls_writable, lemma_sealed_texts, notification_frame,
    notification_text, prepare, prepare_all, request_frame, request_text, seal, seal_batch,
};
use vstd::prelude::*;
use vstd::string::*;

verus! {

/// What a status says.
pub ghost enum StatusView {
    Connected,
    Terminating { reason: Seq<char> },
    Terminated,
}

/// The state of the connection.
#[derive(Debug)]
pub enum Status {
    /// Frames come and go.
    Connected,
    /// The connection is lost, for the given reason, and the waits have not
    /// been ended yet.
    Terminating(String),
    /// The connection is lost and every wait has been ended.
    Terminated,
}

impl View for Status {
    type V = StatusView;

    open spec fn view(&self) -> StatusView {
        match self {
            Status::Connected => StatusView::Connected,
            Status::Terminating(reason) => StatusView::Terminating { reason: reason@ },
            Status::Terminated => StatusView::Terminated,
        }
    }
}

/// What a multiplexer says: its status, the reason why its connection was
/// lost (empty while it is not), where the search for the next request id
/// starts, how many ids may be in flight, and the registry.
pub ghost struct ClientView {
    pub status: StatusView,
    pub cause: Seq<char>,
    pub next_id: u64,
    pub max_slots: nat,
    pub pending: Seq<PendingView>,
}

/// The multiplexer after its connection was lost for a reason and every
/// wait was ended.
pub open spec fn terminated(client: ClientView, reason: Seq<char>) -> ClientView {
    ClientView {
        status: StatusView::Terminated,
        cause: reason,
        pending: Seq::empty(),
        ..client
    }
}

/// The multiplexer after it learned that its connection is lost. One that
/// learned so before keeps its first reason.
pub open spec fn terminating(client: ClientView, reason: Seq<char>) -> ClientView {
    if client.status is Connected {
        ClientView { status: StatusView::Terminating { reason }, cause: reason, ..client }
    } else {
        client
    }
}

/// The multiplexer and the actions after the waits are ended: where the
/// connection is lost and the waits still stand, every one of them ends, in
/// the order in which they began.
pub open spec fn after_drain(client: ClientView) -> (ClientView, Seq<ActionView>) {
    match client.status {
        StatusView::Terminating { reason } => (
            terminated(client, reason),
            drained(client.pending, reason),
        ),
        _ => (client, Seq::empty()),
    }
}

/// The multiplexer and the actions after the connection is lost for a
/// reason: it learns of the loss, and the waits are ended.
pub open spec fn after_loss(client: ClientView, reason: Seq<char>) -> (ClientView, Seq<ActionView>) {
    after_drain(terminating(client, reason))
}

/// The multiplexer and the actions after a frame. A frame that comes after
/// the connection was lost changes nothing.
pub open spec fn after_inbound(client: ClientView, inbound: InboundView) -> (
    ClientView,
    Seq<ActionView>,
) {
    if client.status is Connected {
        match on_inbound(client.pending, inbound) {
            Effect::Continue { pending, actions } => (ClientView { pending, ..client }, actions),
            Effect::Fatal { reason } => after_loss(client, reason),
        }
    } else {
        (client, Seq::empty())
    }
}

/// Whether a step of the multiplexer carried out an effect: where the waits
/// go on, the registry is as the effect says, the actions are those of the
/// effect, and nothing else changed; where the connection ends, the reason is
/// that of the effect and nothing changed yet.
pub open spec fn carried_out(
    before: ClientView,
    after: ClientView,
    r: Result<Vec<Action>, String>,
    effect: Effect,
) -> bool {
    match r {
        Ok(actions) => effect == (Effect::Continue {
            pending: after.pending,
            actions: action_views(actions@),
        }) && after == (ClientView { pending: after.pending, ..before }),
        Err(reason) => effect == (Effect::Fatal { reason: reason@ }) && after == before,
    }
}

/// A request that was taken on: the id it got and the frame to write.
#[derive(Debug)]
pub struct Ticket {
    pub id: u64,
    pub frame: String,
}

/// A batch that was taken on: the ids that its calls got, in the order of
/// the calls, and the frame to write. Its result comes under the first id.
#[derive(Debug)]
pub struct BatchTicket {
    pub ids: Vec<u64>,
    pub frame: String,
}

/// Whether an error is the one that turns a request down: the demand to
/// restart, with the reason, where the connection is lost; else the codec's
/// complaint where the request cannot be written, which the functions that
/// take requests on state not to happen; else the report that no slot is
/// free for the ids that the request needs.
pub open spec fn turned_down(client: ClientView, writable: bool, slots: nat, error: ErrorView) -> bool {
    if !(client.status is Connected) {
        error == ErrorView::RestartNeeded(client.cause)
    } else if !writable {
        error is ParseError
    } else {
        error == ErrorView::MaxSlotsExceeded && in_flight(client.pending).len() + slots
            > client.max_slots
    }
}

/// What is said of a batch that holds no call.
pub open spec fn empty_batch_complaint() -> Seq<char> {
    "a batch holds at least one call"@
}

/// The parameters of an unsubscribe call: the subscription id alone.
pub open spec fn unsubscribe_params(subscription: SubscriptionIdView) -> ParamsView {
    ParamsView::Array(seq![subscription_id_text(subscription).unwrap()])
}

/// Whether the call that ends a subscription can be written.
pub open spec fn unsubscribe_writable(method: Seq<char>, subscription: SubscriptionIdView) -> bool {
    subscription_id_text(subscription) is Some && call_writable(
        method,
        unsubscribe_params(subscription),
    )
}

/// Whether a kind of entry is a wait for an answer: a call, a subscribe
/// call or a batch.
pub open spec fn waits_for_answer(status: RequestStatus) -> bool {
    status == RequestStatus::PendingMethodCall || status == RequestStatus::PendingSubscription
        || status == RequestStatus::PendingBatch
}

/// The multiplexer and the frame to write after the holder of a
/// subscription gave it up.
pub open spec fn after_unsubscribe(client: ClientView, subscription: SubscriptionIdView) -> (
    ClientView,
    Option<Seq<char>>,
) {
    if !(client.status is Connected) {
        (client, None)
    } else {
        match subscriber_of(client.pending, subscription) {
            None => (client, None),
            Some(i) => match client.pending[i] {
                PendingView::Subscription { id, unsubscribe_method, .. } => if unsubscribe_writable(
                    unsubscribe_method,
                    subscription,
                ) {
                    (
                        ClientView {
                            pending: client.pending.update(i, PendingView::Unsubscribe { id }),
                            ..client
                        },
                        Some(
                            request_text(unsubscribe_method, unsubscribe_params(subscription), id),
                        ),
                    )
                } else {
                    (ClientView { pending: client.pending.remove(i), ..client }, None)
                },
                _ => (client, None),
            },
        }
    }
}

/// The multiplexer of one connection.
#[derive(Debug)]
pub struct Background {
    status: Status,
    cause: String,
    ids: RequestIdManager,
    manager: RequestManager,
}

impl View for Background {
    type V = ClientView;

    closed spec fn view(&self) -> ClientView {
        ClientView {
            status: self.status@,
            cause: self.cause@,
            next_id: self.ids.next_id(),
            max_slots: self.ids.capacity(),
            pending: self.manager@,
        }
    }
}

fn one(action: Action) -> (r: Vec<Action>)
    ensures
        action_views(r@) == seq![action@],
{
    let mut r: Vec<Action> = Vec::new();
    r.push(action);
    assert(action_views(r@) =~= seq![action@]);
    r
}

fn none() -> (r: Vec<Action>)
    ensures
        action_views(r@) == Seq::<ActionView>::empty(),
{
    let r: Vec<Action> = Vec::new();
    assert(action_views(r@) =~= Seq::<ActionView>::empty());
    r
}

impl Background {
    /// What holds of every multiplexer: the pool and the registry are well
    /// formed, and the ids in use are those that the registry's entries own.
    pub closed spec fn wf(&self) -> bool {
        &&& self.ids.wf()
        &&& self.manager.wf()
        &&& self.ids.live() == in_flight(self.manager@)
    }

    /// The registry of a multiplexer is well formed, and no more ids are
    /// in flight than may be.
    pub proof fn lemma_wf(&self)
        requires
            self.wf(),
        ensures
            well_formed(self@.pending),
            in_flight(self@.pending).finite(),
            in_flight(self@.pending).len() <= self@.max_slots,
    {
        self.ids.lemma_live_finite();
        self.ids.lemma_within_capacity();
    }

    /// A multiplexer for a connection that stands, with no request in
    /// flight, which gives out at most `max_slots` ids at a time, from 0 on.
    pub fn new(max_slots: usize) -> (r: Background)
        ensures
            r.wf(),
            r@ == (ClientView {
                status: StatusView::Connected,
                cause: Seq::empty(),
                next_id: 0,
                max_slots: max_slots as nat,
                pending: Seq::empty(),
            }),
    {
        let r = Background {
            status: Status::Connected,
            cause: String::new(),
            ids: RequestIdManager::new(max_slots),
            manager: RequestManager::new(),
        };
        proof {
            assert(in_flight(r.manager@) =~= Set::<u64>::empty()) by {
                assert forall|id: u64| owner_of(r.manager@, id) is None by {
                    lemma_owner_of(r.manager@, id);
                }
            }
        }
        r
    }

    /// Whether the connection stands.
    pub fn is_connected(&self) -> (b: bool)
        ensures
            b == (self@.status is Connected),
    {
        match &self.status {
            Status::Connected => true,
            _ => false,
        }
    }

    /// The state of the connection.
    pub fn status(&self) -> (r: &Status)
        ensures
            r@ == self@.status,
    {
        &self.status
    }

    /// The kind of thing that owns a request id.
    pub fn request_status(&self, id: u64) -> (r: RequestStatus)
        ensures
            r == status_of(self@.pending, id),
    {
        self.manager.request_status(id)
    }

    /// How many requests are in flight, a batch counted once.
    pub fn pending_len(&self) -> (n: usize)
        ensures
            n == self@.pending.len(),
    {
        self.manager.len()
    }

    fn release_single(
        &mut self,
        id: u64,
        Ghost(before): Ghost<Seq<PendingView>>,
        Ghost(i): Ghost<int>,
    )
        requires
            old(self).ids.wf(),
            old(self).manager.wf(),
            well_formed(before),
            0 <= i < before.len(),
            !(before[i] is Batch),
            owns(before[i], id),
            old(self).manager@ == before.remove(i),
            old(self).ids.live() == in_flight(before),
        ensures
            final(self).wf(),
            final(self)@ == old(self)@,
    {
        self.ids.release(id);
        proof {
            lemma_in_flight_remove(before, i);
            assert(owned(before[i]) =~= set![id]);
            assert(self.ids.live() =~= in_flight(before.remove(i)));
        }
    }

    fn handle_response(&mut self, id: u64, result: String, granted: Option<SubscriptionId>) -> (r:
        Result<Vec<Action>, String>)
        requires
            old(self).wf(),
        ensures
            final(self).wf(),
            carried_out(
                old(self)@,
                final(self)@,
                r,
                on_response(old(self)@.pending, id, result@, subscription_view(granted)),
            ),
    {
        let ghost before = self.manager@;
        proof {
            lemma_owner_of(before, id);
        }
        match self.manager.request_status(id) {
            RequestStatus::PendingMethodCall => {
                let ghost i = owner_of(before, id).unwrap();
                self.manager.complete_call(id);
                self.release_single(id, Ghost(before), Ghost(i));
                Ok(one(Action::Reply { id, result: Ok(Answer::Value(result)) }))
            },
            RequestStatus::PendingSubscription => {
                let ghost i = owner_of(before, id).unwrap();
                match granted {
                    Some(subscription) => {
                        let copy = subscription.duplicate();
                        match self.manager.promote_sub(id, subscription) {
                            Ok(_) => {
                                proof {
                                    lemma_subscriber_of(before, copy@);
                                    lemma_in_flight_update(before, i, self.manager@[i]);
                                }
                                Ok(
                                    one(
                                        Action::Reply {
                                            id,
                                            result: Ok(Answer::Subscription(copy)),
                                        },
                                    ),
                                )
                            },
                            Err(_) => {
                                self.release_single(id, Ghost(before), Ghost(i));
                                Ok(
                                    one(
                                        Action::Reply {
                                            id,
                                            result: Err(Error::InvalidSubscriptionId),
                                        },
                                    ),
                                )
                            },
                        }
                    },
                    None => {
                        self.manager.complete_pending_sub(id);
                        self.release_single(id, Ghost(before), Ghost(i));
                        Ok(one(Action::Reply { id, result: Err(Error::InvalidSubscriptionId) }))
                    },
                }
            },
            RequestStatus::PendingUnsubscribe => {
                let ghost i = owner_of(before, id).unwrap();
                self.manager.complete_unsubscribe(id);
                self.release_single(id, Ghost(before), Ghost(i));
                Ok(none())
            },
            _ => Err(String::from_str("the server answered a request that is not pending")),
        }
    }

    fn handle_failure(&mut self, id: u64, error: JsonRpcErrorObject) -> (r: Result<
        Vec<Action>,
        String,
    >)
        requires
            old(self).wf(),
        ensures
            final(self).wf(),
            carried_out(
                old(self)@,
                final(self)@,
                r,
                on_failure(old(self)@.pending, id, error@),
            ),
    {
        let ghost before = self.manager@;
        proof {
            lemma_owner_of(before, id);
        }
        match self.manager.request_status(id) {
            RequestStatus::PendingMethodCall => {
                let ghost i = owner_of(before, id).unwrap();
                self.manager.complete_call(id);
                self.release_single(id, Ghost(before), Ghost(i));
                Ok(
                    one(
                        Action::Reply {
                            id,
                            result: Err(Error::Request(JsonRpcErrorAlloc { error, id })),
                        },
                    ),
                )
            },
            RequestStatus::PendingSubscription => {
                let ghost i = owner_of(before, id).unwrap();
                self.manager.complete_pending_sub(id);
                self.release_single(id, Ghost(before), Ghost(i));
                Ok(
                    one(
                        Action::Reply {
                            id,
                            result: Err(Error::Request(JsonRpcErrorAlloc { error, id })),
                        },
                    ),
                )
            },
            RequestStatus::PendingUnsubscribe => {
                let ghost i = owner_of(before, id).unwrap();
                self.manager.complete_unsubscribe(id);
                self.release_single(id, Ghost(before), Ghost(i));
                Ok(none())
            },
            _ => Err(String::from_str("the server answered a request that is not pending")),
        }
    }

    fn handle_notice(&self, subscription: SubscriptionId, payload: String) -> (r: Vec<Action>)
        requires
            self.wf(),
        ensures
            on_notice(self@.pending, subscription@, payload@) == (Effect::Continue {
                pending: self@.pending,
                actions: action_views(r@),
            }),
    {
        proof {
            lemma_subscriber_of(self.manager@, subscription@);
        }
        match self.manager.route_notification(&subscription) {
            Some(id) => one(Action::Notify { id, payload }),
            None => none(),
        }
    }

    fn handle_message(&mut self, message: Message) -> (r: Result<Vec<Action>, String>)
        requires
            old(self).wf(),
        ensures
            final(self).wf(),
            carried_out(old(self)@, final(self)@, r, on_message(old(self)@.pending, message@)),
    {
        match message {
            Message::Response { id, result, granted } => self.handle_response(id, result, granted),
            Message::Failure { id, error } => self.handle_failure(id, error),
            Message::SubscriptionNotice { subscription, payload } => Ok(
                self.handle_notice(subscription, payload),
            ),
            Message::Notification { .. } => Ok(none()),
            Message::Malformed => Err(
                String::from_str("the server sent a frame that is not a JSON-RPC message"),
            ),
        }
    }

    fn handle_batch(&mut self, items: Vec<Message>) -> (r: Result<Vec<Action>, String>)
        requires
            old(self).wf(),
        ensures
            final(self).wf(),
            carried_out(
                old(self)@,
                final(self)@,
                r,
                on_batch(old(self)@.pending, message_views(items@)),
            ),
    {
        let ghost all = message_views(items@);
        let mut got: Vec<u64> = Vec::new();
        let mut k: usize = 0;
        while k < items.len()
            invariant
                k <= items.len(),
                self.wf(),
                self@ == old(self)@,
                all == message_views(items@),
                got@.len() == k,
                forall|j: int| 0 <= j < k ==> is_answer(#[trigger] all[j]),
                forall|j: int| 0 <= j < k ==> (#[trigger] got@[j]) == answer_id(all[j]),
            decreases items.len() - k,
        {
            match &items[k] {
                Message::Response { id, .. } => {
                    got.push(*id);
                },
                Message::Failure { id, .. } => {
                    got.push(*id);
                },
                _ => {
                    assert(!is_answer(all[k as int]));
                    return Err(
                        String::from_str("the server sent a frame that is not a JSON-RPC message"),
                    );
                },
            }
            k += 1;
        }
        assert(got@ =~= answer_ids(all));
        let ghost before = self.manager@;
        match self.manager.complete_batch(&got) {
            Some(ids) => {
                let ghost i = batch_of(before, got@).unwrap();
                proof {
                    lemma_owner_of(before, got@[0]);
                    lemma_in_flight_remove(before, i);
                    assert(owned(before[i]) =~= ids@.to_set());
                }
                self.ids.release_all(&ids);
                let result = batch_answer(&ids, &items, &got);
                Ok(one(Action::Reply { id: ids[0], result }))
            },
            None => Err(String::from_str("the server answered a request that is not pending")),
        }
    }

    fn refuse(&self) -> (e: Error)
        requires
            !(self@.status is Connected),
        ensures
            e@ == ErrorView::RestartNeeded(self@.cause),
    {
        Error::RestartNeeded(self.cause.clone())
    }

    /// Takes on a call: gives it the next free id, registers the wait, and
    /// returns the id with the frame to write. It is turned down, and nothing
    /// changes, where the connection is lost and where no slot is free. The
    /// call itself is always written.
    pub fn request(&mut self, method: &str, params: &JsonRpcParams) -> (r: Result<Ticket, Error>)
        requires
            old(self).wf(),
        ensures
            final(self).wf(),
            old(self)@.status is Connected ==> call_writable(method@, params@),
            match r {
                Ok(ticket) => {
                    &&& old(self)@.status is Connected
                    &&& call_writable(method@, params@)
                    &&& in_flight(old(self)@.pending).len() < old(self)@.max_slots
                    &&& first_free(in_flight(old(self)@.pending), old(self)@.next_id, ticket.id)
                    &&& ticket.frame@ == request_text(method@, params@, ticket.id)
                    &&& final(self)@ == (ClientView {
                        next_id: successor(ticket.id),
                        pending: old(self)@.pending.push(PendingView::Call { id: ticket.id }),
                        ..old(self)@
                    })
                },
                Err(e) => final(self)@ == old(self)@ && turned_down(
                    old(self)@,
                    call_writable(method@, params@),
                    1,
                    e@,
                ),
            },
    {
        if !self.is_connected() {
            return Err(self.refuse());
        }
        let call = match prepare(method, params) {
            Ok(call) => call,
            Err(e) => {
                return Err(Error::ParseError(e));
            },
        };
        let id = match self.ids.acquire() {
            Ok(id) => id,
            Err(e) => {
                return Err(e);
            },
        };
        let ghost entry = PendingView::Call { id };
        proof {
            assert(admissible(old(self).manager@, entry));
            lemma_in_flight_push(old(self).manager@, entry);
            assert(owned(entry) =~= set![id]);
            assert(self.ids.live() =~= in_flight(old(self).manager@.push(entry)));
        }
        match self.manager.insert_call(id) {
            Ok(_) => {},
            Err(_) => {
                proof {
                    assert(false);
                }
            },
        }
        Ok(Ticket { id, frame: seal(&call, Some(id)) })
    }

    /// Writes the frame of a notification. Nothing is registered: no answer
    /// is waited for. It is turned down where the connection is lost, and
    /// there only: the notification itself is always written.
    pub fn notification(&self, method: &str, params: &JsonRpcParams) -> (r: Result<String, Error>)
        requires
            self.wf(),
        ensures
            r is Ok == (self@.status is Connected),
            match r {
                Ok(frame) => {
                    &&& self@.status is Connected
                    &&& call_writable(method@, params@)
                    &&& frame@ == notification_text(method@, params@)
                },
                Err(e) => if !(self@.status is Connected) {
                    e@ == ErrorView::RestartNeeded(self@.cause)
                } else {
                    e@ is ParseError && !call_writable(method@, params@)
                },
            },
    {
        if !self.is_connected() {
            return Err(self.refuse());
        }
        match notification_frame(method, params) {
            Ok(frame) => Ok(frame),
            Err(e) => Err(Error::ParseError(e)),
        }
    }

    /// Takes on a subscribe call: gives it the next free id, registers the
    /// wait with the method that will end the subscription, and returns the
    /// id with the frame to write. It is turned down, and nothing changes,
    /// where the connection is lost and where no slot is free. The call
    /// itself is always written.
    pub fn subscribe(
        &mut self,
        subscribe_method: &str,
        params: &JsonRpcParams,
        unsubscribe_method: &str,
    ) -> (r: Result<Ticket, Error>)
        requires
            old(self).wf(),
        ensures
            final(self).wf(),
            old(self)@.status is Connected ==> call_writable(subscribe_method@, params@),
            match r {
                Ok(ticket) => {
                    &&& old(self)@.status is Connected
                    &&& call_writable(subscribe_method@, params@)
                    &&& in_flight(old(self)@.pending).len() < old(self)@.max_slots
                    &&& first_free(in_flight(old(self)@.pending), old(self)@.next_id, ticket.id)
                    &&& ticket.frame@ == request_text(subscribe_method@, params@, ticket.id)
                    &&& final(self)@ == (ClientView {
                        next_id: successor(ticket.id),
                        pending: old(self)@.pending.push(
                            PendingView::Subscribe {
                                id: ticket.id,
                                unsubscribe_method: unsubscribe_method@,
                            },
                        ),
                        ..old(self)@
                    })
                },
                Err(e) => final(self)@ == old(self)@ && turned_down(
                    old(self)@,
                    call_writable(subscribe_method@, params@),
                    1,
                    e@,
                ),
            },
    {
        if !self.is_connected() {
            return Err(self.refuse());
        }
        let call = match prepare(subscribe_method, params) {
            Ok(call) => call,
            Err(e) => {
                return Err(Error::ParseError(e));
            },
        };
        let id = match self.ids.acquire() {
            Ok(id) => id,
            Err(e) => {
                return Err(e);
            },
        };
        let ghost entry = PendingView::Subscribe { id, unsubscribe_method: unsubscribe_method@ };
        proof {
            assert(admissible(old(self).manager@, entry));
            lemma_in_flight_push(old(self).manager@, entry);
            assert(owned(entry) =~= set![id]);
            assert(self.ids.live() =~= in_flight(old(self).manager@.push(entry)));
        }
        match self.manager.insert_pending_sub(id, String::from_str(unsubscribe_method)) {
            Ok(_) => {},
            Err(_) => {
                proof {
                    assert(false);
                }
            },
        }
        Ok(Ticket { id, frame: seal(&call, Some(id)) })
    }

    /// Takes on a batch of calls: gives each call the next free id, in the
    /// order of the calls, registers one wait for all of them, and returns the
    /// ids with the frame to write. It is turned down, and nothing changes,
    /// where the connection is lost, where the batch holds no call, and where
    /// there are fewer free slots than calls. The calls themselves are
    /// always written.
    pub fn batch_request(&mut self, calls: &Vec<(String, JsonRpcParams)>) -> (r: Result<
        BatchTicket,
        Error,
    >)
        requires
            old(self).wf(),
        ensures
            final(self).wf(),
            old(self)@.status is Connected ==> calls_writable(call_views(calls@)),
            match r {
                Ok(ticket) => {
                    &&& old(self)@.status is Connected
                    &&& calls@.len() > 0
                    &&& calls_writable(call_views(calls@))
                    &&& in_flight(old(self)@.pending).len() + calls@.len() <= old(self)@.max_slots
                    &&& ticket.ids@.len() == calls@.len()
                    &&& run_of(in_flight(old(self)@.pending), old(self)@.next_id, ticket.ids@)
                    &&& ticket.frame@ == batch_text(call_views(calls@), ticket.ids@)
                    &&& final(self)@ == (ClientView {
                        next_id: run_end(old(self)@.next_id, ticket.ids@),
                        pending: old(self)@.pending.push(PendingView::Batch { ids: ticket.ids@ }),
                        ..old(self)@
                    })
                },
                Err(e) => final(self)@ == old(self)@ && if old(self)@.status is Connected
                    && calls@.len() == 0 {
                    e@ == ErrorView::Custom(empty_batch_complaint())
                } else {
                    turned_down(
                        old(self)@,
                        calls_writable(call_views(calls@)),
                        calls@.len(),
                        e@,
                    )
                },
            },
    {
        if !self.is_connected() {
            return Err(self.refuse());
        }
        if calls.len() == 0 {
            return Err(Error::Custom(String::from_str("a batch holds at least one call")));
        }
        let prepared = match prepare_all(calls) {
            Ok(prepared) => prepared,
            Err(e) => {
                return Err(Error::ParseError(e));
            },
        };
        proof {
            self.ids.lemma_live_finite();
        }
        let ids = match self.ids.acquire_many(calls.len()) {
            Ok(ids) => ids,
            Err(e) => {
                return Err(e);
            },
        };
        let frame = seal_batch(&prepared, &ids);
        proof {
            lemma_sealed_texts(prepared@, call_views(calls@), ids@);
        }
        let ghost entry = PendingView::Batch { ids: ids@ };
        let ghost live = old(self).ids.live();
        proof {
            assert(owned(entry) =~= ids@.to_set());
            assert forall|k: int| 0 <= k < ids@.len() implies !live.contains(#[trigger] ids@[k])
                && !ids@.take(k).contains(ids@[k]) by {
                assert(first_free(
                    live.union(ids@.take(k).to_set()),
                    run_end(old(self).ids.next_id(), ids@.take(k)),
                    ids@[k],
                ));
            }
            assert(ids@.no_duplicates()) by {
                assert forall|a: int, b: int| 0 <= a < b < ids@.len() implies ids@[a] != ids@[b] by {
                    assert(ids@.take(b)[a] == ids@[a]);
                }
            }
            assert(admissible(old(self).manager@, entry));
            lemma_in_flight_push(old(self).manager@, entry);
        }
        match self.manager.insert_batch(copy_of(&ids)) {
            Ok(_) => {},
            Err(_) => {
                proof {
                    assert(false);
                }
            },
        }
        Ok(BatchTicket { ids, frame })
    }

    /// Gives up the wait that owns a request id, if it is a call, a
    /// subscribe call or a batch, and frees its ids. It returns whether there
    /// was such a wait; where there was none, nothing changes.
    pub fn cancel(&mut self, id: u64) -> (r: bool)
        requires
            old(self).wf(),
        ensures
            final(self).wf(),
            r == waits_for_answer(status_of(old(self)@.pending, id)),
            final(self)@ == if r {
                ClientView {
                    pending: old(self)@.pending.remove(owner_of(old(self)@.pending, id).unwrap()),
                    ..old(self)@
                }
            } else {
                old(self)@
            },
    {
        let ghost before = self.manager@;
        proof {
            lemma_owner_of(before, id);
        }
        match self.manager.request_status(id) {
            RequestStatus::PendingMethodCall | RequestStatus::PendingSubscription
            | RequestStatus::PendingBatch => {},
            _ => {
                return false;
            },
        }
        let ghost i = owner_of(before, id).unwrap();
        match self.manager.remove(id) {
            Some(Pending::Batch { ids }) => {
                proof {
                    lemma_in_flight_remove(before, i);
                    assert(owned(before[i]) =~= ids@.to_set());
                }
                self.ids.release_all(&ids);
            },
            Some(_) => {
                self.release_single(id, Ghost(before), Ghost(i));
            },
            None => {
                proof {
                    assert(false);
                }
            },
        }
        true
    }

    /// Ends a wait that took too long: the wait that owns a request id, if
    /// it is a call, a subscribe call or a batch, is given up, its ids are
    /// freed, and its caller gets a timeout. Where there is no such wait,
    /// nothing happens.
    pub fn time_out(&mut self, id: u64) -> (r: Vec<Action>)
        requires
            old(self).wf(),
        ensures
            final(self).wf(),
            final(self)@ == if waits_for_answer(status_of(old(self)@.pending, id)) {
                ClientView {
                    pending: old(self)@.pending.remove(owner_of(old(self)@.pending, id).unwrap()),
                    ..old(self)@
                }
            } else {
                old(self)@
            },
            action_views(r@) == if waits_for_answer(status_of(old(self)@.pending, id)) {
                seq![
                    refusal(
                        single_id(old(self)@.pending[owner_of(old(self)@.pending, id).unwrap()]),
                        ErrorView::RequestTimeout,
                    ),
                ]
            } else {
                Seq::<ActionView>::empty()
            },
    {
        let ghost before = self.manager@;
        proof {
            lemma_owner_of(before, id);
            self.lemma_wf();
        }
        let first = match self.manager.owner(id) {
            Some(i) => match self.manager.entry(i) {
                Pending::Batch { ids } => ids[0],
                _ => id,
            },
            None => id,
        };
        if self.cancel(id) {
            one(Action::Reply { id: first, result: Err(Error::RequestTimeout) })
        } else {
            none()
        }
    }

    /// Ends a subscription at the wish of its holder, or because an item
    /// could not be handed to a holder that is gone: the subscription
    /// becomes an unsubscribe call under the same request id, and the frame of
    /// that call is returned. Were the call not written, the subscription
    /// would be dropped and its id freed without a frame; it is always
    /// written. Where the connection is lost or the subscription id is not
    /// registered, nothing happens.
    pub fn unsubscribe(&mut self, subscription: &SubscriptionId) -> (r: Option<String>)
        requires
            old(self).wf(),
        ensures
            final(self).wf(),
            r is Some == (old(self)@.status is Connected && subscriber_of(
                old(self)@.pending,
                subscription@,
            ) is Some),
            (final(self)@, text_view(r)) == after_unsubscribe(
                old(self)@,
                subscription@,
            ),
    {
        if !self.is_connected() {
            return None;
        }
        let ghost before = self.manager@;
        proof {
            lemma_subscriber_of(before, subscription@);
        }
        let (id, method) = match self.manager.begin_unsubscribe(subscription) {
            Some(found) => found,
            None => {
                return None;
            },
        };
        let ghost i = subscriber_of(before, subscription@).unwrap();
        let ghost changed = self.manager@;
        proof {
            lemma_in_flight_update(before, i, PendingView::Unsubscribe { id });
            lemma_update(before, i, PendingView::Unsubscribe { id });
            lemma_owner_of(before, id);
            assert(owns(before[i], id));
            assert(owner_of(before, id) == Some(i));
            assert(owner_of(changed, id) == Some(i));
            assert(changed.remove(i) =~= before.remove(i));
        }
        let frame = match subscription.write() {
            Ok(text) => {
                let mut items: Vec<String> = Vec::new();
                items.push(text);
                let params = JsonRpcParams::Array(items);
                assert(texts(items@) =~= seq![text@]);
                match request_frame(method.as_str(), &params, id) {
                    Ok(frame) => Some(frame),
                    Err(_) => None,
                }
            },
            Err(_) => None,
        };
        match frame {
            Some(frame) => Some(frame),
            None => {
                self.manager.complete_unsubscribe(id);
                self.release_single(id, Ghost(changed), Ghost(i));
                None
            },
        }
    }

    /// Takes note that the connection is lost, for the given reason. Where
    /// that was known before, nothing changes.
    pub fn terminate(&mut self, reason: String)
        requires
            old(self).wf(),
        ensures
            final(self).wf(),
            final(self)@ == terminating(old(self)@, reason@),
    {
        if self.is_connected() {
            self.cause = reason.clone();
            self.status = Status::Terminating(reason);
        }
    }

    /// Ends every wait after the connection was lost. Each caller that waits
    /// for a result is told to restart, with the reason of the loss; each
    /// stream of a subscription is closed. Where the connection stands, or
    /// the waits were ended before, nothing happens.
    pub fn drain(&mut self) -> (r: Vec<Action>)
        requires
            old(self).wf(),
        ensures
            final(self).wf(),
            (final(self)@, action_views(r@)) == after_drain(old(self)@),
    {
        let mut status = Status::Terminated;
        core::mem::swap(&mut self.status, &mut status);
        match status {
            Status::Terminating(reason) => {
                let ghost before = self.manager@;
                let entries = self.manager.drain();
                self.ids.clear();
                let mut actions: Vec<Action> = Vec::new();
                for entry in it: entries
                    invariant
                        actions.len() == it.index(),
                        before == pending_views(it.seq()),
                        well_formed(before),
                        forall|k: int|
                            0 <= k < actions.len() ==> (#[trigger] actions[k])@ == ending(
                                before[k],
                                reason@,
                            ),
                {
                    let ghost k = actions.len() as int;
                    assert(entry@ == before[k]);
                    actions.push(ending_of(entry, &reason));
                }
                self.cause = reason;
                proof {
                    assert(action_views(actions@) =~= drained(before, self.cause@));
                    assert(in_flight(self.manager@) =~= Set::<u64>::empty()) by {
                        assert forall|id: u64| owner_of(self.manager@, id) is None by {
                            lemma_owner_of(self.manager@, id);
                        }
                    }
                }
                actions
            },
            other => {
                self.status = other;
                none()
            },
        }
    }

    /// Carries out what a step decided: where the step ended the connection,
    /// every wait is ended.
    fn conclude(&mut self, step: Result<Vec<Action>, String>) -> (r: Vec<Action>)
        requires
            old(self).wf(),
        ensures
            final(self).wf(),
            (final(self)@, action_views(r@)) == match step {
                Ok(actions) => (old(self)@, action_views(actions@)),
                Err(reason) => after_loss(old(self)@, reason@),
            },
    {
        match step {
            Ok(actions) => actions,
            Err(reason) => {
                self.terminate(reason);
                self.drain()
            },
        }
    }

    /// Decides what a frame of the server, already read, means for the
    /// waits. A frame that comes after the connection was lost changes
    /// nothing.
    pub fn handle_inbound(&mut self, inbound: Inbound) -> (r: Vec<Action>)
        requires
            old(self).wf(),
        ensures
            final(self).wf(),
            (final(self)@, action_views(r@)) == after_inbound(old(self)@, inbound@),
    {
        if !self.is_connected() {
            return none();
        }
        let step = match inbound {
            Inbound::Single(message) => self.handle_message(message),
            Inbound::Batch(items) => self.handle_batch(items),
            Inbound::Malformed => Err(
                String::from_str("the server sent a frame that is not a JSON-RPC message"),
            ),
        };
        self.conclude(step)
    }

    /// Reads a frame of the server and decides what it means for the waits.
    pub fn handle_frame(&mut self, text: &str) -> (r: Vec<Action>)
        requires
            old(self).wf(),
        ensures
            final(self).wf(),
            (final(self)@, action_views(r@)) == after_inbound(
                old(self)@,
                inbound_of(frame_of(text@)),
            ),
    {
        let inbound = read_inbound(text);
        self.handle_inbound(inbound)
    }

    /// Decides what follows where the transport closed or failed, for the
    /// reason given: every wait ends.
    pub fn transport_closed(&mut self, reason: String) -> (r: Vec<Action>)
        requires
            old(self).wf(),
        ensures
            final(self).wf(),
            (final(self)@, action_views(r@)) == after_loss(old(self)@, reason@),
    {
        self.terminate(reason);
        self.drain()
    }

    /// Decides what follows where every handle of the client is gone: the
    /// connection ends as if it was lost.
    pub fn frontend_closed(&mut self) -> (r: Vec<Action>)
        requires
            old(self).wf(),
        ensures
            final(self).wf(),
            (final(self)@, action_views(r@)) == after_loss(old(self)@, abandoned_reason()),
    {
        self.terminate(String::from_str("every handle of the client was dropped"));
        self.drain()
    }
}

fn copy_of(ids: &Vec<u64>) -> (r: Vec<u64>)
    ensures
        r@ == ids@,
{
    let mut r: Vec<u64> = Vec::new();
    let mut k: usize = 0;
    while k < ids.len()
        invariant
            k <= ids.len(),
            r@ == ids@.take(k as int),
        decreases ids.len() - k,
    {
        r.push(ids[k]);
        assert(r@ =~= ids@.take(k + 1));
        k += 1;
    }
    assert(ids@.take(ids@.len() as int) =~= ids@);
    r
}

fn place(got: &Vec<u64>, id: u64) -> (r: Option<usize>)
    ensures
        match r {
            Some(k) => got@.index_of_first(id) == Some(k as int) && k < got@.len(),
            None => got@.index_of_first(id) is None,
        },
{
    let mut k: usize = 0;
    while k < got.len()
        invariant
            k <= got.len(),
            forall|j: int| 0 <= j < k ==> got@[j] != id,
        decreases got.len() - k,
    {
        if got[k] == id {
            proof {
                got@.index_of_first_ensures(id);
            }
            return Some(k);
        }
        k += 1;
    }
    proof {
        got@.index_of_first_ensures(id);
    }
    None
}

fn batch_answer(ids: &Vec<u64>, items: &Vec<Message>, got: &Vec<u64>) -> (r: Result<Answer, Error>)
    requires
        got@ == answer_ids(message_views(items@)),
        answers(ids@, got@),
        all_answers(message_views(items@)),
    ensures
        result_view(r) == batch_reply(ids@, message_views(items@)),
{
    let ghost all = message_views(items@);
    let mut values: Vec<String> = Vec::new();
    let mut p: usize = 0;
    proof {
        assert(ids@.take(0) =~= Seq::<u64>::empty());
        assert(texts(values@) =~= Seq::<Seq<char>>::empty());
    }
    while p < ids.len()
        invariant
            p <= ids.len(),
            all == message_views(items@),
            got@ == answer_ids(all),
            answers(ids@, got@),
            all_answers(all),
            batch_result(ids@.take(p as int), all) == Ok::<Seq<Seq<char>>, ErrorResponseView>(
                texts(values@),
            ),
        decreases ids.len() - p,
    {
        let ghost shorter = ids@.take(p as int);
        let ghost longer = ids@.take(p + 1);
        proof {
            assert(longer.drop_last() =~= shorter);
            assert(longer.last() == ids@[p as int]);
            assert(got@.contains(ids@[p as int]));
            got@.index_of_first_ensures(ids@[p as int]);
        }
        let k = match place(got, ids[p]) {
            Some(k) => k,
            None => {
                proof {
                    assert(false);
                }
                return Err(Error::InvalidRequestId);
            },
        };
        assert(all[k as int] == items@[k as int]@);
        assert(is_answer(all[k as int]));
        match &items[k] {
            Message::Response { result, .. } => {
                let ghost earlier = texts(values@);
                values.push(result.clone());
                assert(texts(values@) =~= earlier.push(result@));
            },
            Message::Failure { error, .. } => {
                proof {
                    lemma_failure_sticks(ids@, all, p + 1);
                }
                return Err(
                    Error::Request(JsonRpcErrorAlloc { error: error.duplicate(), id: ids[p] }),
                );
            },
            _ => {
                proof {
                    assert(false);
                }
            },
        }
        p += 1;
    }
    proof {
        assert(ids@.take(ids@.len() as int) =~= ids@);
    }
    Ok(Answer::Values(values))
}

fn ending_of(entry: Pending, reason: &String) -> (r: Action)
    requires
        entry@ matches PendingView::Batch { ids } ==> ids.len() > 0,
    ensures
        r@ == ending(entry@, reason@),
{
    match entry {
        Pending::Call { id } => Action::Reply {
            id,
            result: Err(Error::RestartNeeded(reason.clone())),
        },
        Pending::Subscribe { id, .. } => Action::Reply {
            id,
            result: Err(Error::RestartNeeded(reason.clone())),
        },
        Pending::Subscription { id, .. } => Action::Close { id },
        Pending::Unsubscribe { id } => Action::Close { id },
        Pending::Batch { ids } => Action::Reply {
            id: ids[0],
            result: Err(Error::RestartNeeded(reason.clone())),
        },
    }
}

} // verus!
