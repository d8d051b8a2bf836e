//! What the frames of a server do to the registry of a client.
//!
//! An effect is stated over the entries of the registry alone: which waits
//! end, with what, and which go on.

use crate::client::inbound::{InboundView, MessageView};
use crate::client::pending::{batch_of, owner_of, subscriber_of, PendingView};
use crate::error::{Error, ErrorView};
use crate::text::texts;
use crate::v2::error::{ErrorObjectView, ErrorResponseView};
use crate::v2::params::{SubscriptionId, SubscriptionIdView};
use vstd::prelude::*;

verus! {

/// What an answer says.
pub ghost enum AnswerView {
    Value(Seq<char>),
    Values(Seq<Seq<char>>),
    Subscription(SubscriptionIdView),
}

/// What a caller gets where its request succeeded.
#[derive(Debug)]
pub enum Answer {
    /// The result of a call, as JSON text.
    Value(String),
    /// The results of the calls of a batch, as JSON text, in the order of
    /// the calls.
    Values(Vec<String>),
    /// The id of the subscription that a subscribe call opened.
    Subscription(SubscriptionId),
}

impl View for Answer {
    type V = AnswerView;

    open spec fn view(&self) -> AnswerView {
        match self {
            Answer::Value(v) => AnswerView::Value(v@),
            Answer::Values(v) => AnswerView::Values(texts(v@)),
            Answer::Subscription(s) => AnswerView::Subscription(s@),
        }
    }
}

/// The view of what a caller gets.
pub open spec fn result_view(result: Result<Answer, Error>) -> Result<AnswerView, ErrorView> {
    match result {
        Ok(answer) => Ok(answer@),
        Err(error) => Err(error@),
    }
}

/// What an action says.
pub ghost enum ActionView {
    Reply { id: u64, result: Result<AnswerView, ErrorView> },
    Notify { id: u64, payload: Seq<char> },
    Close { id: u64 },
}

/// What the caller of the multiplexer is to do on a channel. The id names
/// the channel: it is the request id under which the wait began, and for a
/// batch the id of its first call.
#[derive(Debug)]
pub enum Action {
    /// End the wait with this result.
    Reply { id: u64, result: Result<Answer, Error> },
    /// Hand this item, as JSON text, to the subscription.
    Notify { id: u64, payload: String },
    /// Close the stream of the subscription.
    Close { id: u64 },
}

impl View for Action {
    type V = ActionView;

    open spec fn view(&self) -> ActionView {
        match self {
            Action::Reply { id, result } => ActionView::Reply {
                id: *id,
                result: result_view(*result),
            },
            Action::Notify { id, payload } => ActionView::Notify { id: *id, payload: payload@ },
            Action::Close { id } => ActionView::Close { id: *id },
        }
    }
}

/// The views of a vector of actions, in order.
pub open spec fn action_views(v: Seq<Action>) -> Seq<ActionView> {
    Seq::new(v.len(), |i: int| v[i]@)
}

/// Why the connection ends where a frame is no JSON-RPC message.
pub open spec fn malformed_reason() -> Seq<char> {
    "the server sent a frame that is not a JSON-RPC message"@
}

/// Why the connection ends where a frame answers nothing that is waited for.
pub open spec fn unexpected_reason() -> Seq<char> {
    "the server answered a request that is not pending"@
}

/// Why the connection ends where every handle of the client is gone.
pub open spec fn abandoned_reason() -> Seq<char> {
    "every handle of the client was dropped"@
}

/// What a frame does to the registry: either the waits go on, with the
/// registry as it then is and the actions to perform, or the connection ends.
pub ghost enum Effect {
    Continue { pending: Seq<PendingView>, actions: Seq<ActionView> },
    Fatal { reason: Seq<char> },
}

/// The action that ends a wait with an error.
pub open spec fn refusal(id: u64, error: ErrorView) -> ActionView {
    ActionView::Reply { id, result: Err(error) }
}

/// What a response does: it ends the call that waits under its id with the
/// result; it turns a subscribe call into a subscription, or ends it with an
/// invalid subscription id where the result holds no subscription id or one
/// that is registered already; it ends an unsubscribe call silently. A
/// response to anything else ends the connection.
pub open spec fn on_response(
    pending: Seq<PendingView>,
    id: u64,
    result: Seq<char>,
    granted: Option<SubscriptionIdView>,
) -> Effect {
    match owner_of(pending, id) {
        None => Effect::Fatal { reason: unexpected_reason() },
        Some(i) => match pending[i] {
            PendingView::Call { .. } => Effect::Continue {
                pending: pending.remove(i),
                actions: seq![ActionView::Reply { id, result: Ok(AnswerView::Value(result)) }],
            },
            PendingView::Subscribe { unsubscribe_method, .. } => match granted {
                Some(subscription) => if subscriber_of(pending, subscription) is None {
                    Effect::Continue {
                        pending: pending.update(
                            i,
                            PendingView::Subscription { id, subscription, unsubscribe_method },
                        ),
                        actions: seq![
                            ActionView::Reply {
                                id,
                                result: Ok(AnswerView::Subscription(subscription)),
                            },
                        ],
                    }
                } else {
                    Effect::Continue {
                        pending: pending.remove(i),
                        actions: seq![refusal(id, ErrorView::InvalidSubscriptionId)],
                    }
                },
                None => Effect::Continue {
                    pending: pending.remove(i),
                    actions: seq![refusal(id, ErrorView::InvalidSubscriptionId)],
                },
            },
            PendingView::Unsubscribe { .. } => Effect::Continue {
                pending: pending.remove(i),
                actions: Seq::empty(),
            },
            _ => Effect::Fatal { reason: unexpected_reason() },
        },
    }
}

/// What an error response does: it ends the call or the subscribe call that
/// waits under its id with the error of the server; it ends an unsubscribe
/// call silently. An error response to anything else ends the connection.
pub open spec fn on_failure(pending: Seq<PendingView>, id: u64, error: ErrorObjectView) -> Effect {
    match owner_of(pending, id) {
        None => Effect::Fatal { reason: unexpected_reason() },
        Some(i) => match pending[i] {
            PendingView::Call { .. } | PendingView::Subscribe { .. } => Effect::Continue {
                pending: pending.remove(i),
                actions: seq![refusal(id, ErrorView::Request(ErrorResponseView { error, id }))],
            },
            PendingView::Unsubscribe { .. } => Effect::Continue {
                pending: pending.remove(i),
                actions: Seq::empty(),
            },
            _ => Effect::Fatal { reason: unexpected_reason() },
        },
    }
}

/// The request id of an entry that owns one id.
pub open spec fn single_id(entry: PendingView) -> u64 {
    match entry {
        PendingView::Call { id } => id,
        PendingView::Subscribe { id, .. } => id,
        PendingView::Subscription { id, .. } => id,
        PendingView::Unsubscribe { id } => id,
        PendingView::Batch { ids } => ids[0],
    }
}

/// What an item of a subscription does: it goes to the subscription that is
/// registered under its subscription id, and is dropped where none is.
pub open spec fn on_notice(
    pending: Seq<PendingView>,
    subscription: SubscriptionIdView,
    payload: Seq<char>,
) -> Effect {
    match subscriber_of(pending, subscription) {
        Some(i) => Effect::Continue {
            pending,
            actions: seq![ActionView::Notify { id: single_id(pending[i]), payload }],
        },
        None => Effect::Continue { pending, actions: Seq::empty() },
    }
}

/// What one message does.
pub open spec fn on_message(pending: Seq<PendingView>, message: MessageView) -> Effect {
    match message {
        MessageView::Response { id, result, granted } => on_response(pending, id, result, granted),
        MessageView::Failure { id, error } => on_failure(pending, id, error),
        MessageView::SubscriptionNotice { subscription, payload } => on_notice(
            pending,
            subscription,
            payload,
        ),
        MessageView::Notification { .. } => Effect::Continue { pending, actions: Seq::empty() },
        MessageView::Malformed => Effect::Fatal { reason: malformed_reason() },
    }
}

/// Whether a message answers a request: it is a response or an error
/// response.
pub open spec fn is_answer(message: MessageView) -> bool {
    message is Response || message is Failure
}

/// The request id that an answer carries.
pub open spec fn answer_id(message: MessageView) -> u64 {
    match message {
        MessageView::Response { id, .. } => id,
        MessageView::Failure { id, .. } => id,
        _ => 0,
    }
}

/// Whether every message of a list answers a request.
pub open spec fn all_answers(items: Seq<MessageView>) -> bool {
    forall|k: int| 0 <= k < items.len() ==> is_answer(#[trigger] items[k])
}

/// The request ids that a list of answers carries, in order.
pub open spec fn answer_ids(items: Seq<MessageView>) -> Seq<u64> {
    Seq::new(items.len(), |k: int| answer_id(items[k]))
}

/// The first answer of a list that carries a request id.
pub open spec fn answer_for(items: Seq<MessageView>, id: u64) -> MessageView {
    items[answer_ids(items).index_of_first(id).unwrap()]
}

/// What a batch resolves to: the results of its calls in the order of the
/// calls, whatever the order of the answers; or, where a call failed, the
/// error of the first call that did.
pub open spec fn batch_result(ids: Seq<u64>, items: Seq<MessageView>) -> Result<
    Seq<Seq<char>>,
    ErrorResponseView,
>
    decreases ids.len(),
{
    if ids.len() == 0 {
        Ok(Seq::empty())
    } else {
        match batch_result(ids.drop_last(), items) {
            Err(e) => Err(e),
            Ok(values) => match answer_for(items, ids.last()) {
                MessageView::Failure { error, .. } => Err(
                    ErrorResponseView { error, id: ids.last() },
                ),
                MessageView::Response { result, .. } => Ok(values.push(result)),
                _ => Ok(values),
            },
        }
    }
}

/// What the caller of a batch gets.
pub open spec fn batch_reply(ids: Seq<u64>, items: Seq<MessageView>) -> Result<
    AnswerView,
    ErrorView,
> {
    match batch_result(ids, items) {
        Ok(values) => Ok(AnswerView::Values(values)),
        Err(e) => Err(ErrorView::Request(e)),
    }
}

/// What a batch of messages does: where each is an answer and their ids
/// answer a batch that waits, that batch ends with its result. Any other
/// batch, an empty one too, ends the connection.
pub open spec fn on_batch(pending: Seq<PendingView>, items: Seq<MessageView>) -> Effect {
    if !all_answers(items) {
        Effect::Fatal { reason: malformed_reason() }
    } else {
        match batch_of(pending, answer_ids(items)) {
            Some(i) => Effect::Continue {
                pending: pending.remove(i),
                actions: seq![
                    ActionView::Reply {
                        id: single_id(pending[i]),
                        result: batch_reply(pending[i]->Batch_ids, items),
                    },
                ],
            },
            None => Effect::Fatal { reason: unexpected_reason() },
        }
    }
}

/// What a frame does.
pub open spec fn on_inbound(pending: Seq<PendingView>, inbound: InboundView) -> Effect {
    match inbound {
        InboundView::Single(message) => on_message(pending, message),
        InboundView::Batch(items) => on_batch(pending, items),
        InboundView::Malformed => Effect::Fatal { reason: malformed_reason() },
    }
}

/// The action that ends the wait of an entry when the connection is lost: a
/// caller that waits for a result gets the demand to restart, with the
/// reason; the stream of a subscription, also of one that is being ended, is
/// closed.
pub open spec fn ending(entry: PendingView, reason: Seq<char>) -> ActionView {
    match entry {
        PendingView::Subscription { id, .. } => ActionView::Close { id },
        PendingView::Unsubscribe { id } => ActionView::Close { id },
        _ => refusal(single_id(entry), ErrorView::RestartNeeded(reason)),
    }
}

/// The actions that end every wait when the connection is lost, in the
/// order in which the waits began.
pub open spec fn drained(pending: Seq<PendingView>, reason: Seq<char>) -> Seq<ActionView> {
    Seq::new(pending.len(), |i: int| ending(pending[i], reason))
}

/// After a call of a batch failed, the batch resolves to that failure however
/// many calls follow.
pub proof fn lemma_failure_sticks(ids: Seq<u64>, items: Seq<MessageView>, n: int)
    requires
        0 <= n <= ids.len(),
        batch_result(ids.take(n), items) is Err,
    ensures
        batch_result(ids, items) == batch_result(ids.take(n), items),
    decreases ids.len() - n,
{
    if n < ids.len() {
        assert(ids.take(n + 1).drop_last() =~= ids.take(n));
        lemma_failure_sticks(ids, items, n + 1);
    } else {
        assert(ids.take(n) =~= ids);
    }
}

} // verus!
