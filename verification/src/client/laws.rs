//! What holds of the multiplexer over many steps.

use crate::client::background::{
    after_inbound, after_loss, turned_down, waits_for_answer, ClientView,
};
use crate::client::effects::{
    answer_for, answer_id, answer_ids, batch_result, on_inbound, on_message, refusal, single_id,
    ActionView, AnswerView, Effect,
};
use crate::client::ids::first_free;
use crate::client::inbound::{InboundView, MessageView};
use crate::client::pending::{
    admissible, answers, batch_of, carries, in_flight, kind_of, lemma_owner_of, lemma_push,
    lemma_remove, lemma_subscriber_of, lemma_update, owner_of, owns, status_of, subscriber_of,
    well_formed, PendingView, RequestStatus,
};
use crate::error::ErrorView;
use crate::v2::params::SubscriptionIdView;
use vstd::prelude::*;

verus! {

/// No two requests in flight share an id: an id that one entry of a well
/// formed registry owns is owned by no other.
pub proof fn lemma_no_shared_id(pending: Seq<PendingView>, i: int, j: int, id: u64)
    requires
        well_formed(pending),
        0 <= i < pending.len(),
        0 <= j < pending.len(),
        i != j,
        owns(pending[i], id),
    ensures
        !owns(pending[j], id),
{
}

/// The id that a new request gets is owned by no request in flight.
pub proof fn lemma_new_id_is_fresh(pending: Seq<PendingView>, start: u64, id: u64)
    requires
        first_free(in_flight(pending), start, id),
    ensures
        forall|i: int| 0 <= i < pending.len() ==> !owns(#[trigger] pending[i], id),
{
    lemma_owner_of(pending, id);
}

/// No two subscriptions share a subscription id: one that is registered for
/// an entry of a well formed registry is registered for no other.
pub proof fn lemma_no_shared_subscription(
    pending: Seq<PendingView>,
    i: int,
    j: int,
    subscription: SubscriptionIdView,
)
    requires
        well_formed(pending),
        0 <= i < pending.len(),
        0 <= j < pending.len(),
        i != j,
        carries(pending[i], subscription),
    ensures
        !carries(pending[j], subscription),
{
}

/// Taking on a call keeps the registry well formed: with the entry of a new
/// call, under the id that the pool gives it, still no id has two owners.
pub proof fn lemma_request_keeps_well_formed(pending: Seq<PendingView>, start: u64, id: u64)
    requires
        well_formed(pending),
        first_free(in_flight(pending), start, id),
    ensures
        well_formed(pending.push(PendingView::Call { id })),
{
    let entry = PendingView::Call { id };
    assert(admissible(pending, entry));
    lemma_push(pending, entry);
}

/// Whatever frame comes, the registry stays well formed: after it, still no
/// id has two owners and no subscription id is registered twice.
pub proof fn lemma_inbound_keeps_well_formed(client: ClientView, inbound: InboundView)
    requires
        well_formed(client.pending),
    ensures
        well_formed(after_inbound(client, inbound).0.pending),
{
    if client.status is Connected {
        match on_inbound(client.pending, inbound) {
            Effect::Continue { pending, actions } => {
                lemma_effect_keeps_well_formed(client.pending, inbound);
            },
            Effect::Fatal { reason } => {},
        }
    }
}

proof fn lemma_effect_keeps_well_formed(pending: Seq<PendingView>, inbound: InboundView)
    requires
        well_formed(pending),
        on_inbound(pending, inbound) is Continue,
    ensures
        well_formed(on_inbound(pending, inbound)->Continue_pending),
{
    match inbound {
        InboundView::Single(message) => match message {
            MessageView::Response { id, result, granted } => {
                lemma_owner_of(pending, id);
                let i = owner_of(pending, id).unwrap();
                lemma_remove(pending, i);
                match (pending[i], granted) {
                    (PendingView::Subscribe { unsubscribe_method, .. }, Some(subscription)) => {
                        lemma_subscriber_of(pending, subscription);
                        if subscriber_of(pending, subscription) is None {
                            lemma_update(
                                pending,
                                i,
                                PendingView::Subscription { id, subscription, unsubscribe_method },
                            );
                        }
                    },
                    _ => {},
                }
            },
            MessageView::Failure { id, error } => {
                lemma_owner_of(pending, id);
                lemma_remove(pending, owner_of(pending, id).unwrap());
            },
            _ => {},
        },
        InboundView::Batch(items) => {
            let got = answer_ids(items);
            lemma_owner_of(pending, got[0]);
            lemma_remove(pending, batch_of(pending, got).unwrap());
        },
        InboundView::Malformed => {},
    }
}

/// What a sequence of messages does, one after the other.
pub open spec fn after_messages(pending: Seq<PendingView>, messages: Seq<MessageView>) -> Effect
    decreases messages.len(),
{
    if messages.len() == 0 {
        Effect::Continue { pending, actions: Seq::empty() }
    } else {
        match after_messages(pending, messages.drop_last()) {
            Effect::Continue { pending: then, actions: earlier } => match on_message(
                then,
                messages.last(),
            ) {
                Effect::Continue { pending: last, actions: later } => Effect::Continue {
                    pending: last,
                    actions: earlier + later,
                },
                Effect::Fatal { reason } => Effect::Fatal { reason },
            },
            Effect::Fatal { reason } => Effect::Fatal { reason },
        }
    }
}

/// The action that hands a response to the caller of its call.
pub open spec fn delivery(message: MessageView) -> ActionView {
    ActionView::Reply {
        id: answer_id(message),
        result: Ok(AnswerView::Value(message->Response_result)),
    }
}

/// Each caller gets the result that carries the id it sent, in whatever
/// order the responses come: where every message of a sequence is a response
/// to a call that waits, and no two answer the same call, the sequence does
/// nothing but hand each response to the caller under its id. The calls that
/// were not answered wait on.
pub proof fn lemma_each_caller_gets_its_result(
    pending: Seq<PendingView>,
    messages: Seq<MessageView>,
)
    requires
        well_formed(pending),
        forall|k: int| 0 <= k < messages.len() ==> (#[trigger] messages[k]) is Response,
        answer_ids(messages).no_duplicates(),
        forall|k: int|
            0 <= k < messages.len() ==> status_of(pending, answer_id(#[trigger] messages[k]))
                == RequestStatus::PendingMethodCall,
    ensures
        after_messages(pending, messages) matches Effect::Continue { pending: rest, actions } && {
            &&& well_formed(rest)
            &&& actions.len() == messages.len()
            &&& forall|k: int| 0 <= k < messages.len() ==> #[trigger] actions[k] == delivery(messages[k])
            &&& forall|id: u64|
                !answer_ids(messages).contains(id) ==> #[trigger] status_of(rest, id) == status_of(
                    pending,
                    id,
                )
        },
    decreases messages.len(),
{
    if messages.len() > 0 {
        let front = messages.drop_last();
        let last = messages.last();
        let id = answer_id(last);
        let n = messages.len() - 1;
        assert forall|k: int| 0 <= k < front.len() implies answer_ids(front)[k] == answer_ids(
            messages,
        )[k] by {}
        assert(answer_ids(front).no_duplicates());
        assert forall|k: int| 0 <= k < front.len() implies status_of(
            pending,
            answer_id(#[trigger] front[k]),
        ) == RequestStatus::PendingMethodCall by {
            assert(front[k] == messages[k]);
        }
        lemma_each_caller_gets_its_result(pending, front);
        let then = after_messages(pending, front)->Continue_pending;
        let earlier = after_messages(pending, front)->Continue_actions;
        assert(!answer_ids(front).contains(id)) by {
            if answer_ids(front).contains(id) {
                let k = choose|k: int| 0 <= k < front.len() && answer_ids(front)[k] == id;
                assert(answer_ids(messages)[k] == id);
                assert(answer_ids(messages)[n] == id);
            }
        }
        assert(status_of(then, id) == RequestStatus::PendingMethodCall) by {
            assert(status_of(pending, answer_id(messages[n])) == RequestStatus::PendingMethodCall);
        }
        lemma_owner_of(then, id);
        let i = owner_of(then, id).unwrap();
        lemma_remove(then, i);
        let rest = then.remove(i);
        let actions = earlier + seq![delivery(last)];
        assert(after_messages(pending, messages) == Effect::Continue { pending: rest, actions });
        assert forall|k: int| 0 <= k < messages.len() implies #[trigger] actions[k] == delivery(
            messages[k],
        ) by {
            if k < n {
                assert(front[k] == messages[k]);
            }
        }
        assert forall|other: u64| !answer_ids(messages).contains(other) implies #[trigger] status_of(
            rest,
            other,
        ) == status_of(pending, other) by {
            assert(other != id) by {
                assert(answer_ids(messages)[n] == id);
            }
            if answer_ids(front).contains(other) {
                let k = choose|k: int| 0 <= k < front.len() && answer_ids(front)[k] == other;
                assert(answer_ids(messages)[k] == other);
            }
            assert(status_of(then, other) == status_of(pending, other));
            assert(!owns(then[i], other));
        }
    }
}

/// Where every answer of a list is a response and no two carry the same id,
/// the answer for an id is the one response of the list that carries it.
proof fn lemma_answer_for(items: Seq<MessageView>, k: int)
    requires
        0 <= k < items.len(),
        answer_ids(items).no_duplicates(),
    ensures
        answer_for(items, answer_id(items[k])) == items[k],
{
    let got = answer_ids(items);
    got.index_of_first_ensures(answer_id(items[k]));
    assert(got[k] == answer_id(items[k]));
}

/// A batch resolves to the results of its calls in the order of the calls,
/// whatever the order in which the server answered them: where every answer
/// is a response, no two carry the same id, and the ids of the batch are all
/// answered, the result at each place is that of the response which carries
/// the id of the call at that place.
pub proof fn lemma_batch_in_input_order(ids: Seq<u64>, items: Seq<MessageView>)
    requires
        forall|k: int| 0 <= k < items.len() ==> (#[trigger] items[k]) is Response,
        answer_ids(items).no_duplicates(),
        answers(ids, answer_ids(items)),
    ensures
        batch_result(ids, items) matches Ok(values) && {
            &&& values.len() == ids.len()
            &&& forall|p: int|
                0 <= p < ids.len() ==> (#[trigger] answer_for(items, ids[p])) is Response
                    && answer_id(answer_for(items, ids[p])) == ids[p] && values[p] == answer_for(
                    items,
                    ids[p],
                )->Response_result
        },
{
    lemma_batch_prefix(ids, items, ids.len() as int);
    assert(ids.take(ids.len() as int) =~= ids);
}

proof fn lemma_batch_prefix(ids: Seq<u64>, items: Seq<MessageView>, n: int)
    requires
        0 <= n <= ids.len(),
        forall|k: int| 0 <= k < items.len() ==> (#[trigger] items[k]) is Response,
        answer_ids(items).no_duplicates(),
        answers(ids, answer_ids(items)),
    ensures
        batch_result(ids.take(n), items) matches Ok(values) && {
            &&& values.len() == n
            &&& forall|p: int|
                0 <= p < n ==> (#[trigger] answer_for(items, ids[p])) is Response && answer_id(
                    answer_for(items, ids[p]),
                ) == ids[p] && values[p] == answer_for(items, ids[p])->Response_result
        },
    decreases n,
{
    if n > 0 {
        lemma_batch_prefix(ids, items, n - 1);
        assert(ids.take(n).drop_last() =~= ids.take(n - 1));
        let id = ids[n - 1];
        assert(ids.take(n).last() == id);
        let got = answer_ids(items);
        assert(got.contains(id));
        let k = choose|k: int| 0 <= k < got.len() && got[k] == id;
        lemma_answer_for(items, k);
        assert(items[k] is Response);
    } else {
        assert(ids.take(0) =~= Seq::<u64>::empty());
    }
}

/// The order of the answers does not matter to a batch: two lists that hold
/// the same answers, in whatever order, and in which no two answers carry
/// the same id, resolve a batch to the same.
pub proof fn lemma_batch_order_free(ids: Seq<u64>, first: Seq<MessageView>, second: Seq<MessageView>)
    requires
        first.to_multiset() == second.to_multiset(),
        answer_ids(first).no_duplicates(),
        answer_ids(second).no_duplicates(),
        answers(ids, answer_ids(first)),
    ensures
        batch_result(ids, first) == batch_result(ids, second),
{
    lemma_batch_order_free_prefix(ids, first, second, ids.len() as int);
    assert(ids.take(ids.len() as int) =~= ids);
}

proof fn lemma_batch_order_free_prefix(
    ids: Seq<u64>,
    first: Seq<MessageView>,
    second: Seq<MessageView>,
    n: int,
)
    requires
        0 <= n <= ids.len(),
        first.to_multiset() == second.to_multiset(),
        answer_ids(first).no_duplicates(),
        answer_ids(second).no_duplicates(),
        answers(ids, answer_ids(first)),
    ensures
        batch_result(ids.take(n), first) == batch_result(ids.take(n), second),
    decreases n,
{
    if n > 0 {
        lemma_batch_order_free_prefix(ids, first, second, n - 1);
        assert(ids.take(n).drop_last() =~= ids.take(n - 1));
        let id = ids[n - 1];
        assert(ids.take(n).last() == id);
        let got = answer_ids(first);
        assert(got.contains(id));
        let k = choose|k: int| 0 <= k < got.len() && got[k] == id;
        lemma_answer_for(first, k);
        first.to_multiset_ensures();
        second.to_multiset_ensures();
        assert(first.contains(first[k]));
        assert(first.to_multiset().count(first[k]) > 0);
        assert(second.to_multiset().count(first[k]) > 0);
        assert(second.contains(first[k]));
        let m = choose|m: int| 0 <= m < second.len() && second[m] == first[k];
        lemma_answer_for(second, m);
        assert(answer_for(first, id) == answer_for(second, id));
    } else {
        assert(ids.take(0) =~= Seq::<u64>::empty());
    }
}

/// After the connection is lost, every wait ends: the multiplexer is
/// terminated and waits for nothing, each caller that waited for a result is
/// told to restart, with the reason of the loss, and every request that is
/// issued afterwards is turned down with the same.
pub proof fn lemma_loss_ends_every_wait(client: ClientView, reason: Seq<char>)
    requires
        client.status is Connected,
    ensures
        after_loss(client, reason).0.status is Terminated,
        after_loss(client, reason).0.pending.len() == 0,
        after_loss(client, reason).1.len() == client.pending.len(),
        forall|i: int|
            0 <= i < client.pending.len() && waits_for_answer(kind_of(client.pending[i]))
                ==> #[trigger] after_loss(client, reason).1[i] == refusal(
                single_id(client.pending[i]),
                ErrorView::RestartNeeded(reason),
            ),
        forall|i: int|
            0 <= i < client.pending.len() && !waits_for_answer(kind_of(client.pending[i]))
                ==> #[trigger] after_loss(client, reason).1[i] == (ActionView::Close {
                id: single_id(client.pending[i]),
            }),
        forall|writable: bool, slots: nat, error: ErrorView|
            turned_down(after_loss(client, reason).0, writable, slots, error) ==> error
                == ErrorView::RestartNeeded(reason),
{
}

} // verus!
