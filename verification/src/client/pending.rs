//! The entries of the registry of a client, and what holds of them.
//!
//! Every request in flight has one entry, kept in the order in which the
//! requests were made. A single call, a subscribe call, a subscription and an
//! unsubscribe call each own one request id; a batch owns one id for each of
//! its calls. No id has two owners, and no subscription id is registered
//! twice.

use crate::v2::params::{SubscriptionId, SubscriptionIdView};
use vstd::prelude::*;

verus! {

/// What an entry of the registry says.
pub ghost enum PendingView {
    Call { id: u64 },
    Subscribe { id: u64, unsubscribe_method: Seq<char> },
    Subscription { id: u64, subscription: SubscriptionIdView, unsubscribe_method: Seq<char> },
    Unsubscribe { id: u64 },
    Batch { ids: Seq<u64> },
}

/// An entry of the registry.
#[derive(Debug)]
pub enum Pending {
    /// A call that waits for its response.
    Call { id: u64 },
    /// A subscribe call that waits for the subscription id.
    Subscribe { id: u64, unsubscribe_method: String },
    /// A subscription whose items are handed to the caller as they come.
    Subscription { id: u64, subscription: SubscriptionId, unsubscribe_method: String },
    /// An unsubscribe call whose response nobody waits for.
    Unsubscribe { id: u64 },
    /// A batch that waits for the responses to all of its calls. The id at
    /// each place is that of the call at the same place of the batch.
    Batch { ids: Vec<u64> },
}

impl View for Pending {
    type V = PendingView;

    open spec fn view(&self) -> PendingView {
        match self {
            Pending::Call { id } => PendingView::Call { id: *id },
            Pending::Subscribe { id, unsubscribe_method } => PendingView::Subscribe {
                id: *id,
                unsubscribe_method: unsubscribe_method@,
            },
            Pending::Subscription { id, subscription, unsubscribe_method } => {
                PendingView::Subscription {
                    id: *id,
                    subscription: subscription@,
                    unsubscribe_method: unsubscribe_method@,
                }
            },
            Pending::Unsubscribe { id } => PendingView::Unsubscribe { id: *id },
            Pending::Batch { ids } => PendingView::Batch { ids: ids@ },
        }
    }
}

/// The views of a vector of entries, in order.
pub open spec fn pending_views(v: Seq<Pending>) -> Seq<PendingView> {
    Seq::new(v.len(), |i: int| v[i]@)
}

/// The kind of thing that owns a request id.
#[derive(Clone, Copy, Debug, PartialEq, Eq, Structural)]
pub enum RequestStatus {
    /// A call that waits for its response.
    PendingMethodCall,
    /// A subscribe call that waits for the subscription id.
    PendingSubscription,
    /// A subscription.
    Subscription,
    /// An unsubscribe call.
    PendingUnsubscribe,
    /// A batch.
    PendingBatch,
    /// Nothing owns the id.
    Invalid,
}

/// Whether an entry owns a request id.
pub open spec fn owns(entry: PendingView, id: u64) -> bool {
    match entry {
        PendingView::Call { id: own } => own == id,
        PendingView::Subscribe { id: own, .. } => own == id,
        PendingView::Subscription { id: own, .. } => own == id,
        PendingView::Unsubscribe { id: own } => own == id,
        PendingView::Batch { ids } => ids.contains(id),
    }
}

/// Whether an entry is the subscription with the given subscription id.
pub open spec fn carries(entry: PendingView, subscription: SubscriptionIdView) -> bool {
    match entry {
        PendingView::Subscription { subscription: own, .. } => own == subscription,
        _ => false,
    }
}

/// The kind of an entry.
pub open spec fn kind_of(entry: PendingView) -> RequestStatus {
    match entry {
        PendingView::Call { .. } => RequestStatus::PendingMethodCall,
        PendingView::Subscribe { .. } => RequestStatus::PendingSubscription,
        PendingView::Subscription { .. } => RequestStatus::Subscription,
        PendingView::Unsubscribe { .. } => RequestStatus::PendingUnsubscribe,
        PendingView::Batch { .. } => RequestStatus::PendingBatch,
    }
}

/// The place of the first entry that owns a request id.
pub open spec fn owner_of(entries: Seq<PendingView>, id: u64) -> Option<int>
    decreases entries.len(),
{
    if entries.len() == 0 {
        None
    } else {
        match owner_of(entries.drop_last(), id) {
            Some(i) => Some(i),
            None => if owns(entries.last(), id) {
                Some(entries.len() - 1)
            } else {
                None
            },
        }
    }
}

/// The place of the first entry that is the subscription with the given
/// subscription id.
pub open spec fn subscriber_of(entries: Seq<PendingView>, subscription: SubscriptionIdView) -> Option<
    int,
>
    decreases entries.len(),
{
    if entries.len() == 0 {
        None
    } else {
        match subscriber_of(entries.drop_last(), subscription) {
            Some(i) => Some(i),
            None => if carries(entries.last(), subscription) {
                Some(entries.len() - 1)
            } else {
                None
            },
        }
    }
}

/// The kind of thing that owns a request id.
pub open spec fn status_of(entries: Seq<PendingView>, id: u64) -> RequestStatus {
    match owner_of(entries, id) {
        Some(i) => kind_of(entries[i]),
        None => RequestStatus::Invalid,
    }
}

/// The request ids in flight: those that some entry owns.
pub open spec fn in_flight(entries: Seq<PendingView>) -> Set<u64> {
    Set::new(|id: u64| owner_of(entries, id) is Some)
}

/// What holds of every registry: a batch has at least one id and none twice,
/// no request id has two owners, and no subscription id is registered twice.
pub open spec fn well_formed(entries: Seq<PendingView>) -> bool {
    &&& forall|i: int|
        0 <= i < entries.len() ==> (#[trigger] entries[i] matches PendingView::Batch { ids }
            ==> ids.len() > 0 && ids.no_duplicates())
    &&& forall|i: int, j: int, id: u64|
        0 <= i < entries.len() && 0 <= j < entries.len() && i != j && #[trigger] owns(
            entries[i],
            id,
        ) ==> !#[trigger] owns(entries[j], id)
    &&& forall|i: int, j: int, subscription: SubscriptionIdView|
        0 <= i < entries.len() && 0 <= j < entries.len() && i != j && #[trigger] carries(
            entries[i],
            subscription,
        ) ==> !#[trigger] carries(entries[j], subscription)
}

/// What `owner_of` finds: the first place whose entry owns the id, or
/// nothing where no entry does.
pub proof fn lemma_owner_of(entries: Seq<PendingView>, id: u64)
    ensures
        match owner_of(entries, id) {
            Some(i) => 0 <= i < entries.len() && owns(entries[i], id) && forall|j: int|
                0 <= j < i ==> !owns(#[trigger] entries[j], id),
            None => forall|j: int| 0 <= j < entries.len() ==> !owns(#[trigger] entries[j], id),
        },
    decreases entries.len(),
{
    if entries.len() > 0 {
        lemma_owner_of(entries.drop_last(), id);
        assert forall|j: int| 0 <= j < entries.len() - 1 implies entries.drop_last()[j]
            == entries[j] by {}
    }
}

/// What `subscriber_of` finds: the first place whose entry is the
/// subscription, or nothing where no entry is.
pub proof fn lemma_subscriber_of(entries: Seq<PendingView>, subscription: SubscriptionIdView)
    ensures
        match subscriber_of(entries, subscription) {
            Some(i) => 0 <= i < entries.len() && carries(entries[i], subscription) && forall|
                j: int,
            |
                0 <= j < i ==> !carries(#[trigger] entries[j], subscription),
            None => forall|j: int|
                0 <= j < entries.len() ==> !carries(#[trigger] entries[j], subscription),
        },
    decreases entries.len(),
{
    if entries.len() > 0 {
        lemma_subscriber_of(entries.drop_last(), subscription);
        assert forall|j: int| 0 <= j < entries.len() - 1 implies entries.drop_last()[j]
            == entries[j] by {}
    }
}

/// An entry that owns an id, before which no entry owns it, is what
/// `owner_of` finds.
pub proof fn lemma_owner_is(entries: Seq<PendingView>, id: u64, i: int)
    requires
        0 <= i < entries.len(),
        owns(entries[i], id),
        forall|j: int| 0 <= j < i ==> !owns(#[trigger] entries[j], id),
    ensures
        owner_of(entries, id) == Some(i),
{
    lemma_owner_of(entries, id);
}

/// An entry that is a subscription, before which no entry is the same
/// subscription, is what `subscriber_of` finds.
pub proof fn lemma_subscriber_is(
    entries: Seq<PendingView>,
    subscription: SubscriptionIdView,
    i: int,
)
    requires
        0 <= i < entries.len(),
        carries(entries[i], subscription),
        forall|j: int| 0 <= j < i ==> !carries(#[trigger] entries[j], subscription),
    ensures
        subscriber_of(entries, subscription) == Some(i),
{
    lemma_subscriber_of(entries, subscription);
}

/// Taking an entry out keeps the registry well formed, frees exactly the ids
/// that the entry owned, and leaves every other id with its owner.
pub proof fn lemma_remove(entries: Seq<PendingView>, i: int)
    requires
        well_formed(entries),
        0 <= i < entries.len(),
    ensures
        well_formed(entries.remove(i)),
        forall|id: u64|
            owns(entries[i], id) ==> (#[trigger] owner_of(entries.remove(i), id)) is None,
        forall|id: u64|
            !owns(entries[i], id) ==> (#[trigger] owner_of(entries.remove(i), id)) == match owner_of(
                entries,
                id,
            ) {
                Some(j) => Some(
                    if j < i {
                        j
                    } else {
                        j - 1
                    },
                ),
                None => None,
            },
        forall|id: u64|
            !owns(entries[i], id) ==> #[trigger] status_of(entries.remove(i), id) == status_of(
                entries,
                id,
            ),
        forall|subscription: SubscriptionIdView|
            !carries(entries[i], subscription) ==> (#[trigger] subscriber_of(
                entries.remove(i),
                subscription,
            )) == match subscriber_of(entries, subscription) {
                Some(j) => Some(
                    if j < i {
                        j
                    } else {
                        j - 1
                    },
                ),
                None => None,
            },
        forall|subscription: SubscriptionIdView|
            carries(entries[i], subscription) ==> (#[trigger] subscriber_of(
                entries.remove(i),
                subscription,
            )) is None,
{
    let rest = entries.remove(i);
    assert forall|k: int| 0 <= k < rest.len() implies #[trigger] rest[k] == entries[if k < i {
        k
    } else {
        k + 1
    }] by {}
    assert forall|id: u64| owns(entries[i], id) implies (#[trigger] owner_of(rest, id)) is None by {
        lemma_owner_of(rest, id);
        if owner_of(rest, id) is Some {
            let k = owner_of(rest, id).unwrap();
            let j = if k < i {
                k
            } else {
                k + 1
            };
            assert(owns(entries[j], id));
        }
    }
    assert forall|id: u64| !owns(entries[i], id) implies (#[trigger] owner_of(rest, id)) == match owner_of(
        entries,
        id,
    ) {
        Some(j) => Some(
            if j < i {
                j
            } else {
                j - 1
            },
        ),
        None => None,
    } by {
        lemma_owner_of(entries, id);
        lemma_owner_of(rest, id);
        match owner_of(entries, id) {
            Some(j) => {
                let k = if j < i {
                    j
                } else {
                    j - 1
                };
                assert(rest[k] == entries[j]);
                lemma_owner_is(rest, id, k);
            },
            None => {},
        }
    }
    assert forall|id: u64| !owns(entries[i], id) implies #[trigger] status_of(rest, id) == status_of(
        entries,
        id,
    ) by {
        lemma_owner_of(entries, id);
        match owner_of(entries, id) {
            Some(j) => {
                let k = if j < i {
                    j
                } else {
                    j - 1
                };
                assert(rest[k] == entries[j]);
                assert(owner_of(rest, id) == Some(k));
            },
            None => {
                assert(owner_of(rest, id) is None);
            },
        }
    }
    assert forall|subscription: SubscriptionIdView|
        !carries(entries[i], subscription) implies (#[trigger] subscriber_of(rest, subscription))
        == match subscriber_of(entries, subscription) {
        Some(j) => Some(
            if j < i {
                j
            } else {
                j - 1
            },
        ),
        None => None,
    } by {
        lemma_subscriber_of(entries, subscription);
        lemma_subscriber_of(rest, subscription);
        match subscriber_of(entries, subscription) {
            Some(j) => {
                let k = if j < i {
                    j
                } else {
                    j - 1
                };
                assert(rest[k] == entries[j]);
                lemma_subscriber_is(rest, subscription, k);
            },
            None => {},
        }
    }
    assert forall|subscription: SubscriptionIdView|
        carries(entries[i], subscription) implies (#[trigger] subscriber_of(
        rest,
        subscription,
    )) is None by {
        lemma_subscriber_of(rest, subscription);
        if subscriber_of(rest, subscription) is Some {
            let k = subscriber_of(rest, subscription).unwrap();
            let j = if k < i {
                k
            } else {
                k + 1
            };
            assert(carries(entries[j], subscription));
        }
    }
}

/// Whether an entry may join a registry: a batch has at least one id and
/// none twice, none of its ids has an owner, and its subscription id, if it
/// has one, is not registered.
pub open spec fn admissible(entries: Seq<PendingView>, entry: PendingView) -> bool {
    &&& entry matches PendingView::Batch { ids } ==> ids.len() > 0 && ids.no_duplicates()
    &&& forall|id: u64| owns(entry, id) ==> (#[trigger] owner_of(entries, id)) is None
    &&& forall|subscription: SubscriptionIdView|
        carries(entry, subscription) ==> (#[trigger] subscriber_of(entries, subscription)) is None
}

/// Adding an admissible entry at the end keeps the registry well formed and
/// leaves every id that had an owner with it.
pub proof fn lemma_push(entries: Seq<PendingView>, entry: PendingView)
    requires
        well_formed(entries),
        admissible(entries, entry),
    ensures
        well_formed(entries.push(entry)),
        forall|id: u64| #[trigger]
            owner_of(entries.push(entry), id) == match owner_of(entries, id) {
                Some(i) => Some(i),
                None => if owns(entry, id) {
                    Some(entries.len() as int)
                } else {
                    None
                },
            },
        forall|subscription: SubscriptionIdView| #[trigger]
            subscriber_of(entries.push(entry), subscription) == match subscriber_of(
                entries,
                subscription,
            ) {
                Some(i) => Some(i),
                None => if carries(entry, subscription) {
                    Some(entries.len() as int)
                } else {
                    None
                },
            },
{
    let more = entries.push(entry);
    assert(more.drop_last() =~= entries);
    assert forall|i: int, j: int, id: u64|
        0 <= i < more.len() && 0 <= j < more.len() && i != j && #[trigger] owns(
            more[i],
            id,
        ) implies !#[trigger] owns(more[j], id) by {
        lemma_owner_of(entries, id);
    }
    assert forall|i: int, j: int, subscription: SubscriptionIdView|
        0 <= i < more.len() && 0 <= j < more.len() && i != j && #[trigger] carries(
            more[i],
            subscription,
        ) implies !#[trigger] carries(more[j], subscription) by {
        lemma_subscriber_of(entries, subscription);
    }
}

/// Putting another entry in the place of one, where the new entry owns the
/// same ids and its subscription id is not registered elsewhere, keeps the
/// registry well formed and leaves every id with its owner.
pub proof fn lemma_update(entries: Seq<PendingView>, i: int, entry: PendingView)
    requires
        well_formed(entries),
        0 <= i < entries.len(),
        entry matches PendingView::Batch { ids } ==> ids.len() > 0 && ids.no_duplicates(),
        forall|id: u64| owns(entry, id) == owns(entries[i], id),
        forall|j: int, subscription: SubscriptionIdView|
            0 <= j < entries.len() && j != i && carries(entry, subscription) ==> !#[trigger] carries(
                entries[j],
                subscription,
            ),
    ensures
        well_formed(entries.update(i, entry)),
        forall|id: u64| #[trigger] owner_of(entries.update(i, entry), id) == owner_of(entries, id),
{
    let changed = entries.update(i, entry);
    assert forall|id: u64| #[trigger] owner_of(changed, id) == owner_of(entries, id) by {
        lemma_owner_of(entries, id);
        lemma_owner_of(changed, id);
        match owner_of(entries, id) {
            Some(j) => {
                assert(owns(changed[j], id));
                lemma_owner_is(changed, id, j);
            },
            None => {
                if owner_of(changed, id) is Some {
                    let k = owner_of(changed, id).unwrap();
                    assert(owns(entries[k], id));
                }
            },
        }
    }
    assert forall|a: int, b: int, id: u64|
        0 <= a < changed.len() && 0 <= b < changed.len() && a != b && #[trigger] owns(
            changed[a],
            id,
        ) implies !#[trigger] owns(changed[b], id) by {
        assert(owns(entries[a], id));
        if owns(changed[b], id) {
            assert(owns(entries[b], id));
        }
    }
    assert forall|a: int, b: int, subscription: SubscriptionIdView|
        0 <= a < changed.len() && 0 <= b < changed.len() && a != b && #[trigger] carries(
            changed[a],
            subscription,
        ) implies !#[trigger] carries(changed[b], subscription) by {
        if a == i {
            assert(!carries(entries[b], subscription));
        } else if b == i {
            if carries(changed[b], subscription) {
                assert(!carries(entries[a], subscription));
            }
        } else {
            assert(carries(entries[a], subscription));
        }
    }
}

/// The request ids that an entry owns.
pub open spec fn owned(entry: PendingView) -> Set<u64> {
    Set::new(|id: u64| owns(entry, id))
}

/// Taking an entry out frees exactly the ids that it owned.
pub proof fn lemma_in_flight_remove(entries: Seq<PendingView>, i: int)
    requires
        well_formed(entries),
        0 <= i < entries.len(),
    ensures
        in_flight(entries.remove(i)) == in_flight(entries).difference(owned(entries[i])),
{
    lemma_remove(entries, i);
    assert forall|id: u64|
        in_flight(entries.remove(i)).contains(id) == in_flight(entries).difference(
            owned(entries[i]),
        ).contains(id) by {
        lemma_owner_of(entries, id);
        if owns(entries[i], id) {
            assert(owner_of(entries.remove(i), id) is None);
        } else {
            assert(owner_of(entries.remove(i), id) is Some == owner_of(entries, id) is Some);
        }
    }
    assert(in_flight(entries.remove(i)) =~= in_flight(entries).difference(owned(entries[i])));
}

/// Adding an admissible entry puts exactly its ids in flight.
pub proof fn lemma_in_flight_push(entries: Seq<PendingView>, entry: PendingView)
    requires
        well_formed(entries),
        admissible(entries, entry),
    ensures
        in_flight(entries.push(entry)) == in_flight(entries).union(owned(entry)),
{
    lemma_push(entries, entry);
    assert forall|id: u64|
        in_flight(entries.push(entry)).contains(id) == in_flight(entries).union(
            owned(entry),
        ).contains(id) by {
        assert(owner_of(entries.push(entry), id) == match owner_of(entries, id) {
            Some(i) => Some(i),
            None => if owns(entry, id) {
                Some(entries.len() as int)
            } else {
                None
            },
        });
    }
    assert(in_flight(entries.push(entry)) =~= in_flight(entries).union(owned(entry)));
}

/// Putting an entry with the same ids in the place of one leaves the same
/// ids in flight.
pub proof fn lemma_in_flight_update(entries: Seq<PendingView>, i: int, entry: PendingView)
    requires
        well_formed(entries),
        0 <= i < entries.len(),
        entry matches PendingView::Batch { ids } ==> ids.len() > 0 && ids.no_duplicates(),
        forall|id: u64| owns(entry, id) == owns(entries[i], id),
        forall|j: int, subscription: SubscriptionIdView|
            0 <= j < entries.len() && j != i && carries(entry, subscription) ==> !#[trigger] carries(
                entries[j],
                subscription,
            ),
    ensures
        in_flight(entries.update(i, entry)) == in_flight(entries),
{
    lemma_update(entries, i, entry);
    assert forall|id: u64|
        in_flight(entries.update(i, entry)).contains(id) == in_flight(entries).contains(id) by {
        assert(owner_of(entries.update(i, entry), id) == owner_of(entries, id));
    }
    assert(in_flight(entries.update(i, entry)) =~= in_flight(entries));
}

/// Whether the ids of a batch are answered by a list of ids: as many came as
/// were sent, and each id of the batch is among them.
pub open spec fn answers(ids: Seq<u64>, got: Seq<u64>) -> bool {
    got.len() == ids.len() && forall|p: int| 0 <= p < ids.len() ==> got.contains(#[trigger] ids[p])
}

/// The place of the batch that a list of ids answers.
pub open spec fn batch_of(entries: Seq<PendingView>, got: Seq<u64>) -> Option<int> {
    if got.len() == 0 {
        None
    } else {
        match owner_of(entries, got[0]) {
            Some(i) => match entries[i] {
                PendingView::Batch { ids } => if answers(ids, got) {
                    Some(i)
                } else {
                    None
                },
                _ => None,
            },
            None => None,
        }
    }
}

} // verus!
