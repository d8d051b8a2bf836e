//! The registry of what a client waits for.

use crate::client::pending::{
    admissible, answers, batch_of, carries, kind_of, lemma_owner_is, lemma_owner_of, lemma_push,
    lemma_remove, lemma_subscriber_is, lemma_subscriber_of, lemma_update, owner_of, owns,
    pending_views, status_of, subscriber_of, well_formed, Pending, PendingView, RequestStatus,
};
use crate::error::{Error, ErrorView};
use crate::v2::params::SubscriptionId;
use vstd::prelude::*;

verus! {

/// The registry of what a client waits for.
#[derive(Debug)]
pub struct RequestManager {
    entries: Vec<Pending>,
}

impl View for RequestManager {
    type V = Seq<PendingView>;

    closed spec fn view(&self) -> Seq<PendingView> {
        pending_views(self.entries@)
    }
}

fn entry_owns(entry: &Pending, id: u64) -> (b: bool)
    ensures
        b == owns(entry@, id),
{
    match entry {
        Pending::Call { id: own } => *own == id,
        Pending::Subscribe { id: own, .. } => *own == id,
        Pending::Subscription { id: own, .. } => *own == id,
        Pending::Unsubscribe { id: own } => *own == id,
        Pending::Batch { ids } => holds(ids, id),
    }
}

/// Whether an id is among the given ids.
pub fn holds(ids: &Vec<u64>, id: u64) -> (b: bool)
    ensures
        b == ids@.contains(id),
{
    let mut k: usize = 0;
    while k < ids.len()
        invariant
            k <= ids.len(),
            forall|j: int| 0 <= j < k ==> ids@[j] != id,
        decreases ids.len() - k,
    {
        if ids[k] == id {
            return true;
        }
        k += 1;
    }
    false
}

fn entry_carries(entry: &Pending, subscription: &SubscriptionId) -> (b: bool)
    ensures
        b == carries(entry@, subscription@),
{
    match entry {
        Pending::Subscription { subscription: own, .. } => own.same(subscription),
        _ => false,
    }
}

fn entry_kind(entry: &Pending) -> (r: RequestStatus)
    ensures
        r == kind_of(entry@),
{
    match entry {
        Pending::Call { .. } => RequestStatus::PendingMethodCall,
        Pending::Subscribe { .. } => RequestStatus::PendingSubscription,
        Pending::Subscription { .. } => RequestStatus::Subscription,
        Pending::Unsubscribe { .. } => RequestStatus::PendingUnsubscribe,
        Pending::Batch { .. } => RequestStatus::PendingBatch,
    }
}

impl RequestManager {
    /// What holds of every registry.
    pub open spec fn wf(&self) -> bool {
        well_formed(self@)
    }

    /// A registry that waits for nothing.
    pub fn new() -> (r: RequestManager)
        ensures
            r@ == Seq::<PendingView>::empty(),
            r.wf(),
    {
        let r = RequestManager { entries: Vec::new() };
        assert(r@ =~= Seq::<PendingView>::empty());
        r
    }

    /// The number of entries.
    pub fn len(&self) -> (n: usize)
        ensures
            n == self@.len(),
    {
        self.entries.len()
    }

    /// The entry at a place.
    pub fn entry(&self, i: usize) -> (r: &Pending)
        requires
            i < self@.len(),
        ensures
            r@ == self@[i as int],
    {
        &self.entries[i]
    }

    /// The place of the entry that owns a request id.
    pub fn owner(&self, id: u64) -> (r: Option<usize>)
        ensures
            match r {
                Some(i) => owner_of(self@, id) == Some(i as int) && i < self@.len(),
                None => owner_of(self@, id) is None,
            },
    {
        let mut i: usize = 0;
        while i < self.entries.len()
            invariant
                i <= self.entries.len(),
                forall|j: int| 0 <= j < i ==> !owns(#[trigger] self@[j], id),
            decreases self.entries.len() - i,
        {
            if entry_owns(&self.entries[i], id) {
                proof {
                    lemma_owner_is(self@, id, i as int);
                }
                return Some(i);
            }
            i += 1;
        }
        proof {
            lemma_owner_of(self@, id);
        }
        None
    }

    /// The place of the subscription with a subscription id.
    pub fn subscriber(&self, subscription: &SubscriptionId) -> (r: Option<usize>)
        ensures
            match r {
                Some(i) => subscriber_of(self@, subscription@) == Some(i as int) && i < self@.len(),
                None => subscriber_of(self@, subscription@) is None,
            },
    {
        let mut i: usize = 0;
        while i < self.entries.len()
            invariant
                i <= self.entries.len(),
                forall|j: int| 0 <= j < i ==> !carries(#[trigger] self@[j], subscription@),
            decreases self.entries.len() - i,
        {
            if entry_carries(&self.entries[i], subscription) {
                proof {
                    lemma_subscriber_is(self@, subscription@, i as int);
                }
                return Some(i);
            }
            i += 1;
        }
        proof {
            lemma_subscriber_of(self@, subscription@);
        }
        None
    }

    /// The kind of thing that owns a request id.
    pub fn request_status(&self, id: u64) -> (r: RequestStatus)
        ensures
            r == status_of(self@, id),
    {
        match self.owner(id) {
            Some(i) => entry_kind(&self.entries[i]),
            None => RequestStatus::Invalid,
        }
    }

    fn take(&mut self, i: usize) -> (r: Pending)
        requires
            old(self).wf(),
            i < old(self)@.len(),
        ensures
            final(self).wf(),
            r@ == old(self)@[i as int],
            final(self)@ == old(self)@.remove(i as int),
    {
        let r = self.entries.remove(i);
        proof {
            assert(self@ =~= old(self)@.remove(i as int));
            lemma_remove(old(self)@, i as int);
        }
        r
    }

    fn put(&mut self, entry: Pending)
        requires
            old(self).wf(),
            admissible(old(self)@, entry@),
        ensures
            final(self).wf(),
            final(self)@ == old(self)@.push(entry@),
    {
        self.entries.push(entry);
        proof {
            assert(self@ =~= old(self)@.push(entry@));
            lemma_push(old(self)@, entry@);
        }
    }

    /// Registers a call under a request id. It fails, and changes nothing,
    /// exactly where the id has an owner.
    pub fn insert_call(&mut self, id: u64) -> (r: Result<(), Error>)
        requires
            old(self).wf(),
        ensures
            final(self).wf(),
            match r {
                Ok(_) => owner_of(old(self)@, id) is None && final(self)@ == old(self)@.push(
                    PendingView::Call { id },
                ),
                Err(e) => e@ == ErrorView::DuplicateRequestId && owner_of(old(self)@, id) is Some
                    && final(self)@ == old(self)@,
            },
    {
        if self.owner(id).is_some() {
            return Err(Error::DuplicateRequestId);
        }
        self.put(Pending::Call { id });
        Ok(())
    }

    /// Registers a subscribe call under a request id, with the method that
    /// will end the subscription. It fails, and changes nothing, exactly where
    /// the id has an owner.
    pub fn insert_pending_sub(&mut self, id: u64, unsubscribe_method: String) -> (r: Result<
        (),
        Error,
    >)
        requires
            old(self).wf(),
        ensures
            final(self).wf(),
            match r {
                Ok(_) => owner_of(old(self)@, id) is None && final(self)@ == old(self)@.push(
                    PendingView::Subscribe { id, unsubscribe_method: unsubscribe_method@ },
                ),
                Err(e) => e@ == ErrorView::DuplicateRequestId && owner_of(old(self)@, id) is Some
                    && final(self)@ == old(self)@,
            },
    {
        if self.owner(id).is_some() {
            return Err(Error::DuplicateRequestId);
        }
        self.put(Pending::Subscribe { id, unsubscribe_method });
        Ok(())
    }

    /// Whether none of the given ids has an owner.
    pub fn all_free(&self, ids: &Vec<u64>) -> (b: bool)
        ensures
            b == forall|k: int| 0 <= k < ids@.len() ==> (#[trigger] owner_of(self@, ids@[k])) is None,
    {
        let mut k: usize = 0;
        while k < ids.len()
            invariant
                k <= ids.len(),
                forall|j: int| 0 <= j < k ==> (#[trigger] owner_of(self@, ids@[j])) is None,
            decreases ids.len() - k,
        {
            if self.owner(ids[k]).is_some() {
                return false;
            }
            k += 1;
        }
        true
    }

    /// Registers a batch under the ids of its calls. It fails, and changes
    /// nothing, where the list of ids is empty or holds an id twice (an
    /// invalid request id), and where one of the ids has an owner (a
    /// duplicate).
    pub fn insert_batch(&mut self, ids: Vec<u64>) -> (r: Result<(), Error>)
        requires
            old(self).wf(),
        ensures
            final(self).wf(),
            match r {
                Ok(_) => {
                    &&& ids@.len() > 0
                    &&& ids@.no_duplicates()
                    &&& forall|k: int|
                        0 <= k < ids@.len() ==> (#[trigger] owner_of(old(self)@, ids@[k])) is None
                    &&& final(self)@ == old(self)@.push(PendingView::Batch { ids: ids@ })
                },
                Err(e) => {
                    &&& final(self)@ == old(self)@
                    &&& if ids@.len() == 0 || !ids@.no_duplicates() {
                        e@ == ErrorView::InvalidRequestId
                    } else {
                        e@ == ErrorView::DuplicateRequestId && exists|k: int|
                            0 <= k < ids@.len() && (#[trigger] owner_of(old(self)@, ids@[k])) is Some
                    }
                },
            },
    {
        if ids.len() == 0 || !distinct(&ids) {
            return Err(Error::InvalidRequestId);
        }
        if !self.all_free(&ids) {
            return Err(Error::DuplicateRequestId);
        }
        self.put(Pending::Batch { ids });
        Ok(())
    }

    /// Ends the wait of the call with a request id. It returns whether there
    /// was such a call; where there was none, nothing changes.
    pub fn complete_call(&mut self, id: u64) -> (r: bool)
        requires
            old(self).wf(),
        ensures
            final(self).wf(),
            r == (status_of(old(self)@, id) == RequestStatus::PendingMethodCall),
            final(self)@ == if r {
                old(self)@.remove(owner_of(old(self)@, id).unwrap())
            } else {
                old(self)@
            },
    {
        match self.owner(id) {
            Some(i) => match entry_kind(&self.entries[i]) {
                RequestStatus::PendingMethodCall => {
                    self.take(i);
                    true
                },
                _ => false,
            },
            None => false,
        }
    }

    /// Ends the wait of the unsubscribe call with a request id. It returns
    /// whether there was such a call; where there was none, nothing changes.
    pub fn complete_unsubscribe(&mut self, id: u64) -> (r: bool)
        requires
            old(self).wf(),
        ensures
            final(self).wf(),
            r == (status_of(old(self)@, id) == RequestStatus::PendingUnsubscribe),
            final(self)@ == if r {
                old(self)@.remove(owner_of(old(self)@, id).unwrap())
            } else {
                old(self)@
            },
    {
        match self.owner(id) {
            Some(i) => match entry_kind(&self.entries[i]) {
                RequestStatus::PendingUnsubscribe => {
                    self.take(i);
                    true
                },
                _ => false,
            },
            None => false,
        }
    }

    /// Ends the wait of the subscribe call with a request id, and returns
    /// the method that would have ended the subscription. Where there is no
    /// such call, nothing changes.
    pub fn complete_pending_sub(&mut self, id: u64) -> (r: Option<String>)
        requires
            old(self).wf(),
        ensures
            final(self).wf(),
            r is Some == (status_of(old(self)@, id) == RequestStatus::PendingSubscription),
            match r {
                Some(method) => {
                    &&& old(self)@[owner_of(old(self)@, id).unwrap()] == (PendingView::Subscribe {
                        id,
                        unsubscribe_method: method@,
                    })
                    &&& final(self)@ == old(self)@.remove(owner_of(old(self)@, id).unwrap())
                },
                None => final(self)@ == old(self)@,
            },
    {
        match self.owner(id) {
            Some(i) => match entry_kind(&self.entries[i]) {
                RequestStatus::PendingSubscription => {
                    proof {
                        lemma_owner_of(old(self)@, id);
                    }
                    match self.take(i) {
                        Pending::Subscribe { id: _, unsubscribe_method } => Some(unsubscribe_method),
                        _ => {
                            proof {
                                assert(false);
                            }
                            None
                        },
                    }
                },
                _ => None,
            },
            None => None,
        }
    }

    /// Turns the subscribe call with a request id into a subscription under
    /// the subscription id that the server gave. Where that subscription id is
    /// registered already, the call is taken out and the subscription id is
    /// reported as invalid. Where no subscribe call has the request id,
    /// nothing changes and the request id is reported as invalid.
    pub fn promote_sub(&mut self, id: u64, subscription: SubscriptionId) -> (r: Result<(), Error>)
        requires
            old(self).wf(),
        ensures
            final(self).wf(),
            match r {
                Ok(_) => {
                    &&& status_of(old(self)@, id) == RequestStatus::PendingSubscription
                    &&& subscriber_of(old(self)@, subscription@) is None
                    &&& old(self)@[owner_of(
                        old(self)@,
                        id,
                    ).unwrap()] matches PendingView::Subscribe { unsubscribe_method, .. }
                    &&& final(self)@ == old(self)@.update(
                        owner_of(old(self)@, id).unwrap(),
                        PendingView::Subscription {
                            id,
                            subscription: subscription@,
                            unsubscribe_method,
                        },
                    )
                },
                Err(e) => if status_of(old(self)@, id) == RequestStatus::PendingSubscription {
                    &&& e@ == ErrorView::InvalidSubscriptionId
                    &&& subscriber_of(old(self)@, subscription@) is Some
                    &&& final(self)@ == old(self)@.remove(owner_of(old(self)@, id).unwrap())
                } else {
                    &&& e@ == ErrorView::InvalidRequestId
                    &&& final(self)@ == old(self)@
                },
            },
    {
        let i = match self.owner(id) {
            Some(i) => i,
            None => {
                return Err(Error::InvalidRequestId);
            },
        };
        match entry_kind(&self.entries[i]) {
            RequestStatus::PendingSubscription => {},
            _ => {
                return Err(Error::InvalidRequestId);
            },
        }
        let taken = self.subscriber(&subscription).is_some();
        proof {
            lemma_owner_of(old(self)@, id);
            lemma_subscriber_of(old(self)@, subscription@);
        }
        match self.entries.remove(i) {
            Pending::Subscribe { id: own, unsubscribe_method } => {
                if taken {
                    proof {
                        assert(self@ =~= old(self)@.remove(i as int));
                        lemma_remove(old(self)@, i as int);
                    }
                    Err(Error::InvalidSubscriptionId)
                } else {
                    let ghost entry = PendingView::Subscription {
                        id,
                        subscription: subscription@,
                        unsubscribe_method: unsubscribe_method@,
                    };
                    self.entries.insert(
                        i,
                        Pending::Subscription { id: own, subscription, unsubscribe_method },
                    );
                    proof {
                        assert(self@ =~= old(self)@.update(i as int, entry));
                        lemma_update(old(self)@, i as int, entry);
                    }
                    Ok(())
                }
            },
            _ => {
                proof {
                    assert(false);
                }
                Err(Error::InvalidRequestId)
            },
        }
    }

    /// The request id of the subscription that an item belongs to, or `None`
    /// where the subscription id is not registered.
    pub fn route_notification(&self, subscription: &SubscriptionId) -> (r: Option<u64>)
        ensures
            match r {
                Some(id) => subscriber_of(self@, subscription@) is Some && owns(
                    self@[subscriber_of(self@, subscription@).unwrap()],
                    id,
                ),
                None => subscriber_of(self@, subscription@) is None,
            },
    {
        match self.subscriber(subscription) {
            Some(i) => {
                proof {
                    lemma_subscriber_of(self@, subscription@);
                }
                match &self.entries[i] {
                    Pending::Subscription { id, .. } => Some(*id),
                    _ => None,
                }
            },
            None => None,
        }
    }

    /// Turns the subscription with a subscription id into an unsubscribe
    /// call under the same request id, and returns that id with the method
    /// that ends the subscription. Where the subscription id is not
    /// registered, nothing changes.
    pub fn begin_unsubscribe(&mut self, subscription: &SubscriptionId) -> (r: Option<(u64, String)>)
        requires
            old(self).wf(),
        ensures
            final(self).wf(),
            match r {
                Some((id, method)) => {
                    &&& subscriber_of(old(self)@, subscription@) is Some
                    &&& old(self)@[subscriber_of(old(self)@, subscription@).unwrap()] == (
                    PendingView::Subscription {
                        id,
                        subscription: subscription@,
                        unsubscribe_method: method@,
                    })
                    &&& final(self)@ == old(self)@.update(
                        subscriber_of(old(self)@, subscription@).unwrap(),
                        PendingView::Unsubscribe { id },
                    )
                },
                None => subscriber_of(old(self)@, subscription@) is None && final(self)@ == old(
                    self,
                )@,
            },
    {
        let i = match self.subscriber(subscription) {
            Some(i) => i,
            None => {
                return None;
            },
        };
        proof {
            lemma_subscriber_of(old(self)@, subscription@);
        }
        match self.entries.remove(i) {
            Pending::Subscription { id, subscription: _, unsubscribe_method } => {
                self.entries.insert(i, Pending::Unsubscribe { id });
                proof {
                    let entry = PendingView::Unsubscribe { id };
                    assert(self@ =~= old(self)@.update(i as int, entry));
                    lemma_update(old(self)@, i as int, entry);
                }
                Some((id, unsubscribe_method))
            },
            _ => {
                proof {
                    assert(false);
                }
                None
            },
        }
    }

    /// Ends the wait of the batch that a list of ids answers, and returns
    /// the ids of the batch in the order of its calls. Where the list answers
    /// no batch, nothing changes.
    pub fn complete_batch(&mut self, got: &Vec<u64>) -> (r: Option<Vec<u64>>)
        requires
            old(self).wf(),
        ensures
            final(self).wf(),
            match r {
                Some(ids) => {
                    &&& batch_of(old(self)@, got@) is Some
                    &&& old(self)@[batch_of(old(self)@, got@).unwrap()] == (PendingView::Batch {
                        ids: ids@,
                    })
                    &&& final(self)@ == old(self)@.remove(batch_of(old(self)@, got@).unwrap())
                },
                None => batch_of(old(self)@, got@) is None && final(self)@ == old(self)@,
            },
    {
        if got.len() == 0 {
            return None;
        }
        let i = match self.owner(got[0]) {
            Some(i) => i,
            None => {
                return None;
            },
        };
        let matched = match &self.entries[i] {
            Pending::Batch { ids } => answered(ids, got),
            _ => false,
        };
        if !matched {
            return None;
        }
        match self.take(i) {
            Pending::Batch { ids } => Some(ids),
            _ => None,
        }
    }

    /// Takes out the entry that owns a request id, whatever it is. Where
    /// nothing owns the id, nothing changes.
    pub fn remove(&mut self, id: u64) -> (r: Option<Pending>)
        requires
            old(self).wf(),
        ensures
            final(self).wf(),
            match r {
                Some(entry) => {
                    &&& owner_of(old(self)@, id) is Some
                    &&& entry@ == old(self)@[owner_of(old(self)@, id).unwrap()]
                    &&& final(self)@ == old(self)@.remove(owner_of(old(self)@, id).unwrap())
                },
                None => owner_of(old(self)@, id) is None && final(self)@ == old(self)@,
            },
    {
        match self.owner(id) {
            Some(i) => Some(self.take(i)),
            None => None,
        }
    }

    /// Takes out every entry, in the order in which they came.
    pub fn drain(&mut self) -> (r: Vec<Pending>)
        ensures
            pending_views(r@) == old(self)@,
            final(self)@ == Seq::<PendingView>::empty(),
            final(self).wf(),
    {
        let mut all: Vec<Pending> = Vec::new();
        core::mem::swap(&mut self.entries, &mut all);
        assert(self@ =~= Seq::<PendingView>::empty());
        all
    }
}

/// Whether no id stands twice in a list.
pub fn distinct(ids: &Vec<u64>) -> (b: bool)
    ensures
        b == ids@.no_duplicates(),
{
    let mut i: usize = 0;
    while i < ids.len()
        invariant
            i <= ids.len(),
            forall|a: int, b: int| 0 <= a < b < i ==> ids@[a] != ids@[b],
        decreases ids.len() - i,
    {
        let mut j: usize = 0;
        while j < i
            invariant
                j <= i,
                i < ids.len(),
                forall|a: int| 0 <= a < j ==> ids@[a] != ids@[i as int],
            decreases i - j,
        {
            if ids[j] == ids[i] {
                return false;
            }
            j += 1;
        }
        i += 1;
    }
    true
}

/// Whether a list of ids answers the ids of a batch.
pub fn answered(ids: &Vec<u64>, got: &Vec<u64>) -> (b: bool)
    ensures
        b == answers(ids@, got@),
{
    if got.len() != ids.len() {
        return false;
    }
    let mut p: usize = 0;
    while p < ids.len()
        invariant
            p <= ids.len(),
            got.len() == ids.len(),
            forall|q: int| 0 <= q < p ==> got@.contains(#[trigger] ids@[q]),
        decreases ids.len() - p,
    {
        if !holds(got, ids[p]) {
            return false;
        }
        p += 1;
    }
    true
}

} // verus!
