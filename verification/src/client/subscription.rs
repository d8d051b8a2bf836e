//! The holder's end of a subscription.
//!
//! The items of a subscription reach its holder in the order in which they
//! came. After the stream was closed, the items that came before are still
//! handed out; then there are no more.

use crate::text::texts;
use crate::v2::params::{SubscriptionId, SubscriptionIdView};
use std::collections::VecDeque;
use vstd::prelude::*;

verus! {

/// What a subscription says: the id that the server gave it, the method that
/// ends it, the items that wait for the holder, oldest first, and whether
/// the stream is closed.
pub ghost struct SubscriptionView {
    pub id: SubscriptionIdView,
    pub unsubscribe_method: Seq<char>,
    pub items: Seq<Seq<char>>,
    pub closed: bool,
}

/// The holder's end of a subscription. The items are JSON text.
#[derive(Debug)]
pub struct Subscription {
    id: SubscriptionId,
    unsubscribe_method: String,
    items: VecDeque<String>,
    closed: bool,
}

impl View for Subscription {
    type V = SubscriptionView;

    closed spec fn view(&self) -> SubscriptionView {
        SubscriptionView {
            id: self.id@,
            unsubscribe_method: self.unsubscribe_method@,
            items: texts(self.items@),
            closed: self.closed,
        }
    }
}

impl Subscription {
    /// A subscription that is open and holds no item yet.
    pub fn new(id: SubscriptionId, unsubscribe_method: String) -> (r: Subscription)
        ensures
            r@ == (SubscriptionView {
                id: id@,
                unsubscribe_method: unsubscribe_method@,
                items: Seq::empty(),
                closed: false,
            }),
    {
        let r = Subscription { id, unsubscribe_method, items: VecDeque::new(), closed: false };
        assert(texts(r.items@) =~= Seq::<Seq<char>>::empty());
        r
    }

    /// The id that the server gave to the subscription.
    pub fn id(&self) -> (r: &SubscriptionId)
        ensures
            r@ == self@.id,
    {
        &self.id
    }

    /// Whether the stream is closed.
    pub fn is_closed(&self) -> (b: bool)
        ensures
            b == self@.closed,
    {
        self.closed
    }

    /// Whether nothing more will come out: the stream is closed and no item
    /// waits.
    pub fn is_finished(&self) -> (b: bool)
        ensures
            b == (self@.closed && self@.items.len() == 0),
    {
        self.closed && self.items.len() == 0
    }

    /// Takes in an item that the server sent. An item that comes after the
    /// stream was closed is dropped, and `false` is returned.
    pub fn deliver(&mut self, payload: String) -> (taken: bool)
        ensures
            taken == !old(self)@.closed,
            final(self)@ == if taken {
                SubscriptionView { items: old(self)@.items.push(payload@), ..old(self)@ }
            } else {
                old(self)@
            },
    {
        if self.closed {
            return false;
        }
        let ghost before = texts(self.items@);
        self.items.push_back(payload);
        assert(texts(self.items@) =~= before.push(payload@));
        true
    }

    /// Closes the stream. The items that wait stay.
    pub fn close(&mut self)
        ensures
            final(self)@ == (SubscriptionView { closed: true, ..old(self)@ }),
    {
        self.closed = true;
    }

    /// Hands out the oldest item that waits, or `None` where none does.
    pub fn next(&mut self) -> (r: Option<String>)
        ensures
            match r {
                Some(item) => old(self)@.items.len() > 0 && item@ == old(self)@.items[0]
                    && final(self)@ == (SubscriptionView {
                    items: old(self)@.items.skip(1),
                    ..old(self)@
                }),
                None => old(self)@.items.len() == 0 && final(self)@ == old(self)@,
            },
    {
        let ghost before = texts(self.items@);
        match self.items.pop_front() {
            Some(item) => {
                assert(texts(self.items@) =~= before.skip(1));
                Some(item)
            },
            None => {
                assert(texts(self.items@) =~= before);
                None
            },
        }
    }

    /// Gives the subscription up: what is left of it is the subscription id
    /// and the method that ends it, for the unsubscribe call.
    pub fn into_unsubscribe(self) -> (r: (SubscriptionId, String))
        ensures
            r.0@ == self@.id,
            r.1@ == self@.unsubscribe_method,
    {
        (self.id, self.unsubscribe_method)
    }
}

} // verus!
