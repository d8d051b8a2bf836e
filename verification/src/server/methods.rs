//! The methods that a server offers.
//!
//! Each method is registered under a name, once. A subscription takes two
//! names, one to subscribe and one to unsubscribe, which must differ. The
//! names are kept in a hash map of `rustc_hash`, each with the place of its
//! handler; the handlers stand in the order in which they were registered.

use crate::error::{Error, ErrorView};
use rustc_hash::FxHashMap;
use vstd::prelude::*;
use vstd::string::*;

verus! {

#[verifier::external_type_specification]
#[verifier::external_body]
pub struct ExFxHasher(rustc_hash::FxHasher);

#[verifier::external_type_specification]
#[verifier::external_body]
#[verifier::reject_recursive_types(H)]
pub struct ExBuildHasherDefault<H>(core::hash::BuildHasherDefault<H>);

/// What a table of names holds: for each name, as a sequence of characters,
/// the place that was inserted under it last.
pub uninterp spec fn table_of(table: FxHashMap<String, usize>) -> Map<Seq<char>, usize>;

/// The table that holds nothing.
pub open spec fn empty_table() -> Map<Seq<char>, usize> {
    Map::empty()
}

/// What looking a name up in a table gives.
pub open spec fn looked_up(table: Map<Seq<char>, usize>, name: Seq<char>) -> Option<usize> {
    if table.dom().contains(name) {
        Some(table[name])
    } else {
        None
    }
}

/// Calls `FxHashMap::default`. Trusted: the new table holds nothing.
#[verifier::external_body]
fn table_new() -> (r: FxHashMap<String, usize>)
    ensures
        table_of(r) == empty_table(),
{
    FxHashMap::default()
}

/// Calls `HashMap::get` on a table, with a string slice as the key.
/// Trusted: the result is the place that the table holds under the name, or
/// `None` where it holds none.
#[verifier::external_body]
fn table_get(table: &FxHashMap<String, usize>, name: &str) -> (r: Option<usize>)
    ensures
        r == looked_up(table_of(*table), name@),
{
    table.get(name).copied()
}

/// Calls `HashMap::insert` on a table. Trusted: afterwards the table holds
/// the place under the name, and under every other name what it held before.
#[verifier::external_body]
fn table_insert(table: &mut FxHashMap<String, usize>, name: String, place: usize)
    ensures
        table_of(*final(table)) == table_of(*old(table)).insert(name@, place),
{
    table.insert(name, place);
}

/// What registering a method under a name gives: the names with the new one
/// among them, or the complaint that the name is registered already.
pub open spec fn registration(names: Set<Seq<char>>, name: Seq<char>) -> Result<
    Set<Seq<char>>,
    ErrorView,
> {
    if names.contains(name) {
        Err(ErrorView::MethodAlreadyRegistered(name))
    } else {
        Ok(names.insert(name))
    }
}

/// What registering a subscription under two names gives: the names with
/// the two new ones among them, or the complaint that the two are the same
/// name, or that one of them is registered already.
pub open spec fn subscription_registration(
    names: Set<Seq<char>>,
    subscribe: Seq<char>,
    unsubscribe: Seq<char>,
) -> Result<Set<Seq<char>>, ErrorView> {
    if subscribe == unsubscribe {
        Err(ErrorView::SubscriptionNameConflict(subscribe))
    } else if names.contains(subscribe) {
        Err(ErrorView::MethodAlreadyRegistered(subscribe))
    } else if names.contains(unsubscribe) {
        Err(ErrorView::MethodAlreadyRegistered(unsubscribe))
    } else {
        Ok(names.insert(subscribe).insert(unsubscribe))
    }
}

/// Registering the same name twice fails: after a method was registered
/// under a name, that name is taken, for a method and for either name of a
/// subscription.
pub proof fn lemma_second_registration_fails(names: Set<Seq<char>>, name: Seq<char>, other: Seq<char>)
    requires
        registration(names, name) is Ok,
        other != name,
    ensures
        registration(registration(names, name)->Ok_0, name) == Err::<Set<Seq<char>>, ErrorView>(
            ErrorView::MethodAlreadyRegistered(name),
        ),
        subscription_registration(registration(names, name)->Ok_0, name, other) == Err::<
            Set<Seq<char>>,
            ErrorView,
        >(ErrorView::MethodAlreadyRegistered(name)),
        subscription_registration(registration(names, name)->Ok_0, other, name) is Err,
{
}

/// A subscription whose two names are the same is refused, whatever is
/// registered; and after a subscription was registered, both of its names
/// are taken.
pub proof fn lemma_subscription_names(
    names: Set<Seq<char>>,
    subscribe: Seq<char>,
    unsubscribe: Seq<char>,
)
    ensures
        subscription_registration(names, subscribe, subscribe) == Err::<Set<Seq<char>>, ErrorView>(
            ErrorView::SubscriptionNameConflict(subscribe),
        ),
        subscription_registration(names, subscribe, unsubscribe) matches Ok(after) ==> {
            &&& registration(after, subscribe) == Err::<Set<Seq<char>>, ErrorView>(
                ErrorView::MethodAlreadyRegistered(subscribe),
            )
            &&& registration(after, unsubscribe) == Err::<Set<Seq<char>>, ErrorView>(
                ErrorView::MethodAlreadyRegistered(unsubscribe),
            )
        },
{
}

/// The methods of a server: each name with the handler that serves it.
pub struct Methods<H> {
    places: FxHashMap<String, usize>,
    handlers: Vec<H>,
}

impl<H> Methods<H> {
    /// The place of the handler of each name.
    pub closed spec fn places(&self) -> Map<Seq<char>, usize> {
        table_of(self.places)
    }

    /// The handlers, in the order in which they were registered.
    pub closed spec fn handlers(&self) -> Seq<H> {
        self.handlers@
    }

    /// The names that are registered.
    pub open spec fn names(&self) -> Set<Seq<char>> {
        self.places().dom()
    }

    /// Every name has its handler.
    pub open spec fn wf(&self) -> bool {
        forall|name: Seq<char>|
            self.names().contains(name) ==> (#[trigger] self.places()[name]) < self.handlers().len()
    }

    /// A server that offers nothing.
    pub fn new() -> (r: Methods<H>)
        ensures
            r.wf(),
            r.places() == empty_table(),
            r.handlers() == Seq::<H>::empty(),
    {
        Methods { places: table_new(), handlers: Vec::new() }
    }

    /// The number of handlers.
    pub fn len(&self) -> (n: usize)
        ensures
            n == self.handlers().len(),
    {
        self.handlers.len()
    }

    /// The place of the handler that serves a name.
    pub fn place(&self, name: &str) -> (r: Option<usize>)
        ensures
            r == looked_up(self.places(), name@),
    {
        table_get(&self.places, name)
    }

    /// The handler at a place.
    pub fn handler(&self, place: usize) -> (r: &H)
        requires
            place < self.handlers().len(),
        ensures
            *r == self.handlers()[place as int],
    {
        &self.handlers[place]
    }

    /// The handler that serves a name.
    pub fn method(&self, name: &str) -> (r: Option<&H>)
        requires
            self.wf(),
        ensures
            match r {
                Some(h) => self.names().contains(name@) && *h == self.handlers()[self.places()[name@] as int],
                None => !self.names().contains(name@),
            },
    {
        match self.place(name) {
            Some(place) => Some(&self.handlers[place]),
            None => None,
        }
    }

    fn add(&mut self, name: &str, handler: H)
        requires
            old(self).wf(),
        ensures
            final(self).wf(),
            final(self).places() == old(self).places().insert(
                name@,
                old(self).handlers().len() as usize,
            ),
            final(self).handlers() == old(self).handlers().push(handler),
    {
        let place = self.handlers.len();
        self.handlers.push(handler);
        table_insert(&mut self.places, String::from_str(name), place);
        proof {
            assert forall|other: Seq<char>| self.names().contains(other) implies (
            #[trigger] self.places()[other]) < self.handlers().len() by {
                if other != name@ {
                    assert(old(self).names().contains(other));
                    assert(self.places()[other] == old(self).places()[other]);
                }
            }
        }
    }

    /// Registers a method under a name. It fails, and changes nothing,
    /// exactly where the name is registered already. Else the handler comes
    /// behind those registered before, and the name gets its place.
    pub fn register_method(&mut self, name: &str, handler: H) -> (r: Result<(), Error>)
        requires
            old(self).wf(),
        ensures
            final(self).wf(),
            match registration(old(self).names(), name@) {
                Ok(names) => {
                    &&& r is Ok
                    &&& final(self).names() == names
                    &&& final(self).places() == old(self).places().insert(
                        name@,
                        old(self).handlers().len() as usize,
                    )
                    &&& final(self).handlers() == old(self).handlers().push(handler)
                },
                Err(e) => {
                    &&& r matches Err(got) && got@ == e
                    &&& final(self).places() == old(self).places()
                    &&& final(self).handlers() == old(self).handlers()
                },
            },
    {
        if self.place(name).is_some() {
            return Err(Error::MethodAlreadyRegistered(String::from_str(name)));
        }
        self.add(name, handler);
        Ok(())
    }

    /// Registers a subscription under a name to subscribe and a name to
    /// unsubscribe, each with its handler. It fails, and changes nothing,
    /// where the two names are the same and where one of them is registered
    /// already. Else the two handlers come behind those registered before,
    /// and each name gets its place.
    pub fn register_subscription(
        &mut self,
        subscribe: &str,
        unsubscribe: &str,
        on_subscribe: H,
        on_unsubscribe: H,
    ) -> (r: Result<(), Error>)
        requires
            old(self).wf(),
        ensures
            final(self).wf(),
            match subscription_registration(old(self).names(), subscribe@, unsubscribe@) {
                Ok(names) => {
                    &&& r is Ok
                    &&& final(self).names() == names
                    &&& final(self).places() == old(self).places().insert(
                        subscribe@,
                        old(self).handlers().len() as usize,
                    ).insert(unsubscribe@, (old(self).handlers().len() + 1) as usize)
                    &&& final(self).handlers() == old(self).handlers().push(on_subscribe).push(
                        on_unsubscribe,
                    )
                },
                Err(e) => {
                    &&& r matches Err(got) && got@ == e
                    &&& final(self).places() == old(self).places()
                    &&& final(self).handlers() == old(self).handlers()
                },
            },
    {
        if same_text(subscribe, unsubscribe) {
            return Err(Error::SubscriptionNameConflict(String::from_str(subscribe)));
        }
        if self.place(subscribe).is_some() {
            return Err(Error::MethodAlreadyRegistered(String::from_str(subscribe)));
        }
        if self.place(unsubscribe).is_some() {
            return Err(Error::MethodAlreadyRegistered(String::from_str(unsubscribe)));
        }
        self.add(subscribe, on_subscribe);
        self.add(unsubscribe, on_unsubscribe);
        Ok(())
    }
}

/// Whether two texts are the same.
pub fn same_text(a: &str, b: &str) -> (r: bool)
    ensures
        r == (a@ == b@),
{
    let left = String::from_str(a);
    let right = String::from_str(b);
    left == right
}

} // verus!
