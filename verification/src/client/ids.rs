//! The pool of request ids.
//!
//! Ids are given out in the cyclic order of `u64`, starting after the id that
//! was given out last and passing over those still in use. At most
//! `max_slots` ids are in use at a time.

use crate::error::{Error, ErrorView};
use vstd::prelude::*;
use vstd::seq_lib::*;

verus! {

/// The number of ids there are.
pub open spec fn id_count() -> nat {
    0x1_0000_0000_0000_0000
}

/// The id that comes `k` places after `start` in the cyclic order of ids.
pub open spec fn ahead(start: u64, k: nat) -> u64 {
    ((start as nat + k) % id_count()) as u64
}

/// How many places `id` comes after `start` in the cyclic order of ids.
pub open spec fn distance(start: u64, id: u64) -> nat {
    if id >= start {
        (id - start) as nat
    } else {
        (id + id_count() - start) as nat
    }
}

/// The id that follows `id` in the cyclic order of ids.
pub open spec fn successor(id: u64) -> u64 {
    ahead(id, 1)
}

/// Whether `id` is the first id at or after `start`, in the cyclic order of
/// ids, that is not in use.
pub open spec fn first_free(live: Set<u64>, start: u64, id: u64) -> bool {
    &&& !live.contains(id)
    &&& forall|k: nat| k < distance(start, id) ==> live.contains(#[trigger] ahead(start, k))
}

/// Where the search for the next id starts after a list of ids was given
/// out, one after the other, from a starting point.
pub open spec fn run_end(start: u64, ids: Seq<u64>) -> u64 {
    if ids.len() == 0 {
        start
    } else {
        successor(ids.last())
    }
}

/// Whether a list of ids is what comes of giving out ids one after the
/// other: each is the first free id after the one before it, with those
/// before it in use.
pub open spec fn run_of(live: Set<u64>, start: u64, ids: Seq<u64>) -> bool {
    forall|k: int|
        0 <= k < ids.len() ==> first_free(
            live.union(ids.take(k).to_set()),
            run_end(start, ids.take(k)),
            #[trigger] ids[k],
        )
}

/// A run of ids that are all in use is no longer than the number of ids in
/// use.
proof fn lemma_run_fits(live: Set<u64>, start: u64, n: nat)
    requires
        live.finite(),
        n <= id_count(),
        forall|k: nat| k < n ==> live.contains(#[trigger] ahead(start, k)),
    ensures
        n <= live.len(),
    decreases n,
{
    if n > 0 {
        let last = ahead(start, (n - 1) as nat);
        let rest = live.remove(last);
        assert forall|k: nat| k < n - 1 implies rest.contains(#[trigger] ahead(start, k)) by {
            assert(live.contains(ahead(start, k)));
            assert(ahead(start, k) != last);
        }
        lemma_run_fits(rest, start, (n - 1) as nat);
    }
}

/// At most one id is the first free one.
pub proof fn lemma_first_free_unique(live: Set<u64>, start: u64, a: u64, b: u64)
    requires
        first_free(live, start, a),
        first_free(live, start, b),
    ensures
        a == b,
{
    let da = distance(start, a);
    let db = distance(start, b);
    assert(ahead(start, da) == a);
    assert(ahead(start, db) == b);
    if da < db {
        assert(live.contains(ahead(start, da)));
    } else if db < da {
        assert(live.contains(ahead(start, db)));
    }
}

/// Where the starting point itself is not in use, it is the first free id.
pub proof fn lemma_first_free_at_start(live: Set<u64>, start: u64, id: u64)
    requires
        first_free(live, start, id),
        !live.contains(start),
    ensures
        id == start,
{
    if distance(start, id) > 0 {
        assert(live.contains(ahead(start, 0)));
    }
}

/// The pool of request ids.
#[derive(Debug)]
pub struct RequestIdManager {
    max_slots: usize,
    next: u64,
    live: Vec<u64>,
}

impl RequestIdManager {
    /// No id is recorded twice, and no more ids than the pool may give out.
    pub closed spec fn wf(&self) -> bool {
        self.live@.no_duplicates() && self.live@.len() <= self.max_slots
    }

    /// No more ids are in use than may be.
    pub proof fn lemma_within_capacity(&self)
        requires
            self.wf(),
        ensures
            self.live().len() <= self.capacity(),
    {
        self.live@.unique_seq_to_set();
    }

    /// The ids in use.
    pub closed spec fn live(&self) -> Set<u64> {
        self.live@.to_set()
    }

    /// Where the search for the next id starts.
    pub closed spec fn next_id(&self) -> u64 {
        self.next
    }

    /// How many ids may be in use at a time.
    pub closed spec fn capacity(&self) -> nat {
        self.max_slots as nat
    }

    /// The ids in use are finitely many.
    pub proof fn lemma_live_finite(&self)
        ensures
            self.live().finite(),
    {
        broadcast use seq_to_set_is_finite;

    }

    /// A pool with no id in use, which starts at id 0.
    pub fn new(max_slots: usize) -> (r: RequestIdManager)
        ensures
            r.wf(),
            r.live() == Set::<u64>::empty(),
            r.next_id() == 0,
            r.capacity() == max_slots,
    {
        let r = RequestIdManager { max_slots, next: 0, live: Vec::new() };
        assert(r.live@.to_set() =~= Set::<u64>::empty());
        r
    }

    /// A pool with no id in use, which starts at the given id.
    pub fn starting_at(max_slots: usize, start: u64) -> (r: RequestIdManager)
        ensures
            r.wf(),
            r.live() == Set::<u64>::empty(),
            r.next_id() == start,
            r.capacity() == max_slots,
    {
        let r = RequestIdManager { max_slots, next: start, live: Vec::new() };
        assert(r.live@.to_set() =~= Set::<u64>::empty());
        r
    }

    /// Whether an id is in use.
    pub fn is_live(&self, id: u64) -> (b: bool)
        ensures
            b == self.live().contains(id),
    {
        self.position(id).is_some()
    }

    /// How many more ids can be given out.
    pub fn free_slots(&self) -> (n: usize)
        requires
            self.wf(),
        ensures
            n == if self.live().len() >= self.capacity() {
                0
            } else {
                self.capacity() - self.live().len()
            },
    {
        proof {
            self.live@.unique_seq_to_set();
        }
        if self.live.len() >= self.max_slots {
            0
        } else {
            self.max_slots - self.live.len()
        }
    }

    fn position(&self, id: u64) -> (r: Option<usize>)
        ensures
            match r {
                Some(i) => i < self.live@.len() && self.live@[i as int] == id,
                None => !self.live@.contains(id),
            },
            r is Some == self.live().contains(id),
    {
        let mut i: usize = 0;
        while i < self.live.len()
            invariant
                i <= self.live.len(),
                forall|k: int| 0 <= k < i ==> self.live@[k] != id,
            decreases self.live.len() - i,
        {
            if self.live[i] == id {
                return Some(i);
            }
            i += 1;
        }
        None
    }

    /// Gives out the first id at or after the starting point that is not in
    /// use, and moves the starting point behind it. It fails, and changes
    /// nothing, exactly where `max_slots` ids are in use.
    pub fn acquire(&mut self) -> (r: Result<u64, Error>)
        requires
            old(self).wf(),
        ensures
            final(self).wf(),
            final(self).capacity() == old(self).capacity(),
            match r {
                Ok(id) => {
                    &&& old(self).live().len() < old(self).capacity()
                    &&& first_free(old(self).live(), old(self).next_id(), id)
                    &&& final(self).live() == old(self).live().insert(id)
                    &&& final(self).next_id() == successor(id)
                },
                Err(e) => {
                    &&& e@ == ErrorView::MaxSlotsExceeded
                    &&& old(self).live().len() >= old(self).capacity()
                    &&& final(self).live() == old(self).live()
                    &&& final(self).next_id() == old(self).next_id()
                },
            },
    {
        proof {
            self.live@.unique_seq_to_set();
            self.lemma_live_finite();
        }
        if self.live.len() >= self.max_slots {
            return Err(Error::MaxSlotsExceeded);
        }
        assert(self.live().len() < id_count());
        let mut candidate = self.next;
        let ghost mut steps: nat = 0;
        while self.is_live(candidate)
            invariant
                self.wf(),
                self.live().finite(),
                self.live().len() < id_count(),
                steps <= self.live().len(),
                candidate == ahead(self.next, steps),
                forall|k: nat| k < steps ==> self.live().contains(#[trigger] ahead(self.next, k)),
            decreases self.live().len() - steps,
        {
            proof {
                lemma_run_fits(self.live(), self.next, steps + 1);
                steps = steps + 1;
            }
            candidate = if candidate == u64::MAX {
                0
            } else {
                candidate + 1
            };
        }
        assert(distance(self.next, candidate) == steps);
        self.live.push(candidate);
        self.next = if candidate == u64::MAX {
            0
        } else {
            candidate + 1
        };
        proof {
            let before = old(self).live@;
            assert(self.live@ == before.push(candidate));
            let after = self.live@;
            assert(!before.contains(candidate));
            before.lemma_push_to_set_commute(candidate);
            assert(after.to_set() =~= before.to_set().insert(candidate));
        }
        Ok(candidate)
    }

    /// Gives out as many ids as asked for, one after the other, or none:
    /// it fails, and changes nothing, exactly where fewer are free.
    pub fn acquire_many(&mut self, n: usize) -> (r: Result<Vec<u64>, Error>)
        requires
            old(self).wf(),
        ensures
            final(self).wf(),
            final(self).capacity() == old(self).capacity(),
            match r {
                Ok(ids) => {
                    &&& ids@.len() == n
                    &&& old(self).live().len() + n <= old(self).capacity()
                    &&& run_of(old(self).live(), old(self).next_id(), ids@)
                    &&& final(self).live() == old(self).live().union(ids@.to_set())
                    &&& final(self).next_id() == run_end(old(self).next_id(), ids@)
                },
                Err(e) => {
                    &&& e@ == ErrorView::MaxSlotsExceeded
                    &&& old(self).live().len() + n > old(self).capacity()
                    &&& final(self).live() == old(self).live()
                    &&& final(self).next_id() == old(self).next_id()
                },
            },
    {
        if self.free_slots() < n {
            return Err(Error::MaxSlotsExceeded);
        }
        let mut ids: Vec<u64> = Vec::new();
        proof {
            self.lemma_live_finite();
            self.lemma_within_capacity();
            assert(ids@.to_set() =~= Set::<u64>::empty());
            assert(self.live().union(ids@.to_set()) =~= self.live());
        }
        while ids.len() < n
            invariant
                self.wf(),
                ids@.len() <= n,
                self.capacity() == old(self).capacity(),
                old(self).live().finite(),
                old(self).live().len() + n <= old(self).capacity(),
                self.live().len() == old(self).live().len() + ids@.len(),
                run_of(old(self).live(), old(self).next_id(), ids@),
                self.live() == old(self).live().union(ids@.to_set()),
                self.next_id() == run_end(old(self).next_id(), ids@),
            decreases n - ids.len(),
        {
            let ghost before = ids@;
            let ghost live_before = self.live();
            match self.acquire() {
                Ok(id) => {
                    ids.push(id);
                    proof {
                        self.lemma_live_finite();
                        assert(ids@.drop_last() =~= before);
                        before.lemma_push_to_set_commute(id);
                        assert(ids@.to_set() =~= before.to_set().insert(id));
                        assert(self.live() =~= old(self).live().union(ids@.to_set()));
                        assert forall|k: int| 0 <= k < ids@.len() implies first_free(
                            old(self).live().union(ids@.take(k).to_set()),
                            run_end(old(self).next_id(), ids@.take(k)),
                            #[trigger] ids@[k],
                        ) by {
                            if k < before.len() {
                                assert(ids@.take(k) =~= before.take(k));
                            } else {
                                assert(ids@.take(k) =~= before);
                            }
                        }
                    }
                },
                Err(_) => {
                    proof {
                        assert(false);
                    }
                },
            }
        }
        Ok(ids)
    }

    /// Takes back every id of a list.
    pub fn release_all(&mut self, ids: &Vec<u64>)
        requires
            old(self).wf(),
        ensures
            final(self).wf(),
            final(self).capacity() == old(self).capacity(),
            final(self).next_id() == old(self).next_id(),
            final(self).live() == old(self).live().difference(ids@.to_set()),
    {
        let mut k: usize = 0;
        proof {
            assert(ids@.take(0).to_set() =~= Set::<u64>::empty());
            assert(self.live().difference(ids@.take(0).to_set()) =~= self.live());
        }
        while k < ids.len()
            invariant
                k <= ids.len(),
                self.wf(),
                self.capacity() == old(self).capacity(),
                self.next_id() == old(self).next_id(),
                self.live() == old(self).live().difference(ids@.take(k as int).to_set()),
            decreases ids.len() - k,
        {
            self.release(ids[k]);
            proof {
                let shorter = ids@.take(k as int);
                let longer = ids@.take(k + 1);
                assert(longer =~= shorter.push(ids@[k as int]));
                shorter.lemma_push_to_set_commute(ids@[k as int]);
                assert(self.live() =~= old(self).live().difference(longer.to_set()));
            }
            k += 1;
        }
        proof {
            assert(ids@.take(ids@.len() as int) =~= ids@);
        }
    }

    /// Takes back every id.
    pub fn clear(&mut self)
        ensures
            final(self).wf(),
            final(self).capacity() == old(self).capacity(),
            final(self).next_id() == old(self).next_id(),
            final(self).live() == Set::<u64>::empty(),
    {
        self.live.clear();
        assert(self.live@.to_set() =~= Set::<u64>::empty());
    }

    /// Takes an id back. An id that is not in use is left as it is.
    pub fn release(&mut self, id: u64)
        requires
            old(self).wf(),
        ensures
            final(self).wf(),
            final(self).capacity() == old(self).capacity(),
            final(self).next_id() == old(self).next_id(),
            final(self).live() == old(self).live().remove(id),
    {
        match self.position(id) {
            Some(i) => {
                self.live.remove(i);
                proof {
                    let before = old(self).live@;
                    let after = self.live@;
                    assert(after == before.remove(i as int));
                    assert forall|x: u64| after.contains(x) <==> (before.contains(x) && x != id) by {
                        if after.contains(x) {
                            let j = choose|j: int| 0 <= j < after.len() && after[j] == x;
                            if j < i {
                                assert(before[j] == x);
                            } else {
                                assert(before[j + 1] == x);
                            }
                        }
                        if before.contains(x) && x != id {
                            let j = choose|j: int| 0 <= j < before.len() && before[j] == x;
                            if j < i {
                                assert(after[j] == x);
                            } else {
                                assert(after[j - 1] == x);
                            }
                        }
                    }
                    assert(after.to_set() =~= before.to_set().remove(id));
                }
            },
            None => {
                assert(self.live@.to_set() =~= old(self).live@.to_set().remove(id));
            },
        }
    }
}

} // verus!
