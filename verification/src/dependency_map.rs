//! The dependency registry: the place where a step leaves its output for
//! the steps that build on it.
//!
//! The registry holds at most one value for each type. A step that asks for
//! a value that is not there yet is parked: it is noted as a waiter of that
//! type and asks again when it is woken. A step that sets a value is told
//! whom to wake. Suspending and waking themselves are left to the caller.

use crate::erased::erase;
use crate::erased::restore;
use crate::erased::share;
use crate::erased::type_id_of;
use crate::erased::Erased;
use crate::type_index::TypeIndex;
use std::any::TypeId;
use std::sync::Arc;
use vstd::prelude::*;

verus! {

/// The slot of one type: its value, once it is set, and those who wait for
/// it.
pub struct NotifyCell {
    pub waiters: Vec<u64>,
    pub value: Option<Erased>,
}

/// The registry.
pub struct DependencyMap {
    pub map: TypeIndex<NotifyCell>,
}

/// What a slot holds, as plain values.
pub struct CellState {
    pub value: Option<Erased>,
    pub waiters: Seq<u64>,
}

impl View for NotifyCell {
    type V = CellState;

    open spec fn view(&self) -> CellState {
        CellState { value: self.value, waiters: self.waiters@ }
    }
}

/// The value that a request for `key` is answered with, if the value is
/// there.
pub open spec fn answer(state: Map<TypeId, CellState>, key: TypeId) -> Option<Erased> {
    if state.contains_key(key) {
        state[key].value
    } else {
        None
    }
}

/// Those who wait for the value of `key`, in the order in which they came.
pub open spec fn parked(state: Map<TypeId, CellState>, key: TypeId) -> Seq<u64> {
    if state.contains_key(key) {
        state[key].waiters
    } else {
        Seq::empty()
    }
}

/// The registry after `value` has been set for `key`: the slot holds the
/// value, and nobody waits for it any more.
pub open spec fn after_set(state: Map<TypeId, CellState>, key: TypeId, value: Erased) -> Map<TypeId, CellState> {
    state.insert(key, CellState { value: Some(value), waiters: Seq::empty() })
}

/// The registry after `waiter` has asked for the value of `key`: unchanged
/// where the value is there; else the waiter has joined those who wait, in
/// a slot that is made if need be.
pub open spec fn after_get(state: Map<TypeId, CellState>, key: TypeId, waiter: u64) -> Map<TypeId, CellState> {
    if answer(state, key) is Some {
        state
    } else {
        state.insert(key, CellState { value: None, waiters: parked(state, key).push(waiter) })
    }
}

/// The registry after each of `waiters` has asked for the value of `key`,
/// one after the other.
pub open spec fn after_gets(state: Map<TypeId, CellState>, key: TypeId, waiters: Seq<u64>) -> Map<
    TypeId,
    CellState,
>
    decreases waiters.len(),
{
    if waiters.len() == 0 {
        state
    } else {
        after_get(after_gets(state, key, waiters.drop_last()), key, waiters.last())
    }
}

impl View for DependencyMap {
    type V = Map<TypeId, CellState>;

    open spec fn view(&self) -> Map<TypeId, CellState> {
        Map::new(|key: TypeId| self.map@.contains_key(key), |key: TypeId| self.map@[key]@)
    }
}

impl DependencyMap {
    /// A registry without any slot.
    pub fn new() -> (r: Self)
        ensures
            r@ == Map::<TypeId, CellState>::empty(),
    {
        let r = Self { map: TypeIndex::new() };
        assert(r@ =~= Map::<TypeId, CellState>::empty());
        r
    }

    /// Sets the value of `key`, in place of an earlier one, and hands back
    /// those who waited for it: all of them are to be woken.
    pub fn set_cell(&mut self, key: TypeId, value: Erased) -> (woken: Vec<u64>)
        ensures
            final(self)@ == after_set(old(self)@, key, value),
            woken@ == parked(old(self)@, key),
    {
        let woken = match self.map.remove(&key) {
            Some(cell) => cell.waiters,
            None => Vec::new(),
        };
        self.map.put(key, NotifyCell { waiters: Vec::new(), value: Some(value) });
        assert(self@ =~= after_set(old(self)@, key, value));
        woken
    }

    /// Asks for the value of `key` on behalf of `waiter`.
    ///
    /// Where the value is there it is handed out and nothing changes. Else
    /// the waiter is parked in the slot of `key`: it has to suspend, and to
    /// ask again once it is woken.
    pub fn get_cell(&mut self, key: TypeId, waiter: u64) -> (r: Option<Erased>)
        ensures
            r == answer(old(self)@, key),
            final(self)@ == after_get(old(self)@, key, waiter),
    {
        match self.map.remove(&key) {
            Some(cell) => {
                let found = match &cell.value {
                    Some(value) => Some(share(value)),
                    None => None,
                };
                match found {
                    Some(value) => {
                        self.map.put(key, cell);
                        assert(self.map@ =~= old(self).map@);
                        Some(value)
                    },
                    None => {
                        let mut cell = cell;
                        cell.waiters.push(waiter);
                        self.map.put(key, cell);
                        assert(self@ =~= after_get(old(self)@, key, waiter));
                        None
                    },
                }
            },
            None => {
                let mut waiters: Vec<u64> = Vec::new();
                waiters.push(waiter);
                self.map.put(key, NotifyCell { waiters, value: None });
                assert(Seq::<u64>::empty().push(waiter) =~= waiters@);
                assert(self@ =~= after_get(old(self)@, key, waiter));
                None
            },
        }
    }

    /// Stores `value` as the one value of its type, in place of an earlier
    /// value of that type; hands back those who waited for a value of that
    /// type.
    pub fn set<T: 'static + Send + Sync>(&mut self, value: T) -> (woken: Vec<u64>)
        ensures
            exists|key: TypeId, stored: Erased|
                final(self)@ == after_set(old(self)@, key, stored) && woken@ == parked(old(self)@, key),
    {
        let key = type_id_of::<T>();
        let stored = erase(value);
        let ghost kept = stored;
        let woken = self.set_cell(key, stored);
        assert(self@ == after_set(old(self)@, key, kept) && woken@ == parked(old(self)@, key));
        woken
    }

    /// The value of type `T`, if it is there; else `waiter` is parked until
    /// such a value is set.
    pub fn get<T: 'static + Send + Sync>(&mut self, waiter: u64) -> (r: Option<Arc<T>>)
        ensures
            exists|key: TypeId|
                final(self)@ == after_get(old(self)@, key, waiter) && (r is Some ==> answer(old(self)@, key)
                    is Some),
    {
        let key = type_id_of::<T>();
        let found = self.get_cell(key, waiter);
        assert(self@ == after_get(old(self)@, key, waiter));
        match found {
            Some(value) => restore::<T>(value),
            None => None,
        }
    }
}

/// Requests that come before the value are all parked, in their order, and
/// none of them is answered.
pub proof fn lemma_early_requests_are_parked(state: Map<TypeId, CellState>, key: TypeId, waiters: Seq<u64>)
    requires
        answer(state, key) is None,
    ensures
        answer(after_gets(state, key, waiters), key) is None,
        parked(after_gets(state, key, waiters), key) == parked(state, key) + waiters,
    decreases waiters.len(),
{
    if waiters.len() == 0 {
        assert(parked(state, key) + waiters =~= parked(state, key));
    } else {
        lemma_early_requests_are_parked(state, key, waiters.drop_last());
        assert((parked(state, key) + waiters.drop_last()).push(waiters.last()) =~= parked(state, key) + waiters);
    }
}

/// Registry correctness: when any number of requests for a value have come
/// before the value, and then the value is set once, the one who sets it is
/// told to wake every one of them; each of them, asking again, gets that
/// same value; and whoever asks after the value is set gets it at once,
/// without being parked.
pub proof fn lemma_set_answers_every_request(
    state: Map<TypeId, CellState>,
    key: TypeId,
    waiters: Seq<u64>,
    value: Erased,
    later: u64,
)
    requires
        answer(state, key) is None,
        parked(state, key) == Seq::<u64>::empty(),
    ensures
        ({
            let waiting = after_gets(state, key, waiters);
            let set = after_set(waiting, key, value);
            &&& parked(waiting, key) == waiters
            &&& answer(set, key) == Some(value)
            &&& after_get(set, key, later) == set
            &&& forall|i: int| 0 <= i < waiters.len() ==> after_get(set, key, #[trigger] waiters[i]) == set
            &&& parked(set, key) == Seq::<u64>::empty()
        }),
{
    lemma_early_requests_are_parked(state, key, waiters);
    assert(Seq::<u64>::empty() + waiters =~= waiters);
}

/// A value that is set stays what every later request is answered with, as
/// long as it is not set again: requests do not change it.
pub proof fn lemma_requests_keep_the_value(
    state: Map<TypeId, CellState>,
    key: TypeId,
    waiters: Seq<u64>,
)
    requires
        answer(state, key) is Some,
    ensures
        after_gets(state, key, waiters) == state,
    decreases waiters.len(),
{
    if waiters.len() > 0 {
        lemma_requests_keep_the_value(state, key, waiters.drop_last());
    }
}

} // verus!
