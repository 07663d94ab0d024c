//! The connection registry: an identifier-to-reactor store that routes
//! readiness events to the reactor they belong to.

use vstd::prelude::*;

use std::collections::hash_map::Entry;
use std::collections::HashMap;

use vstd::std_specs::hash::spec_keys_iter;
use vstd::std_specs::iter::IteratorSpec;

use crate::reactor::Reaction;
use crate::reactor::Reactive;

verus! {

broadcast use vstd::std_specs::hash::group_hash_axioms;

/// Live reactors keyed by their identifier, one-to-one; an insert under a
/// present identifier overwrites silently.
pub struct Connections<T> {
    reactors: HashMap<usize, T>,
}

impl<T> View for Connections<T> {
    type V = Map<usize, T>;

    closed spec fn view(&self) -> Map<usize, T> {
        self.reactors@
    }
}

impl<T> Connections<T> {
    /// An empty registry.
    pub fn new() -> (r: Self)
        ensures
            r@ == Map::<usize, T>::empty(),
    {
        Self { reactors: HashMap::new() }
    }

    /// Remove and return the reactor stored under `token`, if any; used
    /// when the caller tears a connection down.
    pub fn remove(&mut self, token: usize) -> (r: Option<T>)
        ensures
            final(self)@ == old(self)@.remove(token),
            match r {
                Some(reactor) => old(self)@.contains_key(token) && reactor == old(self)@[token],
                None => !old(self)@.contains_key(token),
            },
    {
        self.reactors.remove(&token)
    }

    /// The identifiers of all live reactors, in unspecified order and
    /// without repetition: one bulk pass, to be paired with `get_mut`.
    pub fn iter_mut(&mut self) -> (r: Vec<usize>)
        ensures
            final(self)@ == old(self)@,
            r@.no_duplicates(),
            r@.to_set() == old(self)@.dom(),
    {
        let ghost ks = IteratorSpec::remaining(&spec_keys_iter(&self.reactors)).unref();
        let mut tokens: Vec<usize> = Vec::new();
        for k in it: self.reactors.keys()
            invariant
                it.seq().unref() == ks,
                tokens@.len() == it.index(),
                forall|i: int| 0 <= i < it.index() ==> tokens@[i] == ks[i],
        {
            tokens.push(*k);
        }
        proof {
            assert(tokens@ =~= ks);
            assert forall|i: int, j: int|
                0 <= i < ks.len() && 0 <= j < ks.len() && i != j implies ks[i] != ks[j] by {
                let refs = IteratorSpec::remaining(&spec_keys_iter(&self.reactors));
                assert(refs[i] != refs[j]);
            }
        }
        tokens
    }

    /// Borrow the reactor stored under `token` for the caller to drive.
    pub fn get_mut<'a>(&'a mut self, token: usize) -> (r: Option<&'a mut T>)
        ensures
            match r {
                Some(reactor) => ({
                    &&& old(self)@.contains_key(token)
                    &&& *reactor == old(self)@[token]
                    &&& final(self)@ == old(self)@.insert(token, *final(reactor))
                }),
                None => !old(self)@.contains_key(token) && final(self)@ == old(self)@,
            },
    {
        let ghost pre = self.reactors@;
        match self.reactors.entry(token) {
            Entry::Occupied(occupied) => Some(occupied.into_mut()),
            Entry::Vacant(vacant) => {
                let _token = vacant.into_key();
                proof {
                    assert(pre.remove(token) =~= pre);
                }
                None
            },
        }
    }
}

impl<T: Reactive> Connections<T> {
    /// Store a reactor under its own identifier, overwriting silently.
    pub fn insert(&mut self, reactor: T)
        ensures
            final(self)@ == old(self)@.insert(reactor.token_spec(), reactor),
    {
        let token = reactor.token();
        self.reactors.insert(token, reactor);
    }

    /// Route a reaction through the registry.
    ///
    /// A produced reactor is stored under its identifier. An event is
    /// looked up by its identifier: on a match the readiness update is
    /// forwarded into the reactor and a mutable reference to it is handed
    /// back for the caller to drive; an event nobody owns passes through
    /// untouched, mutating nothing.
    pub fn inner_react<'a>(&'a mut self, reaction: Reaction<T>) -> (r: Reaction<&'a mut T>)
        ensures
            match reaction {
                Reaction::Value(reactor) => ({
                    &&& r is Continue
                    &&& final(self)@ == old(self)@.insert(reactor.token_spec(), reactor)
                }),
                Reaction::Event(ev) => ({
                    if old(self)@.contains_key(ev.token) {
                        match r {
                            Reaction::Value(routed) => ({
                                &&& *routed == old(self)@[ev.token].post_react(
                                    Reaction::Event(ev),
                                )
                                &&& final(self)@ == old(self)@.insert(ev.token, *final(routed))
                            }),
                            _ => false,
                        }
                    } else {
                        &&& match r {
                            Reaction::Event(passed) => passed == ev,
                            _ => false,
                        }
                        &&& final(self)@ == old(self)@
                    }
                }),
                Reaction::Continue => r is Continue && final(self)@ == old(self)@,
            },
    {
        match reaction {
            Reaction::Value(reactor) => {
                let token = reactor.token();
                self.reactors.insert(token, reactor);
                Reaction::Continue
            },
            Reaction::Event(event) => {
                let ghost pre = self.reactors@;
                match self.reactors.entry(event.token) {
                    Entry::Occupied(occupied) => {
                        let routed = occupied.into_mut();
                        routed.react(Reaction::Event(event));
                        Reaction::Value(routed)
                    },
                    Entry::Vacant(vacant) => {
                        let _token = vacant.into_key();
                        proof {
                            assert(pre.remove(event.token) =~= pre);
                        }
                        Reaction::Event(event)
                    },
                }
            },
            Reaction::Continue => Reaction::Continue,
        }
    }
}

} // verus!
