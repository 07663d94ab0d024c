//! The interface to the platform's readiness machinery, as plain values.
//!
//! The event loop that owns the OS sockets lives outside this library; it
//! hands readiness notifications in as `Event` values and drives reactors
//! through `Reaction` values, so everything here is verifiable state.

use vstd::prelude::*;

verus! {

/// A readiness notification for one registered transport, carrying the
/// opaque identifier the transport layer assigned to it.
#[derive(Clone, Copy, Debug, PartialEq, Eq, Structural)]
pub struct Event {
    pub token: usize,
    pub readable: bool,
    pub writable: bool,
}

/// What flows through a chain of reactors: a produced value, a readiness
/// event still looking for its owner, or nothing at all.
#[derive(Clone, Copy, Debug)]
pub enum Reaction<T> {
    Value(T),
    Event(Event),
    Continue,
}

/// A participant in event routing: it has an identifier, and it absorbs
/// the readiness events addressed to it.
///
/// The connection type of this library implements it; a registry stores
/// any implementor.
pub trait Reactive: Sized {
    /// The identifier under which the reactor is registered.
    spec fn token_spec(&self) -> usize;

    /// The state after absorbing `reaction`.
    spec fn post_react(&self, reaction: Reaction<()>) -> Self;

    /// What `react` hands back for `reaction`.
    spec fn react_result(&self, reaction: Reaction<()>) -> Reaction<()>;

    fn token(&self) -> (t: usize)
        ensures
            t == self.token_spec(),
    ;

    /// Absorb a readiness update; the identifier never changes.
    fn react(&mut self, reaction: Reaction<()>) -> (r: Reaction<()>)
        ensures
            *final(self) == old(self).post_react(reaction),
            r == old(self).react_result(reaction),
            final(self).token_spec() == old(self).token_spec(),
    ;
}

} // verus!
