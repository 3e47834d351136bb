//! The callback of an open slot.

use crate::inbox::Polled;
use vstd::prelude::*;

verus! {

/// A callback, with the record of what it was called with. Contracts do not see what the callback
/// keeps to itself from one call to the next.
pub struct Handler<T, F> {
    callback: F,
    calls: Ghost<Seq<T>>,
}

impl<T, F: FnMut(T)> Handler<T, F> {
    /// The callback.
    pub closed spec fn callback(self) -> F {
        self.callback
    }

    /// What the callback was called with, in order.
    pub closed spec fn calls(self) -> Seq<T> {
        self.calls@
    }

    /// Since `before`, the callback was called with the signal in `reply`, if there is one, and with
    /// nothing else.
    pub open spec fn took(self, before: Self, reply: Polled<T>) -> bool {
        &&& self.callback() == before.callback()
        &&& match reply.signal() {
            Some(signal) => {
                &&& self.calls() == before.calls().push(signal)
                &&& call_ensures(before.callback(), (signal,), ())
            },
            None => self.calls() == before.calls(),
        }
    }

    /// A callback that was not called yet.
    pub fn new(callback: F) -> (handler: Handler<T, F>)
        ensures
            handler.callback() == callback,
            handler.calls().len() == 0,
    {
        Handler { callback, calls: Ghost(Seq::empty()) }
    }

    /// Calls the callback with `signal`.
    fn call(&mut self, signal: T)
        requires
            call_requires(old(self).callback(), (signal,)),
        ensures
            final(self).took(*old(self), Polled::Locked(Ok(signal))),
    {
        let ghost argument = signal;
        (self.callback)(signal);
        self.calls = Ghost(self.calls@.push(argument));
    }

    /// Calls the callback with the signal in `reply`. Where the lock was poisoned, or the channel
    /// had nothing to give, there is none, and the callback is not called.
    pub fn take(&mut self, reply: Polled<T>)
        requires
            reply.signal() matches Some(signal) ==> call_requires(
                old(self).callback(),
                (signal,),
            ),
        ensures
            final(self).took(*old(self), reply),
    {
        match reply {
            Polled::Locked(Ok(signal)) => self.call(signal),
            Polled::Locked(Err(_)) => (),
            Polled::Poisoned => (),
        }
    }
}

} // verus!
