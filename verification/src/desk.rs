//! What a slot keeps: the receiving end of its channel, and the handle of its event loop.

use crate::inbox::{Inbox, Mailbox};
use vstd::prelude::*;

verus! {

/// The receiving end of a slot's channel together with the handle of the event loop, if one runs.
/// No inbox is to be had while one does.
#[verifier::reject_recursive_types(T)]
pub struct Desk<T, H> {
    mailbox: Mailbox<T>,
    handle: Option<H>,
}

/// The receiving end of the channel of a slot that is being closed. Nothing can be received from it:
/// it can only be discarded.
#[verifier::reject_recursive_types(T)]
pub struct Keep<T> {
    mailbox: Mailbox<T>,
}

/// `value` was discarded: it was handed to `Result::ok` as an error, which that drops.
pub open spec fn was_discarded<V>(value: V) -> bool {
    call_ensures(Result::<(), V>::ok, (Err(value),), None)
}

/// Discards `value`.
pub(crate) fn discard<V>(value: V)
    ensures
        was_discarded(value),
{
    let nothing = Err::<(), V>(value).ok();
    assert(nothing is None);
}

impl<T> Keep<T> {
    /// The receiving end.
    pub closed spec fn mailbox(self) -> Mailbox<T> {
        self.mailbox
    }
}

impl<T, H> Desk<T, H> {
    /// The receiving end.
    pub closed spec fn mailbox(self) -> Mailbox<T> {
        self.mailbox
    }

    /// The handle of the event loop.
    pub closed spec fn handle(self) -> Option<H> {
        self.handle
    }

    /// A desk without an event loop.
    pub(crate) fn new(mailbox: Mailbox<T>) -> (desk: Desk<T, H>)
        ensures
            desk.mailbox() == mailbox,
            desk.handle() is None,
    {
        Desk { mailbox, handle: None }
    }

    /// Gives up the handle.
    pub(crate) fn forget(&mut self)
        ensures
            final(self).mailbox() == old(self).mailbox(),
            final(self).handle() is None,
    {
        self.handle = None;
    }

    /// Hands out an inbox, unless an event loop runs.
    pub(crate) fn inbox(&mut self) -> (inbox: Option<Inbox<T>>)
        ensures
            old(self).handle() is Some ==> inbox is None && *final(self) == *old(self),
            old(self).handle() is None ==> {
                &&& inbox matches Some(inbox) && inbox.lock() == old(self).mailbox().lock()
                    && inbox.replies().len() == 0
                &&& final(self).mailbox().lock() == old(self).mailbox().lock()
                &&& final(self).mailbox().inboxes() == old(self).mailbox().inboxes() + 1
                &&& final(self).handle() is None
            },
    {
        if self.handle.is_some() {
            None
        } else {
            Some(self.mailbox.inbox())
        }
    }

    /// Takes the handle of an event loop that was started.
    pub(crate) fn hold(&mut self, handle: H)
        ensures
            final(self).mailbox() == old(self).mailbox(),
            final(self).handle() == Some(handle),
    {
        self.handle = Some(handle);
    }

    /// Takes the desk apart.
    pub(crate) fn clear(self) -> (parts: (Option<H>, Keep<T>))
        ensures
            parts.0 == self.handle(),
            parts.1.mailbox() == self.mailbox(),
    {
        (self.handle, Keep { mailbox: self.mailbox })
    }
}

} // verus!
