//! The receiving end of a slot's channel, behind the lock of `crossbeam_utils`.

use crate::channel::{connected, was_sent};
use crate::event_loop::Turn;
use crossbeam_channel::{unbounded, Receiver, Sender, TryRecvError};
use crossbeam_utils::sync::ShardedLock as Lock;
use std::sync::Arc;
use vstd::prelude::*;

verus! {

/// `crossbeam_utils::sync::ShardedLock`. What a lock holds can change while it is shared, so the
/// value of a lock stands for the lock alone.
#[verifier::external_type_specification]
#[verifier::external_body]
#[verifier::reject_recursive_types(V)]
pub struct ExShardedLock<V: ?Sized>(Lock<V>);

/// `ShardedLock::new`. That the lock was made around the value is what [`guards`] says.
pub assume_specification<V>[ Lock::<V>::new ](value: V) -> (lock: Lock<V>);

/// `lock` was made around `value`.
pub open spec fn guards<V>(lock: Lock<V>, value: V) -> bool {
    call_ensures(Lock::<V>::new, (value,), lock)
}

/// What comes back when an inbox is asked for a signal.
#[verifier::reject_recursive_types(T)]
pub enum Polled<T> {
    /// The lock is poisoned, and the channel was not asked.
    Poisoned,
    /// The reply of the channel.
    Locked(Result<T, TryRecvError>),
}

impl<T> Polled<T> {
    /// The signal that came, if one did.
    pub open spec fn signal(self) -> Option<T> {
        match self {
            Polled::Locked(Ok(signal)) => Some(signal),
            _ => None,
        }
    }
}

/// The signals among `replies`, in order.
pub open spec fn signals<T>(replies: Seq<Polled<T>>) -> Seq<T>
    decreases replies.len(),
{
    if replies.len() == 0 {
        Seq::empty()
    } else {
        match replies.last().signal() {
            Some(signal) => signals(replies.drop_last()).push(signal),
            None => signals(replies.drop_last()),
        }
    }
}

/// The receiving end of a slot's channel, as the slot keeps it: the slot does not receive, but
/// hands out inboxes that do, and counts them. The lock is never locked for writing: no function
/// here does, and none hands it out.
#[verifier::reject_recursive_types(T)]
pub struct Mailbox<T> {
    receiver: Arc<Lock<Receiver<T>>>,
    inboxes: Ghost<nat>,
}

/// The receiving end of a slot's channel, as an event loop receives from it. It keeps the record of
/// the replies that came.
#[verifier::reject_recursive_types(T)]
pub struct Inbox<T> {
    receiver: Arc<Lock<Receiver<T>>>,
    replies: Ghost<Seq<Polled<T>>>,
}

/// Makes the channel of a slot. No inbox was handed out yet.
pub(crate) fn mailbox<T>() -> (ends: (Sender<T>, Mailbox<T>))
    ensures
        is_fed_by(ends.1.lock(), ends.0),
        ends.1.inboxes() == 0,
{
    let (sender, receiver) = unbounded::<T>();
    let lock = Lock::new(receiver);
    assert(connected(sender, receiver) && guards(lock, receiver));
    (sender, Mailbox { receiver: Arc::new(lock), inboxes: Ghost(0nat) })
}

/// `lock` was made around the other end of the channel that `sender` sends into.
pub open spec fn is_fed_by<T>(lock: Lock<Receiver<T>>, sender: Sender<T>) -> bool {
    exists|end: Receiver<T>| #[trigger] connected(sender, end) && guards(lock, end)
}

/// `msg` was sent into the channel behind `lock`.
pub open spec fn came_in<T>(lock: Lock<Receiver<T>>, msg: T) -> bool {
    forall|sender: Sender<T>| #[trigger]
        is_fed_by(lock, sender) ==> was_sent(sender, msg, Ok(()))
}

impl<T> Mailbox<T> {
    /// The lock around the receiving end.
    pub closed spec fn lock(self) -> Lock<Receiver<T>> {
        *self.receiver
    }

    /// How many inboxes were handed out.
    pub closed spec fn inboxes(self) -> nat {
        self.inboxes@
    }

    /// Since `before` one inbox was handed out.
    pub open spec fn handed_out_one(self, before: Self) -> bool {
        &&& self.lock() == before.lock()
        &&& self.inboxes() == before.inboxes() + 1
    }

    /// Hands out an inbox, through which no reply has come yet.
    pub(crate) fn inbox(&mut self) -> (inbox: Inbox<T>)
        ensures
            inbox.lock() == old(self).lock(),
            inbox.replies().len() == 0,
            final(self).handed_out_one(*old(self)),
    {
        self.inboxes = Ghost(self.inboxes@ + 1);
        Inbox { receiver: self.receiver.clone(), replies: Ghost(Seq::empty()) }
    }
}

impl<T> Inbox<T> {
    /// The lock around the receiving end.
    pub closed spec fn lock(self) -> Lock<Receiver<T>> {
        *self.receiver
    }

    /// Every reply that came, in order.
    pub closed spec fn replies(self) -> Seq<Polled<T>> {
        self.replies@
    }

    /// Since `before`, `reply` came, and nothing else.
    pub open spec fn polled_once(self, before: Self, reply: Polled<T>) -> bool {
        &&& self.lock() == before.lock()
        &&& self.replies() == before.replies().push(reply)
    }

    /// `ShardedLock::read`, and behind the guard `Receiver::try_recv`. The reply is added to the
    /// record: that is believed with the calls, so that no reply can be taken and left out. What it is depends on what other threads have done so far; but a signal that comes
    /// out went in. The guard leads to what the lock was made around, as nothing writes to it.
    /// Inboxes belong to channels that [`mailbox`] made, whose other end stays in slots and signals,
    /// and those send with `Sender::send` and in no other way. In which order signals come out is
    /// left unsaid. Reading may panic where the calling thread holds the lock already and another
    /// waits to write; nothing writes, and the guard is gone when this returns. Only a turn of an
    /// event loop can ask.
    #[verifier::external_body]
    pub(crate) fn poll(&mut self, _turn: &Turn) -> (reply: Polled<T>)
        ensures
            final(self).polled_once(*old(self), reply),
            reply.signal() matches Some(signal) ==> came_in(old(self).lock(), signal),
    {
        match self.receiver.read() {
            Ok(end) => Polled::Locked(end.try_recv()),
            Err(_) => Polled::Poisoned,
        }
    }
}

} // verus!
