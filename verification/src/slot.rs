//! Slots.

use crate::channel::{connected, line, Inlet, Outlet};
use crate::desk::{discard, was_discarded, Desk, Keep};
use crate::error::SlotError;
use crate::event_loop::EventLoop;
use crate::inbox::{is_fed_by, mailbox, Mailbox};
use crate::signal::Signal;
use crossbeam_channel::{SendError, Sender};
use std::time::Duration;
use vstd::prelude::*;

verus! {

/// The receiving side of signals. `H` is what the caller keeps of a running event loop in order to
/// wait for its end: for a thread, the handle to join it by.
#[verifier::reject_recursive_types(T)]
pub struct Slot<T: Send + Sync + Copy + 'static, H> {
    /// the channel sender, given to signals to communicate to this slot
    sender: Sender<T>,
    /// the channel receiver
    /// and the handle of the event loop
    desk: Desk<T, H>,
    /// the length of time to poll for signals
    poll_time: Duration,
    /// the length of time to sleep between polling for signals
    update_interval: Duration,
    /// lifeline to the event loop, so that it can check if the slot has been dropped
    thread_lifeline_receiver: Option<Inlet<()>>,
    /// connection to the event loop, to tell it when to close
    thread_abort_sender: Option<Outlet<bool>>,
}

/// Shows that a slot is being opened: nothing but a slot can make one.
pub struct Opening(());

/// `after` is the end `before` once the word to stop, and nothing else, has been sent into it. The
/// reply may be either.
pub open spec fn has_told(before: Outlet<bool>, after: Outlet<bool>) -> bool {
    exists|reply: Result<(), SendError<bool>>| #[trigger] after.sent_once(before, true, reply)
}

impl<T: Send + Sync + Copy + 'static, H> Slot<T, H> {
    /// The slot's channel, as signals send into it.
    pub closed spec fn sender(self) -> Sender<T> {
        self.sender
    }

    /// The other end of the slot's channel.
    pub closed spec fn mailbox(self) -> Mailbox<T> {
        self.desk.mailbox()
    }

    /// How long the event loop polls before it sleeps.
    pub closed spec fn poll_time(self) -> Duration {
        self.poll_time
    }

    /// How long the event loop sleeps.
    pub closed spec fn update_interval(self) -> Duration {
        self.update_interval
    }

    /// What the caller keeps of the running event loop.
    pub closed spec fn handle(self) -> Option<H> {
        self.desk.handle()
    }

    /// By which the event loop notices that the slot is dropped.
    pub closed spec fn lifeline(self) -> Option<Inlet<()>> {
        self.thread_lifeline_receiver
    }

    /// By which the event loop is told to stop.
    pub closed spec fn abort(self) -> Option<Outlet<bool>> {
        self.thread_abort_sender
    }

    /// What holds of every slot: its mailbox holds the other end of its channel, and it has a handle
    /// exactly when it has the means to tell an event loop to stop, and a lifeline to it. It has one
    /// event loop at most in its life, so that what comes out of its channel comes to one callback.
    pub open spec fn wf(self) -> bool {
        &&& is_fed_by(self.mailbox().lock(), self.sender())
        &&& self.handle() is Some <==> self.abort() is Some
        &&& self.handle() is Some <==> self.lifeline() is Some
        &&& self.mailbox().inboxes() == if self.handle() is Some {
            1nat
        } else {
            0
        }
    }

    /// Whether the slot can be opened: it cannot while an event loop is running.
    pub open spec fn can_open(self) -> bool {
        self.abort() is None || self.handle() is None
    }

    /// What the slot keeps from one opening to the next is as in `before`.
    pub open spec fn same_slot(self, before: Self) -> bool {
        &&& self.sender() == before.sender()
        &&& self.mailbox().lock() == before.mailbox().lock()
        &&& self.poll_time() == before.poll_time()
        &&& self.update_interval() == before.update_interval()
    }

    /// `el` takes the signals of this slot, at its pace, and calls `callback` with them.
    pub open spec fn is_served_by<F: FnMut(T)>(self, el: EventLoop<T, F>, callback: F) -> bool {
        &&& el.inbox().lock() == self.mailbox().lock()
        &&& el.poll_time() == self.poll_time()
        &&& el.update_interval() == self.update_interval()
        &&& el.handler().callback() == callback
    }

    /// The slot holds the other ends of the two channels by which `el` is stopped.
    pub open spec fn controls<F: FnMut(T)>(self, el: EventLoop<T, F>) -> bool {
        &&& self.lifeline() matches Some(lifeline) && connected(el.lifeline().end(), lifeline.end())
        &&& self.abort() matches Some(abort) && connected(abort.end(), el.abort().end())
    }

    /// The slot has told its event loop nothing.
    pub open spec fn is_silent(self) -> bool {
        self.abort() matches Some(abort) ==> abort.sent().len() == 0
    }

    /// The slot came out of opening `before`, with `el` as its event loop. It is the one loop that
    /// was made, it has taken no turn, and it was told nothing.
    pub open spec fn is_opened<F: FnMut(T)>(
        self,
        before: Self,
        el: EventLoop<T, F>,
        callback: F,
    ) -> bool {
        &&& self.same_slot(before)
        &&& self.mailbox().handed_out_one(before.mailbox())
        &&& self.is_served_by(el, callback)
        &&& self.controls(el)
        &&& el.is_fresh()
        &&& self.is_silent()
        &&& self.handle() is Some
    }

    /// The error with which closing the slot is refused, if it is.
    pub open spec fn close_refusal<P>(self) -> Option<SlotError<P>> {
        if self.handle() is None {
            Some(SlotError::NotOpened)
        } else if self.abort() is None {
            Some(SlotError::AlreadyClosed)
        } else {
            None
        }
    }

    /// A slot that is not open.
    ///
    /// * `poll_time` - how long the slot polls for signals every update interval
    /// * `update_interval` - how long the slot sleeps between polling for signals
    pub fn new(poll_time: Duration, update_interval: Duration) -> (slot: Slot<T, H>)
        ensures
            slot.wf(),
            slot.poll_time() == poll_time,
            slot.update_interval() == update_interval,
            slot.handle() is None,
            slot.lifeline() is None,
            slot.abort() is None,
    {
        let (sender, mailbox) = mailbox::<T>();
        Slot {
            sender,
            desk: Desk::new(mailbox),
            poll_time,
            update_interval,
            thread_lifeline_receiver: None,
            thread_abort_sender: None,
        }
    }

    /// Connects `signal` to this slot.
    pub fn connect(&self, signal: &mut Signal<T>)
        ensures
            final(signal)@ == old(signal)@.push(self.sender()),
    {
        signal.add_sender(self.sender.clone());
    }

    /// Opens the slot to receiving signals. `spawn` gets the event loop, which calls `callback` with
    /// each signal, and starts it. If the slot is already open, nothing is done.
    pub fn open<F: FnMut(T)>(
        &mut self,
        callback: F,
        spawn: impl FnOnce(EventLoop<T, F>) -> H,
    ) -> (result: Result<(), SlotError>)
        requires
            old(self).can_open() ==> forall|el: EventLoop<T, F>|
                old(self).is_served_by(el, callback) && el.is_fresh() ==> #[trigger] call_requires(
                    spawn,
                    (el,),
                ),
        ensures
            result is Ok <==> old(self).can_open(),
            result matches Err(error) ==> error is AlreadyOpen && *final(self) == *old(self),
            result is Ok ==> exists|el: EventLoop<T, F>|
                {
                    &&& #[trigger] final(self).is_opened(*old(self), el, callback)
                    &&& call_ensures(spawn, (el,), final(self).handle()->0)
                },
            old(self).wf() ==> final(self).wf(),
    {
        if self.thread_abort_sender.is_none() {
            self.desk.forget();
        }
        let inbox = match self.desk.inbox() {
            Some(inbox) => inbox,
            None => {
                return Err(SlotError::AlreadyOpen);
            },
        };
        let (thread_lifeline_sender, thread_lifeline_receiver) = line::<()>();
        let (thread_abort_sender, thread_abort_receiver) = line::<bool>();
        self.thread_lifeline_receiver = Some(thread_lifeline_receiver);
        self.thread_abort_sender = Some(thread_abort_sender);
        let el = EventLoop::new(
            &Opening(()),
            inbox,
            callback,
            self.poll_time,
            self.update_interval,
            thread_lifeline_sender,
            thread_abort_receiver,
        );
        assert(old(self).is_served_by(el, callback));
        let handle = spawn(el);
        self.desk.hold(handle);
        assert(self.is_opened(*old(self), el, callback));
        Ok(())
    }

    /// Closes the slot, so that it no longer receives signals: tells the event loop to stop, and
    /// then has `join` wait for it to end. Whether the event loop could still be told is no matter:
    /// if not, it has failed, and `join` says why. Nothing is taken out of the slot's channel: the
    /// receiving end that the slot kept is discarded, and the event loop's is all that is left.
    pub fn close<P>(self, join: impl FnOnce(H) -> Result<(), P>) -> (result: Result<
        (),
        SlotError<P>,
    >)
        requires
            self.close_refusal::<P>() is None ==> forall|told: Outlet<bool>| #[trigger]
                has_told(self.abort()->0, told) ==> call_requires(join, (self.handle()->0,)),
        ensures
            exists|keep: Keep<T>| keep.mailbox() == self.mailbox() && #[trigger] was_discarded(keep),
            self.close_refusal::<P>() matches Some(error) ==> result == Err::<(), _>(error),
            self.close_refusal::<P>() is None ==> {
                &&& exists|told: Outlet<bool>| #[trigger] has_told(self.abort()->0, told)
                &&& exists|ended: Result<(), P>|
                    {
                        &&& #[trigger] call_ensures(join, (self.handle()->0,), ended)
                        &&& result == match ended {
                            Ok(_) => Ok::<(), SlotError<P>>(()),
                            Err(payload) => Err(SlotError::ThreadJoin(payload)),
                        }
                    }
            },
    {
        let ghost slot = self;
        let (held, keep) = self.desk.clear();
        let result = match held {
            Some(handle) => match self.thread_abort_sender {
                Some(mut sender) => {
                    let reply = sender.send(true);
                    assert(sender.sent_once(slot.abort()->0, true, reply));
                    assert(has_told(slot.abort()->0, sender));
                    let ended = join(handle);
                    assert(call_ensures(join, (slot.handle()->0,), ended));
                    match ended {
                        Ok(_) => Ok(()),
                        Err(payload) => Err(SlotError::ThreadJoin(payload)),
                    }
                },
                None => Err(SlotError::AlreadyClosed),
            },
            None => Err(SlotError::NotOpened),
        };
        assert(keep.mailbox() == slot.mailbox());
        discard(keep);
        result
    }
}

} // verus!
