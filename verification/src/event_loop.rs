//! The loop that takes signals out of an open slot's channel.

use crate::channel::{Inlet, Outlet};
use crate::clock::{nanos, was_elapsed, was_now, Stopwatch};
use crate::handler::Handler;
use crate::inbox::{came_in, signals, Inbox, Polled};
use crate::slot::Opening;
use crossbeam_channel::{SendError, TryRecvError};
use std::time::{Duration, Instant};
use vstd::prelude::*;

verus! {

/// What the thread that runs an event loop has to do after a turn.
#[derive(Clone, Copy, Debug, PartialEq, Eq)]
pub enum LoopStep {
    /// Take the next turn.
    Poll,
    /// Sleep this long, and take the next turn.
    Sleep(Duration),
    /// Take no further turn.
    Stop,
}

/// Shows that a turn is being taken: nothing but an event loop can make one.
pub struct Turn(());

/// The event loop of an open slot. Whoever runs it calls [`EventLoop::turn`] until that says to
/// stop. Polling begins with the first turn, and anew with the first turn after each sleep.
#[verifier::reject_recursive_types(T)]
pub struct EventLoop<T, F> {
    /// the receiving end of the slot's channel
    inbox: Inbox<T>,
    /// called with each signal
    handler: Handler<T, F>,
    /// the length of time to poll for signals
    poll_time: Duration,
    /// the length of time to sleep between polling for signals
    update_interval: Duration,
    /// since when the loop has been polling
    clock: Stopwatch,
    /// broken once the slot is dropped
    thread_lifeline_sender: Outlet<()>,
    /// on which the slot says when to stop
    thread_abort_receiver: Inlet<bool>,
}

/// The step that follows when polling has gone on for `elapsed`.
pub open spec fn paced(
    elapsed: Duration,
    poll_time: Duration,
    update_interval: Duration,
) -> LoopStep {
    if nanos(elapsed) > nanos(poll_time) {
        LoopStep::Sleep(update_interval)
    } else {
        LoopStep::Poll
    }
}

/// Whether a loop that asked for the word to stop, and got `reply`, stops.
pub open spec fn stops(reply: Result<bool, TryRecvError>) -> bool {
    reply == Ok::<bool, TryRecvError>(true)
}

/// Whether a loop that asked for the word to stop, and got `reply`, stops. It does not where no
/// word has come, and not even where the word can no longer come.
pub fn told_to_stop(reply: &Result<bool, TryRecvError>) -> (stop: bool)
    ensures
        stop == stops(*reply),
{
    match reply {
        Ok(stop) => *stop,
        Err(_) => false,
    }
}

/// The step that follows when polling has gone on for `elapsed`: a sleep, once that is longer than
/// `poll_time`.
pub fn pace(elapsed: Duration, poll_time: Duration, update_interval: Duration) -> (step: LoopStep)
    ensures
        step == paced(elapsed, poll_time, update_interval),
{
    if elapsed.as_nanos() > poll_time.as_nanos() {
        LoopStep::Sleep(update_interval)
    } else {
        LoopStep::Poll
    }
}

impl<T, F: FnMut(T)> EventLoop<T, F> {
    /// The end of the slot's channel that the loop receives from.
    pub closed spec fn inbox(self) -> Inbox<T> {
        self.inbox
    }

    /// The callback, and what it was called with.
    pub closed spec fn handler(self) -> Handler<T, F> {
        self.handler
    }

    /// How long the loop polls before it sleeps.
    pub closed spec fn poll_time(self) -> Duration {
        self.poll_time
    }

    /// How long the loop sleeps.
    pub closed spec fn update_interval(self) -> Duration {
        self.update_interval
    }

    /// Since when the loop has been polling, and what it measured of that.
    pub closed spec fn clock(self) -> Stopwatch {
        self.clock
    }

    /// What is broken once the slot is dropped.
    pub closed spec fn lifeline(self) -> Outlet<()> {
        self.thread_lifeline_sender
    }

    /// Where the loop asks for the word to stop.
    pub closed spec fn abort(self) -> Inlet<bool> {
        self.thread_abort_receiver
    }

    /// What holds of every loop: the callback was called with the signals that came out of the
    /// slot's channel, with each once and in that order, and each went into that channel.
    pub open spec fn wf(self) -> bool {
        &&& self.handler().calls() == signals(self.inbox().replies())
        &&& forall|i: int|
            0 <= i < self.handler().calls().len() ==> came_in(
                self.inbox().lock(),
                #[trigger] self.handler().calls()[i],
            )
    }

    /// The loop has taken no turn.
    pub open spec fn is_fresh(self) -> bool {
        &&& self.inbox().replies().len() == 0
        &&& self.handler().calls().len() == 0
        &&& self.lifeline().sent().len() == 0
        &&& self.abort().heard().len() == 0
        &&& self.clock().since() is None
        &&& self.clock().readings().len() == 0
    }

    /// The lifeline has held so far, and the word to stop has not come.
    pub open spec fn is_running(self) -> bool {
        &&& forall|i: int|
            0 <= i < self.lifeline().sent().len() ==> (#[trigger] self.lifeline().sent()[i]).1 is Ok
        &&& forall|i: int|
            0 <= i < self.abort().heard().len() ==> !stops(#[trigger] self.abort().heard()[i])
    }

    /// The loop is that of the same slot as `before`, at the same pace and with the same callback.
    pub open spec fn same_loop(self, before: Self) -> bool {
        &&& self.inbox().lock() == before.inbox().lock()
        &&& self.handler().callback() == before.handler().callback()
        &&& self.poll_time() == before.poll_time()
        &&& self.update_interval() == before.update_interval()
        &&& self.lifeline().end() == before.lifeline().end()
        &&& self.abort().end() == before.abort().end()
    }

    /// In a turn from `before` to here the slot's channel was asked once, and the callback was
    /// called with the signal that came, if one did, and with nothing else.
    pub open spec fn received(self, before: Self) -> bool {
        exists|reply: Polled<T>|
            {
                &&& #[trigger] self.inbox().polled_once(before.inbox(), reply)
                &&& self.handler().took(before.handler(), reply)
            }
    }

    /// A turn from `before` to here ends in `step`. Polling began when it had begun before, or with
    /// this turn where it had not. After a sleep it begins anew.
    pub open spec fn decided(self, before: Self, step: LoopStep) -> bool {
        exists|since: Instant|
            {
                &&& #[trigger] before.clock().runs_since(since)
                &&& self.decided_since(before, since, step)
                &&& self.clock().since() == if step is Sleep {
                    None
                } else {
                    Some(since)
                }
            }
    }

    /// A turn from `before` to here, in which polling has gone on since `since`, ends in `step`. The
    /// lifeline is tried once: where it is broken, the loop stops.
    pub open spec fn decided_since(self, before: Self, since: Instant, step: LoopStep) -> bool {
        exists|lifeline: Result<(), SendError<()>>|
            {
                &&& #[trigger] self.lifeline().sent_once(before.lifeline(), (), lifeline)
                &&& if lifeline is Err {
                    &&& self.abort() == before.abort()
                    &&& self.clock().readings() == before.clock().readings()
                    &&& step == LoopStep::Stop
                } else {
                    self.decided_alive(before, since, step)
                }
            }
    }

    /// The same of a turn whose lifeline holds. The word to stop is asked for once: where it comes,
    /// the loop stops. Otherwise the clock is read once, and decides.
    pub open spec fn decided_alive(self, before: Self, since: Instant, step: LoopStep) -> bool {
        exists|word: Result<bool, TryRecvError>|
            {
                &&& #[trigger] self.abort().heard_once(before.abort(), word)
                &&& if stops(word) {
                    &&& self.clock().readings() == before.clock().readings()
                    &&& step == LoopStep::Stop
                } else {
                    let elapsed = self.clock().readings().last();
                    &&& was_elapsed(since, elapsed)
                    &&& self.clock().readings() == before.clock().readings().push(elapsed)
                    &&& step == paced(elapsed, before.poll_time(), before.update_interval())
                }
            }
    }

    /// Puts a loop together, for a slot that is being opened.
    pub(crate) fn new(
        _opening: &Opening,
        inbox: Inbox<T>,
        callback: F,
        poll_time: Duration,
        update_interval: Duration,
        thread_lifeline_sender: Outlet<()>,
        thread_abort_receiver: Inlet<bool>,
    ) -> (res: EventLoop<T, F>)
        ensures
            res.inbox() == inbox,
            res.handler().callback() == callback,
            res.handler().calls().len() == 0,
            res.poll_time() == poll_time,
            res.update_interval() == update_interval,
            res.lifeline() == thread_lifeline_sender,
            res.abort() == thread_abort_receiver,
            res.clock().since() is None,
            res.clock().readings().len() == 0,
    {
        EventLoop {
            inbox,
            handler: Handler::new(callback),
            poll_time,
            update_interval,
            clock: Stopwatch::new(),
            thread_lifeline_sender,
            thread_abort_receiver,
        }
    }

    /// Takes one turn: asks the slot's channel for a signal, calls the callback with it if one came,
    /// and decides how the loop goes on. Which of the signals in the channel comes is left unsaid.
    pub fn turn(&mut self) -> (step: LoopStep)
        requires
            forall|signal: T| #[trigger]
                came_in(old(self).inbox().lock(), signal) ==> call_requires(
                    old(self).handler().callback(),
                    (signal,),
                ),
        ensures
            final(self).received(*old(self)),
            final(self).decided(*old(self), step),
            final(self).same_loop(*old(self)),
            step is Sleep <==> final(self).clock().since() is None,
            step !is Sleep && old(self).clock().since() is Some ==> final(self).clock().since()
                == old(self).clock().since(),
            step !is Sleep && old(self).clock().since() is None ==> was_now(
                final(self).clock().since()->0,
            ),
            final(self).clock().readings().len() > old(self).clock().readings().len() ==> {
                &&& old(self).clock().since() matches Some(since) ==> was_elapsed(
                    since,
                    final(self).clock().readings().last(),
                )
                &&& old(self).clock().since() is None ==> exists|since: Instant| #[trigger]
                    was_now(since) && was_elapsed(since, final(self).clock().readings().last())
            },
            old(self).wf() ==> final(self).wf(),
    {
        self.clock.start();
        let ghost since = self.clock.since()->0;
        let reply = self.inbox.poll(&Turn(()));
        let ghost polled = reply;
        assert(polled.signal() matches Some(signal) ==> came_in(old(self).inbox().lock(), signal));
        self.handler.take(reply);
        let lifeline = self.thread_lifeline_sender.send(());
        let step = if lifeline.is_err() {
            LoopStep::Stop
        } else {
            let word = self.thread_abort_receiver.try_recv();
            let step = if told_to_stop(&word) {
                LoopStep::Stop
            } else {
                let elapsed = self.clock.elapsed();
                let step = pace(elapsed, self.poll_time, self.update_interval);
                if let LoopStep::Sleep(_) = step {
                    self.clock.stop();
                }
                step
            };
            assert(self.abort().heard_once(old(self).abort(), word));
            step
        };
        assert(self.inbox().polled_once(old(self).inbox(), polled));
        assert(self.lifeline().sent_once(old(self).lifeline(), (), lifeline));
        assert(old(self).clock().runs_since(since));
        assert(self.decided_since(*old(self), since, step));
        proof {
            lemma_turn_keeps_wf(*old(self), *self, polled);
        }
        step
    }
}

/// Asking once, and handing on what came, keeps [`EventLoop::wf`].
proof fn lemma_turn_keeps_wf<T, F: FnMut(T)>(
    before: EventLoop<T, F>,
    after: EventLoop<T, F>,
    reply: Polled<T>,
)
    requires
        after.inbox().polled_once(before.inbox(), reply),
        after.handler().took(before.handler(), reply),
        reply.signal() matches Some(signal) ==> came_in(before.inbox().lock(), signal),
    ensures
        before.wf() ==> after.wf(),
{
    assert(after.inbox().replies().drop_last() == before.inbox().replies());
}

} // verus!
