//! What holds of signals, slots and event loops together.

use crate::channel::{connected, was_sent, Outlet, Round};
use crate::clock::{nanos, was_elapsed, was_now};
use crate::desk::{was_discarded, Keep};
use crate::error::{SignalError, SlotError};
use crate::event_loop::{paced, stops, EventLoop, LoopStep};
use crate::handler::Handler;
use crate::inbox::{guards, is_fed_by, signals, Polled};
use crate::parcel::{IntoSignal, Parcels};
use crate::signal::{emission, lemma_last_error_is_a_reply, sent_to_all, took_to_all};
use crate::slot::{has_told, Slot};
use crossbeam_channel::{Receiver, SendError, Sender, TryRecvError};
use crossbeam_utils::sync::ShardedLock;
use std::time::{Duration, Instant};
use vstd::prelude::*;

verus! {

/// An emission succeeds exactly when the signal is connected to a slot and every slot could be sent
/// to.
pub proof fn emission_succeeds_iff_every_send_does<T>(replies: Seq<Result<(), SendError<T>>>)
    ensures
        emission(replies) is Ok <==> replies.len() > 0 && forall|i: int|
            0 <= i < replies.len() ==> #[trigger] replies[i] is Ok,
{
    lemma_last_error_is_a_reply(replies);
}

/// The error of an emission is that of the last slot that could not be sent to.
pub proof fn emission_reports_the_most_recent_error<T>(
    replies: Seq<Result<(), SendError<T>>>,
    last: int,
)
    requires
        0 <= last < replies.len(),
        replies[last] is Err,
        forall|i: int| last < i < replies.len() ==> #[trigger] replies[i] is Ok,
    ensures
        emission(replies) == Err::<(), _>(SignalError::SendError(replies[last]->Err_0)),
{
    lemma_last_error_is_a_reply(replies);
}

/// Emitting a signal that is not connected to any slot is refused, and no other emission is.
pub proof fn emission_is_refused_iff_unconnected<T>(
    senders: Seq<Sender<T>>,
    signal: T,
    replies: Seq<Result<(), SendError<T>>>,
)
    requires
        sent_to_all(senders, signal, replies),
    ensures
        emission(replies) matches Err(SignalError::NotConnected) <==> senders.len() == 0,
{
}

/// Whatever a connected signal emits is sent to the slot: into the channel that the slot's event
/// loop receives from. This holds whichever slots the signal was connected to before and after this
/// one, and whether or not sending to those failed.
pub proof fn emission_is_sent_to_every_connected_slot<T: Send + Sync + Copy + 'static, H, F>(
    slot: Slot<T, H>,
    el: EventLoop<T, F>,
    callback: F,
    before: Seq<Sender<T>>,
    after: Seq<Sender<T>>,
    signal: T,
    replies: Seq<Result<(), SendError<T>>>,
) where F: FnMut(T)
    requires
        slot.wf(),
        slot.is_served_by(el, callback),
        sent_to_all(before.push(slot.sender()) + after, signal, replies),
    ensures
        was_sent(slot.sender(), signal, replies[before.len() as int]),
        is_fed_by(el.inbox().lock(), slot.sender()),
        !(emission(replies) matches Err(SignalError::NotConnected)),
{
    let senders = before.push(slot.sender()) + after;
    assert(senders[before.len() as int] == slot.sender());
    assert(was_sent(senders[before.len() as int], signal, replies[before.len() as int]));
}

/// A loop that was just made is well-formed, so that what [`EventLoop::turn`] keeps holds of every
/// loop from the start.
pub proof fn a_fresh_loop_is_well_formed<T, F: FnMut(T)>(el: EventLoop<T, F>)
    requires
        el.is_fresh(),
    ensures
        el.wf(),
        el.is_running(),
{
    assert(el.handler().calls() == signals(el.inbox().replies()));
}

/// However many turns a loop has taken, everything that its callback was called with was sent to
/// the slot: nothing is made up.
pub proof fn the_callback_gets_only_what_was_sent_to_the_slot<
    T: Send + Sync + Copy + 'static,
    H,
    F: FnMut(T),
>(slot: Slot<T, H>, el: EventLoop<T, F>, i: int)
    requires
        slot.wf(),
        el.wf(),
        el.inbox().lock() == slot.mailbox().lock(),
        0 <= i < el.handler().calls().len(),
    ensures
        was_sent(slot.sender(), el.handler().calls()[i], Ok(())),
{
    assert(is_fed_by(el.inbox().lock(), slot.sender()));
}

/// However many turns a loop has taken, its callback was called with all that came out of the
/// slot's channel, in that order: nothing is lost, nothing is handed on twice.
pub proof fn the_callback_gets_all_that_came<T, F: FnMut(T)>(el: EventLoop<T, F>)
    requires
        el.wf(),
    ensures
        el.handler().calls() == signals(el.inbox().replies()),
{
}

/// In one turn the callback is called once at most: once if a signal came, else not at all. So from
/// when the word to stop is there to be heard, at most one further call begins, and what is left in
/// the channel is not taken out.
pub proof fn a_turn_calls_the_callback_at_most_once<T, F: FnMut(T)>(
    before: EventLoop<T, F>,
    after: EventLoop<T, F>,
)
    requires
        after.received(before),
    ensures
        after.inbox().replies().len() == before.inbox().replies().len() + 1,
        after.handler().calls().len() == before.handler().calls().len() + (
        if after.inbox().replies().last().signal() is Some {
            1nat
        } else {
            0
        }),
{
    let reply = choose|reply: Polled<T>|
        {
            &&& #[trigger] after.inbox().polled_once(before.inbox(), reply)
            &&& after.handler().took(before.handler(), reply)
        };
    assert(after.inbox().replies().last() == reply);
}

/// Whether the callback is called depends on the reply alone: a poisoned lock, an empty channel and
/// a channel that nothing more can come out of all leave it uncalled.
pub proof fn a_reply_without_a_signal_is_ignored<T, F: FnMut(T)>(
    before: Handler<T, F>,
    after: Handler<T, F>,
    reply: Polled<T>,
)
    requires
        after.took(before, reply),
        !(reply matches Polled::Locked(Ok(_))),
    ensures
        after.calls() == before.calls(),
{
}

/// A turn of a running loop ends in a stop exactly when in that turn the lifeline was found broken
/// or the word to stop was heard. No word is heard and passed over.
pub proof fn a_loop_stops_exactly_when_dropped_or_told<T, F: FnMut(T)>(
    before: EventLoop<T, F>,
    after: EventLoop<T, F>,
    step: LoopStep,
)
    requires
        before.is_running(),
        after.decided(before, step),
    ensures
        step == LoopStep::Stop <==> !after.is_running(),
{
    lemma_turn_stops_or_reads_the_clock(before, after, step);
}

/// A turn of a running loop ends in a sleep exactly when nothing stopped it and the time for which
/// the loop has polled, as the clock was read in that turn, is longer than its poll time. The sleep
/// is for its update interval.
pub proof fn a_loop_sleeps_exactly_past_its_poll_time<T, F: FnMut(T)>(
    before: EventLoop<T, F>,
    after: EventLoop<T, F>,
    step: LoopStep,
)
    requires
        before.is_running(),
        after.decided(before, step),
    ensures
        step is Sleep <==> after.is_running() && nanos(after.clock().readings().last()) > nanos(
            before.poll_time(),
        ),
        step is Sleep ==> step == LoopStep::Sleep(before.update_interval()),
{
    lemma_turn_stops_or_reads_the_clock(before, after, step);
}

/// The time for which a loop has polled is counted from its first turn, and afresh from the first
/// turn after each sleep; a turn that ends otherwise leaves it running.
pub proof fn polling_starts_anew_after_each_sleep<T, F: FnMut(T)>(
    before: EventLoop<T, F>,
    after: EventLoop<T, F>,
    later: EventLoop<T, F>,
    step: LoopStep,
    next: LoopStep,
)
    requires
        after.decided(before, step),
        later.decided(after, next),
    ensures
        step is Sleep ==> exists|since: Instant| #[trigger]
            was_now(since) && later.decided_since(after, since, next),
        step !is Sleep ==> after.clock().since() is Some && later.decided_since(
            after,
            after.clock().since()->0,
            next,
        ),
        before.is_fresh() ==> exists|since: Instant| #[trigger]
            was_now(since) && after.decided_since(before, since, step),
{
    let since = choose|since: Instant|
        {
            &&& #[trigger] after.clock().runs_since(since)
            &&& later.decided_since(after, since, next)
        };
    if step is Sleep {
        assert(was_now(since) && later.decided_since(after, since, next));
    }
    let first = choose|since: Instant|
        {
            &&& #[trigger] before.clock().runs_since(since)
            &&& after.decided_since(before, since, step)
        };
    if before.is_fresh() {
        assert(was_now(first) && after.decided_since(before, first, step));
    }
}

/// What a turn of a running loop leaves in the records of its lifeline, of the word to stop and of
/// its clock.
proof fn lemma_turn_stops_or_reads_the_clock<T, F: FnMut(T)>(
    before: EventLoop<T, F>,
    after: EventLoop<T, F>,
    step: LoopStep,
)
    requires
        before.is_running(),
        after.decided(before, step),
    ensures
        step == LoopStep::Stop <==> !after.is_running(),
        after.is_running() ==> step == paced(
            after.clock().readings().last(),
            before.poll_time(),
            before.update_interval(),
        ),
{
    let since = choose|since: Instant|
        {
            &&& #[trigger] before.clock().runs_since(since)
            &&& after.decided_since(before, since, step)
        };
    let lifeline = choose|lifeline: Result<(), SendError<()>>|
        {
            &&& #[trigger] after.lifeline().sent_once(before.lifeline(), (), lifeline)
            &&& if lifeline is Err {
                &&& after.abort() == before.abort()
                &&& step == LoopStep::Stop
            } else {
                after.decided_alive(before, since, step)
            }
        };
    let sent = before.lifeline().sent();
    assert(after.lifeline().sent()[sent.len() as int].1 == lifeline);
    assert forall|i: int| 0 <= i < sent.len() implies (
    #[trigger] after.lifeline().sent()[i]).1 is Ok by {
        assert(after.lifeline().sent()[i] == sent[i]);
    }
    if lifeline is Ok {
        let elapsed = after.clock().readings().last();
        let word = choose|word: Result<bool, TryRecvError>|
            {
                &&& #[trigger] after.abort().heard_once(before.abort(), word)
                &&& if stops(word) {
                    step == LoopStep::Stop
                } else {
                    step == paced(elapsed, before.poll_time(), before.update_interval())
                }
            };
        let heard = before.abort().heard();
        assert(after.abort().heard()[heard.len() as int] == word);
        assert forall|i: int| 0 <= i < heard.len() implies !stops(
            #[trigger] after.abort().heard()[i],
        ) by {
            assert(after.abort().heard()[i] == heard[i]);
        }
    }
}

/// A slot that has been opened is open: it cannot be opened again.
pub proof fn an_open_slot_cannot_be_opened<T: Send + Sync + Copy + 'static, H, F: FnMut(T)>(
    before: Slot<T, H>,
    after: Slot<T, H>,
    el: EventLoop<T, F>,
    callback: F,
)
    requires
        after.is_opened(before, el, callback),
    ensures
        !after.can_open(),
{
}

/// A slot can be opened exactly when closing it is refused.
pub proof fn a_slot_can_be_either_opened_or_closed<T: Send + Sync + Copy + 'static, H, P>(
    slot: Slot<T, H>,
)
    ensures
        slot.can_open() <==> slot.close_refusal::<P>() is Some,
{
}

/// Closing consumes the slot, so no slot is ever found closed: closing is refused only to a slot
/// that was not opened.
pub proof fn no_slot_is_found_closed<T: Send + Sync + Copy + 'static, H, P>(slot: Slot<T, H>)
    requires
        slot.wf(),
    ensures
        slot.close_refusal::<P>() == if slot.handle() is None {
            Some(SlotError::<P>::NotOpened)
        } else {
            None
        },
{
}

/// A slot that has been opened can be closed, and the word to stop goes into the channel that the
/// event loop asks for it. Until then the slot has told the loop nothing.
pub proof fn closing_tells_the_loop_to_stop<T: Send + Sync + Copy + 'static, H, F: FnMut(T), P>(
    before: Slot<T, H>,
    after: Slot<T, H>,
    el: EventLoop<T, F>,
    callback: F,
)
    requires
        after.is_opened(before, el, callback),
    ensures
        after.close_refusal::<P>() is None,
        connected(after.abort()->0.end(), el.abort().end()),
        after.abort()->0.sent().len() == 0,
{
}

/// However many turns a loop takes and however often it sleeps, it stays the loop of
/// its slot: it serves the same channel with the same callback at the same pace, and the slot keeps
/// the means to stop it.
pub proof fn a_running_loop_stays_with_its_slot<T: Send + Sync + Copy + 'static, H, F: FnMut(T)>(
    slot: Slot<T, H>,
    el: EventLoop<T, F>,
    later: EventLoop<T, F>,
)
    requires
        slot.controls(el),
        later.same_loop(el),
    ensures
        slot.controls(later),
        later.inbox().lock() == el.inbox().lock(),
        later.handler().callback() == el.handler().callback(),
        later.poll_time() == el.poll_time(),
        later.update_interval() == el.update_interval(),
{
}

/// In the round of an emission every channel of the list is sent into, each once for every time that
/// it stands in the list, in the order of the list, and with nothing but the signal.
pub proof fn a_round_takes_one_signal_to_each_channel<T>(
    round: Round<'static, T>,
    senders: Seq<Sender<T>>,
    signal: T,
    replies: Seq<Result<(), SendError<T>>>,
)
    requires
        took_to_all(round, senders, signal, replies),
    ensures
        round.log().map_values(|entry: (Sender<T>, T, Result<(), SendError<T>>)| entry.0)
            == senders,
        forall|i: int| 0 <= i < round.log().len() ==> (#[trigger] round.log()[i]).1 == signal,
        round.log().map_values(|entry: (Sender<T>, T, Result<(), SendError<T>>)| entry.2)
            == replies,
        forall|i: int|
            0 <= i < round.log().len() ==> {
                let entry = #[trigger] round.log()[i];
                was_sent(entry.0, entry.1, entry.2)
            },
{
    let channels = round.log().map_values(
        |entry: (Sender<T>, T, Result<(), SendError<T>>)| entry.0,
    );
    assert(channels =~= senders);
    let got = round.log().map_values(|entry: (Sender<T>, T, Result<(), SendError<T>>)| entry.2);
    assert(got =~= replies);
    assert forall|i: int| 0 <= i < round.log().len() implies {
        let entry = #[trigger] round.log()[i];
        was_sent(entry.0, entry.1, entry.2)
    } by {
        assert(was_sent(senders[i], signal, replies[i]));
    }
}

/// A signal is packed into as many parcels as are asked for, all alike, and into no more.
pub proof fn a_signal_is_packed_once_for_each_channel<T: Send + Sync + Copy + 'static>(
    signal: T,
    parcels: Parcels<T>,
    count: usize,
)
    requires
        call_ensures(<T as IntoSignal<T>>::into_parcels, (signal, count), parcels),
    ensures
        parcels.values().len() == count,
        forall|i: int| 0 <= i < count ==> #[trigger] parcels.values()[i] == signal,
{
}

/// Opening a slot takes nothing out of its channel. One inbox is handed out, to the event loop, and
/// through it no reply has come. The loop receives from the slot's own channel, at the slot's pace,
/// for the callback that the slot was opened with, which was not called.
pub proof fn opening_receives_nothing<T: Send + Sync + Copy + 'static, H, F: FnMut(T)>(
    before: Slot<T, H>,
    after: Slot<T, H>,
    el: EventLoop<T, F>,
    callback: F,
)
    requires
        after.is_opened(before, el, callback),
    ensures
        after.mailbox().inboxes() == before.mailbox().inboxes() + 1,
        el.inbox().replies() == Seq::<Polled<T>>::empty(),
        el.inbox().lock() == before.mailbox().lock(),
        after.mailbox().lock() == before.mailbox().lock(),
        after.sender() == before.sender(),
        el.poll_time() == before.poll_time(),
        el.update_interval() == before.update_interval(),
        after.poll_time() == before.poll_time(),
        after.update_interval() == before.update_interval(),
        el.handler().callback() == callback,
        el.handler().calls() == Seq::<T>::empty(),
        el.clock().since() is None,
        after.handle() is Some,
        after.abort() matches Some(abort) && abort.sent().len() == 0 && connected(
            abort.end(),
            el.abort().end(),
        ),
        el.abort().heard().len() == 0,
        after.lifeline() matches Some(lifeline) && connected(el.lifeline().end(), lifeline.end()),
{
    assert(el.inbox().replies() =~= Seq::<Polled<T>>::empty());
    assert(el.handler().calls() =~= Seq::<T>::empty());
}

/// Closing a slot takes nothing out of its channel: of the slot that is closed, one inbox was handed
/// out in all, and that is the event loop's. What the slot kept is discarded as it was.
pub proof fn closing_receives_nothing<T: Send + Sync + Copy + 'static, H>(
    slot: Slot<T, H>,
    keep: Keep<T>,
)
    requires
        slot.wf(),
        slot.handle() is Some,
        keep.mailbox() == slot.mailbox(),
        was_discarded(keep),
    ensures
        keep.mailbox().inboxes() == 1,
        is_fed_by(keep.mailbox().lock(), slot.sender()),
        call_ensures(Result::<(), Keep<T>>::ok, (Err(keep),), None),
{
}

/// What closing sends to the event loop is the word to stop, once.
pub proof fn closing_sends_one_word(before: Outlet<bool>, after: Outlet<bool>)
    requires
        has_told(before, after),
    ensures
        after.end() == before.end(),
        after.sent().len() == before.sent().len() + 1,
        after.sent().last().0,
        after.sent().drop_last() == before.sent(),
        was_sent(before.end(), true, after.sent().last().1),
{
    let reply = choose|reply: Result<(), SendError<bool>>| #[trigger]
        after.sent_once(before, true, reply);
    assert(after.sent().last() == (true, reply));
    assert(after.sent().drop_last() =~= before.sent());
}

/// A slot is opened exactly when it has no event loop, which is when it has no handle or no means to
/// stop one; closing is refused in the same cases, and says which.
pub proof fn a_slot_without_a_loop_is_opened_and_not_closed<
    T: Send + Sync + Copy + 'static,
    H,
    P,
>(slot: Slot<T, H>)
    ensures
        slot.can_open() <==> !(slot.handle() is Some && slot.abort() is Some),
        slot.handle() is None ==> slot.close_refusal::<P>() == Some(SlotError::<P>::NotOpened),
        slot.handle() is Some && slot.abort() is None ==> slot.close_refusal::<P>() == Some(
            SlotError::<P>::AlreadyClosed,
        ),
        slot.handle() is Some && slot.abort() is Some ==> slot.close_refusal::<P>() is None,
{
}

/// In a turn one reply comes out of the slot's channel. A signal in it is added to what the callback
/// was called with; any other reply adds nothing.
pub proof fn a_turn_hands_on_the_reply_that_came<T, F: FnMut(T)>(
    before: EventLoop<T, F>,
    after: EventLoop<T, F>,
)
    requires
        after.received(before),
    ensures
        after.inbox().lock() == before.inbox().lock(),
        after.inbox().replies().len() == before.inbox().replies().len() + 1,
        after.inbox().replies().drop_last() == before.inbox().replies(),
        match after.inbox().replies().last() {
            Polled::Locked(Ok(signal)) => {
                &&& after.handler().calls() == before.handler().calls().push(signal)
                &&& call_ensures(before.handler().callback(), (signal,), ())
            },
            Polled::Locked(Err(_)) => after.handler().calls() == before.handler().calls(),
            Polled::Poisoned => after.handler().calls() == before.handler().calls(),
        },
{
    let reply = choose|reply: Polled<T>|
        {
            &&& #[trigger] after.inbox().polled_once(before.inbox(), reply)
            &&& after.handler().took(before.handler(), reply)
        };
    assert(after.inbox().replies().last() == reply);
    assert(after.inbox().replies().drop_last() =~= before.inbox().replies());
}

/// What the callback was called with, reply by reply: one signal more for a reply that brought one,
/// and nothing for any other.
pub proof fn the_calls_follow_the_replies<T>(replies: Seq<Polled<T>>, reply: Polled<T>)
    ensures
        signals(Seq::<Polled<T>>::empty()) == Seq::<T>::empty(),
        reply matches Polled::Locked(Ok(signal)) ==> signals(replies.push(reply)) == signals(
            replies,
        ).push(signal),
        !(reply matches Polled::Locked(Ok(_))) ==> signals(replies.push(reply)) == signals(replies),
{
    assert(replies.push(reply).drop_last() =~= replies);
}

/// In a turn the lifeline is tried once, and the word to stop is asked for once if it holds. The
/// turn ends in a stop exactly when the lifeline was found broken, or the answer was that word.
pub proof fn a_turn_stops_on_a_broken_lifeline_or_the_word<T, F: FnMut(T)>(
    before: EventLoop<T, F>,
    after: EventLoop<T, F>,
    step: LoopStep,
)
    requires
        after.decided(before, step),
    ensures
        after.lifeline().sent().len() == before.lifeline().sent().len() + 1,
        after.lifeline().sent().drop_last() == before.lifeline().sent(),
        was_sent(before.lifeline().end(), (), after.lifeline().sent().last().1),
        after.lifeline().sent().last().1 is Err ==> {
            &&& step == LoopStep::Stop
            &&& after.abort().heard() == before.abort().heard()
        },
        after.lifeline().sent().last().1 is Ok ==> {
            &&& after.abort().heard().len() == before.abort().heard().len() + 1
            &&& after.abort().heard().drop_last() == before.abort().heard()
            &&& step == LoopStep::Stop <==> after.abort().heard().last() == Ok::<
                bool,
                TryRecvError,
            >(true)
        },
{
    let since = choose|since: Instant|
        {
            &&& #[trigger] before.clock().runs_since(since)
            &&& after.decided_since(before, since, step)
        };
    let lifeline = choose|lifeline: Result<(), SendError<()>>|
        {
            &&& #[trigger] after.lifeline().sent_once(before.lifeline(), (), lifeline)
            &&& if lifeline is Err {
                &&& after.abort() == before.abort()
                &&& step == LoopStep::Stop
            } else {
                after.decided_alive(before, since, step)
            }
        };
    assert(after.lifeline().sent().last() == ((), lifeline));
    assert(after.lifeline().sent().drop_last() =~= before.lifeline().sent());
    if lifeline is Ok {
        let elapsed = after.clock().readings().last();
        let word = choose|word: Result<bool, TryRecvError>|
            {
                &&& #[trigger] after.abort().heard_once(before.abort(), word)
                &&& if stops(word) {
                    step == LoopStep::Stop
                } else {
                    step == paced(elapsed, before.poll_time(), before.update_interval())
                }
            };
        assert(after.abort().heard().last() == word);
        assert(after.abort().heard().drop_last() =~= before.abort().heard());
    }
}

/// Two turns in a row, of which the first ends in another poll: the time that the second one
/// measures is counted from the same instant as the first one's, whatever the poll time. That
/// instant is the one from which the first turn's predecessor counted, or was read off the clock in
/// the first turn. It is kept until a turn ends in a sleep.
pub proof fn polling_is_measured_from_one_instant<T, F: FnMut(T)>(
    before: EventLoop<T, F>,
    after: EventLoop<T, F>,
    later: EventLoop<T, F>,
    next: LoopStep,
)
    requires
        after.decided(before, LoopStep::Poll),
        later.decided(after, next),
    ensures
        after.clock().since() is Some,
        before.clock().since() is Some ==> after.clock().since() == before.clock().since(),
        before.clock().since() is None ==> was_now(after.clock().since()->0),
        after.clock().readings().len() == before.clock().readings().len() + 1,
        was_elapsed(after.clock().since()->0, after.clock().readings().last()),
        nanos(after.clock().readings().last()) <= nanos(before.poll_time()),
        later.clock().readings().len() > after.clock().readings().len() ==> was_elapsed(
            after.clock().since()->0,
            later.clock().readings().last(),
        ),
        next is Poll ==> later.clock().since() == after.clock().since(),
        next is Sleep ==> later.clock().since() is None,
{
    lemma_turn_measures_from_its_start(before, after, LoopStep::Poll);
    lemma_turn_measures_from_its_start(after, later, next);
}

/// A turn that ends in a sleep has measured more than the poll time, counted from when polling
/// began; the sleep is for the update interval; and the next turn counts from a new instant.
pub proof fn a_sleep_ends_the_polling<T, F: FnMut(T)>(
    before: EventLoop<T, F>,
    after: EventLoop<T, F>,
    later: EventLoop<T, F>,
    interval: Duration,
    next: LoopStep,
)
    requires
        after.decided(before, LoopStep::Sleep(interval)),
        later.decided(after, next),
    ensures
        interval == before.update_interval(),
        after.clock().readings().len() == before.clock().readings().len() + 1,
        nanos(after.clock().readings().last()) > nanos(before.poll_time()),
        before.clock().since() matches Some(since) ==> was_elapsed(
            since,
            after.clock().readings().last(),
        ),
        after.clock().since() is None,
        next !is Sleep ==> was_now(later.clock().since()->0),
        later.clock().readings().len() > after.clock().readings().len() ==> exists|since: Instant|
            #[trigger]
            was_now(since) && was_elapsed(since, later.clock().readings().last()),
{
    lemma_turn_measures_from_its_start(before, after, LoopStep::Sleep(interval));
    lemma_turn_measures_from_its_start(after, later, next);
}

/// What a turn does to the clock of its loop.
proof fn lemma_turn_measures_from_its_start<T, F: FnMut(T)>(
    before: EventLoop<T, F>,
    after: EventLoop<T, F>,
    step: LoopStep,
)
    requires
        after.decided(before, step),
    ensures
        step is Sleep <==> after.clock().since() is None,
        step !is Sleep && before.clock().since() is Some ==> after.clock().since()
            == before.clock().since(),
        step !is Sleep && before.clock().since() is None ==> was_now(after.clock().since()->0),
        step !is Stop ==> {
            &&& after.clock().readings().len() == before.clock().readings().len() + 1
            &&& step == paced(
                after.clock().readings().last(),
                before.poll_time(),
                before.update_interval(),
            )
        },
        after.clock().readings().len() > before.clock().readings().len() ==> {
            &&& before.clock().since() matches Some(since) ==> was_elapsed(
                since,
                after.clock().readings().last(),
            )
            &&& after.clock().since() matches Some(since) ==> was_elapsed(
                since,
                after.clock().readings().last(),
            )
            &&& before.clock().since() is None ==> exists|since: Instant| #[trigger]
                was_now(since) && was_elapsed(since, after.clock().readings().last())
        },
{
    let since = choose|since: Instant|
        {
            &&& #[trigger] before.clock().runs_since(since)
            &&& after.decided_since(before, since, step)
            &&& after.clock().since() == if step is Sleep {
                None
            } else {
                Some(since)
            }
        };
    if after.clock().readings().len() > before.clock().readings().len() {
        assert(was_elapsed(since, after.clock().readings().last()));
    }
}

/// The word to stop is `true`; a `false`, an empty channel and a broken one are not.
pub proof fn only_true_is_the_word_to_stop(reply: Result<bool, TryRecvError>)
    ensures
        reply matches Ok(word) ==> stops(reply) == word,
        reply is Err ==> !stops(reply),
{
}

/// The lock of a slot was made around the receiving end of the very channel whose sending end
/// signals get from the slot.
pub proof fn a_slot_receives_what_is_sent_into_its_sender<T: Send + Sync + Copy + 'static, H>(
    slot: Slot<T, H>,
)
    requires
        slot.wf(),
    ensures
        exists|end: Receiver<T>|
            {
                &&& #[trigger] call_ensures(
                    crossbeam_channel::unbounded::<T>,
                    (),
                    (slot.sender(), end),
                )
                &&& call_ensures(
                    ShardedLock::<Receiver<T>>::new,
                    (end,),
                    slot.mailbox().lock(),
                )
            },
{
    let end = choose|end: Receiver<T>| #[trigger]
        connected(slot.sender(), end) && guards(slot.mailbox().lock(), end);
    assert(call_ensures(crossbeam_channel::unbounded::<T>, (), (slot.sender(), end)));
}

/// The relations speak of the calls that they are named after, and of nothing else.
pub proof fn the_relations_speak_of_calls<M>(
    sender: Sender<M>,
    receiver: Receiver<M>,
    msg: M,
    reply: Result<(), SendError<M>>,
    since: Instant,
    elapsed: Duration,
)
    ensures
        connected(sender, receiver) <==> call_ensures(
            crossbeam_channel::unbounded::<M>,
            (),
            (sender, receiver),
        ),
        was_sent(sender, msg, reply) <==> call_ensures(
            Sender::<M>::send,
            (&sender, msg),
            reply,
        ),
        was_now(since) <==> call_ensures(Instant::now, (), since),
        was_elapsed(since, elapsed) <==> call_ensures(Instant::elapsed, (&since,), elapsed),
        was_discarded(receiver) <==> call_ensures(
            Result::<(), Receiver<M>>::ok,
            (Err(receiver),),
            None,
        ),
{
}

} // verus!
