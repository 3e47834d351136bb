//! Signals.

use crate::channel::{was_sent, Fan, Round};
use crate::error::SignalError;
use crate::parcel::{deliver, IntoSignal};
use crossbeam_channel::{SendError, Sender};
use vstd::prelude::*;

verus! {

/// Emits values to all the slots that it is connected to. Its view is the channels of those slots,
/// in the order in which they were connected.
#[verifier::reject_recursive_types(T)]
pub struct Signal<T> {
    /// the channels to emit into
    senders: Fan<T>,
}

impl<T> View for Signal<T> {
    type V = Seq<Sender<T>>;

    closed spec fn view(&self) -> Seq<Sender<T>> {
        self.senders.senders()
    }
}

/// `signal` was sent into every one of `senders`, and `replies` are the replies, in that order.
pub open spec fn sent_to_all<T>(
    senders: Seq<Sender<T>>,
    signal: T,
    replies: Seq<Result<(), SendError<T>>>,
) -> bool {
    &&& replies.len() == senders.len()
    &&& forall|i: int|
        #![trigger replies[i]]
        0 <= i < senders.len() ==> was_sent(senders[i], signal, replies[i])
}

/// The record of sending `signal` into each of `senders` once, in order.
pub open spec fn one_each<T>(
    senders: Seq<Sender<T>>,
    signal: T,
    replies: Seq<Result<(), SendError<T>>>,
) -> Seq<(Sender<T>, T, Result<(), SendError<T>>)> {
    Seq::new(senders.len(), |i: int| (senders[i], signal, replies[i]))
}

/// `round` went to `senders`, and took `signal` to each of them once, in order, and nothing else
/// to any of them; `replies` are the replies.
pub open spec fn took_to_all<'a, T>(
    round: Round<'a, T>,
    senders: Seq<Sender<T>>,
    signal: T,
    replies: Seq<Result<(), SendError<T>>>,
) -> bool {
    &&& round.senders() == senders
    &&& round.log() == one_each(senders, signal, replies)
    &&& sent_to_all(senders, signal, replies)
}

/// Sends `signal` into every channel of the round: into each once, in the order of the list, whether
/// or not sending into those before failed. Returns the replies.
pub fn send_to_all<'a, T: Copy>(round: &mut Round<'a, T>, signal: T) -> (replies: Vec<
    Result<(), SendError<T>>,
>)
    ensures
        final(round).senders() == old(round).senders(),
        final(round).log() == old(round).log() + one_each(
            old(round).senders(),
            signal,
            replies@,
        ),
        sent_to_all(old(round).senders(), signal, replies@),
        forall|i: int|
            #![trigger replies[i]]
            0 <= i < replies.len() ==> (replies[i] matches Err(error) ==> error.0 == signal),
{
    let ghost senders = round.senders();
    let ghost log = round.log();
    let mut replies: Vec<Result<(), SendError<T>>> = Vec::new();
    let len: usize = round.len();
    for i in 0..len
        invariant
            len == senders.len(),
            round.senders() == senders,
            replies.len() == i,
            round.log() == log + one_each(senders, signal, replies@).take(i as int),
            forall|j: int|
                #![trigger replies[j]]
                0 <= j < i ==> was_sent(senders[j], signal, replies[j]),
            forall|j: int|
                #![trigger replies[j]]
                0 <= j < i ==> (replies[j] matches Err(error) ==> error.0 == signal),
    {
        let ghost before = replies@;
        let reply = round.send(i, signal);
        replies.push(reply);
        assert(one_each(senders, signal, replies@).take(i + 1) =~= one_each(
            senders,
            signal,
            before,
        ).take(i as int).push((senders[i as int], signal, reply)));
    }
    assert(one_each(senders, signal, replies@).take(senders.len() as int) =~= one_each(
        senders,
        signal,
        replies@,
    ));
    replies
}

/// The most recent error among `replies`.
pub open spec fn last_error<T>(replies: Seq<Result<(), SendError<T>>>) -> Option<SendError<T>>
    decreases replies.len(),
{
    if replies.len() == 0 {
        None
    } else {
        match replies.last() {
            Err(error) => Some(error),
            Ok(_) => last_error(replies.drop_last()),
        }
    }
}

/// What an emission that got `replies` comes to.
pub open spec fn emission<T>(replies: Seq<Result<(), SendError<T>>>) -> Result<
    (),
    SignalError<T>,
> {
    if replies.len() == 0 {
        Err(SignalError::NotConnected)
    } else {
        match last_error(replies) {
            Some(error) => Err(SignalError::SendError(error)),
            None => Ok(()),
        }
    }
}

impl<T> Signal<T> {
    /// A signal that is not connected to any slot.
    pub fn new() -> (signal: Signal<T>)
        ensures
            signal@ == Seq::<Sender<T>>::empty(),
    {
        Signal { senders: Fan::new() }
    }

    /// Adds a channel to those that are emitted into.
    pub fn add_sender(&mut self, sender: Sender<T>)
        ensures
            final(self)@ == old(self)@.push(sender),
    {
        self.senders.push(sender);
    }

    /// Sends `signal` to every connected slot, in the order in which they were connected. Where
    /// sending fails, the remaining slots are still sent to, and the most recent error is returned.
    ///
    /// In a round each slot is sent to once, and there is one round: `signal` is used up by packing
    /// it, and neither it nor what it is packed into can be had twice, as nothing here says that a
    /// `T` can be copied.
    pub fn emit<S: IntoSignal<T>>(&self, signal: S) -> (result: Result<(), SignalError<T>>)
        ensures
            exists|round: Round<'static, T>, replies: Seq<Result<(), SendError<T>>>| #[trigger]
                took_to_all(round, self@, signal.signal(), replies) && result == emission(replies),
            result matches Err(SignalError::NotConnected) <==> self@.len() == 0,
            result matches Err(SignalError::SendError(error)) ==> error.0 == signal.signal(),
    {
        let ghost value = signal.signal();
        let mut round = self.senders.round();
        let parcels = signal.into_parcels(round.len());
        let replies = deliver(&mut round, parcels);
        assert(round.log() =~= one_each(self@, value, replies@));
        assert(took_to_all(round, self@, value, replies@));
        proof {
            lemma_last_error_is_a_reply(replies@);
        }
        replies.settle()
    }
}

impl<T: Send + Sync + Copy + 'static> Signal<T> {
    /// What an emission comes to, given the reply of each slot in turn.
    pub fn outcome(replies: &Vec<Result<(), SendError<T>>>) -> (result: Result<(), SignalError<T>>)
        ensures
            result == emission(replies@),
    {
        if replies.is_empty() {
            return Err(SignalError::NotConnected);
        }
        let mut error: Option<SignalError<T>> = None;
        for i in 0..replies.len()
            invariant
                error == match last_error(replies@.take(i as int)) {
                    Some(e) => Some(SignalError::SendError(e)),
                    None => None,
                },
        {
            assert(replies@.take(i + 1).drop_last() == replies@.take(i as int));
            match &replies[i] {
                Ok(_) => (),
                Err(e) => error = Some(SignalError::SendError(SendError(e.0))),
            }
        }
        assert(replies@.take(replies@.len() as int) == replies@);
        match error {
            Some(e) => Err(e),
            None => Ok(()),
        }
    }
}

impl<T> Default for Signal<T> {
    fn default() -> (signal: Self)
        ensures
            signal@ == Seq::<Sender<T>>::empty(),
    {
        Signal::new()
    }
}

/// The most recent error is one of the replies, and every later reply is `Ok`; where there is no
/// error, every reply is `Ok`.
pub(crate) proof fn lemma_last_error_is_a_reply<T>(replies: Seq<Result<(), SendError<T>>>)
    ensures
        match last_error(replies) {
            Some(error) => exists|i: int|
                0 <= i < replies.len() && #[trigger] replies[i] == Err::<(), _>(error) && forall|
                    j: int,
                |
                    i < j < replies.len() ==> #[trigger] replies[j] is Ok,
            None => forall|i: int| 0 <= i < replies.len() ==> #[trigger] replies[i] is Ok,
        },
    decreases replies.len(),
{
    if replies.len() > 0 && replies.last() is Ok {
        let front = replies.drop_last();
        lemma_last_error_is_a_reply(front);
        assert(forall|i: int| 0 <= i < front.len() ==> front[i] == replies[i]);
        if last_error(front) is Some {
            let error = last_error(front).unwrap();
            let i = choose|i: int|
                0 <= i < front.len() && #[trigger] front[i] == Err::<(), _>(error) && forall|j: int|
                    i < j < front.len() ==> #[trigger] front[j] is Ok;
            assert(replies[i] == Err::<(), _>(error));
            assert forall|j: int| i < j < replies.len() implies #[trigger] replies[j] is Ok by {
                if j < front.len() {
                    assert(front[j] is Ok);
                }
            }
        } else {
            assert forall|i: int| 0 <= i < replies.len() implies #[trigger] replies[i] is Ok by {
                if i < front.len() {
                    assert(front[i] is Ok);
                }
            }
        }
    } else if replies.len() > 0 {
        assert(replies[replies.len() - 1] == Err::<(), _>(last_error(replies).unwrap()));
    }
}

} // verus!
