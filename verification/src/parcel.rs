//! Signals on their way to the slots.
//!
//! A signal is packed into parcels, one for each channel, and it is used up by the packing. A
//! parcel is a value that cannot be copied: it goes into one channel, or comes back in an error.
//! What emits a signal has it in this form alone, so that no channel can get it a second time.

use crate::channel::{was_sent, Round};
use crate::error::SignalError;
use crate::signal::emission;
use crossbeam_channel::{SendError, Sender};
use vstd::prelude::*;

verus! {

/// A value that a signal of type `T` can be made of: every value that can be copied and shared, of
/// itself.
pub trait IntoSignal<T>: Sized {
    /// The signal.
    spec fn signal(self) -> T;

    /// Packs the signal into `count` parcels.
    fn into_parcels(self, count: usize) -> (parcels: Parcels<T>)
        ensures
            parcels.values() == Seq::new(count as nat, |i: int| self.signal()),
    ;
}

/// Parcels, each of which holds a signal.
#[verifier::reject_recursive_types(T)]
pub struct Parcels<T> {
    values: Vec<T>,
}

/// What came back from the channels that parcels were sent into.
#[verifier::reject_recursive_types(T)]
pub struct Replies<T> {
    replies: Vec<Result<(), SendError<T>>>,
}

impl<T: Send + Sync + Copy + 'static> IntoSignal<T> for T {
    open spec fn signal(self) -> T {
        self
    }

    fn into_parcels(self, count: usize) -> (parcels: Parcels<T>) {
        let mut values: Vec<T> = Vec::new();
        for i in 0..count
            invariant
                values@ == Seq::new(i as nat, |j: int| self),
        {
            values.push(self);
        }
        Parcels { values }
    }
}

impl<T> Parcels<T> {
    /// What the parcels hold.
    pub closed spec fn values(self) -> Seq<T> {
        self.values@
    }
}

impl<T> View for Replies<T> {
    type V = Seq<Result<(), SendError<T>>>;

    closed spec fn view(&self) -> Seq<Result<(), SendError<T>>> {
        self.replies@
    }
}

/// The record of sending one parcel into each of `senders` in order, from the last parcel to the
/// first.
pub open spec fn one_parcel_each<T>(
    senders: Seq<Sender<T>>,
    values: Seq<T>,
    replies: Seq<Result<(), SendError<T>>>,
) -> Seq<(Sender<T>, T, Result<(), SendError<T>>)> {
    Seq::new(senders.len(), |i: int| (senders[i], values[values.len() - 1 - i], replies[i]))
}

/// Sends one parcel into each channel of the round, in the order of the list, whether or not sending
/// into those before failed.
pub(crate) fn deliver<'a, T>(round: &mut Round<'a, T>, parcels: Parcels<T>) -> (replies: Replies<T>)
    requires
        parcels.values().len() == old(round).senders().len(),
    ensures
        final(round).senders() == old(round).senders(),
        final(round).log() == old(round).log() + one_parcel_each(
            old(round).senders(),
            parcels.values(),
            replies@,
        ),
        replies@.len() == old(round).senders().len(),
        forall|i: int|
            #![trigger replies@[i]]
            0 <= i < replies@.len() ==> {
                let value = parcels.values()[replies@.len() - 1 - i];
                &&& was_sent(old(round).senders()[i], value, replies@[i])
                &&& replies@[i] matches Err(error) ==> error.0 == value
            },
{
    let ghost senders = round.senders();
    let ghost log = round.log();
    let ghost all = parcels.values();
    let mut values = parcels.values;
    let mut replies: Vec<Result<(), SendError<T>>> = Vec::new();
    let len: usize = round.len();
    let mut i: usize = 0;
    while i < len
        invariant
            len == senders.len(),
            len == all.len(),
            i <= len,
            round.senders() == senders,
            replies.len() == i,
            values@ == all.take(len - i),
            round.log() == log + one_parcel_each(senders, all, replies@).take(i as int),
            forall|j: int|
                #![trigger replies[j]]
                0 <= j < i ==> {
                    &&& was_sent(senders[j], all[len - 1 - j], replies[j])
                    &&& replies[j] matches Err(error) ==> error.0 == all[len - 1 - j]
                },
        decreases len - i,
    {
        let ghost before = replies@;
        match values.pop() {
            Some(value) => {
                let reply = round.send(i, value);
                replies.push(reply);
                assert(one_parcel_each(senders, all, replies@).take(i + 1) =~= one_parcel_each(
                    senders,
                    all,
                    before,
                ).take(i as int).push((senders[i as int], all[len - 1 - i], reply)));
                assert(values@ =~= all.take(len - (i + 1)));
            },
            None => (),
        }
        i = i + 1;
    }
    assert(one_parcel_each(senders, all, replies@).take(len as int) =~= one_parcel_each(
        senders,
        all,
        replies@,
    ));
    Replies { replies }
}

impl<T> Replies<T> {
    /// What the emission comes to.
    pub(crate) fn settle(self) -> (result: Result<(), SignalError<T>>)
        ensures
            result == emission(self@),
    {
        let mut replies = self.replies;
        if replies.len() == 0 {
            return Err(SignalError::NotConnected);
        }
        while replies.len() > 0
            invariant
                crate::signal::last_error(replies@) == crate::signal::last_error(self@),
                self@.len() > 0,
            decreases replies.len(),
        {
            if let Some(Err(error)) = replies.pop() {
                return Err(SignalError::SendError(error));
            }
        }
        Ok(())
    }
}

} // verus!
