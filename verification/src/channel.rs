//! The channels of `crossbeam_channel`.
//!
//! A channel is shared between threads, so what one call returns is not a function of its
//! arguments. Contracts therefore speak of calls and what they returned. Each relation below says
//! that a reply is a possible outcome of a call; it can be proved only by making that call, or from
//! what is assumed here. It does not say when the call was made, or how often.
//!
//! An end that has one owner can say more. [`Outlet`] and [`Inlet`] are such ends, and a [`Round`]
//! is a list of shared ends in the hands of one sender. Each keeps the record of what went through
//! it, in order, so that a contract can say that nothing else did.

use crossbeam_channel::{unbounded, Receiver, SendError, Sender, TryRecvError};
use vstd::prelude::*;

verus! {

/// `crossbeam_channel::Sender`. The value of a sender stands for the channel that it sends into.
#[verifier::external_type_specification]
#[verifier::external_body]
#[verifier::reject_recursive_types(T)]
pub struct ExSender<T>(Sender<T>);

/// `crossbeam_channel::Receiver`. The value of a receiver stands for the channel that it receives
/// from.
#[verifier::external_type_specification]
#[verifier::external_body]
#[verifier::reject_recursive_types(T)]
pub struct ExReceiver<T>(Receiver<T>);

/// `crossbeam_channel::SendError`. Its one field is public, and holds the message that was not sent.
#[verifier::external_type_specification]
#[verifier::reject_recursive_types(T)]
pub struct ExSendError<T>(SendError<T>);

/// `crossbeam_channel::TryRecvError`.
#[verifier::external_type_specification]
#[verifier::external_body]
pub struct ExTryRecvError(TryRecvError);

/// `crossbeam_channel::unbounded`. That the two ends belong to one channel is what [`connected`]
/// says of a pair that this function returned; nothing else is claimed. In particular it is left
/// unsaid that every call makes a channel of its own.
pub assume_specification<T>[ crossbeam_channel::unbounded::<T> ]() -> (ends: (
    Sender<T>,
    Receiver<T>,
));

/// `Sender::clone`. The clone sends into the same channel.
pub assume_specification<T>[ <Sender<T> as Clone>::clone ](sender: &Sender<T>) -> (res: Sender<T>)
    ensures
        res == *sender,
;

/// `Sender::send`. A message that could not be sent comes back inside the error. Whether it can be
/// sent depends on whether the other end still exists, so nothing is claimed of that; nor that it
/// stays so once it could not.
pub assume_specification<T>[ Sender::<T>::send ](sender: &Sender<T>, msg: T) -> (reply: Result<
    (),
    SendError<T>,
>)
    ensures
        reply matches Err(e) ==> e.0 == msg,
;

/// `SendError`'s `Display`, through `to_string`. The text is the same whatever the message is.
#[verifier::external_body]
pub(crate) fn send_error_text<T>(error: &SendError<T>) -> (text: String)
    ensures
        text@ == "sending on a disconnected channel"@,
{
    error.to_string()
}

/// The two ends came out of one call of `unbounded`, so they belong to one channel.
pub open spec fn connected<T>(sender: Sender<T>, receiver: Receiver<T>) -> bool {
    call_ensures(crossbeam_channel::unbounded::<T>, (), (sender, receiver))
}

/// `msg` was sent into `sender`, with the given reply.
pub open spec fn was_sent<T>(sender: Sender<T>, msg: T, reply: Result<(), SendError<T>>) -> bool {
    call_ensures(Sender::<T>::send, (&sender, msg), reply)
}

/// The sending end of a channel, where it has one owner.
#[verifier::reject_recursive_types(M)]
pub struct Outlet<M> {
    sender: Sender<M>,
    sent: Ghost<Seq<(M, Result<(), SendError<M>>)>>,
}

/// The receiving end of a channel, where it has one owner.
#[verifier::reject_recursive_types(M)]
pub struct Inlet<M> {
    receiver: Receiver<M>,
    heard: Ghost<Seq<Result<M, TryRecvError>>>,
}

/// Makes a channel with one owner at either end. Nothing has gone through it yet.
pub(crate) fn line<M>() -> (ends: (Outlet<M>, Inlet<M>))
    ensures
        connected(ends.0.end(), ends.1.end()),
        ends.0.sent().len() == 0,
        ends.1.heard().len() == 0,
{
    let (sender, receiver) = unbounded::<M>();
    (
        Outlet { sender, sent: Ghost(Seq::empty()) },
        Inlet { receiver, heard: Ghost(Seq::empty()) },
    )
}

impl<M> Outlet<M> {
    /// The channel.
    pub closed spec fn end(self) -> Sender<M> {
        self.sender
    }

    /// Everything that was sent, with the reply that it got.
    pub closed spec fn sent(self) -> Seq<(M, Result<(), SendError<M>>)> {
        self.sent@
    }

    /// Since `before`, `msg` was sent, with the given reply, and nothing else.
    pub open spec fn sent_once(
        self,
        before: Self,
        msg: M,
        reply: Result<(), SendError<M>>,
    ) -> bool {
        &&& self.end() == before.end()
        &&& self.sent() == before.sent().push((msg, reply))
        &&& was_sent(self.end(), msg, reply)
    }

    /// Sends `msg`.
    pub(crate) fn send(&mut self, msg: M) -> (reply: Result<(), SendError<M>>)
        ensures
            final(self).sent_once(*old(self), msg, reply),
            reply matches Err(e) ==> e.0 == msg,
    {
        let ghost message = msg;
        let reply = self.sender.send(msg);
        self.sent = Ghost(self.sent@.push((message, reply)));
        reply
    }
}

/// A list of channels, lent for messages to be sent into them one after the other.
#[verifier::reject_recursive_types(M)]
pub struct Round<'a, M> {
    senders: &'a Vec<Sender<M>>,
    log: Ghost<Seq<(Sender<M>, M, Result<(), SendError<M>>)>>,
}

impl<'a, M> Round<'a, M> {
    /// The channels.
    pub closed spec fn senders(self) -> Seq<Sender<M>> {
        self.senders@
    }

    /// Everything that was sent in this round: into which channel, what, and with which reply.
    pub closed spec fn log(self) -> Seq<(Sender<M>, M, Result<(), SendError<M>>)> {
        self.log@
    }

    /// A round in which nothing was sent yet.
    pub fn of(senders: &'a Vec<Sender<M>>) -> (round: Round<'a, M>)
        ensures
            round.senders() == senders@,
            round.log().len() == 0,
    {
        Round { senders, log: Ghost(Seq::empty()) }
    }

    /// The number of channels.
    pub fn len(&self) -> (len: usize)
        ensures
            len == self.senders().len(),
    {
        self.senders.len()
    }

    /// Sends `msg` into the channel at `index`.
    pub fn send(&mut self, index: usize, msg: M) -> (reply: Result<(), SendError<M>>)
        requires
            index < old(self).senders().len(),
        ensures
            final(self).senders() == old(self).senders(),
            final(self).log() == old(self).log().push(
                (old(self).senders()[index as int], msg, reply),
            ),
            was_sent(old(self).senders()[index as int], msg, reply),
            reply matches Err(e) ==> e.0 == msg,
    {
        let ghost message = msg;
        let reply = self.senders[index].send(msg);
        self.log = Ghost(self.log@.push((self.senders@[index as int], message, reply)));
        reply
    }
}

/// The channels that a signal is connected to. They can be sent into in rounds only.
#[verifier::reject_recursive_types(M)]
pub struct Fan<M> {
    senders: Vec<Sender<M>>,
}

impl<M> Fan<M> {
    /// The channels, in the order in which they were added.
    pub closed spec fn senders(self) -> Seq<Sender<M>> {
        self.senders@
    }

    /// No channel.
    pub(crate) fn new() -> (fan: Fan<M>)
        ensures
            fan.senders() == Seq::<Sender<M>>::empty(),
    {
        Fan { senders: Vec::new() }
    }

    /// Adds a channel.
    pub(crate) fn push(&mut self, sender: Sender<M>)
        ensures
            final(self).senders() == old(self).senders().push(sender),
    {
        self.senders.push(sender);
    }

    /// Lends the channels for a round, in which nothing was sent yet.
    pub(crate) fn round(&self) -> (round: Round<'_, M>)
        ensures
            round.senders() == self.senders(),
            round.log().len() == 0,
    {
        Round::of(&self.senders)
    }
}

impl<M> Inlet<M> {
    /// The channel.
    pub closed spec fn end(self) -> Receiver<M> {
        self.receiver
    }

    /// Every reply that came, in order.
    pub closed spec fn heard(self) -> Seq<Result<M, TryRecvError>> {
        self.heard@
    }

    /// Since `before`, `reply` came, and nothing else.
    pub open spec fn heard_once(self, before: Self, reply: Result<M, TryRecvError>) -> bool {
        &&& self.end() == before.end()
        &&& self.heard() == before.heard().push(reply)
    }

    /// `Receiver::try_recv`. The reply is added to the record: that is believed with the call, so that
    /// no reply can be taken and left out. What it is depends on what other
    /// threads have done so far; but a message that comes out went in. Ends of this type come out
    /// of [`line`] only, whose other end sends with `Sender::send` and in no other way. In which
    /// order messages come out is left unsaid.
    #[verifier::external_body]
    pub(crate) fn try_recv(&mut self) -> (reply: Result<M, TryRecvError>)
        ensures
            final(self).heard_once(*old(self), reply),
            reply matches Ok(msg) ==> forall|sender: Sender<M>| #[trigger]
                connected(sender, old(self).end()) ==> was_sent(sender, msg, Ok(())),
    {
        self.receiver.try_recv()
    }
}

} // verus!
