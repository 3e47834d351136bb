//! The errors of slots and signals, and the texts in which they are reported.

use crate::channel::send_error_text;
use crossbeam_channel::SendError;
use vstd::prelude::*;

verus! {

/// What can go wrong when a slot is opened or closed. `P` is what is left of an event loop that
/// failed: for a thread, the value that it panicked with.
#[derive(Debug)]
pub enum SlotError<P = ()> {
    /// The slot was already open.
    AlreadyOpen,
    /// The slot has never been opened.
    NotOpened,
    /// The slot was closed before.
    AlreadyClosed,
    /// The event loop could not be joined.
    ThreadJoin(P),
}

/// The text that reports a [`SlotError`]; `payload` describes what is inside a `ThreadJoin`.
pub open spec fn slot_error_text<P>(error: SlotError<P>, payload: Seq<char>) -> Seq<char> {
    match error {
        SlotError::AlreadyOpen => "AlreadyOpen Error: Slot Already Open"@,
        SlotError::NotOpened => "NotOpened Error: Slot Not Opened"@,
        SlotError::AlreadyClosed => "AlreadyClosed Error: Slot Already Closed"@,
        SlotError::ThreadJoin(_) =>
            "ThreadJoin Error: Slot failed to join signal handling thread: "@ + payload,
    }
}

impl<P> SlotError<P> {
    /// Reports the error in words. `payload` is how the payload of a `ThreadJoin` reads; the other
    /// errors carry none, and do not use it.
    pub fn message(&self, payload: &str) -> (text: String)
        ensures
            text@ == slot_error_text(*self, payload@),
    {
        match self {
            SlotError::AlreadyOpen => "AlreadyOpen Error: Slot Already Open".to_owned(),
            SlotError::NotOpened => "NotOpened Error: Slot Not Opened".to_owned(),
            SlotError::AlreadyClosed => "AlreadyClosed Error: Slot Already Closed".to_owned(),
            SlotError::ThreadJoin(_) => {
                let mut text =
                    "ThreadJoin Error: Slot failed to join signal handling thread: ".to_owned();
                text.append(payload);
                text
            },
        }
    }

    /// The error behind this one. No slot error has one: what a `ThreadJoin` carries is no error.
    pub fn source(&self) -> (cause: Option<&SlotError<P>>)
        ensures
            cause is None,
    {
        None
    }
}

/// What can go wrong when a signal is emitted.
#[derive(Debug)]
#[verifier::reject_recursive_types(T)]
pub enum SignalError<T> {
    /// The signal could not be sent to a slot.
    SendError(SendError<T>),
    /// The signal is not connected to any slot.
    NotConnected,
}

/// The text that reports a [`SignalError`].
pub open spec fn signal_error_text<T>(error: SignalError<T>) -> Seq<char> {
    match error {
        SignalError::SendError(_) =>
            "crossbeam_channel::SendError Error: "@ + "sending on a disconnected channel"@,
        SignalError::NotConnected => "NotConnected Error: Signal Not Connected to a Slot"@,
    }
}

impl<T> SignalError<T> {
    /// Reports the error in words.
    pub fn message(&self) -> (text: String)
        ensures
            text@ == signal_error_text(*self),
    {
        match self {
            SignalError::SendError(error) => {
                let mut text = "crossbeam_channel::SendError Error: ".to_owned();
                text.append(send_error_text(error).as_str());
                text
            },
            SignalError::NotConnected => {
                "NotConnected Error: Signal Not Connected to a Slot".to_owned()
            },
        }
    }

    /// The error behind this one: that of the channel, where sending failed.
    pub fn source(&self) -> (cause: Option<&SendError<T>>)
        ensures
            cause == match *self {
                SignalError::SendError(error) => Some(&error),
                SignalError::NotConnected => None,
            },
    {
        match self {
            SignalError::SendError(error) => Some(error),
            SignalError::NotConnected => None,
        }
    }
}

} // verus!
