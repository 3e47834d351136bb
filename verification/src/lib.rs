//! Signals and slots over channels.
//!
//! A [`Signal`] holds the sending ends of the channels of the slots that it is connected to, and
//! hands each of them every value that is emitted. A [`Slot`] owns such a channel. Opening it
//! makes an [`EventLoop`], which takes the values out of the channel one at a time and calls a
//! callback with each. On which thread the loop runs is the caller's choice: [`Slot::open`] takes
//! what starts a loop, and [`Slot::close`] takes what waits for it to end.
//!
//! The channels come from `crossbeam_channel` and the lock around a slot's receiving end from
//! `crossbeam_utils`. What is assumed of them stands in [`channel`], [`inbox`] and [`clock`];
//! everything else is proved.

pub mod channel;
pub mod clock;
pub mod desk;
pub mod error;
pub mod event_loop;
pub mod handler;
pub mod inbox;
pub mod laws;
pub mod parcel;
pub mod signal;
pub mod slot;

pub use error::{SignalError, SlotError};
pub use event_loop::{EventLoop, LoopStep};
pub use signal::Signal;
pub use slot::Slot;
