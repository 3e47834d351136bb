use apex::channel::Round;
use apex::signal::send_to_all;
use apex::{Signal, SignalError, Slot};
use crossbeam_channel::{unbounded, SendError, TryRecvError};
use std::time::Duration;

fn slot() -> Slot<i32, ()> {
    Slot::new(Duration::from_millis(10), Duration::from_millis(10))
}

#[test]
fn unconnected_signal_is_refused() {
    let sig = Signal::<i32>::new();
    let error = sig.emit(1).unwrap_err();
    assert!(matches!(error, SignalError::NotConnected));
    assert_eq!(error.message(), "NotConnected Error: Signal Not Connected to a Slot");
    assert!(error.source().is_none());
}

#[test]
fn default_signal_is_unconnected() {
    let sig: Signal<i32> = Signal::default();
    assert!(matches!(sig.emit(1), Err(SignalError::NotConnected)));
}

#[test]
fn dropped_slot_cannot_be_sent_to() {
    let mut sig = Signal::<i32>::new();
    slot().connect(&mut sig);
    let error = sig.emit(7).unwrap_err();
    assert!(matches!(error, SignalError::SendError(SendError(7))));
    assert_eq!(
        error.message(),
        "crossbeam_channel::SendError Error: sending on a disconnected channel"
    );
    assert_eq!(error.source(), Some(&SendError(7)));
}

#[test]
fn added_sender_is_sent_to() {
    let (sender, receiver) = unbounded();
    let mut sig = Signal::<i32>::new();
    sig.add_sender(sender);
    sig.emit(3).unwrap();
    sig.emit(4).unwrap();
    assert_eq!(receiver.try_recv(), Ok(3));
    assert_eq!(receiver.try_recv(), Ok(4));
    assert_eq!(receiver.try_recv(), Err(TryRecvError::Empty));
}

#[test]
fn every_channel_is_sent_to_though_some_fail() {
    let (first, received_first) = unbounded();
    let (last, received_last) = unbounded();
    let (gone, receiver) = unbounded();
    drop(receiver);
    let mut sig = Signal::<i32>::new();
    sig.add_sender(first);
    sig.add_sender(gone.clone());
    sig.add_sender(gone);
    sig.add_sender(last);
    assert!(matches!(sig.emit(9), Err(SignalError::SendError(SendError(9)))));
    assert_eq!(received_first.try_recv(), Ok(9));
    assert_eq!(received_last.try_recv(), Ok(9));
}

#[test]
fn channel_added_twice_is_sent_to_twice() {
    let (sender, receiver) = unbounded();
    let mut sig = Signal::<i32>::new();
    sig.add_sender(sender.clone());
    sig.add_sender(sender);
    sig.emit(2).unwrap();
    assert_eq!(receiver.try_recv(), Ok(2));
    assert_eq!(receiver.try_recv(), Ok(2));
    assert_eq!(receiver.try_recv(), Err(TryRecvError::Empty));
}

#[test]
fn round_takes_a_signal_to_each_channel_once() {
    let (first, received_first) = unbounded();
    let (last, received_last) = unbounded();
    let (gone, receiver) = unbounded();
    drop(receiver);
    let senders = vec![first, gone, last];
    let mut round = Round::of(&senders);
    assert_eq!(round.len(), 3);
    assert_eq!(send_to_all(&mut round, 8), vec![Ok(()), Err(SendError(8)), Ok(())]);
    assert_eq!(received_first.try_recv(), Ok(8));
    assert_eq!(received_first.try_recv(), Err(TryRecvError::Empty));
    assert_eq!(received_last.try_recv(), Ok(8));
    assert_eq!(received_last.try_recv(), Err(TryRecvError::Empty));
    assert_eq!(round.send(2, 9), Ok(()));
    assert_eq!(round.send(1, 7), Err(SendError(7)));
    assert_eq!(received_last.try_recv(), Ok(9));
}

#[test]
fn most_recent_error_is_reported() {
    let replies = vec![Ok(()), Err(SendError(1)), Err(SendError(2)), Ok(())];
    assert!(matches!(
        Signal::<i32>::outcome(&replies),
        Err(SignalError::SendError(SendError(2)))
    ));
    let replies = vec![Err(SendError(5)), Ok(())];
    assert!(matches!(
        Signal::<i32>::outcome(&replies),
        Err(SignalError::SendError(SendError(5)))
    ));
}

#[test]
fn emission_succeeds_when_every_send_does() {
    assert!(Signal::<i32>::outcome(&vec![Ok(())]).is_ok());
    assert!(Signal::<i32>::outcome(&vec![Ok(()), Ok(()), Ok(())]).is_ok());
    assert!(matches!(Signal::<i32>::outcome(&vec![]), Err(SignalError::NotConnected)));
}
