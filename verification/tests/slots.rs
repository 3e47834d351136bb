use apex::event_loop::{pace, told_to_stop};
use apex::handler::Handler;
use apex::inbox::Polled;
use apex::{EventLoop, LoopStep, Signal, SignalError, Slot, SlotError};
use crossbeam_channel::TryRecvError;
use std::cell::RefCell;
use std::rc::Rc;
use std::time::Duration;

const LONG: Duration = Duration::from_secs(3600);
const SHORT: Duration = Duration::from_millis(10);

/// A callback that notes down what it is called with, and the notes.
fn notes() -> (Rc<RefCell<Vec<i32>>>, impl FnMut(i32)) {
    let notes = Rc::new(RefCell::new(Vec::new()));
    let kept = notes.clone();
    (notes, move |t: i32| kept.borrow_mut().push(t))
}

/// Opens a slot and hands out its event loop.
fn started<F: FnMut(i32)>(slot: &mut Slot<i32, ()>, callback: F) -> EventLoop<i32, F> {
    let mut event_loop = None;
    slot.open(callback, |started| event_loop = Some(started)).unwrap();
    event_loop.unwrap()
}

#[test]
fn signals_come_in_one_per_turn_and_in_order() {
    let mut slot = Slot::new(LONG, SHORT);
    let mut sig = Signal::new();
    slot.connect(&mut sig);
    let (seen, callback) = notes();
    let mut event_loop = started(&mut slot, callback);
    assert_eq!(event_loop.turn(), LoopStep::Poll);
    assert_eq!(*seen.borrow(), []);
    sig.emit(1).unwrap();
    sig.emit(2).unwrap();
    sig.emit(3).unwrap();
    assert_eq!(event_loop.turn(), LoopStep::Poll);
    assert_eq!(*seen.borrow(), [1]);
    assert_eq!(event_loop.turn(), LoopStep::Poll);
    assert_eq!(event_loop.turn(), LoopStep::Poll);
    assert_eq!(event_loop.turn(), LoopStep::Poll);
    assert_eq!(*seen.borrow(), [1, 2, 3]);
}

#[test]
fn signals_emitted_before_opening_are_received() {
    let mut slot = Slot::new(LONG, SHORT);
    let mut sig = Signal::new();
    slot.connect(&mut sig);
    sig.emit(8).unwrap();
    let (seen, callback) = notes();
    let mut event_loop = started(&mut slot, callback);
    event_loop.turn();
    assert_eq!(*seen.borrow(), [8]);
}

#[test]
fn every_connected_slot_receives() {
    let mut first = Slot::new(LONG, SHORT);
    let mut second = Slot::new(LONG, SHORT);
    let gone = Slot::<i32, ()>::new(LONG, SHORT);
    let mut sig = Signal::new();
    first.connect(&mut sig);
    gone.connect(&mut sig);
    second.connect(&mut sig);
    drop(gone);
    let (seen_first, callback_first) = notes();
    let (seen_second, callback_second) = notes();
    let mut loop_first = started(&mut first, callback_first);
    let mut loop_second = started(&mut second, callback_second);
    assert!(matches!(sig.emit(6), Err(SignalError::SendError(_))));
    loop_first.turn();
    loop_second.turn();
    assert_eq!(*seen_first.borrow(), [6]);
    assert_eq!(*seen_second.borrow(), [6]);
}

#[test]
fn slot_receives_from_every_connected_signal() {
    let mut slot = Slot::new(LONG, SHORT);
    let mut first = Signal::new();
    let mut second = Signal::new();
    slot.connect(&mut first);
    slot.connect(&mut second);
    let (seen, callback) = notes();
    let mut event_loop = started(&mut slot, callback);
    first.emit(1).unwrap();
    second.emit(2).unwrap();
    event_loop.turn();
    event_loop.turn();
    assert_eq!(*seen.borrow(), [1, 2]);
}

#[test]
fn open_slot_is_not_opened_again() {
    let mut slot = Slot::new(LONG, SHORT);
    let mut sig = Signal::new();
    slot.connect(&mut sig);
    let (seen, callback) = notes();
    let mut event_loop = started(&mut slot, callback);
    let (other, callback) = notes();
    let mut spawned = false;
    let error = slot.open(callback, |_| spawned = true).unwrap_err();
    assert!(matches!(error, SlotError::AlreadyOpen));
    assert_eq!(error.message(""), "AlreadyOpen Error: Slot Already Open");
    assert!(error.source().is_none());
    assert!(!spawned);
    // the event loop that was started first goes on
    sig.emit(4).unwrap();
    assert_eq!(event_loop.turn(), LoopStep::Poll);
    assert_eq!(*seen.borrow(), [4]);
    assert_eq!(*other.borrow(), []);
}

#[test]
fn unopened_slot_is_not_closed() {
    let slot = Slot::<i32, ()>::new(SHORT, SHORT);
    let mut joined = false;
    let error = slot
        .close(|_| {
            joined = true;
            Ok::<(), String>(())
        })
        .unwrap_err();
    assert!(matches!(error, SlotError::NotOpened));
    assert_eq!(error.message(""), "NotOpened Error: Slot Not Opened");
    assert!(error.source().is_none());
    assert!(!joined);
}

#[test]
fn failed_loop_is_reported_on_closing() {
    let mut slot = Slot::<i32, u8>::new(SHORT, SHORT);
    slot.open(|_| (), |_| 42).unwrap();
    let error = slot.close(|handle| Err::<(), u8>(handle + 1)).unwrap_err();
    assert!(matches!(error, SlotError::ThreadJoin(43)));
    assert_eq!(
        error.message("Any { .. }"),
        "ThreadJoin Error: Slot failed to join signal handling thread: Any { .. }"
    );
    assert!(error.source().is_none());
}

#[test]
fn message_of_already_closed() {
    let error: SlotError = SlotError::AlreadyClosed;
    assert_eq!(error.message(""), "AlreadyClosed Error: Slot Already Closed");
    assert!(error.source().is_none());
}

#[test]
fn closing_stops_the_loop_before_it_is_joined() {
    let mut slot = Slot::new(LONG, SHORT);
    let mut sig = Signal::new();
    slot.connect(&mut sig);
    let (seen, callback) = notes();
    let mut event_loop = started(&mut slot, callback);
    assert_eq!(event_loop.turn(), LoopStep::Poll);
    sig.emit(5).unwrap();
    let result = slot.close(|_| {
        // the turn that hears the word to stop still takes in a signal
        assert_eq!(event_loop.turn(), LoopStep::Stop);
        Ok::<(), String>(())
    });
    assert!(result.is_ok());
    assert_eq!(*seen.borrow(), [5]);
}

#[test]
fn closing_does_not_drain_the_channel() {
    let mut slot = Slot::new(LONG, SHORT);
    let mut sig = Signal::new();
    slot.connect(&mut sig);
    let (seen, callback) = notes();
    let mut event_loop = started(&mut slot, callback);
    sig.emit(1).unwrap();
    sig.emit(2).unwrap();
    sig.emit(3).unwrap();
    let result = slot.close(|_| {
        while event_loop.turn() != LoopStep::Stop {}
        Ok::<(), String>(())
    });
    assert!(result.is_ok());
    assert_eq!(*seen.borrow(), [1]);
}

#[test]
fn opened_slot_is_not_told_to_stop() {
    let mut slot = Slot::new(LONG, SHORT);
    let (_, callback) = notes();
    let mut event_loop = started(&mut slot, callback);
    for _ in 0..100 {
        assert_eq!(event_loop.turn(), LoopStep::Poll);
    }
}

#[test]
fn slot_can_be_sent_to_after_its_loop_is_gone() {
    let mut slot = Slot::new(LONG, SHORT);
    let mut sig = Signal::new();
    slot.connect(&mut sig);
    let (_, callback) = notes();
    drop(started(&mut slot, callback));
    sig.emit(1).unwrap();
}

#[test]
fn slots_have_channels_of_their_own() {
    let mut first = Slot::new(LONG, SHORT);
    let mut second = Slot::new(LONG, SHORT);
    let mut sig = Signal::new();
    first.connect(&mut sig);
    let (seen_first, callback_first) = notes();
    let (seen_second, callback_second) = notes();
    let mut loop_first = started(&mut first, callback_first);
    let mut loop_second = started(&mut second, callback_second);
    sig.emit(1).unwrap();
    sig.emit(2).unwrap();
    for _ in 0..3 {
        loop_first.turn();
        loop_second.turn();
    }
    assert_eq!(*seen_first.borrow(), [1, 2]);
    assert_eq!(*seen_second.borrow(), []);
}

#[test]
fn slot_that_is_gone_stays_gone() {
    let mut sig = Signal::new();
    Slot::<i32, ()>::new(LONG, SHORT).connect(&mut sig);
    for value in 0..3 {
        assert!(matches!(sig.emit(value), Err(SignalError::SendError(e)) if e.0 == value));
    }
}

#[test]
fn only_a_signal_calls_the_callback() {
    let (seen, callback) = notes();
    let mut handler = Handler::new(callback);
    handler.take(Polled::Poisoned);
    handler.take(Polled::Locked(Err(TryRecvError::Empty)));
    handler.take(Polled::Locked(Err(TryRecvError::Disconnected)));
    assert_eq!(*seen.borrow(), []);
    handler.take(Polled::Locked(Ok(4)));
    handler.take(Polled::Locked(Ok(4)));
    assert_eq!(*seen.borrow(), [4, 4]);
}

#[test]
fn closed_slot_is_no_longer_sent_to() {
    let mut slot = Slot::<i32, _>::new(LONG, SHORT);
    let mut sig = Signal::new();
    slot.connect(&mut sig);
    slot.open(|_| (), |event_loop| event_loop).unwrap();
    slot.close(|event_loop| {
        drop(event_loop);
        Ok::<(), String>(())
    })
    .unwrap();
    assert!(matches!(sig.emit(1), Err(SignalError::SendError(_))));
}

#[test]
fn dropping_the_slot_stops_the_loop() {
    let mut slot = Slot::new(LONG, SHORT);
    let (_, callback) = notes();
    let mut event_loop = started(&mut slot, callback);
    assert_eq!(event_loop.turn(), LoopStep::Poll);
    drop(slot);
    assert_eq!(event_loop.turn(), LoopStep::Stop);
}

#[test]
fn loop_sleeps_for_the_update_interval_once_polling_is_over() {
    let mut slot = Slot::new(Duration::from_nanos(0), SHORT);
    let (_, callback) = notes();
    let mut event_loop = started(&mut slot, callback);
    let mut step = event_loop.turn();
    while step == LoopStep::Poll {
        step = event_loop.turn();
    }
    assert_eq!(step, LoopStep::Sleep(SHORT));
}

#[test]
fn polling_starts_anew_after_a_sleep() {
    let mut slot = Slot::new(Duration::from_millis(200), SHORT);
    let (_, callback) = notes();
    let mut event_loop = started(&mut slot, callback);
    for _ in 0..2 {
        let mut step = event_loop.turn();
        assert_eq!(step, LoopStep::Poll);
        while step == LoopStep::Poll {
            step = event_loop.turn();
        }
        assert_eq!(step, LoopStep::Sleep(SHORT));
    }
}

#[test]
fn pace_sleeps_only_past_the_poll_time() {
    let nano = Duration::from_nanos(1);
    assert_eq!(pace(SHORT, SHORT, LONG), LoopStep::Poll);
    assert_eq!(pace(SHORT - nano, SHORT, LONG), LoopStep::Poll);
    assert_eq!(pace(SHORT + nano, SHORT, LONG), LoopStep::Sleep(LONG));
    assert_eq!(pace(Duration::from_secs(1), Duration::from_nanos(999_999_999), SHORT), LoopStep::Sleep(SHORT));
    assert_eq!(pace(Duration::MAX, Duration::MAX, SHORT), LoopStep::Poll);
}

#[test]
fn only_the_word_to_stop_stops() {
    assert!(told_to_stop(&Ok(true)));
    assert!(!told_to_stop(&Ok(false)));
    assert!(!told_to_stop(&Err(TryRecvError::Empty)));
    assert!(!told_to_stop(&Err(TryRecvError::Disconnected)));
}
