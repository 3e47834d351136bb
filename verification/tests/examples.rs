use apex::{EventLoop, LoopStep, Signal, Slot};
use std::sync::atomic::{AtomicBool, AtomicI32, Ordering};
use std::sync::Arc;
use std::time::Duration;

/// Runs an event loop to its end.
fn run<F: FnMut(i32)>(mut event_loop: EventLoop<i32, F>) -> Result<(), String> {
    while event_loop.turn() != LoopStep::Stop {}
    Ok(())
}

#[test]
fn example1() {
    let mut slot = Slot::<i32, _>::new(Duration::from_millis(10), Duration::from_millis(10));
    let mut sig = Signal::<i32>::new();
    slot.connect(&mut sig);
    let callback = move |t: i32| {
        assert_eq!(t, 1);
    };
    slot.open(callback, |event_loop| event_loop).unwrap();
    sig.emit(1).unwrap();
    slot.close(run).unwrap();
}

#[test]
fn example2() {
    // a slot that polls continuously for 10 milliseconds in 10 millisecond intervals
    let mut slot = Slot::<i32, _>::new(Duration::from_millis(10), Duration::from_millis(10));
    let mut sig = Signal::<i32>::new();

    let add = false;
    let mut test_val = 1;
    slot.connect(&mut sig);
    let callback = move |t: i32| {
        if add {
            test_val += t;
        } else {
            test_val -= t;
        }
        assert_eq!(test_val, 0);
    };
    slot.open(callback, |event_loop| event_loop).unwrap();
    sig.emit(1).unwrap();
    slot.close(run).unwrap();
}

#[test]
fn example3() {
    // a slot that polls continuously for 10 milliseconds in 10 millisecond intervals
    let mut slot = Slot::<i32, ()>::new(Duration::from_millis(10), Duration::from_millis(10));
    let mut sig = Signal::<i32>::new();

    let multiply = Arc::new(AtomicBool::new(true));
    let multiply_cloned = multiply.clone();
    let num = Arc::new(AtomicI32::new(5));
    let num_cloned = num.clone();

    slot.connect(&mut sig);
    let callback = move |t: i32| {
        if multiply_cloned.load(Ordering::Relaxed) {
            let mut temp = num_cloned.load(Ordering::Relaxed);
            temp *= t;
            num_cloned.store(temp, Ordering::Release);
        } else {
            let mut temp = num_cloned.load(Ordering::Relaxed);
            temp /= t;
            num_cloned.store(temp, Ordering::Relaxed);
        }
    };
    let mut started = None;
    slot.open(callback, |event_loop| started = Some(event_loop)).unwrap();
    let mut event_loop = started.unwrap();

    sig.emit(5).unwrap();
    // one turn takes in what was emitted
    assert_ne!(event_loop.turn(), LoopStep::Stop);

    let multiplied = num.load(Ordering::Relaxed);
    assert_eq!(multiplied, 25);
    multiply.store(false, Ordering::Relaxed);

    sig.emit(25).unwrap();
    assert_ne!(event_loop.turn(), LoopStep::Stop);

    let divided = num.load(Ordering::Relaxed);
    assert_eq!(divided, 1);
    slot.close(|_| run(event_loop)).unwrap();
}
