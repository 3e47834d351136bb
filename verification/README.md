# apex

Signals and slots over `crossbeam` channels, with the logic verified by Verus.

- `src/` is the verified library. `Signal` emits values into the channels of the slots that it is
  connected to; `Slot` owns such a channel and is opened and closed; `EventLoop` takes the values of
  an open slot in, one turn at a time. `channel.rs`, `inbox.rs` and `clock.rs` hold what is assumed of
  `crossbeam_channel`, `crossbeam_utils` and `std::time`; `laws.rs` holds what is proved of signals,
  slots and loops together.
- `app/` puts the library on threads: it spawns a thread for the event loop of a slot that is opened,
  sleeps when the loop says so, joins the thread when the slot is closed, and gives the errors the
  traits of `std`.
- `tests/` runs event loops turn by turn, on the thread of the test.
