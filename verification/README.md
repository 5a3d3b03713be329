# task_watchdog

A watchdog manager for embedded systems, verified with Verus. Many tasks
each promise to check in within their own maximum duration; the hardware
watchdog is fed only while all of them have, so a task that hangs leads to a
system reset.

Layout:

- `src/task.rs`: task identifiers (`Id`), tasks and their model
  (`TaskView`), the configuration and the error type.
- `src/clock.rs`: the `Clock` trait, elapsed-time arithmetic in
  milliseconds, the check schedule and a clock backed by `embassy-time`.
- `src/hardware.rs`: the `HardwareWatchdog` trait, `Hardware` (a hardware
  watchdog with the record of the calls made on it, the only way the task
  watchdogs reach it), reset reasons, and timeout conversion.
- `src/fixed.rs`: the watchdog with a fixed number of task slots, held in
  an array inside it.
- `src/dynamic.rs`: the watchdog that keeps its tasks in a `BTreeMap`.
- `src/laws.rs`: proved properties that relate the operations.
- `app/`: bindings to the RP2040 HAL and to Embassy on the RP2040 (async
  runners), which talk to peripherals and are not verified. There are no
  bindings for the STM32, the ESP32 or the RP2350: their HAL crates are not
  part of this build.
- `tests/`: executable tests of the library.
