//! # task-watchdog
//!
//! A watchdog manager for embedded systems that multiplexes the watchdogs of
//! many tasks onto a single hardware watchdog. Each registered task must feed
//! the task watchdog within its own maximum duration; the hardware watchdog
//! is fed only while every registered task is healthy, so a task that stops
//! responding leads to a system reset.
//!
//! Tasks can be registered and deregistered while the system runs.
//!
//! - [`fixed::Watchdog`] (also exported as [`Watchdog`]) keeps its tasks in a
//!   fixed number of slots and needs no heap after creation.
//! - [`dynamic::Watchdog`] keeps its tasks in a map ordered by identifier and
//!   takes any number of them.
//!
//! Time is measured in milliseconds throughout. A [`Clock`] supplies the
//! current time and a [`HardwareWatchdog`] stands for the hardware timer.
//! The operations that read the clock have counterparts ending in `_at` that
//! take the current time as an argument.

pub mod clock;
pub mod dynamic;
pub mod fixed;
pub mod hardware;
pub mod laws;
pub mod task;

pub use clock::{Clock, EmbassyClock};
pub use fixed::Watchdog;
pub use hardware::{HardwareWatchdog, ResetReason};
pub use task::{Error, Id, Task, TaskView, WatchdogConfig};
