//! Tasks, their identifiers and the watchdog's configuration.
use vstd::prelude::*;
use crate::clock::{Clock, elapsed_ms, has_elapsed, is_reading};

verus! {

/// Identifies a task to the watchdog.
///
/// Any type with a lawful equality can identify tasks; an `enum` with one
/// variant per task is the usual choice.
pub trait Id: Copy + PartialEq + Eq + core::fmt::Debug {}

/// What the watchdog knows of a task: its identifier, when it was last fed
/// and the longest gap allowed between two feeds.
pub struct TaskView<I> {
    pub id: I,
    pub last_feed: u64,
    pub max_duration: u64,
}

impl<I> TaskView<I> {
    /// The task has starved at `now`: at least `max_duration` has passed
    /// since it was last fed.
    pub open spec fn starved_at(self, now: u64) -> bool {
        elapsed_ms(self.last_feed, now) >= self.max_duration
    }

    /// The same task, fed at `now`.
    pub open spec fn fed_at(self, now: u64) -> TaskView<I> {
        TaskView { id: self.id, last_feed: now, max_duration: self.max_duration }
    }
}

/// Configuration for the watchdog. Both values are in milliseconds.
#[derive(Debug, Clone, Copy)]
pub struct WatchdogConfig {
    /// Timeout to start the hardware watchdog with.
    pub hardware_timeout: u64,
    /// Interval at which to check whether tasks have fed the watchdog. It
    /// must be less than the hardware timeout, or the hardware watchdog
    /// resets the system before the task watchdog can check and feed it.
    pub check_interval: u64,
}

impl WatchdogConfig {
    /// A configuration with the given timeouts, in milliseconds.
    pub fn new(hardware_timeout_ms: u64, check_interval_ms: u64) -> (config: Self)
        ensures
            config.hardware_timeout == hardware_timeout_ms,
            config.check_interval == check_interval_ms,
    {
        Self { hardware_timeout: hardware_timeout_ms, check_interval: check_interval_ms }
    }

    /// The standard configuration: a hardware timeout of 5000 ms and a check
    /// interval of 1000 ms.
    pub fn default() -> (config: Self)
        ensures
            config.hardware_timeout == 5000,
            config.check_interval == 1000,
    {
        Self::new(5000, 1000)
    }
}

/// Errors that can occur when interacting with the watchdog.
#[derive(Debug, PartialEq, Eq, Structural)]
pub enum Error {
    /// No slots available to register a task.
    NoSlotsAvailable,
}

/// A task monitored by the watchdog.
#[derive(Debug, Clone, Copy)]
pub struct Task<I: Id> {
    id: I,
    last_feed: u64,
    max_duration: u64,
}

impl<I: Id> View for Task<I> {
    type V = TaskView<I>;

    closed spec fn view(&self) -> TaskView<I> {
        TaskView { id: self.id, last_feed: self.last_feed, max_duration: self.max_duration }
    }
}

impl<I: Id> Task<I> {
    /// Creates a task for registration with the watchdog, fed at the time
    /// that `clock` reports.
    pub fn new<C: Clock>(id: I, max_duration: u64, clock: &C) -> (task: Self)
        ensures
            exists|now: u64|
                is_reading(*clock, now) && task@ == (TaskView { id, last_feed: now, max_duration }),
    {
        let now: u64 = clock.now();
        assert(is_reading(*clock, now));
        Self::new_at(id, max_duration, now)
    }

    /// Creates a task fed at `now`.
    pub fn new_at(id: I, max_duration: u64, now: u64) -> (task: Self)
        ensures
            task@ == (TaskView { id, last_feed: now, max_duration }),
    {
        Task { id, last_feed: now, max_duration }
    }

    /// The task's identifier.
    pub fn id(&self) -> (id: I)
        ensures
            id == self@.id,
    {
        self.id
    }

    /// Feeds the task at `now`, to show that it is still active.
    pub fn feed_at(&mut self, now: u64)
        ensures
            final(self)@ == old(self)@.fed_at(now),
    {
        self.last_feed = now;
    }

    /// Whether the task has starved the watchdog at `now`.
    pub fn is_starved_at(&self, now: u64) -> (starved: bool)
        ensures
            starved == self@.starved_at(now),
    {
        has_elapsed(now, self.last_feed, self.max_duration)
    }
}

} // verus!
