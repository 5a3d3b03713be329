//! A watchdog that needs no heap: tasks live in a fixed number `N` of slots.
use vstd::prelude::*;
use vstd::laws_eq::obeys_concrete_eq;
use vstd::std_specs::cmp::PartialEqSpec;
use crate::clock::{Clock, is_reading};
use crate::hardware::{Hardware, HardwareCall, HardwareWatchdog, ResetReason};
use crate::task::{Error, Id, Task, TaskView, WatchdogConfig};

verus! {

/// The task held by `slot`, seen through its view.
pub open spec fn slot_view<I: Id>(slot: Option<Task<I>>) -> Option<TaskView<I>> {
    match slot {
        Some(task) => Some(task@),
        None => None,
    }
}

/// `slot` holds a task identified by `id`.
pub open spec fn holds<I>(slot: Option<TaskView<I>>, id: I) -> bool {
    slot matches Some(task) && task.id == id
}

/// Some slot is empty.
pub open spec fn has_free_slot<I>(slots: Seq<Option<TaskView<I>>>) -> bool {
    exists|i: int| 0 <= i < slots.len() && slots[i] is None
}

/// Slot `i` is the first empty slot.
pub open spec fn is_first_free<I>(slots: Seq<Option<TaskView<I>>>, i: int) -> bool {
    &&& 0 <= i < slots.len()
    &&& slots[i] is None
    &&& forall|j: int| 0 <= j < i ==> slots[j] is Some
}

/// A task identified by `id` is registered.
pub open spec fn is_registered<I>(slots: Seq<Option<TaskView<I>>>, id: I) -> bool {
    exists|i: int| 0 <= i < slots.len() && holds(slots[i], id)
}

/// `slot` holds a task that has starved at `now`.
pub open spec fn starved_slot<I>(slot: Option<TaskView<I>>, now: u64) -> bool {
    slot matches Some(task) && task.starved_at(now)
}

/// Some registered task has starved at `now`.
pub open spec fn any_starved<I>(slots: Seq<Option<TaskView<I>>>, now: u64) -> bool {
    exists|i: int| 0 <= i < slots.len() && starved_slot(#[trigger] slots[i], now)
}

/// Every registered task, fed at `now`.
pub open spec fn all_fed<I>(slots: Seq<Option<TaskView<I>>>, now: u64) -> Seq<Option<TaskView<I>>> {
    slots.map_values(
        |slot: Option<TaskView<I>>|
            match slot {
                Some(task) => Some(task.fed_at(now)),
                None => None,
            },
    )
}

/// Registering `id` with `max_duration` at `now` takes the slots from `old`
/// to `new` and answers `result`: the task goes into the first empty slot,
/// or the call fails when there is none.
pub open spec fn registration<I>(
    old: Seq<Option<TaskView<I>>>,
    new: Seq<Option<TaskView<I>>>,
    id: I,
    max_duration: u64,
    now: u64,
    result: Result<(), Error>,
) -> bool {
    match result {
        Ok(_) => exists|i: int|
            is_first_free(old, i) && new == old.update(
                i,
                Some(TaskView { id, last_feed: now, max_duration }),
            ),
        Err(e) => e == Error::NoSlotsAvailable && !has_free_slot(old) && new == old,
    }
}

/// The slots with every task identified by `id` removed.
pub open spec fn without<I>(slots: Seq<Option<TaskView<I>>>, id: I) -> Seq<Option<TaskView<I>>> {
    slots.map_values(
        |slot: Option<TaskView<I>>|
            if holds(slot, id) {
                None
            } else {
                slot
            },
    )
}

/// The slots with every task identified by `id` fed at `now`.
pub open spec fn fed_holders<I>(slots: Seq<Option<TaskView<I>>>, id: I, now: u64) -> Seq<
    Option<TaskView<I>>,
> {
    slots.map_values(
        |slot: Option<TaskView<I>>|
            if holds(slot, id) {
                Some(slot->0.fed_at(now))
            } else {
                slot
            },
    )
}

/// Deregistering `id` takes the slots from `old` to `new`: every slot that
/// holds `id` is emptied, so the task is no longer monitored; nothing changes
/// when `id` is not registered.
pub open spec fn deregistration<I>(
    old: Seq<Option<TaskView<I>>>,
    new: Seq<Option<TaskView<I>>>,
    id: I,
) -> bool {
    new == without(old, id)
}

/// Feeding `id` at `now` takes the slots from `old` to `new`: every slot that
/// holds `id` is fed; nothing changes when `id` is not registered.
pub open spec fn feeding<I>(
    old: Seq<Option<TaskView<I>>>,
    new: Seq<Option<TaskView<I>>>,
    id: I,
    now: u64,
) -> bool {
    new == fed_holders(old, id, now)
}

/// A watchdog that monitors up to `N` tasks and feeds the hardware watchdog
/// only while none of them has starved. It needs no heap: its `N` slots
/// live inside it.
pub struct Watchdog<I: Id, const N: usize, W: HardwareWatchdog, C: Clock> {
    /// The hardware watchdog, with the record of the calls made on it.
    hw: Hardware<W>,
    /// The task slots.
    tasks: [Option<Task<I>>; N],
    /// Configuration.
    config: WatchdogConfig,
    /// Clock for time-keeping.
    clock: C,
}

impl<I: Id, const N: usize, W: HardwareWatchdog, C: Clock> View for Watchdog<I, N, W, C> {
    type V = Seq<Option<TaskView<I>>>;

    closed spec fn view(&self) -> Seq<Option<TaskView<I>>> {
        self.tasks@.map_values(|slot: Option<Task<I>>| slot_view(slot))
    }
}

impl<I: Id, const N: usize, W: HardwareWatchdog, C: Clock> Watchdog<I, N, W, C> {
    /// The watchdog is well formed: it has exactly `N` slots.
    pub closed spec fn wf(&self) -> bool {
        self.tasks@.len() == N
    }

    /// A well-formed watchdog has exactly `N` slots.
    pub proof fn lemma_wf_has_n_slots(&self)
        requires
            self.wf(),
        ensures
            self@.len() == N,
    {
    }

    /// The configuration the watchdog was created with.
    pub closed spec fn configuration(&self) -> WatchdogConfig {
        self.config
    }

    /// The clock the watchdog reads.
    pub closed spec fn clock(&self) -> C {
        self.clock
    }

    /// The hardware watchdog that the watchdog drives.
    pub closed spec fn hardware(&self) -> W {
        self.hw.device()
    }

    /// The calls made on the hardware watchdog so far, oldest first.
    pub closed spec fn hardware_calls(&self) -> Seq<HardwareCall> {
        self.hw.calls()
    }

    /// Create a new watchdog with the given hardware watchdog, configuration
    /// and clock. All `N` slots start empty.
    pub fn new(hw_watchdog: W, config: WatchdogConfig, clock: C) -> (watchdog: Self)
        ensures
            watchdog@ == Seq::<Option<TaskView<I>>>::new(N as nat, |i: int| None),
            watchdog.configuration() == config,
            watchdog.clock() == clock,
            watchdog.hardware() == hw_watchdog,
            watchdog.hardware_calls() == Seq::<HardwareCall>::empty(),
            watchdog.wf(),
    {
        let tasks: [Option<Task<I>>; N] = [None; N];
        let watchdog = Self { hw: Hardware::new(hw_watchdog), tasks, config, clock };
        assert(watchdog@ =~= Seq::<Option<TaskView<I>>>::new(N as nat, |i: int| None));
        watchdog
    }

    /// Register a task with the watchdog, fed at the time the clock reports.
    /// The clock is read only when a slot is free.
    ///
    /// # Errors
    ///
    /// `Error::NoSlotsAvailable` when all `N` slots hold tasks.
    pub fn register_task(&mut self, id: &I, max_duration: u64) -> (result: Result<(), Error>)
        requires
            old(self).wf(),
        ensures
            final(self).wf(),
            result is Ok <==> has_free_slot(old(self)@),
            result is Ok ==> exists|now: u64|
                is_reading(old(self).clock(), now) && registration(
                    old(self)@,
                    final(self)@,
                    *id,
                    max_duration,
                    now,
                    result,
                ),
            result is Err ==> result == Err::<(), Error>(Error::NoSlotsAvailable) && final(self)@ == old(self)@,
            final(self).configuration() == old(self).configuration(),
            final(self).clock() == old(self).clock(),
            final(self).hardware_calls() == old(self).hardware_calls(),
    {
        if self.first_free_slot().is_some() {
            let now: u64 = self.clock.now();
        assert(is_reading(self.clock, now));
            self.register_task_at(id, max_duration, now)
        } else {
            Err(Error::NoSlotsAvailable)
        }
    }

    /// Register a task with the watchdog, fed at `now`.
    ///
    /// # Errors
    ///
    /// `Error::NoSlotsAvailable` when all `N` slots hold tasks.
    pub fn register_task_at(&mut self, id: &I, max_duration: u64, now: u64) -> (result: Result<(), Error>)
        requires
            old(self).wf(),
        ensures
            final(self).wf(),
            result is Ok <==> has_free_slot(old(self)@),
            registration(old(self)@, final(self)@, *id, max_duration, now, result),
            final(self).configuration() == old(self).configuration(),
            final(self).clock() == old(self).clock(),
            final(self).hardware_calls() == old(self).hardware_calls(),
    {
        match self.first_free_slot() {
            Some(i) => {
                self.fill_slot(i, id, max_duration, now);
                Ok(())
            },
            None => Err(Error::NoSlotsAvailable),
        }
    }

    /// The index of the first empty slot, if any.
    fn first_free_slot(&self) -> (slot: Option<usize>)
        requires
            self.wf(),
        ensures
            match slot {
                Some(i) => is_first_free(self@, i as int),
                None => !has_free_slot(self@),
            },
    {
        let mut i: usize = 0;
        while i < N
            invariant
                i <= N,
                forall|j: int| 0 <= j < i ==> #[trigger] self@[j] is Some,
            decreases N - i,
        {
            proof {
                assert(self@[i as int] == slot_view(self.tasks@[i as int]));
            }
            if self.tasks[i].is_none() {
                return Some(i);
            }
            i += 1;
        }
        None
    }

    /// Puts a task fed at `now` into the empty slot `i`.
    fn fill_slot(&mut self, i: usize, id: &I, max_duration: u64, now: u64)
        requires
            old(self).wf(),
            is_first_free(old(self)@, i as int),
        ensures
            final(self).wf(),
            registration(old(self)@, final(self)@, *id, max_duration, now, Ok(())),
            final(self).configuration() == old(self).configuration(),
            final(self).clock() == old(self).clock(),
            final(self).hardware_calls() == old(self).hardware_calls(),
    {
        let task = Task::new_at(*id, max_duration, now);
        self.tasks[i] = Some(task);
        assert(self@ =~= old(self)@.update(
            i as int,
            Some(TaskView { id: *id, last_feed: now, max_duration }),
        ));
    }

    /// Deregister a task from the watchdog; it is no longer monitored. Every
    /// slot that holds the identifier is emptied. Nothing changes when no
    /// task with this identifier is registered.
    pub fn deregister_task(&mut self, id: &I)
        requires
            old(self).wf(),
            obeys_concrete_eq::<I>(),
        ensures
            final(self).wf(),
            deregistration(old(self)@, final(self)@, *id),
            final(self).configuration() == old(self).configuration(),
            final(self).clock() == old(self).clock(),
            final(self).hardware_calls() == old(self).hardware_calls(),
    {
        proof {
            reveal(obeys_concrete_eq);
        }
        let mut i: usize = 0;
        while i < N
            invariant
                i <= N,
                self@.len() == old(self)@.len(),
                self.config == old(self).config,
                self.clock == old(self).clock,
                self.hw == old(self).hw,
                I::obeys_eq_spec(),
                forall|x: I, y: I| x.eq_spec(&y) <==> (x == y),
                forall|j: int| 0 <= j < i ==> #[trigger] self@[j] == without(old(self)@, *id)[j],
                forall|j: int| i <= j < self@.len() ==> #[trigger] self@[j] == old(self)@[j],
            decreases N - i,
        {
            let ghost prev = self@;
            assert(prev[i as int] == old(self)@[i as int]);
            assert(prev[i as int] == slot_view(self.tasks@[i as int]));
            if let Some(task) = self.tasks[i] {
                if task.id() == *id {
                    self.tasks[i] = None;
                    proof {
                        assert(self@ =~= prev.update(i as int, None));
                    }
                }
            }
            proof {
                assert(self@[i as int] == without(old(self)@, *id)[i as int]);
            }
            i += 1;
        }
        proof {
            assert(self@ =~= without(old(self)@, *id));
        }
    }

    /// Feed the watchdog on behalf of a task, at the time the clock reports.
    /// Nothing changes when no task with this identifier is registered.
    pub fn feed(&mut self, id: &I)
        requires
            old(self).wf(),
            obeys_concrete_eq::<I>(),
        ensures
            final(self).wf(),
            exists|now: u64| is_reading(old(self).clock(), now) && feeding(old(self)@, final(self)@, *id, now),
            final(self).configuration() == old(self).configuration(),
            final(self).clock() == old(self).clock(),
            final(self).hardware_calls() == old(self).hardware_calls(),
    {
        let now: u64 = self.clock.now();
        assert(is_reading(self.clock, now));
        self.feed_at(id, now);
    }

    /// Feed the watchdog on behalf of a task, at `now`. Nothing changes when
    /// no task with this identifier is registered.
    ///
    /// An identifier names one task, which deregistration removes entirely;
    /// so when it was registered more than once, every slot that holds it is
    /// fed. Feeding only the first such slot would leave the task reported as
    /// starved through its other slot although it was fed on time.
    pub fn feed_at(&mut self, id: &I, now: u64)
        requires
            old(self).wf(),
            obeys_concrete_eq::<I>(),
        ensures
            final(self).wf(),
            feeding(old(self)@, final(self)@, *id, now),
            final(self).configuration() == old(self).configuration(),
            final(self).clock() == old(self).clock(),
            final(self).hardware_calls() == old(self).hardware_calls(),
    {
        proof {
            reveal(obeys_concrete_eq);
        }
        let mut i: usize = 0;
        while i < N
            invariant
                i <= N,
                self@.len() == old(self)@.len(),
                self.config == old(self).config,
                self.clock == old(self).clock,
                self.hw == old(self).hw,
                I::obeys_eq_spec(),
                forall|x: I, y: I| x.eq_spec(&y) <==> (x == y),
                forall|j: int| 0 <= j < i ==> #[trigger] self@[j] == fed_holders(old(self)@, *id, now)[j],
                forall|j: int| i <= j < self@.len() ==> #[trigger] self@[j] == old(self)@[j],
            decreases N - i,
        {
            let ghost prev = self@;
            assert(prev[i as int] == old(self)@[i as int]);
            assert(prev[i as int] == slot_view(self.tasks@[i as int]));
            if let Some(task) = self.tasks[i] {
                if task.id() == *id {
                    let mut fed = task;
                    fed.feed_at(now);
                    self.tasks[i] = Some(fed);
                    proof {
                        assert(self@ =~= prev.update(i as int, Some(fed@)));
                    }
                }
            }
            proof {
                assert(self@[i as int] == fed_holders(old(self)@, *id, now)[i as int]);
            }
            i += 1;
        }
        proof {
            assert(self@ =~= fed_holders(old(self)@, *id, now));
        }
    }

    /// Start the watchdog: feed every registered task at the time the clock
    /// reports, then start the hardware watchdog with the configured
    /// hardware timeout. The watchdog must then be checked regularly.
    pub fn start(&mut self)
        requires
            old(self).wf(),
        ensures
            final(self).wf(),
            exists|now: u64| is_reading(old(self).clock(), now) && final(self)@ == all_fed(old(self)@, now),
            final(self).configuration() == old(self).configuration(),
            final(self).clock() == old(self).clock(),
            final(self).hardware_calls() == old(self).hardware_calls().push(
                HardwareCall::Start(old(self).configuration().hardware_timeout),
            ),
    {
        let now: u64 = self.clock.now();
        assert(is_reading(self.clock, now));
        self.start_at(now);
    }

    /// Start the watchdog: feed every registered task at `now`, then start
    /// the hardware watchdog with the configured hardware timeout.
    pub fn start_at(&mut self, now: u64)
        requires
            old(self).wf(),
        ensures
            final(self).wf(),
            final(self)@ == all_fed(old(self)@, now),
            final(self).configuration() == old(self).configuration(),
            final(self).clock() == old(self).clock(),
            final(self).hardware_calls() == old(self).hardware_calls().push(
                HardwareCall::Start(old(self).configuration().hardware_timeout),
            ),
    {
        let mut i: usize = 0;
        while i < N
            invariant
                i <= N,
                self@.len() == old(self)@.len(),
                self.config == old(self).config,
                self.clock == old(self).clock,
                self.hw == old(self).hw,
                forall|j: int| 0 <= j < i ==> #[trigger] self@[j] == all_fed(old(self)@, now)[j],
                forall|j: int| i <= j < self@.len() ==> #[trigger] self@[j] == old(self)@[j],
            decreases N - i,
        {
            let ghost prev = self@;
            assert(prev[i as int] == old(self)@[i as int]);
            assert(prev[i as int] == slot_view(self.tasks@[i as int]));
            if let Some(task) = self.tasks[i] {
                let mut fed = task;
                fed.feed_at(now);
                self.tasks[i] = Some(fed);
                proof {
                    assert(self@ =~= prev.update(i as int, Some(fed@)));
                }
            }
            proof {
                assert(self@[i as int] == all_fed(old(self)@, now)[i as int]);
            }
            i += 1;
        }
        proof {
            assert(self@ =~= all_fed(old(self)@, now));
        }
        self.hw.start(self.config.hardware_timeout);
    }

    /// Check whether any task has starved, at the time the clock reports.
    /// When none has, the hardware watchdog is fed; when one has, it is not,
    /// so that it resets the system. Returns whether a task has starved.
    pub fn check(&mut self) -> (starved: bool)
        requires
            old(self).wf(),
        ensures
            final(self).wf(),
            exists|now: u64| is_reading(old(self).clock(), now) && starved == any_starved(old(self)@, now),
            final(self)@ == old(self)@,
            final(self).configuration() == old(self).configuration(),
            final(self).clock() == old(self).clock(),
            final(self).hardware_calls() == (if starved {
                old(self).hardware_calls()
            } else {
                old(self).hardware_calls().push(HardwareCall::Feed)
            }),
    {
        let now: u64 = self.clock.now();
        assert(is_reading(self.clock, now));
        self.check_at(now)
    }

    /// Check whether any task has starved at `now`. When none has, the
    /// hardware watchdog is fed. Returns whether a task has starved.
    pub fn check_at(&mut self, now: u64) -> (starved: bool)
        requires
            old(self).wf(),
        ensures
            final(self).wf(),
            starved == any_starved(old(self)@, now),
            final(self)@ == old(self)@,
            final(self).configuration() == old(self).configuration(),
            final(self).clock() == old(self).clock(),
            final(self).hardware_calls() == (if starved {
                old(self).hardware_calls()
            } else {
                old(self).hardware_calls().push(HardwareCall::Feed)
            }),
    {
        let starved: bool = self.starved_at(now);
        if !starved {
            self.hw.feed();
        }
        starved
    }

    /// Whether any registered task has starved at `now`. Every slot is
    /// examined.
    pub fn starved_at(&self, now: u64) -> (starved: bool)
        requires
            self.wf(),
        ensures
            starved == any_starved(self@, now),
    {
        let mut starved: bool = false;
        let mut i: usize = 0;
        while i < N
            invariant
                i <= N,
                starved == exists|j: int| 0 <= j < i && starved_slot(#[trigger] self@[j], now),
            decreases N - i,
        {
            if let Some(task) = self.tasks[i] {
                if task.is_starved_at(now) {
                    starved = true;
                }
            }
            proof {
                assert(self@[i as int] == slot_view(self.tasks@[i as int]));
            }
            i += 1;
        }
        starved
    }

    /// Trigger a system reset through the hardware watchdog.
    pub fn trigger_reset(&mut self)
        requires
            old(self).wf(),
        ensures
            final(self).wf(),
            final(self)@ == old(self)@,
            final(self).configuration() == old(self).configuration(),
            final(self).clock() == old(self).clock(),
            final(self).hardware_calls() == old(self).hardware_calls().push(HardwareCall::TriggerReset),
    {
        self.hw.trigger_reset();
    }

    /// The reason for the last reset, as the hardware watchdog reports it.
    pub fn reset_reason(&self) -> (reason: Option<ResetReason>)
        ensures
            reason == self.hardware().reported_reason(),
    {
        self.hw.reset_reason()
    }

    /// The configured interval between checks, in milliseconds.
    pub fn check_interval(&self) -> (interval: u64)
        ensures
            interval == self.configuration().check_interval,
    {
        self.config.check_interval
    }
} // impl

} // verus!
