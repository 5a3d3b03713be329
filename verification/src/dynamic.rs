//! A watchdog that keeps its tasks on the heap, in a map ordered by task
//! identifier, so that any number of tasks can be registered.
use vstd::prelude::*;
use vstd::laws_cmp::obeys_cmp;
use std::collections::BTreeMap;
use vstd::std_specs::iter::IteratorSpec;
use crate::clock::{Clock, is_reading};
use crate::hardware::{Hardware, HardwareCall, HardwareWatchdog, ResetReason};
use crate::task::{Id, Task, TaskView, WatchdogConfig};

verus! {

broadcast use vstd::std_specs::btree::group_btree_axioms;

/// Some registered task has starved at `now`.
pub open spec fn any_starved<I>(tasks: Map<I, TaskView<I>>, now: u64) -> bool {
    exists|id: I| #[trigger] tasks.contains_key(id) && tasks[id].starved_at(now)
}

/// Every registered task, fed at `now`.
pub open spec fn all_fed<I>(tasks: Map<I, TaskView<I>>, now: u64) -> Map<I, TaskView<I>> {
    tasks.map_values(|task: TaskView<I>| task.fed_at(now))
}

/// Every task is filed under its own identifier.
pub open spec fn filed_by_id<I>(tasks: Map<I, TaskView<I>>) -> bool {
    forall|id: I| #[trigger] tasks.contains_key(id) ==> tasks[id].id == id
}

/// Feeding `id` at `now` takes the tasks from `old` to `new`: the task is
/// fed; nothing changes when `id` is not registered.
pub open spec fn feeding<I>(
    old: Map<I, TaskView<I>>,
    new: Map<I, TaskView<I>>,
    id: I,
    now: u64,
) -> bool {
    if old.contains_key(id) {
        new == old.insert(id, old[id].fed_at(now))
    } else {
        new == old
    }
}

/// A watchdog that monitors any number of tasks and feeds the hardware
/// watchdog only while none of them has starved.
pub struct Watchdog<I: Id + Ord, W: HardwareWatchdog, C: Clock> {
    /// The hardware watchdog, with the record of the calls made on it.
    hw: Hardware<W>,
    /// Tasks being monitored, by identifier.
    tasks: BTreeMap<I, Task<I>>,
    /// Configuration.
    config: WatchdogConfig,
    /// Clock for time-keeping.
    clock: C,
}

impl<I: Id + Ord, W: HardwareWatchdog, C: Clock> View for Watchdog<I, W, C> {
    type V = Map<I, TaskView<I>>;

    closed spec fn view(&self) -> Map<I, TaskView<I>> {
        self.tasks@.map_values(|task: Task<I>| task@)
    }
}

impl<I: Id + Ord, W: HardwareWatchdog, C: Clock> Watchdog<I, W, C> {
    /// The watchdog is well formed: every task is filed under its own
    /// identifier.
    pub closed spec fn wf(&self) -> bool {
        forall|id: I| #[trigger] self.tasks@.contains_key(id) ==> self.tasks@[id]@.id == id
    }

    /// In a well-formed watchdog every task is filed under its own
    /// identifier.
    pub proof fn lemma_wf_filed_by_id(&self)
        requires
            self.wf(),
        ensures
            filed_by_id(self@),
    {
        assert forall|id: I| #[trigger] self@.contains_key(id) implies self@[id].id == id by {
            assert(self.tasks@.contains_key(id));
        }
    }

    /// The configuration the watchdog was created with.
    pub closed spec fn configuration(&self) -> WatchdogConfig {
        self.config
    }

    /// The clock the watchdog reads.
    pub closed spec fn clock(&self) -> C {
        self.clock
    }

    /// The hardware watchdog that the watchdog drives.
    pub closed spec fn hardware(&self) -> W {
        self.hw.device()
    }

    /// The calls made on the hardware watchdog so far, oldest first.
    pub closed spec fn hardware_calls(&self) -> Seq<HardwareCall> {
        self.hw.calls()
    }

    /// Create a new watchdog with the given hardware watchdog, configuration
    /// and clock, monitoring no task.
    pub fn new(hw_watchdog: W, config: WatchdogConfig, clock: C) -> (watchdog: Self)
        ensures
            watchdog@ == Map::<I, TaskView<I>>::empty(),
            watchdog.configuration() == config,
            watchdog.clock() == clock,
            watchdog.hardware() == hw_watchdog,
            watchdog.hardware_calls() == Seq::<HardwareCall>::empty(),
            watchdog.wf(),
    {
        let watchdog = Self { hw: Hardware::new(hw_watchdog), tasks: BTreeMap::new(), config, clock };
        assert(watchdog@ =~= Map::<I, TaskView<I>>::empty());
        watchdog
    }

    /// Register a task with the watchdog, fed at the time the clock reports.
    /// A task already registered under this identifier is replaced.
    pub fn register_task(&mut self, id: &I, max_duration: u64)
        requires
            old(self).wf(),
            obeys_cmp::<I>(),
        ensures
            final(self).wf(),
            exists|now: u64|
                is_reading(old(self).clock(), now) &&
                final(self)@ == old(self)@.insert(*id, TaskView { id: *id, last_feed: now, max_duration }),
            final(self).configuration() == old(self).configuration(),
            final(self).clock() == old(self).clock(),
            final(self).hardware_calls() == old(self).hardware_calls(),
    {
        let now: u64 = self.clock.now();
        assert(is_reading(self.clock, now));
        self.register_task_at(id, max_duration, now);
    }

    /// Register a task with the watchdog, fed at `now`. A task already
    /// registered under this identifier is replaced.
    pub fn register_task_at(&mut self, id: &I, max_duration: u64, now: u64)
        requires
            old(self).wf(),
            obeys_cmp::<I>(),
        ensures
            final(self).wf(),
            final(self)@ == old(self)@.insert(*id, TaskView { id: *id, last_feed: now, max_duration }),
            final(self).configuration() == old(self).configuration(),
            final(self).clock() == old(self).clock(),
            final(self).hardware_calls() == old(self).hardware_calls(),
    {
        let task = Task::new_at(*id, max_duration, now);
        self.tasks.insert(*id, task);
        assert(self@ =~= old(self)@.insert(*id, TaskView { id: *id, last_feed: now, max_duration }));
    }

    /// Deregister a task from the watchdog; it is no longer monitored.
    /// Nothing changes when no task with this identifier is registered.
    pub fn deregister_task(&mut self, id: &I)
        requires
            old(self).wf(),
            obeys_cmp::<I>(),
        ensures
            final(self).wf(),
            final(self)@ == old(self)@.remove(*id),
            final(self).configuration() == old(self).configuration(),
            final(self).clock() == old(self).clock(),
            final(self).hardware_calls() == old(self).hardware_calls(),
    {
        let _ = self.tasks.remove(id);
        assert(self@ =~= old(self)@.remove(*id));
    }

    /// Feed the watchdog on behalf of a task, at the time the clock reports.
    /// Nothing changes when no task with this identifier is registered.
    pub fn feed(&mut self, id: &I)
        requires
            old(self).wf(),
            obeys_cmp::<I>(),
        ensures
            final(self).wf(),
            exists|now: u64| is_reading(old(self).clock(), now) && feeding(old(self)@, final(self)@, *id, now),
            final(self).configuration() == old(self).configuration(),
            final(self).clock() == old(self).clock(),
            final(self).hardware_calls() == old(self).hardware_calls(),
    {
        let now: u64 = self.clock.now();
        assert(is_reading(self.clock, now));
        self.feed_at(id, now);
    }

    /// Feed the watchdog on behalf of a task, at `now`. Nothing changes when
    /// no task with this identifier is registered.
    pub fn feed_at(&mut self, id: &I, now: u64)
        requires
            old(self).wf(),
            obeys_cmp::<I>(),
        ensures
            final(self).wf(),
            feeding(old(self)@, final(self)@, *id, now),
            final(self).configuration() == old(self).configuration(),
            final(self).clock() == old(self).clock(),
            final(self).hardware_calls() == old(self).hardware_calls(),
    {
        let found = match self.tasks.get(id) {
            Some(task) => Some(*task),
            None => None,
        };
        if let Some(task) = found {
            let mut fed = task;
            fed.feed_at(now);
            self.tasks.insert(*id, fed);
            assert(self@ =~= old(self)@.insert(*id, old(self)@[*id].fed_at(now)));
        }
    }

    /// Start the watchdog: feed every registered task at the time the clock
    /// reports, then start the hardware watchdog with the configured
    /// hardware timeout. The watchdog must then be checked regularly.
    pub fn start(&mut self)
        requires
            old(self).wf(),
            obeys_cmp::<I>(),
        ensures
            final(self).wf(),
            exists|now: u64| is_reading(old(self).clock(), now) && final(self)@ == all_fed(old(self)@, now),
            final(self).configuration() == old(self).configuration(),
            final(self).clock() == old(self).clock(),
            final(self).hardware_calls() == old(self).hardware_calls().push(
                HardwareCall::Start(old(self).configuration().hardware_timeout),
            ),
    {
        let now: u64 = self.clock.now();
        assert(is_reading(self.clock, now));
        self.start_at(now);
    }

    /// Start the watchdog: feed every registered task at `now`, then start
    /// the hardware watchdog with the configured hardware timeout.
    pub fn start_at(&mut self, now: u64)
        requires
            old(self).wf(),
            obeys_cmp::<I>(),
        ensures
            final(self).wf(),
            final(self)@ == all_fed(old(self)@, now),
            final(self).configuration() == old(self).configuration(),
            final(self).clock() == old(self).clock(),
            final(self).hardware_calls() == old(self).hardware_calls().push(
                HardwareCall::Start(old(self).configuration().hardware_timeout),
            ),
    {
        let mut fed_tasks: BTreeMap<I, Task<I>> = BTreeMap::new();
        let ghost old_tasks = self.tasks@;
        for entry in it: self.tasks.iter()
            invariant
                obeys_cmp::<I>(),
                self.tasks@ == old_tasks,
                forall|id: I| #[trigger] old_tasks.contains_key(id) ==> old_tasks[id]@.id == id,
                forall|id: I|
                    #[trigger] fed_tasks@.contains_key(id) <==> exists|j: int|
                        0 <= j < it.index() && *it.seq()[j].0 == id,
                forall|id: I|
                    #[trigger] fed_tasks@.contains_key(id) ==> old_tasks.contains_key(id)
                        && fed_tasks@[id]@ == old_tasks[id]@.fed_at(now),
        {
            let (id, task) = entry;
            let mut fed = *task;
            fed.feed_at(now);
            fed_tasks.insert(*id, fed);
        }
        self.tasks = fed_tasks;
        assert(self@ =~= all_fed(old(self)@, now));
        self.hw.start(self.config.hardware_timeout);
    }

    /// Check whether any task has starved, at the time the clock reports.
    /// When none has, the hardware watchdog is fed; when one has, it is not,
    /// so that it resets the system. Returns whether a task has starved.
    pub fn check(&mut self) -> (starved: bool)
        requires
            old(self).wf(),
            obeys_cmp::<I>(),
        ensures
            final(self).wf(),
            exists|now: u64| is_reading(old(self).clock(), now) && starved == any_starved(old(self)@, now),
            final(self)@ == old(self)@,
            final(self).configuration() == old(self).configuration(),
            final(self).clock() == old(self).clock(),
            final(self).hardware_calls() == (if starved {
                old(self).hardware_calls()
            } else {
                old(self).hardware_calls().push(HardwareCall::Feed)
            }),
    {
        let now: u64 = self.clock.now();
        assert(is_reading(self.clock, now));
        self.check_at(now)
    }

    /// Check whether any task has starved at `now`. When none has, the
    /// hardware watchdog is fed. Returns whether a task has starved.
    pub fn check_at(&mut self, now: u64) -> (starved: bool)
        requires
            old(self).wf(),
            obeys_cmp::<I>(),
        ensures
            final(self).wf(),
            starved == any_starved(old(self)@, now),
            final(self)@ == old(self)@,
            final(self).configuration() == old(self).configuration(),
            final(self).clock() == old(self).clock(),
            final(self).hardware_calls() == (if starved {
                old(self).hardware_calls()
            } else {
                old(self).hardware_calls().push(HardwareCall::Feed)
            }),
    {
        let starved: bool = self.starved_at(now);
        if !starved {
            self.hw.feed();
        }
        starved
    }

    /// Whether any registered task has starved at `now`. Every task is
    /// examined.
    pub fn starved_at(&self, now: u64) -> (starved: bool)
        requires
            obeys_cmp::<I>(),
        ensures
            starved == any_starved(self@, now),
    {
        let mut starved: bool = false;
        let ghost seq = self.tasks.iter().remaining();
        for entry in it: self.tasks.iter()
            invariant
                obeys_cmp::<I>(),
                it.seq() == seq,
                starved == exists|j: int| 0 <= j < it.index() && (#[trigger] seq[j]).1@.starved_at(now),
        {
            let (_, task) = entry;
            if task.is_starved_at(now) {
                starved = true;
            }
        }
        proof {
            if starved {
                let j: int = choose|j: int| 0 <= j < seq.len() && (#[trigger] seq[j]).1@.starved_at(now);
                assert(self.tasks@.contains_key(*seq[j].0));
                assert(self@.contains_key(*seq[j].0));
            } else {
                assert forall|id: I| #[trigger] self@.contains_key(id) implies !self@[id].starved_at(now) by {
                    assert(self.tasks@.contains_key(id));
                    assert(seq.contains((&id, &self.tasks@[id])));
                    let j: int = choose|j: int| 0 <= j < seq.len() && seq[j] == (&id, &self.tasks@[id]);
                    assert(seq[j].1@ == self.tasks@[id]@);
                }
            }
        }
        starved
    }

    /// Trigger a system reset through the hardware watchdog.
    pub fn trigger_reset(&mut self)
        requires
            old(self).wf(),
        ensures
            final(self).wf(),
            final(self)@ == old(self)@,
            final(self).configuration() == old(self).configuration(),
            final(self).clock() == old(self).clock(),
            final(self).hardware_calls() == old(self).hardware_calls().push(HardwareCall::TriggerReset),
    {
        self.hw.trigger_reset();
    }

    /// The reason for the last reset, as the hardware watchdog reports it.
    pub fn reset_reason(&self) -> (reason: Option<ResetReason>)
        ensures
            reason == self.hardware().reported_reason(),
    {
        self.hw.reset_reason()
    }

    /// The configured interval between checks, in milliseconds.
    pub fn check_interval(&self) -> (interval: u64)
        ensures
            interval == self.configuration().check_interval,
    {
        self.config.check_interval
    }
} // impl

} // verus!
