//! Properties that relate the watchdog's operations to one another, proved
//! over the same models that the operations' contracts use.
use vstd::prelude::*;
use crate::task::TaskView;
use crate::fixed;
use crate::dynamic;

verus! {

/// The number of occupied slots.
pub open spec fn registered_count<I>(slots: Seq<Option<TaskView<I>>>) -> nat
    decreases slots.len(),
{
    if slots.len() == 0 {
        0
    } else {
        registered_count(slots.drop_last()) + if slots.last() is Some {
            1nat
        } else {
            0nat
        }
    }
}

/// A task that has starved stays starved as time goes on, until it is fed.
pub proof fn lemma_starvation_persists<I>(task: TaskView<I>, earlier: u64, later: u64)
    requires
        task.starved_at(earlier),
        earlier <= later,
    ensures
        task.starved_at(later),
{
}

/// A task fed at `fed` is starved at a later instant `now` exactly when at
/// least its maximum duration has passed since `fed`.
pub proof fn lemma_fed_task_starves_after_max_duration<I>(task: TaskView<I>, fed: u64, now: u64)
    requires
        fed <= now,
    ensures
        task.fed_at(fed).starved_at(now) <==> now - fed >= task.max_duration,
{
}

/// There are never more registered tasks than slots.
pub proof fn lemma_count_at_most_slots<I>(slots: Seq<Option<TaskView<I>>>)
    ensures
        registered_count(slots) <= slots.len(),
    decreases slots.len(),
{
    if slots.len() > 0 {
        lemma_count_at_most_slots(slots.drop_last());
    }
}

/// A slot is free exactly when fewer tasks are registered than there are
/// slots: registration succeeds exactly while the watchdog has room.
pub proof fn lemma_free_slot_iff_room<I>(slots: Seq<Option<TaskView<I>>>)
    ensures
        fixed::has_free_slot(slots) <==> registered_count(slots) < slots.len(),
    decreases slots.len(),
{
    if slots.len() > 0 {
        let rest = slots.drop_last();
        lemma_free_slot_iff_room(rest);
        lemma_count_at_most_slots(rest);
        if fixed::has_free_slot(rest) {
            let i: int = choose|i: int| 0 <= i < rest.len() && rest[i] is None;
            assert(slots[i] is None);
        }
        if fixed::has_free_slot(slots) && slots.last() is Some {
            let i: int = choose|i: int| 0 <= i < slots.len() && slots[i] is None;
            assert(rest[i] is None);
        }
        if slots.last() is None {
            assert(slots[slots.len() - 1] is None);
        }
    }
}

/// Filling an empty slot registers exactly one more task.
pub proof fn lemma_count_fill<I>(slots: Seq<Option<TaskView<I>>>, i: int, task: TaskView<I>)
    requires
        0 <= i < slots.len(),
        slots[i] is None,
    ensures
        registered_count(slots.update(i, Some(task))) == registered_count(slots) + 1,
    decreases slots.len(),
{
    let new = slots.update(i, Some(task));
    if i == slots.len() - 1 {
        assert(new.drop_last() =~= slots.drop_last());
    } else {
        lemma_count_fill(slots.drop_last(), i, task);
        assert(new.drop_last() =~= slots.drop_last().update(i, Some(task)));
    }
}

/// Emptying an occupied slot registers exactly one task fewer.
pub proof fn lemma_count_empty<I>(slots: Seq<Option<TaskView<I>>>, i: int)
    requires
        0 <= i < slots.len(),
        slots[i] is Some,
    ensures
        registered_count(slots.update(i, None)) + 1 == registered_count(slots),
    decreases slots.len(),
{
    let new = slots.update(i, None);
    if i == slots.len() - 1 {
        assert(new.drop_last() =~= slots.drop_last());
    } else {
        lemma_count_empty(slots.drop_last(), i);
        assert(new.drop_last() =~= slots.drop_last().update(i, None));
    }
}

/// A successful registration adds exactly one registered task, identified
/// by the given identifier; a failed one happens only when every slot is
/// taken.
pub proof fn lemma_fixed_registration_counts<I>(
    old: Seq<Option<TaskView<I>>>,
    new: Seq<Option<TaskView<I>>>,
    id: I,
    max_duration: u64,
    now: u64,
    result: Result<(), crate::task::Error>,
)
    requires
        fixed::registration(old, new, id, max_duration, now, result),
    ensures
        result is Ok ==> registered_count(new) == registered_count(old) + 1 && fixed::is_registered(new, id),
        result is Err ==> registered_count(old) == old.len() && new == old,
{
    lemma_free_slot_iff_room(old);
    lemma_count_at_most_slots(old);
    if result is Ok {
        let i: int = choose|i: int|
            fixed::is_first_free(old, i) && new == old.update(
                i,
                Some(TaskView { id, last_feed: now, max_duration }),
            );
        lemma_count_fill(old, i, TaskView { id, last_feed: now, max_duration });
        assert(fixed::holds(new[i], id));
    }
}

/// Registering a task whose identifier is not yet registered, then
/// deregistering it, leaves the slots as they were.
pub proof fn lemma_fixed_register_then_deregister<I>(
    slots: Seq<Option<TaskView<I>>>,
    registered: Seq<Option<TaskView<I>>>,
    deregistered: Seq<Option<TaskView<I>>>,
    id: I,
    max_duration: u64,
    now: u64,
)
    requires
        !fixed::is_registered(slots, id),
        fixed::registration(slots, registered, id, max_duration, now, Ok(())),
        fixed::deregistration(registered, deregistered, id),
    ensures
        deregistered == slots,
{
    let i: int = choose|i: int|
        fixed::is_first_free(slots, i) && registered == slots.update(
            i,
            Some(TaskView { id, last_feed: now, max_duration }),
        );
    assert forall|j: int| 0 <= j < slots.len() implies #[trigger] deregistered[j] == slots[j] by {
        if j != i {
            assert(!fixed::holds(slots[j], id));
        }
    }
    assert(deregistered =~= slots);
}

/// After deregistration no task with the identifier remains registered, so
/// it is no longer monitored; every slot that held it is free again and the
/// others are untouched; nothing changes when it was not registered.
pub proof fn lemma_fixed_deregistration_removes_task<I>(
    old: Seq<Option<TaskView<I>>>,
    new: Seq<Option<TaskView<I>>>,
    id: I,
)
    requires
        fixed::deregistration(old, new, id),
    ensures
        !fixed::is_registered(new, id),
        forall|j: int| 0 <= j < old.len() && fixed::holds(old[j], id) ==> #[trigger] new[j] is None,
        forall|j: int| 0 <= j < old.len() && !fixed::holds(old[j], id) ==> #[trigger] new[j] == old[j],
        fixed::is_registered(old, id) ==> registered_count(new) < registered_count(old),
        !fixed::is_registered(old, id) ==> new == old,
    decreases old.len(),
{
    if fixed::is_registered(new, id) {
        let j: int = choose|j: int| 0 <= j < new.len() && fixed::holds(new[j], id);
        assert(!fixed::holds(new[j], id));
    }
    if !fixed::is_registered(old, id) {
        assert(new =~= old);
    }
    if old.len() > 0 {
        let rest_old = old.drop_last();
        let rest_new = new.drop_last();
        assert(rest_new =~= fixed::without(rest_old, id));
        lemma_fixed_deregistration_removes_task(rest_old, rest_new, id);
        if fixed::is_registered(old, id) {
            let j: int = choose|j: int| 0 <= j < old.len() && fixed::holds(old[j], id);
            if j < old.len() - 1 {
                assert(fixed::holds(rest_old[j], id));
            }
            lemma_count_never_grows(rest_old, rest_new, id);
        }
    }
}

/// Removing every task with an identifier never raises the number of
/// registered tasks.
pub proof fn lemma_count_never_grows<I>(old: Seq<Option<TaskView<I>>>, new: Seq<Option<TaskView<I>>>, id: I)
    requires
        new == fixed::without(old, id),
    ensures
        registered_count(new) <= registered_count(old),
    decreases old.len(),
{
    if old.len() > 0 {
        assert(new.drop_last() =~= fixed::without(old.drop_last(), id));
        lemma_count_never_grows(old.drop_last(), new.drop_last(), id);
    }
}

/// Feeding changes no registration: the same slots hold tasks with the same
/// identifiers and maximum durations, and every task with the identifier is
/// fed at `now`.
pub proof fn lemma_fixed_feeding_keeps_registrations<I>(
    old: Seq<Option<TaskView<I>>>,
    new: Seq<Option<TaskView<I>>>,
    id: I,
    now: u64,
)
    requires
        fixed::feeding(old, new, id, now),
    ensures
        new.len() == old.len(),
        forall|j: int|
            0 <= j < old.len() ==> (#[trigger] new[j] is Some <==> old[j] is Some),
        forall|j: int|
            0 <= j < old.len() && old[j] is Some ==> #[trigger] new[j]->0.id == old[j]->0.id
                && new[j]->0.max_duration == old[j]->0.max_duration,
        forall|j: int|
            0 <= j < old.len() && fixed::holds(old[j], id) ==> (#[trigger] new[j])->0.last_feed == now,
        !fixed::is_registered(old, id) ==> new == old,
{
    if !fixed::is_registered(old, id) {
        assert(new =~= old);
    }
}

/// Right after the watchdog is started at `now`, a check at the same instant
/// finds a starved task exactly when some registered task allows no time at
/// all between feeds.
pub proof fn lemma_fixed_start_then_check<I>(slots: Seq<Option<TaskView<I>>>, now: u64)
    ensures
        fixed::any_starved(fixed::all_fed(slots, now), now) <==> exists|i: int|
            0 <= i < slots.len() && (#[trigger] slots[i] matches Some(task) && task.max_duration == 0),
{
    let fed = fixed::all_fed(slots, now);
    if fixed::any_starved(fed, now) {
        let i: int = choose|i: int| 0 <= i < fed.len() && fixed::starved_slot(#[trigger] fed[i], now);
        assert(slots[i] matches Some(task) && task.max_duration == 0);
    }
    if exists|i: int| 0 <= i < slots.len() && (#[trigger] slots[i] matches Some(task) && task.max_duration == 0) {
        let i: int = choose|i: int| 0 <= i < slots.len() && (#[trigger] slots[i] matches Some(task) && task.max_duration == 0);
        assert(fixed::starved_slot(fed[i], now));
    }
}

/// Registering a task whose identifier is not yet registered, then
/// deregistering it, leaves the tasks as they were.
pub proof fn lemma_dynamic_register_then_deregister<I>(
    tasks: Map<I, TaskView<I>>,
    id: I,
    max_duration: u64,
    now: u64,
)
    requires
        !tasks.contains_key(id),
    ensures
        tasks.insert(id, TaskView { id, last_feed: now, max_duration }).remove(id) == tasks,
{
    assert(tasks.insert(id, TaskView { id, last_feed: now, max_duration }).remove(id) =~= tasks);
}

/// Registering an identifier again replaces the earlier registration: the
/// watchdog monitors one task per identifier.
pub proof fn lemma_dynamic_reregistration_replaces<I>(
    tasks: Map<I, TaskView<I>>,
    id: I,
    first: TaskView<I>,
    second: TaskView<I>,
)
    ensures
        tasks.insert(id, first).insert(id, second) == tasks.insert(id, second),
        tasks.insert(id, second).dom() == tasks.dom().insert(id),
{
    assert(tasks.insert(id, first).insert(id, second) =~= tasks.insert(id, second));
}

/// Feeding changes no registration: the same identifiers stay registered,
/// with the same maximum durations, and the fed task was fed at `now`.
pub proof fn lemma_dynamic_feeding_keeps_registrations<I>(
    old: Map<I, TaskView<I>>,
    new: Map<I, TaskView<I>>,
    id: I,
    now: u64,
)
    requires
        dynamic::feeding(old, new, id, now),
    ensures
        new.dom() == old.dom(),
        forall|k: I| #[trigger] old.contains_key(k) ==> new[k].id == old[k].id
            && new[k].max_duration == old[k].max_duration,
        old.contains_key(id) ==> new[id].last_feed == now,
{
    if old.contains_key(id) {
        assert(new.dom() =~= old.dom());
    }
}

/// Right after the watchdog is started at `now`, a check at the same instant
/// finds a starved task exactly when some registered task allows no time at
/// all between feeds.
pub proof fn lemma_dynamic_start_then_check<I>(tasks: Map<I, TaskView<I>>, now: u64)
    ensures
        dynamic::any_starved(dynamic::all_fed(tasks, now), now) <==> exists|id: I|
            #[trigger] tasks.contains_key(id) && tasks[id].max_duration == 0,
{
    let fed = dynamic::all_fed(tasks, now);
    if dynamic::any_starved(fed, now) {
        let id = choose|id: I| #[trigger] fed.contains_key(id) && fed[id].starved_at(now);
        assert(tasks.contains_key(id));
    }
    if exists|id: I| #[trigger] tasks.contains_key(id) && tasks[id].max_duration == 0 {
        let id = choose|id: I| #[trigger] tasks.contains_key(id) && tasks[id].max_duration == 0;
        assert(fed.contains_key(id));
    }
}

/// A watchdog with no registered task never reports starvation.
pub proof fn lemma_no_tasks_no_starvation<I>(slots: Seq<Option<TaskView<I>>>, tasks: Map<I, TaskView<I>>, now: u64)
    requires
        forall|i: int| 0 <= i < slots.len() ==> #[trigger] slots[i] is None,
        tasks.dom() == Set::<I>::empty(),
    ensures
        !fixed::any_starved(slots, now),
        !dynamic::any_starved(tasks, now),
{
    assert(forall|id: I| !tasks.contains_key(id));
}

/// A sequence of slots that are all free holds no task.
pub proof fn lemma_count_all_free<I>(slots: Seq<Option<TaskView<I>>>)
    requires
        forall|i: int| 0 <= i < slots.len() ==> #[trigger] slots[i] is None,
    ensures
        registered_count(slots) == 0,
    decreases slots.len(),
{
    if slots.len() > 0 {
        lemma_count_all_free(slots.drop_last());
    }
}

/// The capacity law over the first `k` registrations of a history that
/// starts with `n` free slots and has no deregistration.
proof fn lemma_capacity_prefix<I>(
    n: nat,
    states: Seq<Seq<Option<TaskView<I>>>>,
    ids: Seq<I>,
    max_durations: Seq<u64>,
    nows: Seq<u64>,
    results: Seq<Result<(), crate::task::Error>>,
    k: int,
)
    requires
        states.len() == ids.len() + 1,
        max_durations.len() == ids.len(),
        nows.len() == ids.len(),
        results.len() == ids.len(),
        states[0] == Seq::<Option<TaskView<I>>>::new(n, |i: int| None),
        forall|j: int|
            #![trigger results[j]]
            0 <= j < ids.len() ==> fixed::registration(
                states[j],
                states[j + 1],
                ids[j],
                max_durations[j],
                nows[j],
                results[j],
            ),
        0 <= k <= ids.len(),
    ensures
        states[k].len() == n,
        registered_count(states[k]) == (if k < n { k } else { n as int }),
        forall|j: int| 0 <= j < k ==> (#[trigger] results[j] is Ok <==> j < n),
    decreases k,
{
    if k == 0 {
        lemma_count_all_free(states[0]);
    } else {
        let j: int = k - 1;
        lemma_capacity_prefix(n, states, ids, max_durations, nows, results, j);
        assert(fixed::registration(states[j], states[j + 1], ids[j], max_durations[j], nows[j], results[j]));
        lemma_free_slot_iff_room(states[j]);
        lemma_fixed_registration_counts(states[j], states[k], ids[j], max_durations[j], nows[j], results[j]);
    }
}

/// Capacity of the slot-based watchdog: starting from `n` free slots (as
/// `fixed::Watchdog::new` leaves them) and registering with no
/// deregistration in between, the registrations succeed exactly while fewer
/// than `n` of them have been made; after `k` of them, `min(k, n)` tasks are
/// registered and the next one succeeds exactly when `k < n`.
pub proof fn lemma_fixed_capacity<I>(
    n: nat,
    states: Seq<Seq<Option<TaskView<I>>>>,
    ids: Seq<I>,
    max_durations: Seq<u64>,
    nows: Seq<u64>,
    results: Seq<Result<(), crate::task::Error>>,
)
    requires
        states.len() == ids.len() + 1,
        max_durations.len() == ids.len(),
        nows.len() == ids.len(),
        results.len() == ids.len(),
        states[0] == Seq::<Option<TaskView<I>>>::new(n, |i: int| None),
        forall|j: int|
            #![trigger results[j]]
            0 <= j < ids.len() ==> fixed::registration(
                states[j],
                states[j + 1],
                ids[j],
                max_durations[j],
                nows[j],
                results[j],
            ),
    ensures
        forall|j: int| 0 <= j < ids.len() ==> (#[trigger] results[j] is Ok <==> j < n),
        registered_count(states.last()) == (if ids.len() < n { ids.len() as int } else { n as int }),
        fixed::has_free_slot(states.last()) <==> ids.len() < n,
{
    let k: int = ids.len() as int;
    lemma_capacity_prefix(n, states, ids, max_durations, nows, results, k);
    lemma_free_slot_iff_room(states[k]);
}

/// A check that finds a starved task finds one again at any later instant,
/// so long as the slots are not changed: a starved task stays starved until
/// it is fed or deregistered, and the hardware watchdog stays unfed.
pub proof fn lemma_fixed_starvation_persists<I>(slots: Seq<Option<TaskView<I>>>, earlier: u64, later: u64)
    requires
        fixed::any_starved(slots, earlier),
        earlier <= later,
    ensures
        fixed::any_starved(slots, later),
{
    let i: int = choose|i: int| 0 <= i < slots.len() && fixed::starved_slot(#[trigger] slots[i], earlier);
    assert(fixed::starved_slot(slots[i], later));
}

/// A check that finds a starved task finds one again at any later instant,
/// so long as the tasks are not changed.
pub proof fn lemma_dynamic_starvation_persists<I>(tasks: Map<I, TaskView<I>>, earlier: u64, later: u64)
    requires
        dynamic::any_starved(tasks, earlier),
        earlier <= later,
    ensures
        dynamic::any_starved(tasks, later),
{
    let id = choose|id: I| #[trigger] tasks.contains_key(id) && tasks[id].starved_at(earlier);
    assert(tasks[id].starved_at(later));
}

/// Every change that the map-based watchdog makes to its tasks keeps each
/// task filed under its own identifier.
pub proof fn lemma_dynamic_operations_keep_filing<I>(
    tasks: Map<I, TaskView<I>>,
    fed: Map<I, TaskView<I>>,
    id: I,
    max_duration: u64,
    now: u64,
)
    requires
        dynamic::filed_by_id(tasks),
        dynamic::feeding(tasks, fed, id, now),
    ensures
        dynamic::filed_by_id(tasks.insert(id, TaskView { id, last_feed: now, max_duration })),
        dynamic::filed_by_id(tasks.remove(id)),
        dynamic::filed_by_id(fed),
        dynamic::filed_by_id(dynamic::all_fed(tasks, now)),
{
    let fed_all = dynamic::all_fed(tasks, now);
    assert forall|k: I| #[trigger] fed_all.contains_key(k) implies fed_all[k].id == k by {
        assert(tasks.contains_key(k));
    }
}

/// Once a registered task's maximum duration has passed since it was last
/// fed, every check finds starvation, so no check feeds the hardware
/// watchdog any more (see `fixed::Watchdog::check_at`) until the task is fed
/// or deregistered.
pub proof fn lemma_fixed_starved_from_deadline<I>(slots: Seq<Option<TaskView<I>>>, i: int, now: u64)
    requires
        0 <= i < slots.len(),
        slots[i] matches Some(task) && task.last_feed + task.max_duration <= now,
    ensures
        fixed::any_starved(slots, now),
{
    assert(fixed::starved_slot(slots[i], now));
}

/// Once a registered task's maximum duration has passed since it was last
/// fed, every check finds starvation (see `dynamic::Watchdog::check_at`).
pub proof fn lemma_dynamic_starved_from_deadline<I>(tasks: Map<I, TaskView<I>>, id: I, now: u64)
    requires
        tasks.contains_key(id),
        tasks[id].last_feed + tasks[id].max_duration <= now,
    ensures
        dynamic::any_starved(tasks, now),
{
    assert(tasks[id].starved_at(now));
}

/// The runner checks at `start`, `start + interval`, `start + 2 * interval`
/// and so on (each instant given by `clock::next_check_time`). Every instant
/// `t` from `start` on is followed, less than one interval later, by a check:
/// a task that starves is found by the next check at most one check interval
/// after its deadline.
pub proof fn lemma_check_within_one_interval(start: nat, interval: nat, t: nat)
    requires
        interval > 0,
        start <= t,
    ensures
        exists|k: nat| t <= #[trigger] (start + k * interval) < t + interval,
{
    let d: int = t - start;
    let k: nat = ((d + interval - 1) / (interval as int)) as nat;
    assert(k * interval >= d && k * interval < d + interval) by (nonlinear_arith)
        requires
            d >= 0,
            interval > 0,
            k == (d + interval - 1) / (interval as int),
    ;
    assert(t <= start + k * interval < t + interval);
}

/// Starting at `now` feeds every registered task at `now`, whether or not it
/// had starved: the same slots stay occupied, each task keeps its identifier
/// and maximum duration, and each one's last feed becomes `now`.
pub proof fn lemma_fixed_start_feeds_every_task<I>(slots: Seq<Option<TaskView<I>>>, now: u64)
    ensures
        fixed::all_fed(slots, now).len() == slots.len(),
        forall|i: int|
            0 <= i < slots.len() ==> (#[trigger] fixed::all_fed(slots, now)[i] is Some <==> slots[i] is Some),
        forall|i: int|
            0 <= i < slots.len() && slots[i] is Some ==> #[trigger] fixed::all_fed(slots, now)[i] == Some(
                TaskView { id: slots[i]->0.id, last_feed: now, max_duration: slots[i]->0.max_duration },
            ),
{
}

/// Right after starting at `now`, no check finds starvation before the
/// shortest maximum duration of the registered tasks has passed, whatever the
/// tasks' earlier feeds were.
pub proof fn lemma_fixed_start_then_quiet<I>(slots: Seq<Option<TaskView<I>>>, now: u64, later: u64)
    requires
        now <= later,
        forall|i: int|
            0 <= i < slots.len() && #[trigger] slots[i] is Some ==> later - now < slots[i]->0.max_duration,
    ensures
        !fixed::any_starved(fixed::all_fed(slots, now), later),
{
    let fed = fixed::all_fed(slots, now);
    if fixed::any_starved(fed, later) {
        let i: int = choose|i: int| 0 <= i < fed.len() && fixed::starved_slot(#[trigger] fed[i], later);
        assert(slots[i] is Some);
    }
}

/// Starting at `now` feeds every registered task at `now`: the same
/// identifiers stay registered, each task keeps its identifier and maximum
/// duration, and each one's last feed becomes `now`.
pub proof fn lemma_dynamic_start_feeds_every_task<I>(tasks: Map<I, TaskView<I>>, now: u64)
    ensures
        dynamic::all_fed(tasks, now).dom() == tasks.dom(),
        forall|k: I|
            #[trigger] tasks.contains_key(k) ==> dynamic::all_fed(tasks, now)[k] == (TaskView {
                id: tasks[k].id,
                last_feed: now,
                max_duration: tasks[k].max_duration,
            }),
{
    assert(dynamic::all_fed(tasks, now).dom() =~= tasks.dom());
}

/// Feeding `id` at `now` touches only the tasks identified by `id`: every
/// slot that does not hold `id` is left exactly as it was, and every slot
/// that holds it gets a task with the same identifier and maximum duration,
/// last fed at `now`.
pub proof fn lemma_fixed_feeding_touches_only_the_task<I>(
    old: Seq<Option<TaskView<I>>>,
    new: Seq<Option<TaskView<I>>>,
    id: I,
    now: u64,
)
    requires
        fixed::feeding(old, new, id, now),
    ensures
        new.len() == old.len(),
        forall|j: int| 0 <= j < old.len() && !fixed::holds(old[j], id) ==> #[trigger] new[j] == old[j],
        forall|j: int|
            0 <= j < old.len() && fixed::holds(old[j], id) ==> #[trigger] new[j] == Some(
                TaskView { id, last_feed: now, max_duration: old[j]->0.max_duration },
            ),
{
}

/// A successful registration at `now` fills exactly one slot, the first free
/// one, with a task identified by `id` and last fed at `now`, and leaves every
/// other slot as it was; the new task does not starve before `max_duration`
/// has passed since `now`.
pub proof fn lemma_fixed_registration_places_task<I>(
    old: Seq<Option<TaskView<I>>>,
    new: Seq<Option<TaskView<I>>>,
    id: I,
    max_duration: u64,
    now: u64,
)
    requires
        fixed::registration(old, new, id, max_duration, now, Ok(())),
    ensures
        new.len() == old.len(),
        exists|i: int|
            0 <= i < old.len() && old[i] is None && (forall|j: int| 0 <= j < i ==> old[j] is Some)
                && fixed::holds(#[trigger] new[i], id) && new[i]->0.last_feed == now
                && new[i]->0.max_duration == max_duration
                && (forall|j: int| 0 <= j < old.len() && j != i ==> new[j] == old[j])
                && (forall|t: u64| now <= t < now + max_duration ==> !new[i]->0.starved_at(t)),
{
    let i: int = choose|i: int|
        fixed::is_first_free(old, i) && new == old.update(
            i,
            Some(TaskView { id, last_feed: now, max_duration }),
        );
    assert(fixed::holds(new[i], id));
}

/// Feeding `id` at `now` touches only the task identified by `id`: every
/// other identifier keeps exactly the task it had (or stays unregistered),
/// and the fed task keeps its identifier and maximum duration with its last
/// feed at `now`; nothing changes when `id` is not registered.
pub proof fn lemma_dynamic_feeding_touches_only_the_task<I>(
    old: Map<I, TaskView<I>>,
    new: Map<I, TaskView<I>>,
    id: I,
    now: u64,
)
    requires
        dynamic::feeding(old, new, id, now),
    ensures
        forall|k: I| k != id ==> (#[trigger] new.contains_key(k) <==> old.contains_key(k)),
        forall|k: I| k != id && #[trigger] old.contains_key(k) ==> new[k] == old[k],
        old.contains_key(id) ==> new.contains_key(id) && new[id] == (TaskView {
            id: old[id].id,
            last_feed: now,
            max_duration: old[id].max_duration,
        }),
        !old.contains_key(id) ==> new == old,
{
}

} // verus!
