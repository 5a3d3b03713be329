use std::cell::{Cell, RefCell};
use std::rc::Rc;

use task_watchdog::fixed::Watchdog;
use task_watchdog::{Clock, Error, HardwareWatchdog, Id, ResetReason, WatchdogConfig};

#[derive(Debug, Clone, Copy, PartialEq, Eq, PartialOrd, Ord)]
enum TaskId {
    Main,
    Sensors,
    Comms,
}
impl Id for TaskId {}

#[derive(Default, Debug)]
struct HwLog {
    started_with: Option<u64>,
    feeds: u32,
    resets: u32,
}

struct MockHw {
    log: Rc<RefCell<HwLog>>,
    reason: Option<ResetReason>,
}

impl HardwareWatchdog for MockHw {
    fn start(&mut self, timeout_ms: u64) {
        self.log.borrow_mut().started_with = Some(timeout_ms);
    }
    fn feed(&mut self) {
        self.log.borrow_mut().feeds += 1;
    }
    fn trigger_reset(&mut self) {
        self.log.borrow_mut().resets += 1;
    }
    fn reset_reason(&self) -> Option<ResetReason> {
        self.reason
    }
}

struct MockClock {
    now: Rc<Cell<u64>>,
}

impl Clock for MockClock {
    fn now(&self) -> u64 {
        self.now.get()
    }
}

type Fixed<const N: usize> = Watchdog<TaskId, N, MockHw, MockClock>;

fn fixed<const N: usize>(
    reason: Option<ResetReason>,
) -> (Fixed<N>, Rc<RefCell<HwLog>>, Rc<Cell<u64>>) {
    let log = Rc::new(RefCell::new(HwLog::default()));
    let now = Rc::new(Cell::new(0));
    let hw = MockHw { log: log.clone(), reason };
    let clock = MockClock { now: now.clone() };
    (Watchdog::new(hw, WatchdogConfig::new(5000, 1000), clock), log, now)
}

#[test]
fn fixed_registration_fails_when_slots_are_full() {
    let (mut w, _, _) = fixed::<2>(None);
    assert!(w.register_task(&TaskId::Main, 100).is_ok());
    assert!(w.register_task(&TaskId::Sensors, 100).is_ok());
    assert_eq!(w.register_task(&TaskId::Comms, 100), Err(Error::NoSlotsAvailable));
}

#[test]
fn fixed_zero_slots_refuse_every_registration() {
    let (mut w, _, _) = fixed::<0>(None);
    assert_eq!(w.register_task(&TaskId::Main, 100), Err(Error::NoSlotsAvailable));
    assert!(!w.check());
}

#[test]
fn fixed_deregistration_frees_a_slot() {
    let (mut w, _, _) = fixed::<1>(None);
    assert!(w.register_task(&TaskId::Main, 100).is_ok());
    assert_eq!(w.register_task(&TaskId::Sensors, 100), Err(Error::NoSlotsAvailable));
    w.deregister_task(&TaskId::Main);
    assert!(w.register_task(&TaskId::Sensors, 100).is_ok());
}

#[test]
fn fixed_deregistering_an_unknown_task_changes_nothing() {
    let (mut w, _, _) = fixed::<1>(None);
    assert!(w.register_task(&TaskId::Main, 100).is_ok());
    w.deregister_task(&TaskId::Comms);
    assert_eq!(w.register_task(&TaskId::Sensors, 100), Err(Error::NoSlotsAvailable));
}

#[test]
fn fixed_register_then_deregister_restores_state() {
    let (mut w, log, now) = fixed::<2>(None);
    assert!(w.register_task_at(&TaskId::Main, 100, 0).is_ok());
    assert!(w.register_task_at(&TaskId::Sensors, 10, 0).is_ok());
    w.deregister_task(&TaskId::Sensors);
    now.set(50);
    // Only the long-lived task remains, and it is healthy at 50 ms.
    assert!(!w.check());
    assert_eq!(log.borrow().feeds, 1);
    assert!(w.register_task(&TaskId::Comms, 100).is_ok());
}

#[test]
fn fixed_check_feeds_hardware_only_while_healthy() {
    let (mut w, log, now) = fixed::<2>(None);
    assert!(w.register_task(&TaskId::Main, 100).is_ok());
    w.start();
    assert_eq!(log.borrow().started_with, Some(5000));
    now.set(99);
    assert!(!w.check());
    assert_eq!(log.borrow().feeds, 1);
    now.set(100);
    assert!(w.check());
    assert_eq!(log.borrow().feeds, 1);
}

#[test]
fn fixed_feeding_a_task_restarts_its_timer() {
    let (mut w, _, _) = fixed::<2>(None);
    assert!(w.register_task_at(&TaskId::Main, 100, 0).is_ok());
    assert!(w.register_task_at(&TaskId::Sensors, 300, 0).is_ok());
    w.feed_at(&TaskId::Main, 80);
    assert!(!w.check_at(179));
    assert!(w.check_at(180));
}

#[test]
fn fixed_feeding_an_unknown_task_changes_nothing() {
    let (mut w, _, _) = fixed::<2>(None);
    assert!(w.register_task_at(&TaskId::Main, 100, 0).is_ok());
    w.feed_at(&TaskId::Comms, 90);
    assert!(w.check_at(100));
}

#[test]
fn fixed_start_feeds_every_task() {
    let (mut w, log, _) = fixed::<3>(None);
    assert!(w.register_task_at(&TaskId::Main, 100, 0).is_ok());
    assert!(w.register_task_at(&TaskId::Sensors, 200, 0).is_ok());
    w.start_at(500);
    assert_eq!(log.borrow().started_with, Some(5000));
    assert!(!w.check_at(599));
    assert!(w.check_at(600));
}

#[test]
fn fixed_zero_duration_task_is_starved_right_after_start() {
    let (mut w, log, _) = fixed::<2>(None);
    assert!(w.register_task_at(&TaskId::Main, 0, 0).is_ok());
    w.start_at(10);
    assert!(w.check_at(10));
    assert_eq!(log.borrow().feeds, 0);
}

#[test]
fn fixed_without_tasks_never_starves() {
    let (mut w, log, now) = fixed::<4>(None);
    w.start();
    now.set(1_000_000);
    assert!(!w.check());
    assert_eq!(log.borrow().feeds, 1);
}

#[test]
fn fixed_duplicate_registration_takes_two_slots() {
    let (mut w, _, _) = fixed::<2>(None);
    assert!(w.register_task_at(&TaskId::Main, 10, 0).is_ok());
    assert!(w.register_task_at(&TaskId::Main, 1000, 0).is_ok());
    assert_eq!(w.register_task(&TaskId::Comms, 1), Err(Error::NoSlotsAvailable));
}

#[test]
fn fixed_deregistration_removes_every_registration_of_the_task() {
    let (mut w, _, _) = fixed::<2>(None);
    assert!(w.register_task_at(&TaskId::Main, 10, 0).is_ok());
    assert!(w.register_task_at(&TaskId::Main, 1000, 0).is_ok());
    w.deregister_task(&TaskId::Main);
    // The task is no longer monitored and both slots are free again.
    assert!(!w.check_at(5000));
    assert!(w.register_task(&TaskId::Sensors, 1).is_ok());
    assert!(w.register_task(&TaskId::Comms, 1).is_ok());
}

#[test]
fn fixed_feeding_reaches_every_registration_of_the_task() {
    let (mut w, _, _) = fixed::<2>(None);
    assert!(w.register_task_at(&TaskId::Main, 1000, 0).is_ok());
    assert!(w.register_task_at(&TaskId::Main, 700, 0).is_ok());
    w.feed_at(&TaskId::Main, 600);
    assert!(!w.check_at(1299));
    assert!(w.check_at(1300));
}

#[test]
fn fixed_refused_registration_does_not_read_the_clock() {
    struct CountingClock {
        reads: Rc<Cell<u32>>,
    }
    impl Clock for CountingClock {
        fn now(&self) -> u64 {
            self.reads.set(self.reads.get() + 1);
            0
        }
    }
    let reads = Rc::new(Cell::new(0));
    let log = Rc::new(RefCell::new(HwLog::default()));
    let mut w: Watchdog<TaskId, 1, MockHw, CountingClock> = Watchdog::new(
        MockHw { log, reason: None },
        WatchdogConfig::default(),
        CountingClock { reads: reads.clone() },
    );
    assert!(w.register_task(&TaskId::Main, 100).is_ok());
    assert_eq!(reads.get(), 1);
    assert_eq!(w.register_task(&TaskId::Sensors, 100), Err(Error::NoSlotsAvailable));
    assert_eq!(reads.get(), 1);
}

#[test]
fn fixed_clock_running_backwards_counts_as_no_time_elapsed() {
    let (mut w, _, _) = fixed::<1>(None);
    assert!(w.register_task_at(&TaskId::Main, 5, 100).is_ok());
    assert!(!w.check_at(3));
}

#[test]
fn fixed_forwards_reset_reason_and_reset() {
    let (mut w, log, _) = fixed::<1>(Some(ResetReason::TimedOut));
    assert_eq!(w.reset_reason(), Some(ResetReason::TimedOut));
    w.trigger_reset();
    assert_eq!(log.borrow().resets, 1);
    assert_eq!(w.check_interval(), 1000);
}

#[test]
fn fixed_task_operations_leave_hardware_alone() {
    let (mut w, log, now) = fixed::<2>(None);
    assert!(w.register_task(&TaskId::Main, 100).is_ok());
    now.set(40);
    w.feed(&TaskId::Main);
    w.deregister_task(&TaskId::Main);
    assert_eq!(log.borrow().started_with, None);
    assert_eq!(log.borrow().feeds, 0);
    assert_eq!(log.borrow().resets, 0);
}

#[test]
fn fixed_starvation_persists_until_fed() {
    let (mut w, log, _) = fixed::<1>(None);
    assert!(w.register_task_at(&TaskId::Sensors, 30, 0).is_ok());
    assert!(w.check_at(30));
    assert!(w.check_at(31));
    assert!(w.check_at(10_000));
    assert_eq!(log.borrow().feeds, 0);
    w.feed_at(&TaskId::Sensors, 10_000);
    assert!(!w.check_at(10_000));
    assert_eq!(log.borrow().feeds, 1);
}
