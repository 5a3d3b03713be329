use std::cell::{Cell, RefCell};
use std::rc::Rc;

use task_watchdog::dynamic::Watchdog;
use task_watchdog::{Clock, HardwareWatchdog, Id, ResetReason, WatchdogConfig};

#[derive(Debug, Clone, Copy, PartialEq, Eq, PartialOrd, Ord)]
enum TaskId {
    Main,
    Sensors,
    Comms,
}
impl Id for TaskId {}

#[derive(Default, Debug)]
struct HwLog {
    started_with: Option<u64>,
    feeds: u32,
    resets: u32,
}

struct MockHw {
    log: Rc<RefCell<HwLog>>,
}

impl HardwareWatchdog for MockHw {
    fn start(&mut self, timeout_ms: u64) {
        self.log.borrow_mut().started_with = Some(timeout_ms);
    }
    fn feed(&mut self) {
        self.log.borrow_mut().feeds += 1;
    }
    fn trigger_reset(&mut self) {
        self.log.borrow_mut().resets += 1;
    }
    fn reset_reason(&self) -> Option<ResetReason> {
        Some(ResetReason::Forced)
    }
}

struct MockClock {
    now: Rc<Cell<u64>>,
}

impl Clock for MockClock {
    fn now(&self) -> u64 {
        self.now.get()
    }
}

fn dynamic() -> (Watchdog<TaskId, MockHw, MockClock>, Rc<RefCell<HwLog>>, Rc<Cell<u64>>) {
    let log = Rc::new(RefCell::new(HwLog::default()));
    let now = Rc::new(Cell::new(0));
    let hw = MockHw { log: log.clone() };
    let clock = MockClock { now: now.clone() };
    (Watchdog::new(hw, WatchdogConfig::default(), clock), log, now)
}

#[test]
fn dynamic_check_feeds_hardware_only_while_healthy() {
    let (mut w, log, now) = dynamic();
    w.register_task(&TaskId::Main, 100);
    w.register_task(&TaskId::Sensors, 200);
    w.start();
    assert_eq!(log.borrow().started_with, Some(5000));
    now.set(99);
    assert!(!w.check());
    assert_eq!(log.borrow().feeds, 1);
    now.set(100);
    assert!(w.check());
    assert_eq!(log.borrow().feeds, 1);
}

#[test]
fn dynamic_reregistration_replaces_the_task() {
    let (mut w, _, _) = dynamic();
    w.register_task_at(&TaskId::Main, 10, 0);
    w.register_task_at(&TaskId::Main, 1000, 0);
    assert!(!w.check_at(500));
    w.deregister_task(&TaskId::Main);
    assert!(!w.check_at(5000));
}

#[test]
fn dynamic_register_then_deregister_restores_state() {
    let (mut w, _, _) = dynamic();
    w.register_task_at(&TaskId::Main, 100, 0);
    w.register_task_at(&TaskId::Comms, 1, 0);
    w.deregister_task(&TaskId::Comms);
    assert!(!w.check_at(50));
    assert!(w.check_at(100));
}

#[test]
fn dynamic_feeding_restarts_only_that_task() {
    let (mut w, _, _) = dynamic();
    w.register_task_at(&TaskId::Main, 100, 0);
    w.register_task_at(&TaskId::Sensors, 100, 0);
    w.feed_at(&TaskId::Main, 90);
    assert!(w.check_at(100));
    w.feed_at(&TaskId::Sensors, 95);
    assert!(!w.check_at(150));
    assert!(w.check_at(190));
}

#[test]
fn dynamic_feeding_or_deregistering_unknown_task_changes_nothing() {
    let (mut w, _, _) = dynamic();
    w.register_task_at(&TaskId::Main, 100, 0);
    w.feed_at(&TaskId::Comms, 99);
    w.deregister_task(&TaskId::Comms);
    assert!(w.check_at(100));
}

#[test]
fn dynamic_zero_duration_task_is_starved_right_after_start() {
    let (mut w, log, _) = dynamic();
    w.register_task_at(&TaskId::Comms, 0, 0);
    w.start_at(7);
    assert!(w.check_at(7));
    assert_eq!(log.borrow().feeds, 0);
}

#[test]
fn dynamic_without_tasks_never_starves() {
    let (mut w, log, _) = dynamic();
    assert!(!w.check_at(u64::MAX));
    assert_eq!(log.borrow().feeds, 1);
}

#[test]
fn dynamic_forwards_reset_reason_and_reset() {
    let (mut w, log, _) = dynamic();
    assert_eq!(w.reset_reason(), Some(ResetReason::Forced));
    w.trigger_reset();
    assert_eq!(log.borrow().resets, 1);
    assert_eq!(w.check_interval(), 1000);
}

#[test]
fn dynamic_task_operations_leave_hardware_alone() {
    let (mut w, log, now) = dynamic();
    w.register_task(&TaskId::Sensors, 100);
    now.set(40);
    w.feed(&TaskId::Sensors);
    w.deregister_task(&TaskId::Sensors);
    assert_eq!(log.borrow().started_with, None);
    assert_eq!(log.borrow().feeds, 0);
    assert_eq!(log.borrow().resets, 0);
}

#[test]
fn dynamic_any_number_of_tasks_can_register() {
    #[derive(Debug, Clone, Copy, PartialEq, Eq, PartialOrd, Ord)]
    struct Num(u16);
    impl Id for Num {}
    let log = Rc::new(RefCell::new(HwLog::default()));
    let now = Rc::new(Cell::new(0));
    let mut w: Watchdog<Num, MockHw, MockClock> = Watchdog::new(
        MockHw { log: log.clone() },
        WatchdogConfig::default(),
        MockClock { now: now.clone() },
    );
    for n in 0..500u16 {
        w.register_task_at(&Num(n), 1000 + u64::from(n), 0);
    }
    assert!(!w.check_at(999));
    assert!(w.check_at(1000));
    w.deregister_task(&Num(0));
    assert!(!w.check_at(1000));
    assert!(w.check_at(1001));
}
