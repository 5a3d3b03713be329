use task_watchdog::clock::{elapsed_since, has_elapsed, next_check_time};
use task_watchdog::hardware::timeout_micros_u32;
use task_watchdog::{Clock, EmbassyClock, Id, Task, WatchdogConfig};

#[derive(Debug, Clone, Copy, PartialEq, Eq)]
struct Num(u8);
impl Id for Num {}

#[test]
fn config_new_keeps_the_given_timeouts() {
    let c = WatchdogConfig::new(2500, 250);
    assert_eq!(c.hardware_timeout, 2500);
    assert_eq!(c.check_interval, 250);
}

#[test]
fn config_default_is_5000_and_1000() {
    let c = WatchdogConfig::default();
    assert_eq!(c.hardware_timeout, 5000);
    assert_eq!(c.check_interval, 1000);
}

#[test]
fn elapsed_since_saturates_at_zero() {
    assert_eq!(elapsed_since(150, 100), 50);
    assert_eq!(elapsed_since(100, 150), 0);
    assert_eq!(elapsed_since(u64::MAX, 0), u64::MAX);
}

#[test]
fn has_elapsed_includes_the_boundary() {
    assert!(has_elapsed(200, 100, 100));
    assert!(!has_elapsed(199, 100, 100));
    assert!(has_elapsed(0, 100, 0));
}

#[test]
fn next_check_time_adds_the_interval() {
    assert_eq!(next_check_time(1000, 250), Some(1250));
    assert_eq!(next_check_time(u64::MAX - 1, 1), Some(u64::MAX));
    assert_eq!(next_check_time(u64::MAX, 1), None);
}

#[test]
fn timeout_micros_fits_a_u32_up_to_the_limit() {
    assert_eq!(timeout_micros_u32(0), Some(0));
    assert_eq!(timeout_micros_u32(5000), Some(5_000_000));
    assert_eq!(timeout_micros_u32(4_294_967), Some(4_294_967_000));
    assert_eq!(timeout_micros_u32(4_294_968), None);
    assert_eq!(timeout_micros_u32(u64::MAX), None);
}

#[test]
fn task_starves_when_its_duration_has_passed() {
    let mut t = Task::new_at(Num(3), 40, 10);
    assert_eq!(t.id(), Num(3));
    assert!(!t.is_starved_at(49));
    assert!(t.is_starved_at(50));
    t.feed_at(45);
    assert!(!t.is_starved_at(84));
    assert!(t.is_starved_at(85));
}

#[test]
fn task_new_reads_the_clock() {
    struct At(u64);
    impl Clock for At {
        fn now(&self) -> u64 {
            self.0
        }
    }
    let t = Task::new(Num(1), 10, &At(90));
    assert!(!t.is_starved_at(99));
    assert!(t.is_starved_at(100));
}

#[test]
fn embassy_clock_does_not_run_backwards() {
    let clock = EmbassyClock;
    let a = clock.now();
    let start = std::time::Instant::now();
    while start.elapsed() < std::time::Duration::from_millis(5) {}
    let b = clock.now();
    assert!(b >= a + 1);
}
