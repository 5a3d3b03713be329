//! The hardware watchdog that the task watchdog feeds.
use vstd::prelude::*;

verus! {

/// The reason for the last system reset.
#[derive(Debug, Clone, Copy, PartialEq, Eq, Structural)]
pub enum ResetReason {
    /// Reset was forced by software.
    Forced,
    /// Reset was caused by a watchdog timeout.
    TimedOut,
}

/// A call made on a hardware watchdog.
pub enum HardwareCall {
    /// `HardwareWatchdog::start` with this timeout, in milliseconds.
    Start(u64),
    /// `HardwareWatchdog::feed`.
    Feed,
    /// `HardwareWatchdog::trigger_reset`.
    TriggerReset,
}

/// A hardware-level watchdog that can be fed and can reset the system.
///
/// `reported_reason` is the reset reason that the hardware holds, which
/// `reset_reason` reports. A verified implementation defines it; the default
/// leaves it unspecified (an arbitrary function of the implementation's
/// state), so an implementation that does not define it is trusted to report
/// the reason that its hardware holds.
pub trait HardwareWatchdog {
    /// The reason for the last reset that the hardware holds.
    closed spec fn reported_reason(&self) -> Option<ResetReason> {
        vstd::pervasive::arbitrary::<spec_fn(&Self) -> Option<ResetReason>>()(self)
    }

    /// Start the hardware watchdog with the given timeout, in milliseconds.
    fn start(&mut self, timeout_ms: u64);

    /// Feed the hardware watchdog to prevent a system reset.
    fn feed(&mut self);

    /// Trigger a hardware reset. On real hardware this does not return.
    fn trigger_reset(&mut self);

    /// The reason for the last reset, if the hardware records it.
    fn reset_reason(&self) -> (reason: Option<ResetReason>)
        ensures
            reason == self.reported_reason(),
    ;
}

/// A hardware watchdog together with the record of the calls made on it.
///
/// The task watchdogs reach their hardware watchdog only through this type,
/// whose fields no other module can touch: each of its operations makes one
/// call on the hardware watchdog and adds that call to the record.
pub struct Hardware<W: HardwareWatchdog> {
    device: W,
    calls: Ghost<Seq<HardwareCall>>,
}

impl<W: HardwareWatchdog> Hardware<W> {
    /// The hardware watchdog.
    pub closed spec fn device(&self) -> W {
        self.device
    }

    /// The calls made on the hardware watchdog so far, oldest first.
    pub closed spec fn calls(&self) -> Seq<HardwareCall> {
        self.calls@
    }

    /// Takes charge of `device`, on which no call has been made yet.
    pub fn new(device: W) -> (hardware: Self)
        ensures
            hardware.device() == device,
            hardware.calls() == Seq::<HardwareCall>::empty(),
    {
        Hardware { device, calls: Ghost(Seq::empty()) }
    }

    /// Starts the hardware watchdog with the given timeout, in milliseconds.
    pub fn start(&mut self, timeout_ms: u64)
        ensures
            final(self).calls() == old(self).calls().push(HardwareCall::Start(timeout_ms)),
    {
        self.device.start(timeout_ms);
        self.calls = Ghost(self.calls@.push(HardwareCall::Start(timeout_ms)));
    }

    /// Feeds the hardware watchdog.
    pub fn feed(&mut self)
        ensures
            final(self).calls() == old(self).calls().push(HardwareCall::Feed),
    {
        self.device.feed();
        self.calls = Ghost(self.calls@.push(HardwareCall::Feed));
    }

    /// Tells the hardware watchdog to reset the system.
    pub fn trigger_reset(&mut self)
        ensures
            final(self).calls() == old(self).calls().push(HardwareCall::TriggerReset),
    {
        self.device.trigger_reset();
        self.calls = Ghost(self.calls@.push(HardwareCall::TriggerReset));
    }

    /// The reason for the last reset, as the hardware watchdog reports it.
    pub fn reset_reason(&self) -> (reason: Option<ResetReason>)
        ensures
            reason == self.device().reported_reason(),
    {
        self.device.reset_reason()
    }
}

/// A timeout of `timeout_ms` milliseconds expressed in microseconds, for
/// watchdog peripherals whose timeout register holds a `u32` count of
/// microseconds; `None` when the count does not fit in a `u32`.
pub fn timeout_micros_u32(timeout_ms: u64) -> (micros: Option<u32>)
    ensures
        micros == (if timeout_ms * 1000 <= u32::MAX {
            Some((timeout_ms * 1000) as u32)
        } else {
            None::<u32>
        }),
{
    if timeout_ms <= 4294967 {
        let m: u64 = timeout_ms * 1000;
        Some(m as u32)
    } else {
        None
    }
}

} // verus!
