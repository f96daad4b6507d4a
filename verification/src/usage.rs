//! When the rate limits are read again.
use vstd::prelude::*;

verus! {

/// The longest wait between two readings: the limits are calibrated every five minutes.
pub const CALIBRATION_SECS: u64 = 300;

/// How long to let a burst of change notifications settle before reading.
pub const SETTLE_SECS: u64 = 3;

/// What ended a wait of the usage reader (of at most [`CALIBRATION_SECS`]).
#[derive(Debug, PartialEq, Eq, Structural, Clone, Copy)]
pub enum UsageWake {
    /// A change was notified: a session ended, the root stopped, or the app server reported new
    /// limits.
    Notified,
    /// The calibration period passed without notice.
    TimedOut,
    /// Nobody can notify any more.
    Disconnected,
}

/// What the usage reader does next.
#[derive(Debug, PartialEq, Eq, Structural, Clone, Copy)]
pub enum UsageAction {
    /// Wait [`SETTLE_SECS`], drop the notices that came meanwhile, then read the limits.
    SettleThenRead,
    /// Read the limits now.
    Read,
    /// Stop reading.
    Stop,
}

/// What a wake asks for: a notice is read after it settles, a calibration is read at once,
/// and a closed channel stops the reader.
pub open spec fn spec_usage_step(w: UsageWake) -> UsageAction {
    match w {
        UsageWake::Notified => UsageAction::SettleThenRead,
        UsageWake::TimedOut => UsageAction::Read,
        UsageWake::Disconnected => UsageAction::Stop,
    }
}

/// What the usage reader does after a wake.
pub fn usage_step(w: UsageWake) -> (a: UsageAction)
    ensures
        a == spec_usage_step(w),
{
    match w {
        UsageWake::Notified => UsageAction::SettleThenRead,
        UsageWake::TimedOut => UsageAction::Read,
        UsageWake::Disconnected => UsageAction::Stop,
    }
}

} // verus!
