//! Which rate-limit window a reported window is, by its length.
use vstd::prelude::*;

verus! {

/// The length, in minutes, of the five-hour window.
pub const FIVE_HOUR_MINS: u64 = 300;

/// The length, in minutes, of the weekly window.
pub const WEEKLY_MINS: u64 = 10080;

/// The windows the interface shows.
#[derive(Debug, PartialEq, Eq, Structural, Clone, Copy)]
pub enum LimitWindowKind {
    FiveHour,
    Weekly,
}

/// The window a length stands for; other lengths are not shown.
pub open spec fn spec_window_kind(minutes: u64) -> Option<LimitWindowKind> {
    if minutes == FIVE_HOUR_MINS {
        Some(LimitWindowKind::FiveHour)
    } else if minutes == WEEKLY_MINS {
        Some(LimitWindowKind::Weekly)
    } else {
        None
    }
}

/// The window a length stands for.
pub fn window_kind(minutes: u64) -> (k: Option<LimitWindowKind>)
    ensures
        k == spec_window_kind(minutes),
{
    if minutes == FIVE_HOUR_MINS {
        Some(LimitWindowKind::FiveHour)
    } else if minutes == WEEKLY_MINS {
        Some(LimitWindowKind::Weekly)
    } else {
        None
    }
}

/// The last of the reported windows (`None`: not readable) that is of `kind`.
pub open spec fn last_of_kind(lengths: Seq<Option<u64>>, kind: LimitWindowKind) -> Option<int>
    decreases lengths.len(),
{
    if lengths.len() == 0 {
        None
    } else if lengths.last() matches Some(m) && spec_window_kind(m) == Some(kind) {
        Some(lengths.len() - 1)
    } else {
        last_of_kind(lengths.drop_last(), kind)
    }
}

/// Which reported window fills each shown window.
#[derive(Debug, PartialEq, Eq, Structural, Clone, Copy)]
pub struct WindowSlots {
    pub five_hour: Option<usize>,
    pub weekly: Option<usize>,
}

/// Assigns the reported windows, in order, to the shown ones by their lengths; a later
/// window of the same length replaces an earlier one.
pub fn assign_windows(lengths: &[Option<u64>]) -> (slots: WindowSlots)
    ensures
        slots.five_hour matches Some(i) ==> last_of_kind(lengths@, LimitWindowKind::FiveHour)
            == Some(i as int),
        slots.five_hour is None ==> last_of_kind(lengths@, LimitWindowKind::FiveHour) is None,
        slots.weekly matches Some(i) ==> last_of_kind(lengths@, LimitWindowKind::Weekly) == Some(
            i as int,
        ),
        slots.weekly is None ==> last_of_kind(lengths@, LimitWindowKind::Weekly) is None,
{
    let mut slots = WindowSlots { five_hour: None, weekly: None };
    let n = lengths.len();
    let mut i: usize = 0;
    while i < n
        invariant
            n == lengths@.len(),
            i <= n,
            slots.five_hour matches Some(k) ==> last_of_kind(
                lengths@.take(i as int),
                LimitWindowKind::FiveHour,
            ) == Some(k as int),
            slots.five_hour is None ==> last_of_kind(
                lengths@.take(i as int),
                LimitWindowKind::FiveHour,
            ) is None,
            slots.weekly matches Some(k) ==> last_of_kind(
                lengths@.take(i as int),
                LimitWindowKind::Weekly,
            ) == Some(k as int),
            slots.weekly is None ==> last_of_kind(lengths@.take(i as int), LimitWindowKind::Weekly)
                is None,
        decreases n - i,
    {
        assert(lengths@.take(i + 1).drop_last() =~= lengths@.take(i as int));
        assert(lengths@.take(i + 1).last() == lengths@[i as int]);
        if let Some(m) = lengths[i] {
            match window_kind(m) {
                Some(LimitWindowKind::FiveHour) => {
                    slots.five_hour = Some(i);
                },
                Some(LimitWindowKind::Weekly) => {
                    slots.weekly = Some(i);
                },
                None => {},
            }
        }
        i = i + 1;
    }
    assert(lengths@.take(n as int) =~= lengths@);
    slots
}

} // verus!
