//! When the daemon asks the archive for new images.
//!
//! Times are nanoseconds on a monotonic clock, counted from any fixed origin.
use vstd::prelude::*;

verus! {

/// Nanoseconds in a second.
pub const NANOS_PER_SEC: u64 = 1_000_000_000;

/// Seconds in an hour.
pub const SECS_PER_HOUR: u64 = 3600;

/// The time since `last`, zero when the clock reads earlier than `last`.
pub open spec fn elapsed(last: u64, now: u64) -> int {
    if now >= last {
        now - last
    } else {
        0
    }
}

/// The refresh clock of the daemon.
pub struct RefreshSchedule {
    /// Time between two downloads of the image list, in seconds.
    pub refresh_interval_secs: u64,
    /// When the image list was last fetched; `None` before the first fetch,
    /// which is due at once.
    pub last_download: Option<u64>,
}

impl RefreshSchedule {
    /// Whether a refresh is due at `now`: no list has been fetched yet, or at
    /// least the interval has passed since the last fetch.
    pub open spec fn refresh_due(self, now: u64) -> bool {
        match self.last_download {
            None => true,
            Some(last) => elapsed(last, now) >= self.refresh_interval_secs * NANOS_PER_SEC,
        }
    }

    /// A schedule that refreshes every `refresh_interval_hours` hours, with the
    /// first refresh due at once.
    pub fn new(refresh_interval_hours: u64) -> (s: RefreshSchedule)
        requires
            refresh_interval_hours * SECS_PER_HOUR <= u64::MAX,
        ensures
            s.refresh_interval_secs == refresh_interval_hours * SECS_PER_HOUR,
            s.last_download is None,
    {
        RefreshSchedule {
            refresh_interval_secs: refresh_interval_hours * SECS_PER_HOUR,
            last_download: None,
        }
    }

    /// Whether the image list should be fetched at `now`.
    pub fn should_refresh(&self, now: u64) -> (due: bool)
        ensures
            due == self.refresh_due(now),
    {
        match self.last_download {
            None => true,
            Some(last) => {
                let e = if now >= last {
                    now - last
                } else {
                    0
                };
                let secs = e / NANOS_PER_SEC;
                let interval = self.refresh_interval_secs;
                proof {
                    assert(e as int >= interval * NANOS_PER_SEC <==> secs >= interval)
                        by (nonlinear_arith)
                        requires
                            secs == e / NANOS_PER_SEC,
                            NANOS_PER_SEC == 1_000_000_000,
                    ;
                }
                secs >= interval
            },
        }
    }

    /// Records that the image list was fetched at `now`.
    pub fn record_download(&mut self, now: u64)
        ensures
            final(self).last_download == Some(now),
            final(self).refresh_interval_secs == old(self).refresh_interval_secs,
    {
        self.last_download = Some(now);
    }
}

/// Once a refresh is due it stays due until the next fetch is recorded.
pub proof fn lemma_refresh_due_monotonic(s: RefreshSchedule, t1: u64, t2: u64)
    requires
        t1 <= t2,
        s.refresh_due(t1),
    ensures
        s.refresh_due(t2),
{
}

/// Right after a fetch at `now`, the next one is due exactly when the interval
/// has passed: not before `now + interval`, and from then on.
pub proof fn lemma_refresh_after_download(s: RefreshSchedule, now: u64, later: u64)
    requires
        s.last_download == Some(now),
        now <= later,
    ensures
        s.refresh_due(later) <==> later - now >= s.refresh_interval_secs * NANOS_PER_SEC,
        s.refresh_interval_secs > 0 ==> !s.refresh_due(now),
{
    assert(s.refresh_interval_secs > 0 ==> s.refresh_interval_secs * NANOS_PER_SEC > 0)
        by (nonlinear_arith);
}

} // verus!
