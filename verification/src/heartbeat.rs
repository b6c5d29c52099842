//! Keep-alive schedule of an open session: one heartbeat frame is owed
//! each fixed period, and the task stands down as soon as the session's
//! running flag is cleared.
use vstd::prelude::*;

verus! {

/// The heartbeat period: one keep-alive frame every 20 seconds.
pub const HEARTBEAT_PERIOD_MS: u64 = 20000;

/// When the next keep-alive is due. The schedule is driven by a caller
/// supplied clock: each tick hands in the current time in milliseconds.
pub struct Heartbeat {
    /// Milliseconds between two keep-alive frames.
    pub period_ms: u64,
    /// Clock reading at which the next frame is due.
    pub next_due_ms: u64,
    /// Whether the schedule is armed; cleared when the task stands down.
    pub active: bool,
}

impl Heartbeat {
    /// A disarmed schedule with the given period.
    pub fn new(period_ms: u64) -> (hb: Heartbeat)
        ensures
            hb.period_ms == period_ms,
            hb.next_due_ms == 0,
            !hb.active,
    {
        Heartbeat { period_ms, next_due_ms: 0, active: false }
    }

    /// Arms the schedule: the first frame falls due one period from `now_ms`.
    pub fn start(&mut self, now_ms: u64)
        ensures
            final(self).active,
            final(self).period_ms == old(self).period_ms,
            final(self).next_due_ms as int == if now_ms + old(self).period_ms > u64::MAX {
                u64::MAX as int
            } else {
                now_ms + old(self).period_ms
            },
    {
        self.active = true;
        self.next_due_ms = now_ms.saturating_add(self.period_ms);
    }

    /// One tick of the task under the caller's clock: with `running`
    /// cleared the schedule stands down without sending; otherwise a
    /// frame is owed exactly when the due time has been reached, and the
    /// next one falls due one period later.
    pub fn on_tick(&mut self, now_ms: u64, running: bool) -> (due: bool)
        ensures
            final(self).period_ms == old(self).period_ms,
            !running ==> !due && !final(self).active && final(self).next_due_ms == old(
                self,
            ).next_due_ms,
            running && !old(self).active ==> !due && *final(self) == *old(self),
            running && old(self).active ==> {
                &&& final(self).active
                &&& due == (now_ms >= old(self).next_due_ms)
                &&& final(self).next_due_ms as int == if due {
                    if old(self).next_due_ms + old(self).period_ms > u64::MAX {
                        u64::MAX as int
                    } else {
                        old(self).next_due_ms + old(self).period_ms
                    }
                } else {
                    old(self).next_due_ms as int
                }
            },
    {
        if !running {
            self.active = false;
            false
        } else if !self.active {
            false
        } else if now_ms >= self.next_due_ms {
            self.next_due_ms = self.next_due_ms.saturating_add(self.period_ms);
            true
        } else {
            false
        }
    }

    /// Disarms the schedule, as the task does after a failed send.
    pub fn stand_down(&mut self)
        ensures
            final(self).period_ms == old(self).period_ms,
            final(self).next_due_ms == old(self).next_due_ms,
            !final(self).active,
    {
        self.active = false;
    }
}

} // verus!
