//! The reduction buffer: the intake side's append-only queue of raw
//! notifications, drained atomically by the scheduler, and the last-activity
//! clock cell. The two are separate values so that callers can guard each
//! independently; a caller that shares them across tasks holds each behind
//! its own lock and so gets the append/drain atomicity these contracts state
//! per call.

use vstd::prelude::*;

verus! {

use crate::normalize::RawNotification;

/// The intake queue: everything appended since the last drain, in arrival
/// order.
pub struct NotificationBuffer {
    pub items: Vec<RawNotification>,
}

impl NotificationBuffer {
    /// The buffered notifications, oldest first.
    pub open spec fn contents(self) -> Seq<RawNotification> {
        self.items@
    }

    pub fn new() -> (r: NotificationBuffer)
        ensures
            r.contents() == Seq::<RawNotification>::empty(),
    {
        NotificationBuffer { items: Vec::new() }
    }

    /// Appends one notification at the end; nothing buffered is lost or
    /// reordered.
    pub fn append(&mut self, n: RawNotification)
        ensures
            final(self).contents() == old(self).contents().push(n),
    {
        self.items.push(n);
    }

    /// Atomically hands out everything buffered, in arrival order, and
    /// leaves the buffer empty: no notification is seen by two drains, none
    /// appended before the drain is lost.
    pub fn drain_and_clear(&mut self) -> (r: Vec<RawNotification>)
        ensures
            r@ == old(self).contents(),
            final(self).contents() == Seq::<RawNotification>::empty(),
    {
        let mut out: Vec<RawNotification> = Vec::new();
        core::mem::swap(&mut self.items, &mut out);
        out
    }

    pub fn len(&self) -> (r: usize)
        ensures
            r == self.contents().len(),
    {
        self.items.len()
    }

    pub fn is_empty(&self) -> (r: bool)
        ensures
            r == (self.contents().len() == 0),
    {
        self.items.len() == 0
    }
}

/// The last-activity timestamp, in milliseconds of some monotonic clock:
/// written by the intake task on every arrival, read by the scheduler.
pub struct ActivityClock {
    pub last_activity_ms: u64,
}

impl ActivityClock {
    pub fn new(now_ms: u64) -> (r: ActivityClock)
        ensures
            r.last_activity_ms == now_ms,
    {
        ActivityClock { last_activity_ms: now_ms }
    }

    /// Records an arrival at `now_ms`.
    pub fn mark_activity(&mut self, now_ms: u64)
        ensures
            final(self).last_activity_ms == now_ms,
    {
        self.last_activity_ms = now_ms;
    }

    pub fn last_activity(&self) -> (r: u64)
        ensures
            r == self.last_activity_ms,
    {
        self.last_activity_ms
    }
}

} // verus!
