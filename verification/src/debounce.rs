//! Debounced persistence of window state: move and resize events persist at
//! most once per interval; a close event always persists.
use vstd::prelude::*;

verus! {

/// The debounce interval in milliseconds.
pub const DEBOUNCE_MS: u64 = 500;

#[derive(Debug, Clone, Copy, PartialEq, Eq, Structural)]
pub enum WindowEvent {
    Moved,
    Resized,
    CloseRequested,
}

/// Whether an event at `now_ms` persists, given the last persisted write.
/// A close always does; a move or resize only after more than the debounce
/// interval has passed.
pub open spec fn spec_should_persist(last_save_ms: u64, now_ms: u64, event: WindowEvent) -> bool {
    if event is CloseRequested {
        true
    } else {
        now_ms - last_save_ms > DEBOUNCE_MS
    }
}

/// The last-persisted timestamp, updated atomically with the decision to
/// persist. Held under the same lock as the state it guards.
#[derive(Debug, Clone, Copy, PartialEq, Eq, Structural)]
pub struct SaveDebouncer {
    pub last_save_ms: u64,
}

impl SaveDebouncer {
    /// A fresh debouncer: the startup instant counts as the last write, so
    /// events in the first interval after startup do not persist.
    pub fn new(now_ms: u64) -> (r: SaveDebouncer)
        ensures
            r.last_save_ms == now_ms,
    {
        SaveDebouncer { last_save_ms: now_ms }
    }

    /// Decides whether this event persists, and records the write when a
    /// move or resize does. A close persists unconditionally and leaves the
    /// timer untouched.
    pub fn on_event(&mut self, now_ms: u64, event: WindowEvent) -> (persist: bool)
        requires
            old(self).last_save_ms <= now_ms,
        ensures
            persist == spec_should_persist(old(self).last_save_ms, now_ms, event),
            event is CloseRequested ==> *final(self) == *old(self),
            !(event is CloseRequested) && persist ==> final(self).last_save_ms == now_ms,
            !(event is CloseRequested) && !persist ==> *final(self) == *old(self),
    {
        match event {
            WindowEvent::CloseRequested => true,
            WindowEvent::Moved | WindowEvent::Resized => {
                if now_ms - self.last_save_ms > DEBOUNCE_MS {
                    self.last_save_ms = now_ms;
                    true
                } else {
                    false
                }
            },
        }
    }
}

/// Law: two move or resize events less than the debounce interval apart
/// yield exactly one persisted write — when the first persists, the second
/// cannot.
pub proof fn lemma_debounce_coalesces(last: u64, t1: u64, t2: u64, e1: WindowEvent, e2: WindowEvent)
    requires
        last <= t1 <= t2,
        t2 - t1 <= DEBOUNCE_MS,
        !(e1 is CloseRequested),
        !(e2 is CloseRequested),
        spec_should_persist(last, t1, e1),
    ensures
        !spec_should_persist(t1, t2, e2),
{
}

/// Law: a close event persists whatever the timing.
pub proof fn lemma_close_always_persists(last: u64, now: u64)
    ensures
        spec_should_persist(last, now, WindowEvent::CloseRequested),
{
}

} // verus!
