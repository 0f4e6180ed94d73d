//! How often the preview is told of a new project.

use vstd::prelude::*;

verus! {

/// The preview is told at most once in this time, in milliseconds.
pub const SYNC_EVERY_MS: u64 = 33;

/// A change that came too soon is told after this time.
pub const SYNC_DELAY_MS: u64 = 50;

/// After the delay a change is told unless one was told so recently.
pub const SYNC_RECENT_MS: u64 = 45;

/// When the preview was told last, if it was.
#[derive(Clone, Copy, Debug, PartialEq, Eq)]
pub struct SyncThrottle {
    pub last_ms: Option<u64>,
}

/// What to do with a change.
#[derive(Clone, Copy, Debug, PartialEq, Eq, Structural)]
pub enum SyncStep {
    /// Tell the preview now.
    Send,
    /// Tell it after [`SYNC_DELAY_MS`], in place of a change that waits
    /// already.
    Wait,
}

/// Whether at least `wait_ms` went by since the preview was told last.
pub open spec fn is_due(last_ms: Option<u64>, now_ms: u64, wait_ms: u64) -> bool {
    match last_ms {
        Some(last) => now_ms - last >= wait_ms,
        None => true,
    }
}

impl SyncThrottle {
    pub fn new() -> (t: Self)
        ensures
            t.last_ms is None,
    {
        SyncThrottle { last_ms: None }
    }

    fn due(&self, now_ms: u64, wait_ms: u64) -> (r: bool)
        ensures
            r == is_due(self.last_ms, now_ms, wait_ms),
    {
        match self.last_ms {
            Some(last) => now_ms as i128 - last as i128 >= wait_ms as i128,
            None => true,
        }
    }

    /// A change came in.
    pub fn request(&mut self, now_ms: u64) -> (step: SyncStep)
        ensures
            (step == SyncStep::Send) == is_due(old(self).last_ms, now_ms, SYNC_EVERY_MS),
            final(self).last_ms == if step == SyncStep::Send {
                Some(now_ms)
            } else {
                old(self).last_ms
            },
    {
        if self.due(now_ms, SYNC_EVERY_MS) {
            self.last_ms = Some(now_ms);
            SyncStep::Send
        } else {
            SyncStep::Wait
        }
    }

    /// The delay of a change is over. Tells whether to tell the preview.
    pub fn delay_over(&mut self, now_ms: u64) -> (send: bool)
        ensures
            send == is_due(old(self).last_ms, now_ms, SYNC_RECENT_MS),
            final(self).last_ms == if send {
                Some(now_ms)
            } else {
                old(self).last_ms
            },
    {
        if self.due(now_ms, SYNC_RECENT_MS) {
            self.last_ms = Some(now_ms);
            true
        } else {
            false
        }
    }
}

/// The preview is told of changes at most once in [`SYNC_EVERY_MS`].
pub proof fn lemma_updates_are_throttled(told_ms: u64, now_ms: u64)
    ensures
        is_due(Some(told_ms), now_ms, SYNC_EVERY_MS) ==> now_ms - told_ms >= SYNC_EVERY_MS,
        is_due(Some(told_ms), now_ms, SYNC_RECENT_MS) ==> now_ms - told_ms >= SYNC_EVERY_MS,
{
}

/// The last change is never lost: where a change that came at `asked_ms` is not
/// told once its delay is over, the preview was told after it had come.
pub proof fn lemma_last_change_is_told(asked_ms: u64, last_ms: Option<u64>, over_ms: u64)
    requires
        over_ms - asked_ms >= SYNC_DELAY_MS,
        !is_due(last_ms, over_ms, SYNC_RECENT_MS),
    ensures
        last_ms matches Some(last) && last > asked_ms,
{
}

} // verus!
