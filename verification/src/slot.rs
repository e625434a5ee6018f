//! The shared "latest frame" slot.
//!
//! Each device owns one slot: its runner is the single writer, while API and
//! socket handlers read concurrently.  The slot is a reader-writer lock
//! around an optional frame, and a frame is only ever swapped in or out
//! whole — a reader can never observe a half-replaced frame, and the lock's
//! invariant guarantees that whatever a reader obtains is a well-formed
//! frame some writer stored in its entirety.

use vstd::prelude::*;
use vstd::rwlock::{RwLock, RwLockPredicate};

use crate::frame::MpptFrame;

verus! {

/// The slot's lock invariant: an occupied slot holds a well-formed frame
/// that was stamped at emission.
pub struct SlotInv {}

impl RwLockPredicate<Option<MpptFrame>> for SlotInv {
    open spec fn inv(self, v: Option<MpptFrame>) -> bool {
        match v {
            Some(f) => f@.wf() && f@.timestamp is Some,
            None => true,
        }
    }
}

/// Single-writer / multi-reader holder of the most recent telemetry frame.
pub struct TelemetrySlot {
    lock: RwLock<Option<MpptFrame>, SlotInv>,
}

impl TelemetrySlot {
    /// An empty slot: no frame has been published yet.
    pub fn new() -> TelemetrySlot {
        TelemetrySlot { lock: RwLock::new(None, Ghost(SlotInv {})) }
    }

    /// Publishes `f`, replacing whatever frame was there, whole.
    pub fn store(&self, f: MpptFrame)
        requires
            f@.wf(),
            f@.timestamp is Some,
    {
        let (_, handle) = self.lock.acquire_write();
        handle.release_write(Some(f));
    }

    /// A snapshot of the latest published frame: `None` until the first
    /// store; any frame returned is well formed and stamped, exactly as
    /// its writer published it.
    pub fn latest(&self) -> (r: Option<MpptFrame>)
        ensures
            r matches Some(f) ==> f@.wf() && f@.timestamp is Some,
    {
        let handle = self.lock.acquire_read();
        let copied: Option<MpptFrame> = match handle.borrow() {
            Some(f) => Some(f.duplicate()),
            None => None,
        };
        handle.release_read();
        copied
    }
}

impl Default for TelemetrySlot {
    /// Same as `TelemetrySlot::new`: a slot with no frame yet.
    fn default() -> TelemetrySlot {
        TelemetrySlot::new()
    }
}

} // verus!
