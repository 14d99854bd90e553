//! Per-session recording lifecycle signals.
//!
//! A session owns its own stop and clear flags instead of process-wide
//! state: the recording flag goes from off to on once and from on to off
//! once, and the one-shot clear request is consumed by exactly one reader.

use vstd::prelude::*;

verus! {

/// The stop and clear signals of one capture session.
pub struct RecordingLifecycle {
    recording: bool,
    stopped: bool,
    clear_requested: bool,
}

impl RecordingLifecycle {
    /// The capture thread should keep running.
    pub closed spec fn is_recording(&self) -> bool {
        self.recording
    }

    /// The stop signal has fired; it cannot fire or be undone again.
    pub closed spec fn is_stopped(&self) -> bool {
        self.stopped
    }

    /// A reset of accumulated recognizer state is pending.
    pub closed spec fn is_clear_requested(&self) -> bool {
        self.clear_requested
    }

    /// A stopped session no longer records, so the recording flag can fall
    /// only once.
    pub open spec fn wf(&self) -> bool {
        self.is_stopped() ==> !self.is_recording()
    }

    pub fn new() -> (r: Self)
        ensures
            r.wf(),
            !r.is_recording(),
            !r.is_stopped(),
            !r.is_clear_requested(),
    {
        RecordingLifecycle { recording: false, stopped: false, clear_requested: false }
    }

    /// Arms the session: recording turns on.  A session that has already
    /// stopped cannot be restarted.
    pub fn start(&mut self)
        requires
            old(self).wf(),
            !old(self).is_recording(),
            !old(self).is_stopped(),
        ensures
            final(self).wf(),
            final(self).is_recording(),
            !final(self).is_stopped(),
            final(self).is_clear_requested() == old(self).is_clear_requested(),
    {
        self.recording = true;
    }

    /// Fires the stop signal: recording turns off, once and for all.  The
    /// precondition admits only a running session, so the transition from on
    /// to off happens exactly once per session.
    pub fn request_stop(&mut self)
        requires
            old(self).wf(),
            old(self).is_recording(),
        ensures
            final(self).wf(),
            !final(self).is_recording(),
            final(self).is_stopped(),
            final(self).is_clear_requested() == old(self).is_clear_requested(),
    {
        self.recording = false;
        self.stopped = true;
    }

    /// What the supervisory thread polls: whether capture should go on.
    pub fn should_continue(&self) -> (r: bool)
        ensures
            r == self.is_recording(),
    {
        self.recording
    }

    /// Raises the one-shot clear request.
    pub fn request_clear(&mut self)
        requires
            old(self).wf(),
        ensures
            final(self).wf(),
            final(self).is_clear_requested(),
            final(self).is_recording() == old(self).is_recording(),
            final(self).is_stopped() == old(self).is_stopped(),
    {
        self.clear_requested = true;
    }

    /// Consumes the clear request: returns whether it was pending and lowers
    /// it, so a single consumer observes each request exactly once.
    pub fn consume_clear(&mut self) -> (r: bool)
        requires
            old(self).wf(),
        ensures
            final(self).wf(),
            r == old(self).is_clear_requested(),
            !final(self).is_clear_requested(),
            final(self).is_recording() == old(self).is_recording(),
            final(self).is_stopped() == old(self).is_stopped(),
    {
        let r = self.clear_requested;
        self.clear_requested = false;
        r
    }
}

} // verus!
