//! Capture-session state: the one-at-a-time guard around the platform
//! capture handler, the frame counter, and the last delivered frame kept
//! for late queries. The platform capture API itself runs with the
//! caller, who feeds arrived frames in and checks the stop flag on each.

use vstd::prelude::*;
use crate::flag::BusyFlag;

verus! {

/// State of one screen-capture session.
pub struct CaptureSession {
    running: BusyFlag,
    frame_count: u64,
    last_frame: Option<String>,
}

impl CaptureSession {
    /// Whether a capture is running.
    pub closed spec fn is_capturing(&self) -> bool {
        self.running.is_held()
    }

    /// Frames delivered so far (wrapping).
    pub closed spec fn spec_frame_count(&self) -> u64 {
        self.frame_count
    }

    /// The last delivered frame, as the handler encoded it.
    pub closed spec fn spec_last_frame(&self) -> Option<Seq<char>> {
        match self.last_frame {
            Some(f) => Some(f@),
            None => None,
        }
    }

    /// An idle session.
    pub fn new() -> (r: Self)
        ensures
            !r.is_capturing(),
            r.spec_frame_count() == 0,
            r.spec_last_frame() is None,
    {
        CaptureSession { running: BusyFlag::new(), frame_count: 0, last_frame: None }
    }

    /// Claims the capture slot; fails while a capture is already running.
    pub fn start_capture(&mut self) -> (ok: bool)
        ensures
            final(self).is_capturing(),
            ok <==> !old(self).is_capturing(),
            final(self).spec_frame_count() == old(self).spec_frame_count(),
            final(self).spec_last_frame() == old(self).spec_last_frame(),
    {
        self.running.try_acquire()
    }

    /// Signals the capture to stop; the handler notices at the next frame.
    pub fn stop_capture(&mut self)
        ensures
            !final(self).is_capturing(),
            final(self).spec_frame_count() == old(self).spec_frame_count(),
            final(self).spec_last_frame() == old(self).spec_last_frame(),
    {
        self.running.release();
    }

    /// Whether the handler should go on, checked once per arrived frame.
    pub fn keep_running(&self) -> (r: bool)
        ensures
            r == self.is_capturing(),
    {
        self.running.is_set()
    }

    /// Records one delivered frame: the counter advances (wrapping) and
    /// the frame is kept for late queries.
    pub fn on_frame_arrived(&mut self, frame: String)
        ensures
            final(self).spec_frame_count() == old(self).spec_frame_count().wrapping_add(1),
            final(self).spec_last_frame() == Some(frame@),
            final(self).is_capturing() == old(self).is_capturing(),
    {
        self.frame_count = self.frame_count.wrapping_add(1);
        self.last_frame = Some(frame);
    }

    /// The capture API closed the session: the running flag falls so a
    /// later start can succeed. Returns the frame count for the caller's
    /// report.
    pub fn on_closed(&mut self) -> (count: u64)
        ensures
            !final(self).is_capturing(),
            count == old(self).spec_frame_count(),
            final(self).spec_frame_count() == old(self).spec_frame_count(),
            final(self).spec_last_frame() == old(self).spec_last_frame(),
    {
        self.running.release();
        self.frame_count
    }

    /// A copy of the last delivered frame, if one arrived yet.
    pub fn get_last_frame(&self) -> (r: Option<String>)
        ensures
            match r {
                Some(f) => self.spec_last_frame() == Some(f@),
                None => self.spec_last_frame() is None,
            },
    {
        match &self.last_frame {
            Some(f) => Some(f.clone()),
            None => None,
        }
    }

    /// The frame counter.
    pub fn frame_count(&self) -> (r: u64)
        ensures
            r == self.spec_frame_count(),
    {
        self.frame_count
    }
}

} // verus!
