//! Stream-driver state: the sender's paced capture-encode-send loop and
//! the receiver's decode-emit loop, as controllers the loops consult.
//!
//! The loops themselves live with the caller, who owns the sockets, the
//! capture source and the codec. The controllers keep what the loops
//! decide by: the one-at-a-time start guard, the wrapping sequence and
//! frame counters, the decimated error logging, the per-tick time
//! budget, the capture-recovery threshold, and the receiver's minimum
//! interval between emitted frames (a burst of completed frames is
//! superseded, never queued).

use vstd::prelude::*;
use crate::flag::BusyFlag;

verus! {

/// Width of the outgoing stream in pixels.
pub const STREAM_WIDTH: usize = 640;

/// Height of the outgoing stream in pixels.
pub const STREAM_HEIGHT: usize = 360;

/// Least milliseconds between two frames handed to the presentation layer.
pub const EMIT_INTERVAL_MS: u64 = 33;

/// Milliseconds without a frame after which the capture source is
/// reopened.
pub const CAPTURE_RECOVERY_MS: u64 = 2000;

/// Every how many occurrences a recurring event is worth logging.
pub const LOG_DECIMATION: u32 = 30;

/// A second start while streaming is refused, not queued.
#[derive(Clone, Copy, PartialEq, Eq, Structural, Debug)]
pub enum StreamError {
    AlreadyStreaming,
    AlreadyReceiving,
}

/// Sender-side stream state: Idle or Streaming, plus the counters the
/// paced loop advances.
pub struct StreamSender {
    running: BusyFlag,
    sequence: u32,
    frames_sent: u32,
    encode_errors: u32,
    last_h264: Option<Vec<u8>>,
    last_jpeg: Option<Vec<u8>>,
}

impl StreamSender {
    /// Whether the paced loop is running.
    pub closed spec fn is_streaming(&self) -> bool {
        self.running.is_held()
    }

    /// The sequence the next frame will carry.
    pub closed spec fn spec_sequence(&self) -> u32 {
        self.sequence
    }

    /// Frames sent since creation (wrapping).
    pub closed spec fn spec_frames_sent(&self) -> u32 {
        self.frames_sent
    }

    /// Encode failures seen (wrapping).
    pub closed spec fn spec_encode_errors(&self) -> u32 {
        self.encode_errors
    }

    /// The most recent encoded frame kept for late queries.
    pub closed spec fn spec_last_h264(&self) -> Option<Seq<u8>> {
        match self.last_h264 {
            Some(f) => Some(f@),
            None => None,
        }
    }

    /// The most recent preview image kept for late queries.
    pub closed spec fn spec_last_jpeg(&self) -> Option<Seq<u8>> {
        match self.last_jpeg {
            Some(f) => Some(f@),
            None => None,
        }
    }

    /// An idle sender.
    pub fn new() -> (r: Self)
        ensures
            !r.is_streaming(),
            r.spec_sequence() == 0,
            r.spec_frames_sent() == 0,
            r.spec_encode_errors() == 0,
            r.spec_last_h264() is None,
            r.spec_last_jpeg() is None,
    {
        StreamSender {
            running: BusyFlag::new(),
            sequence: 0,
            frames_sent: 0,
            encode_errors: 0,
            last_h264: None,
            last_jpeg: None,
        }
    }

    /// Moves Idle to Streaming; a second start is a conflict, reported
    /// and not queued.
    pub fn start_stream(&mut self) -> (r: Result<(), StreamError>)
        ensures
            final(self).is_streaming(),
            r is Ok <==> !old(self).is_streaming(),
            r is Err ==> r == Err::<(), StreamError>(StreamError::AlreadyStreaming) && *final(self)
                == *old(self),
            final(self).spec_sequence() == old(self).spec_sequence(),
            final(self).spec_frames_sent() == old(self).spec_frames_sent(),
            final(self).spec_encode_errors() == old(self).spec_encode_errors(),
            final(self).spec_last_h264() == old(self).spec_last_h264(),
            final(self).spec_last_jpeg() == old(self).spec_last_jpeg(),
    {
        if self.running.try_acquire() {
            Ok(())
        } else {
            Err(StreamError::AlreadyStreaming)
        }
    }

    /// Signals the loop to stop; it notices at its next tick.
    pub fn stop_stream(&mut self)
        ensures
            !final(self).is_streaming(),
            final(self).spec_sequence() == old(self).spec_sequence(),
            final(self).spec_frames_sent() == old(self).spec_frames_sent(),
            final(self).spec_encode_errors() == old(self).spec_encode_errors(),
            final(self).spec_last_h264() == old(self).spec_last_h264(),
            final(self).spec_last_jpeg() == old(self).spec_last_jpeg(),
    {
        self.running.release();
    }

    /// Whether the loop should keep going, checked once per tick.
    pub fn keep_running(&self) -> (r: bool)
        ensures
            r == self.is_streaming(),
    {
        self.running.is_set()
    }

    /// Accounts for one frame sent: the sequence and the frame counter
    /// advance (wrapping at the 32-bit boundary, as the wire format
    /// does). True when this frame is one worth logging.
    pub fn on_frame_sent(&mut self) -> (log: bool)
        ensures
            final(self).spec_sequence() == old(self).spec_sequence().wrapping_add(1),
            final(self).spec_frames_sent() == old(self).spec_frames_sent().wrapping_add(1),
            log == (final(self).spec_sequence() % LOG_DECIMATION == 0),
            final(self).is_streaming() == old(self).is_streaming(),
            final(self).spec_encode_errors() == old(self).spec_encode_errors(),
            final(self).spec_last_h264() == old(self).spec_last_h264(),
            final(self).spec_last_jpeg() == old(self).spec_last_jpeg(),
    {
        self.sequence = self.sequence.wrapping_add(1);
        self.frames_sent = self.frames_sent.wrapping_add(1);
        self.sequence % LOG_DECIMATION == 0
    }

    /// A failed transmission is a soft failure for that frame alone:
    /// the sequence still advances, so the next frame's datagrams are
    /// never mistaken for this one's, but nothing counts as sent.
    pub fn on_send_failure(&mut self)
        ensures
            final(self).spec_sequence() == old(self).spec_sequence().wrapping_add(1),
            final(self).spec_frames_sent() == old(self).spec_frames_sent(),
            final(self).is_streaming() == old(self).is_streaming(),
            final(self).spec_encode_errors() == old(self).spec_encode_errors(),
            final(self).spec_last_h264() == old(self).spec_last_h264(),
            final(self).spec_last_jpeg() == old(self).spec_last_jpeg(),
    {
        self.sequence = self.sequence.wrapping_add(1);
    }

    /// The sequence to stamp on the next frame's datagrams.
    pub fn current_sequence(&self) -> (r: u32)
        ensures
            r == self.spec_sequence(),
    {
        self.sequence
    }

    /// Accounts for one encode failure, non-fatal by design. True when
    /// this one is worth logging (first of every [`LOG_DECIMATION`]).
    pub fn on_encode_failure(&mut self) -> (log: bool)
        ensures
            final(self).spec_encode_errors() == old(self).spec_encode_errors().wrapping_add(1),
            log == (final(self).spec_encode_errors() % LOG_DECIMATION == 1),
            final(self).is_streaming() == old(self).is_streaming(),
            final(self).spec_sequence() == old(self).spec_sequence(),
            final(self).spec_frames_sent() == old(self).spec_frames_sent(),
            final(self).spec_last_h264() == old(self).spec_last_h264(),
            final(self).spec_last_jpeg() == old(self).spec_last_jpeg(),
    {
        self.encode_errors = self.encode_errors.wrapping_add(1);
        self.encode_errors % LOG_DECIMATION == 1
    }

    /// Keeps the latest encoded frame for late queries.
    pub fn set_last_h264(&mut self, frame: Vec<u8>)
        ensures
            final(self).spec_last_h264() == Some(frame@),
            final(self).is_streaming() == old(self).is_streaming(),
            final(self).spec_sequence() == old(self).spec_sequence(),
            final(self).spec_frames_sent() == old(self).spec_frames_sent(),
            final(self).spec_encode_errors() == old(self).spec_encode_errors(),
            final(self).spec_last_jpeg() == old(self).spec_last_jpeg(),
    {
        self.last_h264 = Some(frame);
    }

    /// Keeps the latest preview image for late queries.
    pub fn set_last_jpeg(&mut self, frame: Vec<u8>)
        ensures
            final(self).spec_last_jpeg() == Some(frame@),
            final(self).is_streaming() == old(self).is_streaming(),
            final(self).spec_sequence() == old(self).spec_sequence(),
            final(self).spec_frames_sent() == old(self).spec_frames_sent(),
            final(self).spec_encode_errors() == old(self).spec_encode_errors(),
            final(self).spec_last_h264() == old(self).spec_last_h264(),
    {
        self.last_jpeg = Some(frame);
    }

    /// A copy of the latest preview image, if any frame arrived yet.
    pub fn last_jpeg_frame(&self) -> (r: Option<Vec<u8>>)
        ensures
            match r {
                Some(f) => self.spec_last_jpeg() == Some(f@),
                None => self.spec_last_jpeg() is None,
            },
    {
        match &self.last_jpeg {
            Some(f) => Some(vstd::slice::slice_to_vec(f.as_slice())),
            None => None,
        }
    }

    /// The frames-sent counter, for status queries.
    pub fn frames_sent(&self) -> (r: u32)
        ensures
            r == self.spec_frames_sent(),
    {
        self.frames_sent
    }
}

/// Microseconds each frame may take at the requested rate.
pub fn frame_interval_micros(fps: u32) -> (r: u64)
    requires
        0 < fps,
    ensures
        r == 1_000_000u64 / fps as u64,
{
    1_000_000u64 / fps as u64
}

/// What is left of the tick budget after the work took `elapsed`: sleep
/// this long, or proceed at once when the budget is spent — overdue
/// frames are dropped, never queued.
pub fn remaining_budget_micros(interval: u64, elapsed: u64) -> (r: u64)
    ensures
        r == if elapsed < interval {
            interval - elapsed
        } else {
            0
        },
{
    if elapsed < interval {
        interval - elapsed
    } else {
        0
    }
}

/// Whether the capture source has been silent long enough to reopen it.
pub fn should_reinit_capture(ms_since_last_frame: u64) -> (r: bool)
    ensures
        r == (ms_since_last_frame > CAPTURE_RECOVERY_MS),
{
    ms_since_last_frame > CAPTURE_RECOVERY_MS
}

/// Receiver-side stream state: the run guard and the emit throttle.
pub struct StreamReceiver {
    running: BusyFlag,
    last_emit_ms: u64,
}

impl StreamReceiver {
    /// Whether the receive loop is running.
    pub closed spec fn is_receiving(&self) -> bool {
        self.running.is_held()
    }

    /// When (caller's monotonic milliseconds) a frame was last emitted.
    pub closed spec fn spec_last_emit_ms(&self) -> u64 {
        self.last_emit_ms
    }

    /// An idle receiver.
    pub fn new() -> (r: Self)
        ensures
            !r.is_receiving(),
            r.spec_last_emit_ms() == 0,
    {
        StreamReceiver { running: BusyFlag::new(), last_emit_ms: 0 }
    }

    /// Moves Idle to Receiving; a second start is a conflict.
    pub fn start_receiver(&mut self) -> (r: Result<(), StreamError>)
        ensures
            final(self).is_receiving(),
            r is Ok <==> !old(self).is_receiving(),
            r is Err ==> r == Err::<(), StreamError>(StreamError::AlreadyReceiving),
            final(self).spec_last_emit_ms() == old(self).spec_last_emit_ms(),
    {
        if self.running.try_acquire() {
            Ok(())
        } else {
            Err(StreamError::AlreadyReceiving)
        }
    }

    /// Signals the receive loop to stop.
    pub fn stop_receiver(&mut self)
        ensures
            !final(self).is_receiving(),
            final(self).spec_last_emit_ms() == old(self).spec_last_emit_ms(),
    {
        self.running.release();
    }

    /// Whether the loop should keep going, checked at its poll cadence.
    pub fn keep_running(&self) -> (r: bool)
        ensures
            r == self.is_receiving(),
    {
        self.running.is_set()
    }

    /// Whether a completed frame may be emitted now: at most one per
    /// [`EMIT_INTERVAL_MS`]. Frames completed in between are superseded
    /// by the next one, never queued. Emitting advances the throttle.
    pub fn should_emit(&mut self, now_ms: u64) -> (r: bool)
        ensures
            r == (now_ms >= old(self).spec_last_emit_ms() + EMIT_INTERVAL_MS),
            r ==> final(self).spec_last_emit_ms() == now_ms,
            !r ==> final(self).spec_last_emit_ms() == old(self).spec_last_emit_ms(),
            final(self).is_receiving() == old(self).is_receiving(),
    {
        if now_ms >= EMIT_INTERVAL_MS && now_ms - EMIT_INTERVAL_MS >= self.last_emit_ms {
            self.last_emit_ms = now_ms;
            true
        } else {
            false
        }
    }
}

} // verus!
