//! The direct (stream-connection) file transfer.
//!
//! One side sends the file bytes in order over a byte stream, the other
//! writes them to a backing file and verifies the SHA-256 digest at the
//! end. Both sides resume from a byte offset. The sessions here are the
//! state machines of those two loops: how much to read next, what a
//! read or write of `n` bytes means, when to report progress (every
//! five whole percent, and at completion), and when a closed connection
//! is premature. The sockets, files and timeouts stay with the caller;
//! a read that timed out is the caller's to classify as resumable,
//! exactly because these sessions keep their byte counts.

use vstd::prelude::*;
use crate::flag::BusyFlag;
use crate::digest::{sha256_of, sha256_hex};
use crate::text::hex_of;
use crate::transfer::spec_progress;

verus! {

/// The well-known port the receiving side listens on.
pub const TCP_FILE_PORT: u16 = 3003;

/// Buffer size for stream reads and writes (256 KiB).
pub const TCP_CHUNK_SIZE: usize = 262144;

/// Progress is reported again once it has grown by this many percent.
pub const PROGRESS_STEP: u32 = 5;

/// What one read step of the receive loop meant.
#[derive(Debug, PartialEq, Eq)]
pub enum TcpReadStep {
    /// The connection closed with bytes still missing; the transfer is
    /// resumable from the bytes already written.
    PrematureClose,
    /// Bytes arrived; report the carried progress, if any.
    Advanced(Option<u32>),
}

/// Whole-percent progress with the five-percent reporting rule: worth
/// reporting when it grew by [`PROGRESS_STEP`] or the transfer finished.
pub open spec fn spec_progress_event(done: int, size: int, last: int) -> Option<int> {
    let p = spec_progress(done, size);
    if p >= last + PROGRESS_STEP || done == size {
        Some(p)
    } else {
        None
    }
}

/// Receiver side of one direct transfer.
pub struct TcpReceiveSession {
    pub file_size: u64,
    pub bytes_received: u64,
    pub last_progress: u32,
}

impl TcpReceiveSession {
    /// Never more bytes than the file holds.
    pub open spec fn wf(&self) -> bool {
        self.bytes_received <= self.file_size && self.last_progress <= 100
    }

    /// A session resuming after `resume_offset` bytes already on disk.
    pub fn new(file_size: u64, resume_offset: u64) -> (r: Self)
        requires
            resume_offset <= file_size,
        ensures
            r.wf(),
            r.file_size == file_size,
            r.bytes_received == resume_offset,
            r.last_progress == 0,
    {
        TcpReceiveSession { file_size, bytes_received: resume_offset, last_progress: 0 }
    }

    /// Whether every byte has arrived.
    pub fn is_done(&self) -> (r: bool)
        ensures
            r == (self.bytes_received >= self.file_size),
    {
        self.bytes_received >= self.file_size
    }

    /// How many bytes the next read may take: the buffer size, or what
    /// is still missing if that is less.
    pub fn next_read_len(&self) -> (n: usize)
        requires
            self.wf(),
        ensures
            n == if self.file_size - self.bytes_received > TCP_CHUNK_SIZE {
                TCP_CHUNK_SIZE as int
            } else {
                self.file_size - self.bytes_received
            },
            self.bytes_received + n <= self.file_size,
    {
        let remaining = self.file_size - self.bytes_received;
        if remaining > TCP_CHUNK_SIZE as u64 {
            TCP_CHUNK_SIZE
        } else {
            remaining as usize
        }
    }

    /// Accounts for one read of `n` bytes. Zero bytes before the end is
    /// a premature close; otherwise the count advances and progress is
    /// reported by the five-percent rule.
    pub fn on_read(&mut self, n: usize) -> (r: TcpReadStep)
        requires
            old(self).wf(),
            old(self).bytes_received < old(self).file_size,
            old(self).bytes_received + n <= old(self).file_size,
        ensures
            final(self).wf(),
            final(self).file_size == old(self).file_size,
            n == 0 ==> r == TcpReadStep::PrematureClose && *final(self) == *old(self),
            n > 0 ==> {
                &&& final(self).bytes_received == old(self).bytes_received + n
                &&& match spec_progress_event(
                    old(self).bytes_received + n,
                    old(self).file_size as int,
                    old(self).last_progress as int,
                ) {
                    Some(p) => r == TcpReadStep::Advanced(Some(p as u32))
                        && final(self).last_progress == p,
                    None => r == TcpReadStep::Advanced(None::<u32>) && final(self).last_progress
                        == old(self).last_progress,
                }
            },
    {
        if n == 0 {
            return TcpReadStep::PrematureClose;
        }
        self.bytes_received = self.bytes_received + n as u64;
        let p = progress_percent(self.bytes_received, self.file_size);
        if p >= self.last_progress + PROGRESS_STEP || self.bytes_received == self.file_size {
            self.last_progress = p;
            TcpReadStep::Advanced(Some(p))
        } else {
            TcpReadStep::Advanced(None)
        }
    }
}

/// Sender side of one direct transfer.
pub struct TcpSendSession {
    pub file_size: u64,
    pub bytes_sent: u64,
    pub last_progress: u32,
}

impl TcpSendSession {
    /// Never more bytes than the file holds.
    pub open spec fn wf(&self) -> bool {
        self.bytes_sent <= self.file_size && self.last_progress <= 100
    }

    /// A session resuming after `resume_offset` bytes already received
    /// on the far side.
    pub fn new(file_size: u64, resume_offset: u64) -> (r: Self)
        requires
            resume_offset <= file_size,
        ensures
            r.wf(),
            r.file_size == file_size,
            r.bytes_sent == resume_offset,
            r.last_progress == 0,
    {
        TcpSendSession { file_size, bytes_sent: resume_offset, last_progress: 0 }
    }

    /// Whether every byte has been written out.
    pub fn is_done(&self) -> (r: bool)
        ensures
            r == (self.bytes_sent >= self.file_size),
    {
        self.bytes_sent >= self.file_size
    }

    /// Accounts for `n` bytes written, reporting progress by the
    /// five-percent rule.
    pub fn on_sent(&mut self, n: usize) -> (r: Option<u32>)
        requires
            old(self).wf(),
            0 < n,
            old(self).bytes_sent + n <= old(self).file_size,
        ensures
            final(self).wf(),
            final(self).file_size == old(self).file_size,
            final(self).bytes_sent == old(self).bytes_sent + n,
            match spec_progress_event(
                old(self).bytes_sent + n,
                old(self).file_size as int,
                old(self).last_progress as int,
            ) {
                Some(p) => r == Some(p as u32) && final(self).last_progress == p,
                None => r == None::<u32> && final(self).last_progress == old(self).last_progress,
            },
    {
        self.bytes_sent = self.bytes_sent + n as u64;
        let p = progress_percent(self.bytes_sent, self.file_size);
        if p >= self.last_progress + PROGRESS_STEP || self.bytes_sent == self.file_size {
            self.last_progress = p;
            Some(p)
        } else {
            None
        }
    }
}

/// Whole-percent progress of `done` out of `size` bytes.
fn progress_percent(done: u64, size: u64) -> (p: u32)
    requires
        0 < size,
        done <= size,
    ensures
        p == spec_progress(done as int, size as int),
        p <= 100,
{
    proof {
        assert((done as int) * 100 / (size as int) <= 100) by (nonlinear_arith)
            requires
                0 < size,
                done <= size,
        ;
        assert((done as int) * 100 / (size as int) >= 0) by (nonlinear_arith)
            requires
                0 < size,
                0 <= done,
        ;
    }
    ((done as u128) * 100 / (size as u128)) as u32
}

/// Whether received file bytes carry the expected SHA-256 digest: the
/// last word on a completed direct transfer. On `false` the caller keeps
/// the backing file for resumption, as the chunked protocol does.
pub fn verify_received(file_bytes: &[u8], expected_hash: &String) -> (ok: bool)
    ensures
        ok == (hex_of(sha256_of(file_bytes@)) == expected_hash@),
{
    let computed = sha256_hex(file_bytes);
    computed.eq(expected_hash)
}

/// The two guards of the direct-transfer machinery: one server accepting
/// at a time, one outbound send at a time. A second start of either is a
/// conflict for the caller to report, never a queue.
pub struct TcpTransferControl {
    server: BusyFlag,
    send: BusyFlag,
}

impl TcpTransferControl {
    /// Whether the receive server is running.
    pub closed spec fn server_running(&self) -> bool {
        self.server.is_held()
    }

    /// Whether an outbound send is active.
    pub closed spec fn send_active(&self) -> bool {
        self.send.is_held()
    }

    /// Both idle.
    pub fn new() -> (r: Self)
        ensures
            !r.server_running(),
            !r.send_active(),
    {
        TcpTransferControl { server: BusyFlag::new(), send: BusyFlag::new() }
    }

    /// Claims the server slot; fails while a server is already running.
    pub fn try_start_server(&mut self) -> (ok: bool)
        ensures
            final(self).server_running(),
            ok <==> !old(self).server_running(),
            final(self).send_active() == old(self).send_active(),
    {
        self.server.try_acquire()
    }

    /// Stops the receive server.
    pub fn stop_tcp_file_server(&mut self)
        ensures
            !final(self).server_running(),
            final(self).send_active() == old(self).send_active(),
    {
        self.server.release();
    }

    /// Claims the outbound slot; fails while another send is active.
    pub fn try_start_send(&mut self) -> (ok: bool)
        ensures
            final(self).send_active(),
            ok <==> !old(self).send_active(),
            final(self).server_running() == old(self).server_running(),
    {
        self.send.try_acquire()
    }

    /// Marks the outbound send finished.
    pub fn finish_send(&mut self)
        ensures
            !final(self).send_active(),
            final(self).server_running() == old(self).server_running(),
    {
        self.send.release();
    }

    /// The two flags, for status queries.
    pub fn get_tcp_transfer_status(&self) -> (r: (bool, bool))
        ensures
            r.0 == self.server_running(),
            r.1 == self.send_active(),
    {
        (self.server.is_set(), self.send.is_set())
    }
}

} // verus!
