//! Verified core of a remote-desktop engine.
//!
//! The library covers the streaming transport (splitting encoded frames
//! into bounded datagrams and reassembling them), the resumable
//! file-transfer protocol (chunked and direct-stream variants, with
//! SHA-256 verification), the input-event translation layer, and
//! wake-on-LAN packet construction. All I/O stays outside: callers hand
//! in plain bytes and values and perform the sends, reads and writes
//! that the library's results describe.

pub mod b64;
pub mod capture;
pub mod clock;
pub mod digest;
pub mod flag;
pub mod input;
pub mod packet;
pub mod pixel;
pub mod reassembly;
pub mod stream;
pub mod tcp_transfer;
pub mod text;
pub mod transfer;
pub mod wol;
