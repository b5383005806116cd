//! Datagram wire format for the video stream.
//!
//! An encoded frame is split into chunks of at most
//! [`VIDEO_CHUNK_CAPACITY`] bytes; each chunk travels in one datagram
//! behind a 12-byte header: magic `H4`, a frame-type byte (1 on the
//! first chunk of a frame, 0 otherwise), a reserved flags byte, then
//! sequence (4 bytes), chunk index (2) and chunk total (2), all little
//! endian. A receiver also accepts the legacy preview variant: magic
//! `SF`, then sequence (4), index (2) and total (2), little endian, a
//! 10-byte header. Datagrams shorter than 12 bytes or with an unknown
//! magic are dropped, never reported: the transport is best effort.

use vstd::prelude::*;
use vstd::bytes::*;

verus! {

/// Largest datagram handed to the transport, header included.
pub const MAX_DATAGRAM: usize = 1400;

/// Size of the video header.
pub const VIDEO_HEADER_SIZE: usize = 12;

/// Payload bytes carried by one video datagram.
pub const VIDEO_CHUNK_CAPACITY: usize = 1388;

/// Size of the legacy preview header.
pub const LEGACY_HEADER_SIZE: usize = 10;

/// How many chunks of capacity `cap` cover `len` bytes; the last chunk
/// may be short.
pub open spec fn chunk_count(len: nat, cap: nat) -> nat
    recommends
        cap > 0,
{
    ((len + cap - 1) / (cap as int)) as nat
}

/// The `i`-th chunk of `data` at capacity `cap`.
pub open spec fn chunk_at(data: Seq<u8>, cap: nat, i: nat) -> Seq<u8>
    recommends
        cap > 0,
        i < chunk_count(data.len(), cap),
{
    data.subrange(
        (i * cap) as int,
        if (i + 1) * cap <= data.len() { ((i + 1) * cap) as int } else { data.len() as int },
    )
}

/// Chunk `i` exists exactly when its first byte exists.
pub proof fn lemma_chunk_index_bound(len: nat, cap: nat, i: nat)
    requires
        cap > 0,
    ensures
        i < chunk_count(len, cap) <==> i * cap < len,
{
    assert(i < ((len + cap - 1) / (cap as int)) <==> i * cap < len) by (nonlinear_arith)
        requires
            cap > 0,
    ;
}

/// The 12-byte video header for one chunk.
pub open spec fn video_header(sequence: u32, index: u16, total: u16) -> Seq<u8> {
    seq![72u8, 52u8]  // the magic "H4"
    + seq![if index == 0 { 1u8 } else { 0u8 }, 0u8]
    + spec_u32_to_le_bytes(sequence)
    + spec_u16_to_le_bytes(index)
    + spec_u16_to_le_bytes(total)
}

/// The full datagram for chunk `i` of a frame.
pub open spec fn video_datagram(data: Seq<u8>, sequence: u32, i: nat) -> Seq<u8>
    recommends
        0 < data.len(),
        chunk_count(data.len(), VIDEO_CHUNK_CAPACITY as nat) <= u16::MAX,
        i < chunk_count(data.len(), VIDEO_CHUNK_CAPACITY as nat),
{
    video_header(
        sequence,
        i as u16,
        chunk_count(data.len(), VIDEO_CHUNK_CAPACITY as nat) as u16,
    ) + chunk_at(data, VIDEO_CHUNK_CAPACITY as nat, i)
}

/// Which wire variant a datagram carries.
#[derive(Clone, Copy, PartialEq, Eq, Structural, Debug)]
pub enum FrameKind {
    /// The `H4` video variant.
    Video,
    /// The `SF` legacy preview variant.
    LegacyPreview,
}

/// A parsed datagram, ready for the reassembler.
pub struct ChunkMsg {
    pub kind: FrameKind,
    pub sequence: u32,
    pub index: u16,
    pub total: u16,
    pub payload: Vec<u8>,
}

/// Mathematical image of a parsed datagram.
pub struct DatagramView {
    pub kind: FrameKind,
    pub sequence: u32,
    pub index: u16,
    pub total: u16,
    pub payload: Seq<u8>,
}

impl View for ChunkMsg {
    type V = DatagramView;

    open spec fn view(&self) -> DatagramView {
        DatagramView {
            kind: self.kind,
            sequence: self.sequence,
            index: self.index,
            total: self.total,
            payload: self.payload@,
        }
    }
}

/// What a received datagram means: `None` when it is too short or its
/// magic is unknown (such datagrams are dropped). Both variants demand
/// at least 12 bytes: the receiver validates length before magic.
pub open spec fn spec_parse_datagram(b: Seq<u8>) -> Option<DatagramView> {
    if b.len() < 12 {
        None
    } else if b[0] == 72 && b[1] == 52 {  // "H4"
        Some(DatagramView {
            kind: FrameKind::Video,
            sequence: spec_u32_from_le_bytes(b.subrange(4, 8)),
            index: spec_u16_from_le_bytes(b.subrange(8, 10)),
            total: spec_u16_from_le_bytes(b.subrange(10, 12)),
            payload: b.skip(12),
        })
    } else if b[0] == 83 && b[1] == 70 {  // "SF"
        Some(DatagramView {
            kind: FrameKind::LegacyPreview,
            sequence: spec_u32_from_le_bytes(b.subrange(2, 6)),
            index: spec_u16_from_le_bytes(b.subrange(6, 8)),
            total: spec_u16_from_le_bytes(b.subrange(8, 10)),
            payload: b.skip(10),
        })
    } else {
        None
    }
}

/// Parses one received datagram; malformed ones come back `None`.
pub fn parse_datagram(buf: &[u8]) -> (r: Option<ChunkMsg>)
    ensures
        match r {
            Some(m) => spec_parse_datagram(buf@) == Some(m@),
            None => spec_parse_datagram(buf@) is None,
        },
{
    let n = buf.len();
    if n < 12 {
        return None;
    }
    let b0 = *vstd::slice::slice_index_get(buf, 0);
    let b1 = *vstd::slice::slice_index_get(buf, 1);
    if b0 == 72 && b1 == 52 {
        let sequence = u32_from_le_bytes(vstd::slice::slice_subrange(buf, 4, 8));
        let index = u16_from_le_bytes(vstd::slice::slice_subrange(buf, 8, 10));
        let total = u16_from_le_bytes(vstd::slice::slice_subrange(buf, 10, 12));
        let payload = vstd::slice::slice_to_vec(vstd::slice::slice_subrange(buf, 12, n));
        Some(ChunkMsg { kind: FrameKind::Video, sequence, index, total, payload })
    } else if b0 == 83 && b1 == 70 {
        let sequence = u32_from_le_bytes(vstd::slice::slice_subrange(buf, 2, 6));
        let index = u16_from_le_bytes(vstd::slice::slice_subrange(buf, 6, 8));
        let total = u16_from_le_bytes(vstd::slice::slice_subrange(buf, 8, 10));
        let payload = vstd::slice::slice_to_vec(vstd::slice::slice_subrange(buf, 10, n));
        Some(ChunkMsg { kind: FrameKind::LegacyPreview, sequence, index, total, payload })
    } else {
        None
    }
}

/// Splits an encoded frame into its datagrams, in index order. The
/// caller transmits them one by one; the bound on the frame size is
/// what the 16-bit chunk-total field of the header can spell.
pub fn packetize(data: &Vec<u8>, sequence: u32) -> (r: Vec<Vec<u8>>)
    requires
        0 < data@.len(),
        chunk_count(data@.len(), VIDEO_CHUNK_CAPACITY as nat) <= u16::MAX,
    ensures
        r@.len() == chunk_count(data@.len(), VIDEO_CHUNK_CAPACITY as nat),
        forall|i: int|
            0 <= i < r@.len() ==> r@[i]@ == video_datagram(data@, sequence, i as nat),
        forall|i: int| 0 <= i < r@.len() ==> r@[i]@.len() <= MAX_DATAGRAM,
{
    let ghost cap = VIDEO_CHUNK_CAPACITY as nat;
    let len = data.len();
    proof {
        lemma_chunk_index_bound(len as nat, cap, (u16::MAX + 1) as nat);
    }
    let total = (len + VIDEO_CHUNK_CAPACITY - 1) / VIDEO_CHUNK_CAPACITY;
    assert(total == chunk_count(len as nat, cap));
    let mut r: Vec<Vec<u8>> = Vec::new();
    let mut i: usize = 0;
    let mut offset: usize = 0;
    while i < total
        invariant
            0 < data@.len() <= u16::MAX * VIDEO_CHUNK_CAPACITY + VIDEO_CHUNK_CAPACITY,
            len == data@.len(),
            total == chunk_count(len as nat, cap),
            total <= u16::MAX,
            cap == VIDEO_CHUNK_CAPACITY as nat,
            i <= total,
            offset == i * cap || (i == total && offset == len),
            offset <= len,
            r@.len() == i,
            forall|j: int|
                0 <= j < i ==> r@[j]@ == video_datagram(data@, sequence, j as nat),
            forall|j: int| 0 <= j < i ==> r@[j]@.len() <= MAX_DATAGRAM,
        decreases total - i,
    {
        proof {
            lemma_chunk_index_bound(len as nat, cap, i as nat);
            assert(i * cap < len);
            assert(offset == i * cap);
        }
        let end = if len - offset > VIDEO_CHUNK_CAPACITY { offset + VIDEO_CHUNK_CAPACITY } else { len };
        let mut pkt: Vec<u8> = Vec::new();
        pkt.push(72u8);
        pkt.push(52u8);
        if i == 0 {
            pkt.push(1u8);
        } else {
            pkt.push(0u8);
        }
        pkt.push(0u8);
        let seq_bytes = u32_to_le_bytes(sequence);
        pkt.extend_from_slice(seq_bytes.as_slice());
        let idx_bytes = u16_to_le_bytes(i as u16);
        pkt.extend_from_slice(idx_bytes.as_slice());
        let tot_bytes = u16_to_le_bytes(total as u16);
        pkt.extend_from_slice(tot_bytes.as_slice());
        pkt.extend_from_slice(vstd::slice::slice_subrange(data.as_slice(), offset, end));
        proof {
            assert((i + 1) * cap == i * cap + cap) by (nonlinear_arith);
            assert(data@.subrange(offset as int, end as int) == chunk_at(data@, cap, i as nat));
            assert(pkt@ =~= video_datagram(data@, sequence, i as nat));
        }
        r.push(pkt);
        i = i + 1;
        offset = end;
        proof {
            if i < total {
                lemma_chunk_index_bound(len as nat, cap, i as nat);
                assert(i * cap < len);
            }
        }
    }
    r
}

/// A datagram built by `packetize` parses back to exactly its own
/// fields: kind, sequence, index, total and chunk payload.
pub proof fn lemma_datagram_round_trip(data: Seq<u8>, sequence: u32, i: nat)
    requires
        0 < data.len(),
        chunk_count(data.len(), VIDEO_CHUNK_CAPACITY as nat) <= u16::MAX,
        i < chunk_count(data.len(), VIDEO_CHUNK_CAPACITY as nat),
    ensures
        spec_parse_datagram(video_datagram(data, sequence, i)) == Some(DatagramView {
            kind: FrameKind::Video,
            sequence,
            index: i as u16,
            total: chunk_count(data.len(), VIDEO_CHUNK_CAPACITY as nat) as u16,
            payload: chunk_at(data, VIDEO_CHUNK_CAPACITY as nat, i),
        }),
{
    lemma_auto_spec_u32_to_from_le_bytes();
    lemma_auto_spec_u16_to_from_le_bytes();
    let b = video_datagram(data, sequence, i);
    let total = chunk_count(data.len(), VIDEO_CHUNK_CAPACITY as nat);
    assert(b.subrange(4, 8) =~= spec_u32_to_le_bytes(sequence));
    assert(b.subrange(8, 10) =~= spec_u16_to_le_bytes(i as u16));
    assert(b.subrange(10, 12) =~= spec_u16_to_le_bytes(total as u16));
    assert(b.skip(12) =~= chunk_at(data, VIDEO_CHUNK_CAPACITY as nat, i));
}

} // verus!
