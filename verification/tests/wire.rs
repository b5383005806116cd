use remotedesk::packet::{packetize, parse_datagram, FrameKind, MAX_DATAGRAM};
use remotedesk::reassembly::H264FrameAssembler;

fn pattern(n: usize) -> Vec<u8> {
    (0..n).map(|i| ((i * 31 + 7) % 251) as u8).collect()
}

#[test]
fn packetize_splits_payload_with_headers() {
    let data = pattern(3000);
    let pkts = packetize(&data, 7);
    assert_eq!(pkts.len(), 3);
    let p0 = &pkts[0];
    assert_eq!(&p0[0..2], b"H4");
    assert_eq!(p0[2], 1);
    assert_eq!(p0[3], 0);
    assert_eq!(u32::from_le_bytes([p0[4], p0[5], p0[6], p0[7]]), 7);
    assert_eq!(u16::from_le_bytes([p0[8], p0[9]]), 0);
    assert_eq!(u16::from_le_bytes([p0[10], p0[11]]), 3);
    assert_eq!(&p0[12..], &data[0..1388]);
    let p2 = &pkts[2];
    assert_eq!(p2[2], 0);
    assert_eq!(u16::from_le_bytes([p2[8], p2[9]]), 2);
    assert_eq!(u16::from_le_bytes([p2[10], p2[11]]), 3);
    assert_eq!(p2.len(), 12 + 3000 - 2 * 1388);
    for p in &pkts {
        assert!(p.len() <= MAX_DATAGRAM);
    }
}

#[test]
fn packetize_single_chunk_frame() {
    let data = pattern(100);
    let pkts = packetize(&data, 0);
    assert_eq!(pkts.len(), 1);
    assert_eq!(pkts[0].len(), 112);
    assert_eq!(&pkts[0][12..], &data[..]);
}

#[test]
fn parse_accepts_video_and_legacy() {
    let data = pattern(500);
    let pkts = packetize(&data, 9);
    let m = parse_datagram(&pkts[0]).expect("video datagram parses");
    assert_eq!(m.kind, FrameKind::Video);
    assert_eq!(m.sequence, 9);
    assert_eq!(m.index, 0);
    assert_eq!(m.total, 1);
    assert_eq!(m.payload, data);

    let mut legacy: Vec<u8> = Vec::new();
    legacy.extend_from_slice(b"SF");
    legacy.extend_from_slice(&123u32.to_le_bytes());
    legacy.extend_from_slice(&1u16.to_le_bytes());
    legacy.extend_from_slice(&2u16.to_le_bytes());
    legacy.extend_from_slice(&[5, 6, 7, 8]);
    let m = parse_datagram(&legacy).expect("legacy datagram parses");
    assert_eq!(m.kind, FrameKind::LegacyPreview);
    assert_eq!(m.sequence, 123);
    assert_eq!(m.index, 1);
    assert_eq!(m.total, 2);
    assert_eq!(m.payload, vec![5, 6, 7, 8]);
}

#[test]
fn parse_drops_short_and_unknown() {
    assert!(parse_datagram(&[]).is_none());
    assert!(parse_datagram(b"H4").is_none());
    assert!(parse_datagram(&[0u8; 11]).is_none());
    let mut bad = vec![0u8; 20];
    bad[0] = b'X';
    bad[1] = b'Y';
    assert!(parse_datagram(&bad).is_none());
    // An "SF" datagram shorter than 12 bytes is dropped too.
    let mut short_legacy: Vec<u8> = Vec::new();
    short_legacy.extend_from_slice(b"SF");
    short_legacy.extend_from_slice(&[0u8; 9]);
    assert_eq!(short_legacy.len(), 11);
    assert!(parse_datagram(&short_legacy).is_none());
}

#[test]
fn chunk_round_trip_reversed_order() {
    let data = pattern(300000);
    let pkts = packetize(&data, 42);
    assert!(pkts.len() > 2);
    let mut order: Vec<usize> = (0..pkts.len()).collect();
    order.reverse();
    let mut assembler = H264FrameAssembler::new();
    let mut out = None;
    for (n, &i) in order.iter().enumerate() {
        let m = parse_datagram(&pkts[i]).expect("parses");
        let r = assembler.add_chunk(m.sequence, m.index as usize, m.total as usize, &m.payload);
        if n + 1 < order.len() {
            assert!(r.is_none());
        } else {
            out = r;
        }
    }
    assert_eq!(out.expect("complete frame"), data);
}

#[test]
fn chunk_round_trip_interleaved_order() {
    let data = pattern(10000);
    let pkts = packetize(&data, 1);
    let total = pkts.len();
    assert_eq!(total, 8);
    let order = [4usize, 0, 6, 2, 7, 1, 5, 3];
    let mut assembler = H264FrameAssembler::new();
    let mut out = None;
    for (n, &i) in order.iter().enumerate() {
        let m = parse_datagram(&pkts[i]).expect("parses");
        let r = assembler.add_chunk(m.sequence, m.index as usize, m.total as usize, &m.payload);
        if n + 1 < total {
            assert!(r.is_none());
        } else {
            out = r;
        }
    }
    assert_eq!(out.expect("complete frame"), data);
}

#[test]
fn stale_sequence_discarded_by_newer() {
    let five = pattern(4000);
    let six = pattern(2900);
    let pkts5 = packetize(&five, 5);
    let pkts6 = packetize(&six, 6);
    assert_eq!(pkts5.len(), 3);
    assert_eq!(pkts6.len(), 3);
    let mut assembler = H264FrameAssembler::new();
    // Two of three chunks of sequence 5: incomplete.
    for i in 0..2 {
        let m = parse_datagram(&pkts5[i]).unwrap();
        assert!(assembler.add_chunk(m.sequence, m.index as usize, m.total as usize, &m.payload).is_none());
    }
    assert_eq!(assembler.received_count(), 2);
    // Any chunk of sequence 6 resets the partial state.
    let m = parse_datagram(&pkts6[1]).unwrap();
    assert!(assembler.add_chunk(m.sequence, m.index as usize, m.total as usize, &m.payload).is_none());
    assert_eq!(assembler.current_sequence(), 6);
    assert_eq!(assembler.received_count(), 1);
    // A late chunk of the old sequence resets again; it never mixes in.
    let m = parse_datagram(&pkts5[2]).unwrap();
    assert!(assembler.add_chunk(m.sequence, m.index as usize, m.total as usize, &m.payload).is_none());
    // Completing sequence 6 from scratch yields exactly six's payload.
    let mut out = None;
    for i in 0..3 {
        let m = parse_datagram(&pkts6[i]).unwrap();
        out = assembler.add_chunk(m.sequence, m.index as usize, m.total as usize, &m.payload);
    }
    assert_eq!(out.expect("six completes"), six);
}

#[test]
fn duplicate_chunk_counted_once() {
    let data = pattern(7000);
    let pkts = packetize(&data, 11);
    assert_eq!(pkts.len(), 6);
    let mut assembler = H264FrameAssembler::new();
    let m3 = parse_datagram(&pkts[3]).unwrap();
    assert!(assembler.add_chunk(m3.sequence, 3, m3.total as usize, &m3.payload).is_none());
    assert_eq!(assembler.received_count(), 1);
    // The same chunk again changes nothing.
    assert!(assembler.add_chunk(m3.sequence, 3, m3.total as usize, &m3.payload).is_none());
    assert_eq!(assembler.received_count(), 1);
    let mut out = None;
    for i in [0usize, 1, 2, 4, 5] {
        let m = parse_datagram(&pkts[i]).unwrap();
        out = assembler.add_chunk(m.sequence, m.index as usize, m.total as usize, &m.payload);
    }
    assert_eq!(out.expect("frame completes"), data);
}

#[test]
fn wrap_boundary_sequence_reassembles() {
    // The sequence space wraps at the 32-bit boundary; its last value is
    // a sequence like any other.
    let data = pattern(2000);
    let pkts = packetize(&data, u32::MAX);
    let mut assembler = H264FrameAssembler::new();
    let mut out = None;
    for p in &pkts {
        let m = parse_datagram(p).unwrap();
        out = assembler.add_chunk(m.sequence, m.index as usize, m.total as usize, &m.payload);
    }
    assert_eq!(out.expect("completes"), data);
}

#[test]
fn legacy_chunks_reassemble_too() {
    let payload_a = vec![1u8, 2, 3];
    let payload_b = vec![4u8, 5];
    let mut first: Vec<u8> = Vec::new();
    first.extend_from_slice(b"SF");
    first.extend_from_slice(&9u32.to_le_bytes());
    first.extend_from_slice(&0u16.to_le_bytes());
    first.extend_from_slice(&2u16.to_le_bytes());
    first.extend_from_slice(&payload_a);
    let mut second: Vec<u8> = Vec::new();
    second.extend_from_slice(b"SF");
    second.extend_from_slice(&9u32.to_le_bytes());
    second.extend_from_slice(&1u16.to_le_bytes());
    second.extend_from_slice(&2u16.to_le_bytes());
    second.extend_from_slice(&payload_b);
    let mut assembler = H264FrameAssembler::new();
    let m = parse_datagram(&first).unwrap();
    assert_eq!(m.kind, FrameKind::LegacyPreview);
    assert!(assembler.add_chunk(m.sequence, m.index as usize, m.total as usize, &m.payload).is_none());
    let m = parse_datagram(&second).unwrap();
    let out = assembler.add_chunk(m.sequence, m.index as usize, m.total as usize, &m.payload);
    assert_eq!(out.expect("completes"), vec![1, 2, 3, 4, 5]);
}

#[test]
fn invalid_chunks_ignored() {
    let mut assembler = H264FrameAssembler::new();
    // A zero total is invalid and changes nothing.
    assert!(assembler.add_chunk(1, 0, 0, &[1, 2, 3]).is_none());
    assert!(!assembler.is_active());
    // An index outside the declared total is ignored without a reset.
    assert!(assembler.add_chunk(1, 0, 2, &[1, 2]).is_none());
    assert_eq!(assembler.received_count(), 1);
    assert!(assembler.add_chunk(1, 7, 2, &[9, 9]).is_none());
    assert_eq!(assembler.received_count(), 1);
    let out = assembler.add_chunk(1, 1, 2, &[3, 4]);
    assert_eq!(out.expect("completes"), vec![1, 2, 3, 4]);
    assert!(!assembler.is_active());
}
