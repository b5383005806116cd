use remotedesk::transfer::{
    apply_chunk_write, prepare_file_transfer, read_file_chunk, TransferError, TransferTable,
    CHUNK_SIZE,
};
use sha2::Digest;

fn sample(n: usize) -> Vec<u8> {
    (0..n).map(|i| ((i * 131 + 13) % 256) as u8).collect()
}

#[test]
fn prepare_names_the_plan() {
    let data = sample(500000);
    let plan = prepare_file_transfer(&data, 1234567);
    assert_eq!(plan.file_size, 500000);
    assert_eq!(plan.chunk_size, 65536);
    assert_eq!(plan.total_chunks, 8);
    // The digest spelling agrees with computing it directly.
    let direct = hex::encode(sha2::Sha256::digest(&data));
    assert_eq!(plan.file_hash, direct);
    assert_eq!(plan.file_hash.len(), 64);
    // The identifier is the first sixteen digest characters, an
    // underscore, and the timestamp in decimal.
    assert_eq!(plan.transfer_id, format!("{}_{}", &direct[..16], 1234567));
}

#[test]
fn read_file_chunk_serves_slices() {
    let data = sample(100000);
    let (b64, sz) = read_file_chunk(&data, 0);
    assert_eq!(sz, 65536);
    let decoded = base64::Engine::decode(&base64::engine::general_purpose::STANDARD, &b64).unwrap();
    assert_eq!(decoded, &data[0..65536]);
    let (b64, sz) = read_file_chunk(&data, 1);
    assert_eq!(sz, 100000 - 65536);
    let decoded = base64::Engine::decode(&base64::engine::general_purpose::STANDARD, &b64).unwrap();
    assert_eq!(decoded, &data[65536..]);
    // A chunk past the end is empty, as a read past the end would be.
    let (b64, sz) = read_file_chunk(&data, 9);
    assert_eq!(sz, 0);
    assert_eq!(b64, "");
}

#[test]
fn resume_round_trip_finalizes() {
    // A 500000-byte file at 65536-byte chunks: eight chunks, the last
    // one partial. Receive three, restart, resume from three, receive
    // the rest, and the digest check passes.
    let data = sample(500000);
    let plan = prepare_file_transfer(&data, 99);
    let mut file: Vec<u8> = Vec::new();

    let mut table = TransferTable::new();
    let resume = table.init_file_receive(
        plan.transfer_id.clone(),
        "report.bin".to_string(),
        plan.file_size,
        plan.total_chunks,
        plan.file_hash.clone(),
        "report.bin.tmp".to_string(),
        None,
    );
    assert_eq!(resume, 0);
    for i in 0..3u32 {
        let (b64, _) = read_file_chunk(&data, i);
        let w = table.receive_file_chunk(&plan.transfer_id, i, &b64).expect("chunk lands");
        assert_eq!(w.offset, i as u64 * CHUNK_SIZE);
        assert_eq!(w.received, i + 1);
        assert_eq!(w.total, 8);
        apply_chunk_write(&mut file, w.offset as usize, &w.bytes);
    }
    assert_eq!(file.len(), 3 * 65536);

    // Restart: a fresh table, the backing file still on disk.
    let mut table = TransferTable::new();
    let resume = table.init_file_receive(
        plan.transfer_id.clone(),
        "report.bin".to_string(),
        plan.file_size,
        plan.total_chunks,
        plan.file_hash.clone(),
        "report.bin.tmp".to_string(),
        Some(file.len() as u64),
    );
    assert_eq!(resume, 3);
    for i in resume..8 {
        let (b64, _) = read_file_chunk(&data, i);
        let w = table.receive_file_chunk(&plan.transfer_id, i, &b64).expect("chunk lands");
        apply_chunk_write(&mut file, w.offset as usize, &w.bytes);
    }
    assert_eq!(file, data);

    let st = table.finalize_file_transfer(&plan.transfer_id, &file).expect("digest matches");
    assert!(st.completed);
    assert_eq!(st.file_name, "report.bin");
    assert_eq!(st.file_size, 500000);
    // The session record is gone after success.
    assert!(table.get_transfer_status(&plan.transfer_id).is_none());
}

#[test]
fn hash_mismatch_keeps_session() {
    let data = sample(1000);
    let plan = prepare_file_transfer(&data, 5);
    let mut table = TransferTable::new();
    table.init_file_receive(
        plan.transfer_id.clone(),
        "a.bin".to_string(),
        plan.file_size,
        plan.total_chunks,
        plan.file_hash.clone(),
        "a.bin.tmp".to_string(),
        None,
    );
    let (b64, _) = read_file_chunk(&data, 0);
    let w = table.receive_file_chunk(&plan.transfer_id, 0, &b64).unwrap();
    let mut file: Vec<u8> = Vec::new();
    apply_chunk_write(&mut file, w.offset as usize, &w.bytes);
    // One flipped bit must fail the check and leave the session alone.
    file[512] ^= 0x01;
    let err = table.finalize_file_transfer(&plan.transfer_id, &file);
    assert_eq!(err.unwrap_err(), TransferError::HashMismatch);
    let status = table.get_transfer_status(&plan.transfer_id).expect("session stays");
    assert_eq!(status.2, false);
    // Undoing the flip lets the same session finalize.
    file[512] ^= 0x01;
    assert!(table.finalize_file_transfer(&plan.transfer_id, &file).is_ok());
}

#[test]
fn unknown_transfer_is_not_found() {
    let mut table = TransferTable::new();
    let id = "nobody".to_string();
    let err = table.receive_file_chunk(&id, 0, "AAAA");
    assert_eq!(err.unwrap_err(), TransferError::NotFound);
    let err = table.finalize_file_transfer(&id, &[]);
    assert_eq!(err.unwrap_err(), TransferError::NotFound);
    assert!(table.get_transfer_status(&id).is_none());
    assert!(table.cancel_file_transfer(&id).is_none());
}

#[test]
fn bad_base64_is_a_decode_error() {
    let data = sample(10);
    let plan = prepare_file_transfer(&data, 1);
    let mut table = TransferTable::new();
    table.init_file_receive(
        plan.transfer_id.clone(),
        "b.bin".to_string(),
        plan.file_size,
        plan.total_chunks,
        plan.file_hash.clone(),
        "b.bin.tmp".to_string(),
        None,
    );
    let err = table.receive_file_chunk(&plan.transfer_id, 0, "!!!not-base64!!!");
    assert_eq!(err.unwrap_err(), TransferError::DecodeError);
}

#[test]
fn cancel_returns_backing_path() {
    let mut table = TransferTable::new();
    table.init_file_receive(
        "t1".to_string(),
        "c.bin".to_string(),
        100,
        1,
        "00".repeat(32),
        "c.bin.tmp".to_string(),
        None,
    );
    let path = table.cancel_file_transfer(&"t1".to_string()).expect("was there");
    assert_eq!(path, "c.bin.tmp");
    assert!(table.get_transfer_status(&"t1".to_string()).is_none());
}

#[test]
fn progress_is_whole_percent() {
    let data = sample(4 * 65536);
    let plan = prepare_file_transfer(&data, 2);
    assert_eq!(plan.total_chunks, 4);
    let mut table = TransferTable::new();
    table.init_file_receive(
        plan.transfer_id.clone(),
        "d.bin".to_string(),
        plan.file_size,
        plan.total_chunks,
        plan.file_hash.clone(),
        "d.bin.tmp".to_string(),
        None,
    );
    let (b64, _) = read_file_chunk(&data, 0);
    let w = table.receive_file_chunk(&plan.transfer_id, 0, &b64).unwrap();
    assert_eq!(w.progress, 25);
    let (b64, _) = read_file_chunk(&data, 2);
    let w = table.receive_file_chunk(&plan.transfer_id, 2, &b64).unwrap();
    assert_eq!(w.progress, 75);
    let status = table.get_transfer_status(&plan.transfer_id).unwrap();
    assert_eq!(status.0, 3);
    assert_eq!(status.1, 4);
}

#[test]
fn apply_chunk_write_pads_and_overwrites() {
    let mut file: Vec<u8> = vec![9, 9, 9];
    // Writing past the end zero-pads the gap.
    apply_chunk_write(&mut file, 5, &[1, 2]);
    assert_eq!(file, vec![9, 9, 9, 0, 0, 1, 2]);
    // Writing inside overwrites and keeps the tail.
    apply_chunk_write(&mut file, 1, &[7, 7]);
    assert_eq!(file, vec![9, 7, 7, 0, 0, 1, 2]);
    // Out-of-order then in-order writes commute to the same bytes.
    let mut a: Vec<u8> = Vec::new();
    apply_chunk_write(&mut a, 4, &[5, 6, 7, 8]);
    apply_chunk_write(&mut a, 0, &[1, 2, 3, 4]);
    assert_eq!(a, vec![1, 2, 3, 4, 5, 6, 7, 8]);
}
