use remotedesk::capture::CaptureSession;
use remotedesk::pixel::{bgra_to_rgba, yuv_chroma_u, yuv_chroma_v, yuv_luma};
use remotedesk::stream::{
    frame_interval_micros, remaining_budget_micros, should_reinit_capture, StreamError,
    StreamReceiver, StreamSender,
};
use remotedesk::tcp_transfer::{
    verify_received, TcpReadStep, TcpReceiveSession, TcpSendSession, TcpTransferControl,
    TCP_CHUNK_SIZE,
};
use sha2::Digest;

#[test]
fn second_stream_start_is_a_conflict() {
    let mut s = StreamSender::new();
    assert!(s.start_stream().is_ok());
    assert_eq!(s.start_stream().unwrap_err(), StreamError::AlreadyStreaming);
    assert!(s.keep_running());
    s.stop_stream();
    assert!(!s.keep_running());
    assert!(s.start_stream().is_ok());
}

#[test]
fn sender_counters_advance_and_wrap() {
    let mut s = StreamSender::new();
    assert_eq!(s.current_sequence(), 0);
    let mut logged = 0;
    for _ in 0..60 {
        if s.on_frame_sent() {
            logged += 1;
        }
    }
    assert_eq!(s.current_sequence(), 60);
    assert_eq!(s.frames_sent(), 60);
    assert_eq!(logged, 2);  // sequences 30 and 60
    let mut e = StreamSender::new();
    assert!(e.on_encode_failure());  // the first failure is logged
    assert!(!e.on_encode_failure());
    // A failed transmission advances the sequence but not the counter.
    e.on_send_failure();
    assert_eq!(e.current_sequence(), 1);
    assert_eq!(e.frames_sent(), 0);
    assert!(s.last_jpeg_frame().is_none());
    s.set_last_jpeg(vec![1, 2, 3]);
    assert_eq!(s.last_jpeg_frame().unwrap(), vec![1, 2, 3]);
}

#[test]
fn pacing_budget_never_goes_negative() {
    assert_eq!(frame_interval_micros(30), 33333);
    assert_eq!(frame_interval_micros(1), 1_000_000);
    assert_eq!(remaining_budget_micros(33333, 10000), 23333);
    assert_eq!(remaining_budget_micros(33333, 33333), 0);
    assert_eq!(remaining_budget_micros(33333, 50000), 0);
    assert!(!should_reinit_capture(2000));
    assert!(should_reinit_capture(2001));
}

#[test]
fn receiver_throttles_emissions() {
    let mut r = StreamReceiver::new();
    assert!(r.start_receiver().is_ok());
    assert_eq!(r.start_receiver().unwrap_err(), StreamError::AlreadyReceiving);
    assert!(r.should_emit(100));
    // Less than 33 ms later: superseded, not emitted.
    assert!(!r.should_emit(120));
    assert!(!r.should_emit(132));
    assert!(r.should_emit(133));
    r.stop_receiver();
    assert!(!r.keep_running());
}

#[test]
fn tcp_receive_session_counts_and_reports() {
    let mut s = TcpReceiveSession::new(1000, 0);
    assert!(!s.is_done());
    assert_eq!(s.next_read_len(), 1000);
    assert!(matches!(s.on_read(100), TcpReadStep::Advanced(Some(10))));
    // 150 of 1000 is 15%: beyond the five-percent step from 10.
    assert!(matches!(s.on_read(50), TcpReadStep::Advanced(Some(15))));
    // 190 of 1000 is 19%: within five percent of 15, so nothing reported.
    assert!(matches!(s.on_read(40), TcpReadStep::Advanced(None)));
    // Completion always reports.
    assert!(matches!(s.on_read(810), TcpReadStep::Advanced(Some(100))));
    assert!(s.is_done());
    assert_eq!(s.next_read_len(), 0);
}

#[test]
fn tcp_receive_resumes_and_bounds_reads() {
    let big = (TCP_CHUNK_SIZE as u64) * 3 + 17;
    let mut s = TcpReceiveSession::new(big, TCP_CHUNK_SIZE as u64);
    assert_eq!(s.next_read_len(), TCP_CHUNK_SIZE);
    assert!(matches!(s.on_read(TCP_CHUNK_SIZE), TcpReadStep::Advanced(Some(_))));
    assert!(matches!(s.on_read(TCP_CHUNK_SIZE), TcpReadStep::Advanced(Some(_))));
    assert_eq!(s.next_read_len(), 17);
    // A zero read before the end is a premature close, and resumable.
    assert!(matches!(s.on_read(0), TcpReadStep::PrematureClose));
    assert_eq!(s.bytes_received, big - 17);
}

#[test]
fn tcp_send_session_reports_progress() {
    let mut s = TcpSendSession::new(200, 0);
    assert_eq!(s.on_sent(10), Some(5));
    assert_eq!(s.on_sent(2), None);
    assert_eq!(s.on_sent(8), Some(10));
    assert_eq!(s.on_sent(180), Some(100));
    assert!(s.is_done());
    let mut r = TcpSendSession::new(100, 40);
    assert!(!r.is_done());
    assert_eq!(r.bytes_sent, 40);
}

#[test]
fn received_bytes_verify_against_digest() {
    let data: Vec<u8> = (0..9999).map(|i| (i % 256) as u8).collect();
    let good = hex::encode(sha2::Sha256::digest(&data));
    assert!(verify_received(&data, &good));
    let mut tampered = data.clone();
    tampered[5000] ^= 0x80;
    assert!(!verify_received(&tampered, &good));
}

#[test]
fn tcp_guards_conflict_and_release() {
    let mut c = TcpTransferControl::new();
    assert_eq!(c.get_tcp_transfer_status(), (false, false));
    assert!(c.try_start_server());
    assert!(!c.try_start_server());
    assert!(c.try_start_send());
    assert!(!c.try_start_send());
    assert_eq!(c.get_tcp_transfer_status(), (true, true));
    c.stop_tcp_file_server();
    c.finish_send();
    assert_eq!(c.get_tcp_transfer_status(), (false, false));
    assert!(c.try_start_server());
}

#[test]
fn capture_session_guards_and_keeps_frames() {
    let mut c = CaptureSession::new();
    assert!(c.start_capture());
    assert!(!c.start_capture());
    assert!(c.keep_running());
    assert!(c.get_last_frame().is_none());
    c.on_frame_arrived("frame-one".to_string());
    c.on_frame_arrived("frame-two".to_string());
    assert_eq!(c.get_last_frame().unwrap(), "frame-two");
    assert_eq!(c.frame_count(), 2);
    let n = c.on_closed();
    assert_eq!(n, 2);
    assert!(!c.keep_running());
    assert!(c.start_capture());
    c.stop_capture();
    assert!(!c.keep_running());
}

#[test]
fn swizzle_exchanges_blue_and_red() {
    let bgra = vec![1u8, 2, 3, 4, 10, 20, 30, 40, 99, 99];
    let rgba = bgra_to_rgba(&bgra);
    // The trailing partial pixel is dropped.
    assert_eq!(rgba, vec![3, 2, 1, 4, 30, 20, 10, 40]);
    assert_eq!(bgra_to_rgba(&[]), Vec::<u8>::new());
}

#[test]
fn yuv_samples_match_the_integer_formulas() {
    // Black and white land on the nominal range ends.
    assert_eq!(yuv_luma(0, 0, 0), 16);
    assert_eq!(yuv_luma(255, 255, 255), 235);
    assert_eq!(yuv_chroma_u(0, 0, 0), 128);
    assert_eq!(yuv_chroma_v(0, 0, 0), 128);
    assert_eq!(yuv_chroma_u(255, 255, 255), 128);
    assert_eq!(yuv_chroma_v(255, 255, 255), 128);
    // Pure red: y = (66*255 + 128)/256 + 16, u = (-38*255 + 128)/256 + 128
    // (flooring), v = (112*255 + 128)/256 + 128.
    assert_eq!(yuv_luma(255, 0, 0), 82);
    assert_eq!(yuv_chroma_u(255, 0, 0), 90);
    assert_eq!(yuv_chroma_v(255, 0, 0), 240);
    // Pure blue: the mirror of red on the chroma axes.
    assert_eq!(yuv_luma(0, 0, 255), 41);
    assert_eq!(yuv_chroma_u(0, 0, 255), 240);
    assert_eq!(yuv_chroma_v(0, 0, 255), 110);
}
