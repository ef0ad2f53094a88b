use media_engine::worker::{
    LoadOutcome, PacketOutcome, ProcessOutput, StreamInfo, Worker, WorkerCommand, WorkerMessage,
    POOL_BUFFER_COUNT,
};

fn small_stream() -> StreamInfo {
    StreamInfo {
        width: 2,
        height: 2,
        duration: 4000,
        time_base_num: 1,
        time_base_den: 1000,
        start_pts: 0,
    }
}

#[test]
fn worker_starts_sessionless() {
    let mut w = Worker::new();
    assert!(!w.wants_packet());
    assert!(w.begin_frame().is_none());
}

#[test]
fn worker_load_failure_reports_error_and_stays_sessionless() {
    let mut w = Worker::new();
    let msg = w.apply_load_outcome(LoadOutcome::Failed("no video stream".to_string()));
    match msg {
        WorkerMessage::Error(reason) => assert_eq!(reason, "no video stream"),
        _ => panic!("a failed load must report an error"),
    }
    // even with play intent, a sessionless worker decodes nothing
    w.apply_control(&WorkerCommand::Play);
    assert!(!w.wants_packet());
    assert!(w.begin_frame().is_none());
}

#[test]
fn worker_load_announces_geometry() {
    let mut w = Worker::new();
    let msg = w.apply_load_outcome(LoadOutcome::Opened(small_stream()));
    match msg {
        WorkerMessage::Initialized {
            width,
            height,
            duration,
            time_base_num,
            time_base_den,
            start_pts,
        } => {
            assert_eq!(width, 2);
            assert_eq!(height, 2);
            assert_eq!(duration, 4000);
            assert_eq!(time_base_num, 1);
            assert_eq!(time_base_den, 1000);
            assert_eq!(start_pts, 0);
        },
        _ => panic!("an opened stream must announce Initialized"),
    }
}

#[test]
fn worker_play_pause_flip_decoding() {
    let mut w = Worker::new();
    w.apply_load_outcome(LoadOutcome::Opened(small_stream()));
    assert!(!w.wants_packet());
    w.apply_control(&WorkerCommand::Play);
    assert!(w.wants_packet());
    w.apply_control(&WorkerCommand::Pause);
    assert!(!w.wants_packet());
}

#[test]
fn worker_seek_is_a_stub() {
    let mut w = Worker::new();
    w.apply_load_outcome(LoadOutcome::Opened(small_stream()));
    w.apply_control(&WorkerCommand::Play);
    w.apply_control(&WorkerCommand::Seek(123_456));
    assert!(w.wants_packet());
}

#[test]
fn worker_pool_backpressure_and_return() {
    let mut w = Worker::new();
    w.apply_load_outcome(LoadOutcome::Opened(small_stream()));
    let mut held = Vec::new();
    for _ in 0..POOL_BUFFER_COUNT {
        let buf = w.begin_frame().expect("a fresh pool has free buffers");
        assert_eq!(buf.len(), 2 * 2 * 4);
        held.push(buf);
    }
    // the pool is exhausted: decoding must wait for a recycle
    assert!(w.begin_frame().is_none());
    assert!(w.return_buffer(held.pop().unwrap()));
    assert!(w.begin_frame().is_some());
}

#[test]
fn worker_rejects_foreign_buffer() {
    let mut w = Worker::new();
    w.apply_load_outcome(LoadOutcome::Opened(small_stream()));
    let _held = w.begin_frame().unwrap();
    assert!(!w.return_buffer(vec![1, 2, 3]));
}

#[test]
fn worker_finish_frame_stamps_geometry() {
    let mut w = Worker::new();
    w.apply_load_outcome(LoadOutcome::Opened(small_stream()));
    let buf = w.begin_frame().unwrap();
    let ProcessOutput::Video(f) = w.finish_frame(buf, Some(42));
    assert_eq!(f.width, 2);
    assert_eq!(f.height, 2);
    assert_eq!(f.pts, Some(42));
    assert_eq!(f.data.len(), 16);
}

#[test]
fn worker_eof_stops_decoding() {
    let mut w = Worker::new();
    w.apply_load_outcome(LoadOutcome::Opened(small_stream()));
    w.apply_control(&WorkerCommand::Play);
    let msg = w.apply_packet_outcome(PacketOutcome::EndOfInput);
    assert!(matches!(msg, Some(WorkerMessage::EndOfStream)));
    assert!(!w.wants_packet());
}

#[test]
fn worker_decode_failure_is_not_fatal() {
    let mut w = Worker::new();
    w.apply_load_outcome(LoadOutcome::Opened(small_stream()));
    w.apply_control(&WorkerCommand::Play);
    let msg = w.apply_packet_outcome(PacketOutcome::Failed("bad packet".to_string()));
    match msg {
        Some(WorkerMessage::Error(reason)) => assert_eq!(reason, "bad packet"),
        _ => panic!("a decode failure must be reported"),
    }
    // decoding continues with the next packet
    assert!(w.wants_packet());
}

#[test]
fn worker_decoded_packet_is_silent() {
    let mut w = Worker::new();
    w.apply_load_outcome(LoadOutcome::Opened(small_stream()));
    w.apply_control(&WorkerCommand::Play);
    assert!(w.apply_packet_outcome(PacketOutcome::Decoded).is_none());
    assert!(w.wants_packet());
}
