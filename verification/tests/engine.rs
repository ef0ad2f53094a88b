use crossbeam_channel::{Receiver, Sender};
use media_engine::engine::{MediaEngine, TrackId, TrackState};
use media_engine::frame::VideoFrame;
use media_engine::worker::{WorkerCommand, WorkerHandle, WorkerMessage};

struct WorkerSide {
    cmd_rx: Receiver<WorkerCommand>,
    msg_tx: Sender<WorkerMessage>,
    buf_rx: Receiver<Vec<u8>>,
}

fn handle_pair() -> (WorkerHandle, WorkerSide) {
    let (cmd_tx, cmd_rx) = crossbeam_channel::unbounded();
    let (msg_tx, msg_rx) = crossbeam_channel::unbounded();
    let (buf_tx, buf_rx) = crossbeam_channel::unbounded();
    (WorkerHandle { cmd_tx, msg_rx, buf_tx }, WorkerSide { cmd_rx, msg_tx, buf_rx })
}

fn init_message() -> WorkerMessage {
    WorkerMessage::Initialized {
        width: 2,
        height: 2,
        duration: 4000,
        time_base_num: 1,
        time_base_den: 1000,
        start_pts: 0,
    }
}

fn frame(pts: Option<i64>, tag: u8) -> VideoFrame {
    VideoFrame { width: 2, height: 2, data: vec![tag; 16], pts }
}

fn ready_track(engine: &mut MediaEngine) -> (TrackId, WorkerSide) {
    let (handle, side) = handle_pair();
    let id = engine.create_track("clip.mp4", handle);
    side.msg_tx.send(init_message()).unwrap();
    engine.update();
    (id, side)
}

#[test]
fn engine_create_track_sends_load() {
    let mut engine = MediaEngine::new();
    let (handle, side) = handle_pair();
    let id = engine.create_track("clip.mp4", handle);
    assert_eq!(engine.get_state(id), Some(TrackState::Loading));
    match side.cmd_rx.try_recv().unwrap() {
        WorkerCommand::Load(path) => assert_eq!(path, "clip.mp4"),
        _ => panic!("registering a track must ask the worker to load it"),
    }
}

#[test]
fn engine_ids_are_unique() {
    let mut engine = MediaEngine::new();
    let (h1, _s1) = handle_pair();
    let (h2, _s2) = handle_pair();
    let a = engine.create_track("a.mp4", h1);
    let b = engine.create_track("b.mp4", h2);
    assert_ne!(a, b);
}

#[test]
fn engine_unknown_track_is_unavailable() {
    let mut engine = MediaEngine::new();
    let (handle, _side) = handle_pair();
    let id = engine.create_track("clip.mp4", handle);
    engine.destroy_track(id);
    assert_eq!(engine.get_state(id), None);
    assert_eq!(engine.get_size(id), None);
    assert_eq!(engine.try_get_video_frame(id).map(|f| f.pts), None);
}

#[test]
fn engine_initialized_reports_geometry() {
    let mut engine = MediaEngine::new();
    let (id, _side) = ready_track(&mut engine);
    assert_eq!(engine.get_state(id), Some(TrackState::Ready));
    assert_eq!(engine.get_size(id), Some((2, 2)));
    assert_eq!(engine.get_duration(id), Some(4000));
}

#[test]
fn engine_play_is_reconciled() {
    let mut engine = MediaEngine::new();
    let (id, side) = ready_track(&mut engine);
    engine.play(id);
    // intent alone changes nothing until the next tick
    assert_eq!(engine.get_state(id), Some(TrackState::Ready));
    engine.update();
    assert_eq!(engine.get_state(id), Some(TrackState::Playing));
    let mut saw_play = false;
    while let Ok(cmd) = side.cmd_rx.try_recv() {
        if matches!(cmd, WorkerCommand::Play) {
            saw_play = true;
        }
    }
    assert!(saw_play, "reconciliation must forward Play to the worker");
}

#[test]
fn engine_pause_then_play_resumes() {
    let mut engine = MediaEngine::new();
    let (id, side) = ready_track(&mut engine);
    side.msg_tx.send(WorkerMessage::VideoFrame(frame(Some(1000), 1))).unwrap();
    engine.play(id);
    engine.update();
    engine.pause(id);
    engine.update();
    assert_eq!(engine.get_state(id), Some(TrackState::Paused));
    engine.play(id);
    engine.update();
    assert_eq!(engine.get_state(id), Some(TrackState::Playing));
    // the queue survived the pause/play cycle: playback picks up where it was
    assert_eq!(engine.peek_video_frame(id).and_then(|f| f.pts), Some(1000));
}

#[test]
fn engine_error_is_terminal() {
    let mut engine = MediaEngine::new();
    let (handle, side) = handle_pair();
    let id = engine.create_track("clip.mp4", handle);
    side.msg_tx.send(WorkerMessage::Error("no video stream".to_string())).unwrap();
    engine.update();
    assert_eq!(engine.get_state(id), Some(TrackState::Error("no video stream".to_string())));
    // play intent must not pull the track out of its error state
    engine.play(id);
    engine.update();
    assert_eq!(engine.get_state(id), Some(TrackState::Error("no video stream".to_string())));
}

#[test]
fn engine_end_of_stream_without_loop_ends() {
    let mut engine = MediaEngine::new();
    let (id, side) = ready_track(&mut engine);
    side.msg_tx.send(WorkerMessage::EndOfStream).unwrap();
    engine.update();
    assert_eq!(engine.get_state(id), Some(TrackState::Ended));
}

#[test]
fn engine_end_of_stream_with_loop_replays() {
    let mut engine = MediaEngine::new();
    let (id, side) = ready_track(&mut engine);
    engine.set_loop(id, true);
    // drain the commands sent so far
    while side.cmd_rx.try_recv().is_ok() {}
    side.msg_tx.send(WorkerMessage::EndOfStream).unwrap();
    engine.update();
    assert_eq!(engine.get_state(id), Some(TrackState::Playing));
    let mut saw_rewind = false;
    while let Ok(cmd) = side.cmd_rx.try_recv() {
        if matches!(cmd, WorkerCommand::Seek(0)) {
            saw_rewind = true;
        }
    }
    assert!(saw_rewind, "looping must ask the worker to seek back to the start");
}

#[test]
fn engine_queue_is_fifo() {
    let mut engine = MediaEngine::new();
    let (id, side) = ready_track(&mut engine);
    side.msg_tx.send(WorkerMessage::VideoFrame(frame(Some(1000), 1))).unwrap();
    side.msg_tx.send(WorkerMessage::VideoFrame(frame(Some(2000), 2))).unwrap();
    engine.update();
    assert_eq!(engine.peek_video_frame(id).and_then(|f| f.pts), Some(1000));
    assert_eq!(engine.try_get_video_frame(id).and_then(|f| f.pts), Some(1000));
    assert_eq!(engine.try_get_video_frame(id).and_then(|f| f.pts), Some(2000));
    assert!(engine.try_get_video_frame(id).is_none());
}

#[test]
fn engine_seek_requests_playback() {
    let mut engine = MediaEngine::new();
    let (id, side) = ready_track(&mut engine);
    engine.seek(id, 2_000_000);
    let mut saw_seek = false;
    while let Ok(cmd) = side.cmd_rx.try_recv() {
        if matches!(cmd, WorkerCommand::Seek(2_000_000)) {
            saw_seek = true;
        }
    }
    assert!(saw_seek);
    engine.update();
    assert_eq!(engine.get_state(id), Some(TrackState::Playing));
}

#[test]
fn engine_recycle_forwards_to_pool() {
    let mut engine = MediaEngine::new();
    let (id, side) = ready_track(&mut engine);
    engine.reycle_video_frame_buffer(id, vec![7u8; 16]);
    assert_eq!(side.buf_rx.try_recv().unwrap(), vec![7u8; 16]);
}

#[test]
fn engine_pts_conversion() {
    let mut engine = MediaEngine::new();
    let (handle, side) = handle_pair();
    let id = engine.create_track("clip.mp4", handle);
    // before the geometry is known, conversion is unavailable
    assert_eq!(engine.pts_in_micros(id, 1500), None);
    side.msg_tx.send(init_message()).unwrap();
    engine.update();
    assert_eq!(engine.pts_in_micros(id, 1500), Some(1_500_000));
}

#[test]
fn engine_selects_and_recycles() {
    let mut engine = MediaEngine::new();
    let (id, side) = ready_track(&mut engine);
    for (pts, tag) in [(0i64, 0u8), (1000, 1), (2000, 2), (3000, 3)] {
        side.msg_tx.send(WorkerMessage::VideoFrame(frame(Some(pts), tag))).unwrap();
    }
    engine.update();
    // target 1.5 s: the 1 s frame wins, the superseded 0 s frame is recycled
    let shown = engine.select_video_frame(id, 1_500_000).expect("the 1 s frame is due");
    assert_eq!(shown.pts, Some(1000));
    assert_eq!(side.buf_rx.try_recv().unwrap(), vec![0u8; 16]);
    assert!(side.buf_rx.try_recv().is_err(), "only the superseded frame is recycled");
    // moments later with no newer frame due, the display is retained
    assert!(engine.select_video_frame(id, 1_600_000).is_none());
    assert!(side.buf_rx.try_recv().is_err());
    // the 2 s and 3 s frames are still queued
    assert_eq!(engine.try_get_video_frame(id).and_then(|f| f.pts), Some(2000));
    assert_eq!(engine.try_get_video_frame(id).and_then(|f| f.pts), Some(3000));
}

#[test]
fn engine_can_always_number_early_tracks() {
    let engine = MediaEngine::new();
    assert!(engine.can_create_track());
}
