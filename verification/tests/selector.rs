use media_engine::frame::VideoFrame;
use media_engine::selector::{select_frame, ClockInfo, Selection};

fn frame(pts: Option<i64>, tag: u8) -> VideoFrame {
    VideoFrame { width: 1, height: 1, data: vec![tag, tag, tag, tag], pts }
}

fn second_clock() -> Option<ClockInfo> {
    // time base 1/1: pts are whole seconds
    Some(ClockInfo { num: 1, den: 1, start_pts: 0 })
}

#[test]
fn selector_picks_latest_due_frame() {
    // frames at 0 s, 1 s, 2 s, 3 s; target 1.5 s
    let mut queue = vec![frame(Some(0), 0), frame(Some(1), 1), frame(Some(2), 2), frame(
        Some(3),
        3,
    )];
    let sel: Selection = select_frame(&mut queue, second_clock(), 1_500_000);
    let delivered = sel.frame.expect("the 1 s frame is due");
    assert_eq!(delivered.pts, Some(1));
    assert_eq!(delivered.data, vec![1, 1, 1, 1]);
    // the superseded 0 s frame was recycled, nothing else
    assert_eq!(sel.recycled.len(), 1);
    assert_eq!(sel.recycled[0], vec![0, 0, 0, 0]);
    // 2 s and 3 s stay queued
    assert_eq!(queue.len(), 2);
    assert_eq!(queue[0].pts, Some(2));
    assert_eq!(queue[1].pts, Some(3));
}

#[test]
fn selector_retains_display_when_nothing_newer_is_due() {
    // the queue as the previous pass left it; target 1.6 s
    let mut queue = vec![frame(Some(2), 2), frame(Some(3), 3)];
    let sel = select_frame(&mut queue, second_clock(), 1_600_000);
    assert!(sel.frame.is_none());
    assert!(sel.recycled.is_empty());
    assert_eq!(queue.len(), 2);
}

#[test]
fn selector_recycles_untimestamped_frames_on_sight() {
    let mut queue = vec![frame(None, 9), frame(Some(5), 5)];
    let sel = select_frame(&mut queue, second_clock(), 0);
    assert!(sel.frame.is_none());
    assert_eq!(sel.recycled, vec![vec![9, 9, 9, 9]]);
    assert_eq!(queue.len(), 1);
    assert_eq!(queue[0].pts, Some(5));
}

#[test]
fn selector_without_clock_keeps_timestamped_frames() {
    let mut queue = vec![frame(None, 9), frame(Some(1), 1)];
    let sel = select_frame(&mut queue, None, 1_000_000_000);
    assert!(sel.frame.is_none());
    // the untimestamped frame is still recycled unconditionally
    assert_eq!(sel.recycled, vec![vec![9, 9, 9, 9]]);
    // but a timestamped frame is conservatively kept, not recycled
    assert_eq!(queue.len(), 1);
    assert_eq!(queue[0].pts, Some(1));
}

#[test]
fn selector_drains_queue_when_everything_is_due() {
    let mut queue = vec![frame(Some(0), 0), frame(Some(1), 1)];
    let sel = select_frame(&mut queue, second_clock(), 5_000_000);
    assert_eq!(sel.frame.expect("the 1 s frame is due").pts, Some(1));
    assert_eq!(sel.recycled, vec![vec![0, 0, 0, 0]]);
    assert!(queue.is_empty());
}

#[test]
fn selector_delivery_never_regresses() {
    // two consecutive passes over a time-ordered queue never hand the sink
    // an earlier frame than the previous pass did
    let mut queue = vec![frame(Some(0), 0), frame(Some(1), 1), frame(Some(2), 2), frame(
        Some(3),
        3,
    )];
    let first = select_frame(&mut queue, second_clock(), 1_500_000).frame.unwrap();
    let second = select_frame(&mut queue, second_clock(), 3_500_000).frame.unwrap();
    assert!(second.pts.unwrap() >= first.pts.unwrap());
}

#[test]
fn selector_empty_queue() {
    let mut queue: Vec<VideoFrame> = Vec::new();
    let sel = select_frame(&mut queue, second_clock(), 1_000_000);
    assert!(sel.frame.is_none());
    assert!(sel.recycled.is_empty());
    assert!(queue.is_empty());
}
