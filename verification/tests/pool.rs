use media_engine::frame_pool::FramePool;

#[test]
fn it_works() {}

#[test]
fn pool_new_counts() {
    let pool = FramePool::new(3, 4);
    assert_eq!(pool.free_len(), 3);
    assert_eq!(pool.outstanding_len(), 0);
    assert_eq!(pool.buffer_count(), 3);
    assert_eq!(pool.buffer_len(), 4);
}

#[test]
fn pool_buffers_zero_filled() {
    let mut pool = FramePool::new(2, 5);
    let buf = pool.get().unwrap();
    assert_eq!(buf, vec![0u8; 5]);
}

#[test]
fn pool_conservation_through_ops() {
    let mut pool = FramePool::new(4, 2);
    assert_eq!(pool.free_len() + pool.outstanding_len(), 4);
    let a = pool.get().unwrap();
    assert_eq!(pool.free_len() + pool.outstanding_len(), 4);
    let b = pool.get().unwrap();
    assert_eq!(pool.free_len() + pool.outstanding_len(), 4);
    assert_eq!(pool.outstanding_len(), 2);
    assert!(pool.recycle(a).is_ok());
    assert_eq!(pool.free_len() + pool.outstanding_len(), 4);
    assert_eq!(pool.outstanding_len(), 1);
    assert!(pool.recycle(b).is_ok());
    assert_eq!(pool.free_len(), 4);
    assert_eq!(pool.outstanding_len(), 0);
}

#[test]
fn pool_exhaustion_is_backpressure() {
    let mut pool = FramePool::new(2, 1);
    assert!(pool.get().is_some());
    assert!(pool.get().is_some());
    assert!(pool.get().is_none());
}

#[test]
fn pool_rejects_wrong_size() {
    let mut pool = FramePool::new(1, 4);
    let _held = pool.get().unwrap();
    let stray = vec![1u8, 2u8];
    match pool.recycle(stray) {
        Ok(()) => panic!("a wrong-sized buffer must be rejected"),
        Err(returned) => assert_eq!(returned, vec![1u8, 2u8]),
    }
    assert_eq!(pool.free_len(), 0);
    assert_eq!(pool.outstanding_len(), 1);
}

#[test]
fn pool_rejects_return_when_nothing_outstanding() {
    let mut pool = FramePool::new(1, 2);
    match pool.recycle(vec![0u8, 0u8]) {
        Ok(()) => panic!("a return with nothing outstanding must be rejected"),
        Err(returned) => assert_eq!(returned.len(), 2),
    }
    assert_eq!(pool.free_len(), 1);
}

#[test]
fn pool_get_after_recycle() {
    let mut pool = FramePool::new(1, 3);
    let buf = pool.get().unwrap();
    assert!(pool.get().is_none());
    assert!(pool.recycle(buf).is_ok());
    assert!(pool.get().is_some());
}
