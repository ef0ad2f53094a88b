//! A streaming media-decode engine.
//!
//! A host application registers tracks with a [`engine::MediaEngine`], which
//! reconciles the host's desired playback state against what each track's
//! decode worker reports, queues decoded frames, and lets the host pick, for
//! each display tick, the one frame whose presentation time best matches the
//! playback clock ([`selector`]). Decoded pixels travel in buffers drawn from
//! a fixed-capacity [`frame_pool::FramePool`], so steady-state playback never
//! allocates; skipped frames hand their buffers back to the pool.
//!
//! The codec backend itself (demuxing, decoding, pixel conversion) is outside
//! this crate: a worker thread drives it and reports plain values — stream
//! geometry, decoded frames, end of stream, errors — through the message
//! types in [`worker`].

pub mod channel;
pub mod engine;
pub mod frame;
pub mod frame_pool;
pub mod selector;
pub mod timing;
pub mod worker;
