use vstd::prelude::*;
use vstd::string::StringExecFns;
use crate::frame::VideoFrame;
use crate::frame_pool::FramePool;

verus! {

/// Buffers each track's pool is created with: enough to decode ahead of the
/// display without unbounded memory growth.
pub const POOL_BUFFER_COUNT: usize = 10;

/// Host-to-worker intent, delivered in send order and consumed at the
/// worker's own pace. Seek positions are in microseconds of stream time.
pub enum WorkerCommand {
    Load(String),
    Play,
    Pause,
    Seek(i64),
}

/// What the backend reports about the single video stream it opened.
#[derive(Clone, Copy, Debug)]
pub struct StreamInfo {
    pub width: u32,
    pub height: u32,
    pub duration: i64,
    pub time_base_num: i32,
    pub time_base_den: i32,
    pub start_pts: i64,
}

/// Worker-to-engine facts, delivered in production order.
pub enum WorkerMessage {
    Initialized {
        width: u32,
        height: u32,
        duration: i64,
        time_base_num: i32,
        time_base_den: i32,
        start_pts: i64,
    },
    VideoFrame(VideoFrame),
    EndOfStream,
    Error(String),
}

/// How one attempt to open a source ended: a usable video stream with its
/// geometry, or a failure with its reason (a source without a video stream
/// is a failure — there is nothing for this engine to play).
pub enum LoadOutcome {
    Opened(StreamInfo),
    Failed(String),
}

/// A decoded frame ready for delivery, as produced by the decode step.
pub enum ProcessOutput {
    Video(VideoFrame),
}

/// How one read-and-decode step ended, as the backend reports it.
pub enum PacketOutcome {
    /// A packet of the video stream was decoded; its frames flow through
    /// `begin_frame` and `finish_frame`.
    Decoded,
    /// The input is exhausted: the caller drains the flushed decoder
    /// through the same frame path, then digests this.
    EndOfInput,
    /// The packet could not be read or decoded, with the reason.
    Failed(String),
}

/// The engine's ends of one worker's channels: commands out, messages in,
/// and freed pixel buffers back to the worker's pool.
pub struct WorkerHandle {
    pub cmd_tx: crossbeam_channel::Sender<WorkerCommand>,
    pub msg_rx: crossbeam_channel::Receiver<WorkerMessage>,
    pub buf_tx: crossbeam_channel::Sender<Vec<u8>>,
}

/// The bytes one tightly packed RGBA frame of this stream occupies.
pub open spec fn frame_bytes(s: StreamInfo) -> int {
    (s.width as int) * (s.height as int) * 4
}

/// One track's decode state machine, kept apart from the thread that runs
/// it: commands and backend outcomes come in as plain values, state
/// transitions and messages to emit come out. The loop around it — channel
/// pumping and the codec backend calls — performs no decision of its own.
///
/// Sessionless until a source opens; once a stream is known the worker owns
/// that track's [`FramePool`] and decodes only while `Play` is in effect.
pub struct Worker {
    stream: Option<StreamInfo>,
    pool: Option<FramePool>,
    playing: bool,
}

impl Worker {
    /// Whether decoding is currently enabled.
    pub closed spec fn is_playing(&self) -> bool {
        self.playing
    }

    /// The opened stream's geometry, once a source loaded with video.
    pub closed spec fn stream_spec(&self) -> Option<StreamInfo> {
        self.stream
    }

    /// The track's buffer pool, created when the stream geometry was learned.
    pub closed spec fn pool_spec(&self) -> Option<FramePool> {
        self.pool
    }

    /// A session either has both geometry and a conserving pool sized for
    /// its frames, or neither.
    pub closed spec fn wf(&self) -> bool {
        match self.pool {
            Some(p) => {
                &&& p.wf()
                &&& self.stream matches Some(s) && p.buffer_size() == frame_bytes(s)
                &&& p.capacity() == POOL_BUFFER_COUNT
            },
            None => self.stream is None,
        }
    }

    /// A fresh, sessionless worker: nothing loaded, decoding disabled.
    pub fn new() -> (w: Worker)
        ensures
            w.wf(),
            w.stream_spec() is None,
            w.pool_spec() is None,
            !w.is_playing(),
    {
        Worker { stream: None, pool: None, playing: false }
    }

    /// Digests the backend's answer to `Load`. An opened stream whose frames
    /// fit in memory installs the geometry and a fresh pool and announces
    /// `Initialized`; a failure (or a frame size beyond this platform)
    /// changes nothing and announces `Error`, so the track never reaches
    /// `Ready`.
    pub fn apply_load_outcome(&mut self, outcome: LoadOutcome) -> (msg: WorkerMessage)
        requires
            old(self).wf(),
        ensures
            final(self).wf(),
            final(self).is_playing() == old(self).is_playing(),
            outcome matches LoadOutcome::Failed(e) ==> {
                &&& msg == WorkerMessage::Error(e)
                &&& *final(self) == *old(self)
            },
            outcome matches LoadOutcome::Opened(info) ==> frame_bytes(info) <= usize::MAX ==> {
                &&& final(self).stream_spec() == Some(info)
                &&& final(self).pool_spec() matches Some(p)
                &&& p.capacity() == POOL_BUFFER_COUNT
                &&& p.free_count() == POOL_BUFFER_COUNT
                &&& p.buffer_size() == frame_bytes(info)
                &&& msg == (WorkerMessage::Initialized {
                    width: info.width,
                    height: info.height,
                    duration: info.duration,
                    time_base_num: info.time_base_num,
                    time_base_den: info.time_base_den,
                    start_pts: info.start_pts,
                })
            },
            outcome matches LoadOutcome::Opened(info) ==> frame_bytes(info) > usize::MAX ==> {
                &&& msg is Error
                &&& *final(self) == *old(self)
            },
    {
        match outcome {
            LoadOutcome::Failed(e) => WorkerMessage::Error(e),
            LoadOutcome::Opened(info) => {
                proof {
                    assert((info.width as u64) * (info.height as u64) <= 0xFFFF_FFFFu64
                        * 0xFFFF_FFFFu64) by (nonlinear_arith)
                        requires
                            info.width <= 0xFFFF_FFFFu64,
                            info.height <= 0xFFFF_FFFFu64,
                    ;
                }
                let px: u64 = (info.width as u64) * (info.height as u64);
                let bytes: u128 = (px as u128) * 4;
                if bytes <= usize::MAX as u128 {
                    let size: usize = bytes as usize;
                    self.pool = Some(FramePool::new(POOL_BUFFER_COUNT, size));
                    self.stream = Some(info);
                    WorkerMessage::Initialized {
                        width: info.width,
                        height: info.height,
                        duration: info.duration,
                        time_base_num: info.time_base_num,
                        time_base_den: info.time_base_den,
                        start_pts: info.start_pts,
                    }
                } else {
                    WorkerMessage::Error(oversized_frame_reason())
                }
            }
        }
    }

    /// Digests a control command: `Play` and `Pause` flip the decoding flag
    /// and nothing else. `Seek` is deliberately kept a stub — the engine's
    /// observable behavior does not rely on repositioning — and `Load` is
    /// answered through `apply_load_outcome`, so neither changes anything.
    pub fn apply_control(&mut self, cmd: &WorkerCommand)
        requires
            old(self).wf(),
        ensures
            final(self).wf(),
            final(self).stream_spec() == old(self).stream_spec(),
            final(self).pool_spec() == old(self).pool_spec(),
            final(self).is_playing() == match cmd {
                WorkerCommand::Play => true,
                WorkerCommand::Pause => false,
                _ => old(self).is_playing(),
            },
    {
        match cmd {
            WorkerCommand::Play => self.playing = true,
            WorkerCommand::Pause => self.playing = false,
            WorkerCommand::Seek(_) => (),
            WorkerCommand::Load(_) => (),
        }
    }

    /// Should the loop read and decode the next packet? Only while a session
    /// exists and decoding is enabled.
    pub fn wants_packet(&self) -> (r: bool)
        ensures
            r == (self.is_playing() && self.stream_spec() is Some),
    {
        self.playing && self.stream.is_some()
    }

    /// Takes a free buffer from the pool for the frame being decoded.
    /// Nothing free (or no session) yields nothing: the caller must wait for
    /// the host to recycle a buffer — backpressure, not a fault.
    pub fn begin_frame(&mut self) -> (r: Option<Vec<u8>>)
        requires
            old(self).wf(),
        ensures
            final(self).wf(),
            final(self).stream_spec() == old(self).stream_spec(),
            final(self).is_playing() == old(self).is_playing(),
            old(self).pool_spec() is None ==> r is None && *final(self) == *old(self),
            old(self).pool_spec() matches Some(p) ==> p.free_count() == 0 ==> {
                &&& r is None
                &&& final(self).pool_spec() matches Some(q)
                &&& q.free_count() == p.free_count()
                &&& q.outstanding_count() == p.outstanding_count()
                &&& q.capacity() == p.capacity()
                &&& q.buffer_size() == p.buffer_size()
            },
            old(self).pool_spec() matches Some(p) ==> p.free_count() > 0 ==> {
                &&& r matches Some(b) && b@.len() == p.buffer_size()
                &&& final(self).pool_spec() matches Some(q)
                &&& q.free_count() == p.free_count() - 1
                &&& q.outstanding_count() == p.outstanding_count() + 1
                &&& q.free_count() + q.outstanding_count() == q.capacity()
                &&& q.capacity() == p.capacity()
                &&& q.buffer_size() == p.buffer_size()
            },
    {
        proof {
            match old(self).pool {
                Some(p) => p.lemma_conservation(),
                None => (),
            }
        }
        match &mut self.pool {
            Some(p) => p.get(),
            None => None,
        }
    }

    /// Wraps a converted pixel buffer and its raw timestamp as the frame to
    /// announce, stamped with the session's geometry. The buffer must be
    /// one of this stream's frames — exactly `width * height` RGBA pixels.
    pub fn finish_frame(&self, data: Vec<u8>, pts: Option<i64>) -> (out: ProcessOutput)
        requires
            self.stream_spec() is Some,
            data@.len() == frame_bytes(self.stream_spec()->0),
        ensures
            out matches ProcessOutput::Video(f) && {
                &&& f.sized_for(self.stream_spec()->0.width, self.stream_spec()->0.height)
                &&& f.data == data
                &&& f.pts == pts
            },
    {
        match &self.stream {
            Some(s) => ProcessOutput::Video(VideoFrame { width: s.width, height: s.height, data, pts }),
            None => {
                proof {
                    assert(false);
                }
                ProcessOutput::Video(VideoFrame { width: 0, height: 0, data, pts })
            }
        }
    }

    /// Digests how one read-and-decode step ended. A decoded packet changes
    /// nothing here. End of input disables decoding and announces
    /// `EndOfStream`. A per-packet failure is announced as `Error` and is
    /// non-fatal: the worker's state — decoding included — is exactly as it
    /// was, so the loop simply continues with the next packet.
    pub fn apply_packet_outcome(&mut self, outcome: PacketOutcome) -> (msg: Option<WorkerMessage>)
        requires
            old(self).wf(),
        ensures
            final(self).wf(),
            final(self).stream_spec() == old(self).stream_spec(),
            final(self).pool_spec() == old(self).pool_spec(),
            outcome is Decoded ==> msg is None && *final(self) == *old(self),
            outcome is EndOfInput ==> {
                &&& msg == Some(WorkerMessage::EndOfStream)
                &&& !final(self).is_playing()
            },
            outcome matches PacketOutcome::Failed(e) ==> {
                &&& msg == Some(WorkerMessage::Error(e))
                &&& *final(self) == *old(self)
            },
    {
        match outcome {
            PacketOutcome::Decoded => None,
            PacketOutcome::EndOfInput => {
                self.playing = false;
                Some(WorkerMessage::EndOfStream)
            },
            PacketOutcome::Failed(e) => Some(WorkerMessage::Error(e)),
        }
    }

    /// Accepts a buffer the host freed, putting it back in the pool. A
    /// buffer this pool cannot have issued — wrong size, or nothing
    /// outstanding — is refused and dropped.
    pub fn return_buffer(&mut self, buf: Vec<u8>) -> (accepted: bool)
        requires
            old(self).wf(),
        ensures
            final(self).wf(),
            final(self).stream_spec() == old(self).stream_spec(),
            final(self).is_playing() == old(self).is_playing(),
            old(self).pool_spec() is None ==> !accepted && *final(self) == *old(self),
            old(self).pool_spec() matches Some(p) ==> {
                &&& final(self).pool_spec() matches Some(q)
                &&& q.free_count() + q.outstanding_count() == q.capacity()
                &&& q.capacity() == p.capacity()
                &&& (buf@.len() == p.buffer_size() && p.outstanding_count() > 0 ==> accepted
                    && q.free_count() == p.free_count() + 1
                    && q.outstanding_count() == p.outstanding_count() - 1)
                &&& (!(buf@.len() == p.buffer_size() && p.outstanding_count() > 0) ==> !accepted
                    && q.free_count() == p.free_count()
                    && q.outstanding_count() == p.outstanding_count())
            },
    {
        match &mut self.pool {
            Some(p) => p.recycle(buf).is_ok(),
            None => false,
        }
    }
}

/// The reason reported when a stream's frames could not fit in memory.
fn oversized_frame_reason() -> (s: String) {
    String::from_str("frame size exceeds this platform's memory range")
}

} // verus!
