use vstd::prelude::*;
use vstd::string::StringExecFns;
use crate::channel::{chan_send, chan_try_recv};
use crate::frame::VideoFrame;
use crate::selector::{chosen_index, select_frame, stop_index, ClockInfo};
use crate::timing::{pts_micros, pts_to_micros, time_base_valid};
use crate::worker::{WorkerCommand, WorkerHandle, WorkerMessage};

verus! {

/// Messages digested per track in one `update` call. Draining is bounded so
/// one tick does a bounded amount of work; anything beyond the budget is
/// picked up by the next tick.
pub const UPDATE_MESSAGE_BUDGET: usize = 1024;

/// An opaque, unique handle for one active track. Ids are assigned
/// monotonically and never reused while the issuing engine is alive.
#[derive(PartialEq, Eq, Structural, Hash, Clone, Copy, Debug)]
pub struct TrackId(u32);

impl View for TrackId {
    type V = u32;

    closed spec fn view(&self) -> u32 {
        self.0
    }
}

/// One track's lifecycle state. `Loading` is the only state before the
/// stream geometry is known; `Error` carries the reported cause and is
/// terminal for the worker's contribution.
#[derive(PartialEq, Eq, Debug)]
pub enum TrackState {
    Loading,
    Ready,
    Playing,
    Paused,
    Ended,
    Error(String),
}

impl Clone for TrackState {
    fn clone(&self) -> (r: Self)
        ensures
            r == *self,
    {
        match self {
            TrackState::Loading => TrackState::Loading,
            TrackState::Ready => TrackState::Ready,
            TrackState::Playing => TrackState::Playing,
            TrackState::Paused => TrackState::Paused,
            TrackState::Ended => TrackState::Ended,
            TrackState::Error(e) => TrackState::Error(e.clone()),
        }
    }
}

/// The observable state of one registered track: the host's intent, the
/// last worker-reported fact, the stream geometry once known, and the
/// decoded-frame queue in production order (oldest first).
pub ghost struct TrackView {
    pub desired: TrackState,
    pub worker: TrackState,
    pub loop_enabled: bool,
    pub time_base: Option<(i32, i32)>,
    pub start_pts: Option<i64>,
    pub duration: Option<i64>,
    pub size: Option<(u32, u32)>,
    pub queue: Seq<VideoFrame>,
}

/// The state a track is registered in: host wants it ready, worker still
/// loading, looping off, no geometry, empty queue.
pub open spec fn fresh_track_view() -> TrackView {
    TrackView {
        desired: TrackState::Ready,
        worker: TrackState::Loading,
        loop_enabled: false,
        time_base: None,
        start_pts: None,
        duration: None,
        size: None,
        queue: Seq::empty(),
    }
}

/// The first track registered under `id`, if any.
pub open spec fn track_of(ts: Seq<(u32, TrackView)>, id: u32) -> Option<TrackView>
    decreases ts.len(),
{
    if ts.len() == 0 {
        None
    } else if ts[0].0 == id {
        Some(ts[0].1)
    } else {
        track_of(ts.drop_first(), id)
    }
}

/// The registry with track `id`'s desired state replaced.
pub open spec fn set_desired(ts: Seq<(u32, TrackView)>, id: u32, s: TrackState) -> Seq<
    (u32, TrackView),
> {
    ts.map_values(
        |p: (u32, TrackView)|
            if p.0 == id {
                (p.0, TrackView { desired: s, ..p.1 })
            } else {
                p
            },
    )
}

/// The registry with track `id`'s looping flag replaced.
pub open spec fn set_loop_spec(ts: Seq<(u32, TrackView)>, id: u32, enabled: bool) -> Seq<
    (u32, TrackView),
> {
    ts.map_values(
        |p: (u32, TrackView)|
            if p.0 == id {
                (p.0, TrackView { loop_enabled: enabled, ..p.1 })
            } else {
                p
            },
    )
}

/// The registry with track `id`'s frame queue replaced.
pub open spec fn with_queue(ts: Seq<(u32, TrackView)>, id: u32, q: Seq<VideoFrame>) -> Seq<
    (u32, TrackView),
> {
    ts.map_values(
        |p: (u32, TrackView)|
            if p.0 == id {
                (p.0, TrackView { queue: q, ..p.1 })
            } else {
                p
            },
    )
}

/// The registry with the first track registered under `id` removed.
pub open spec fn remove_track(ts: Seq<(u32, TrackView)>, id: u32) -> Seq<(u32, TrackView)>
    decreases ts.len(),
{
    if ts.len() == 0 {
        ts
    } else if ts[0].0 == id {
        ts.drop_first()
    } else {
        seq![ts[0]] + remove_track(ts.drop_first(), id)
    }
}

/// How one worker message changes a track: `Initialized` installs geometry
/// and reports `Ready`; a frame joins the tail of the queue; an error is
/// recorded as the worker's state; end of stream either ends the track or,
/// with looping enabled, keeps it playing (the engine also asks the worker
/// to seek back to the start).
pub open spec fn apply_message_spec(t: TrackView, msg: WorkerMessage) -> TrackView {
    match msg {
        WorkerMessage::Initialized {
            width,
            height,
            duration,
            time_base_num,
            time_base_den,
            start_pts,
        } => (TrackView {
            worker: TrackState::Ready,
            size: Some((width, height)),
            duration: Some(duration),
            time_base: Some((time_base_num, time_base_den)),
            start_pts: Some(start_pts),
            ..t
        }),
        WorkerMessage::VideoFrame(f) => (TrackView { queue: t.queue.push(f), ..t }),
        WorkerMessage::Error(e) => (TrackView { worker: TrackState::Error(e), ..t }),
        WorkerMessage::EndOfStream => if t.loop_enabled {
            (TrackView { worker: TrackState::Playing, ..t })
        } else {
            (TrackView { worker: TrackState::Ended, ..t })
        },
    }
}

/// Desired-versus-actual reconciliation for one track: an actionable host
/// intent (`Playing` or `Paused`) that the worker does not yet reflect is
/// forwarded and recorded optimistically; every other intent is not
/// actionable. A worker-reported error is terminal: no reconciliation
/// touches it.
pub open spec fn reconcile_spec(t: TrackView) -> TrackView {
    if t.worker is Error {
        t
    } else if t.desired is Playing && !(t.worker is Playing) {
        TrackView { worker: TrackState::Playing, ..t }
    } else if t.desired is Paused && !(t.worker is Paused) {
        TrackView { worker: TrackState::Paused, ..t }
    } else {
        t
    }
}

/// The track after digesting `msgs`, in order, as `apply_message_spec`
/// says.
pub open spec fn drain_spec(t: TrackView, msgs: Seq<WorkerMessage>) -> TrackView
    decreases msgs.len(),
{
    if msgs.len() == 0 {
        t
    } else {
        drain_spec(apply_message_spec(t, msgs[0]), msgs.drop_first())
    }
}

/// What one reconciliation tick may do to one track, whatever messages its
/// worker sent: the host's intent and looping setting are untouched, queued
/// frames are only appended — never removed, reordered or dropped — and the
/// track leaves the tick reconciled, so an actionable intent is already
/// reflected and a reported error was left alone.
pub open spec fn updated_track(t0: TrackView, t1: TrackView) -> bool {
    &&& t1.desired == t0.desired
    &&& t1.loop_enabled == t0.loop_enabled
    &&& t0.queue.is_prefix_of(t1.queue)
    &&& reconcile_spec(t1) == t1
}

/// The selector clock of a track: usable once the stream's time base and
/// start timestamp have been reported and the time base is well-formed.
pub open spec fn track_clock(t: TrackView) -> Option<ClockInfo> {
    match (t.time_base, t.start_pts) {
        (Some(tb), Some(s)) => if time_base_valid(tb.0, tb.1) {
            Some(ClockInfo { num: tb.0, den: tb.1, start_pts: s })
        } else {
            None
        },
        _ => None,
    }
}

/// One registered track: reconciliation state, geometry, frame queue, and
/// the engine's ends of the worker's channels.
struct MediaTrack {
    id: u32,
    desired_state: TrackState,
    worker_state: TrackState,
    loop_enabled: bool,
    time_base: Option<(i32, i32)>,
    start_pts: Option<i64>,
    duration: Option<i64>,
    size: Option<(u32, u32)>,
    video_queue: Vec<VideoFrame>,
    cmd_tx: crossbeam_channel::Sender<WorkerCommand>,
    msg_rx: crossbeam_channel::Receiver<WorkerMessage>,
    buf_tx: crossbeam_channel::Sender<Vec<u8>>,
}

impl MediaTrack {
    spec fn tv(&self) -> TrackView {
        TrackView {
            desired: self.desired_state,
            worker: self.worker_state,
            loop_enabled: self.loop_enabled,
            time_base: self.time_base,
            start_pts: self.start_pts,
            duration: self.duration,
            size: self.size,
            queue: self.video_queue@,
        }
    }
}

/// The track registry: the host's single, non-blocking point of contact.
/// Tracks are registered under monotonically assigned ids; one `update`
/// call per host tick digests worker messages and reconciles desired
/// against reported state.
pub struct MediaEngine {
    next_id: u32,
    tracks: Vec<MediaTrack>,
}

impl MediaEngine {
    /// The id the next registered track will get.
    pub closed spec fn next_id_spec(&self) -> u32 {
        self.next_id
    }

    /// The registry's observable state: each track's id with its view, in
    /// registration order.
    pub closed spec fn tracks_view(&self) -> Seq<(u32, TrackView)> {
        self.tracks@.map_values(|t: MediaTrack| (t.id, t.tv()))
    }

    /// No two live tracks share an id, and every id was assigned below the
    /// next one — ids are never reused.
    pub closed spec fn wf(&self) -> bool {
        &&& forall|i: int, j: int|
            0 <= i < j < self.tracks@.len() ==> (#[trigger] self.tracks@[i]).id != (
            #[trigger] self.tracks@[j]).id
        &&& forall|i: int|
            0 <= i < self.tracks@.len() ==> (#[trigger] self.tracks@[i]).id < self.next_id
    }

    /// The registry invariant, for callers: in a well-formed engine no two
    /// tracks share an id, and every id lies below the next one to be
    /// assigned — so the track `track_of` resolves is unambiguous, and a
    /// freshly assigned id collides with nothing.
    pub proof fn lemma_registry_ids(&self)
        requires
            self.wf(),
        ensures
            forall|i: int, j: int|
                0 <= i < j < self.tracks_view().len() ==> (#[trigger] self.tracks_view()[i]).0 != (
                #[trigger] self.tracks_view()[j]).0,
            forall|i: int|
                0 <= i < self.tracks_view().len() ==> (#[trigger] self.tracks_view()[i]).0
                    < self.next_id_spec(),
    {
    }

    /// An empty registry.
    pub fn new() -> (engine: Self)
        ensures
            engine.wf(),
            engine.next_id_spec() == 0,
            engine.tracks_view() == Seq::<(u32, TrackView)>::empty(),
    {
        let engine = MediaEngine { next_id: 0, tracks: Vec::new() };
        proof {
            assert(engine.tracks_view() =~= Seq::<(u32, TrackView)>::empty());
        }
        engine
    }

    /// Whether another track id can still be assigned.
    pub fn can_create_track(&self) -> (r: bool)
        ensures
            r == (self.next_id_spec() < u32::MAX),
    {
        self.next_id < u32::MAX
    }

    /// Registers a track for `path` over a freshly spawned worker's channel
    /// ends, asks the worker to load the source, and returns the new id.
    /// The track starts `Loading` with an empty queue; the host's intent
    /// starts at `Ready`.
    pub fn create_track(&mut self, path: &str, worker: WorkerHandle) -> (id: TrackId)
        requires
            old(self).wf(),
            old(self).next_id_spec() < u32::MAX,
        ensures
            final(self).wf(),
            id@ == old(self).next_id_spec(),
            final(self).next_id_spec() == old(self).next_id_spec() + 1,
            final(self).tracks_view() == old(self).tracks_view().push((id@, fresh_track_view())),
    {
        chan_send(&worker.cmd_tx, WorkerCommand::Load(String::from_str(path)));
        let id = TrackId(self.next_id);
        self.next_id = self.next_id + 1;
        let track = MediaTrack {
            id: id.0,
            desired_state: TrackState::Ready,
            worker_state: TrackState::Loading,
            loop_enabled: false,
            time_base: None,
            start_pts: None,
            duration: None,
            size: None,
            video_queue: Vec::new(),
            cmd_tx: worker.cmd_tx,
            msg_rx: worker.msg_rx,
            buf_tx: worker.buf_tx,
        };
        self.tracks.push(track);
        proof {
            assert(self.tracks_view() =~= old(self).tracks_view().push(
                (id@, fresh_track_view()),
            ));
        }
        id
    }

    /// Forgets track `id`: its channels and queue are dropped. Unknown ids
    /// are ignored.
    pub fn destroy_track(&mut self, id: TrackId)
        requires
            old(self).wf(),
        ensures
            final(self).wf(),
            final(self).next_id_spec() == old(self).next_id_spec(),
            final(self).tracks_view() == remove_track(old(self).tracks_view(), id@),
    {
        match find_track(&self.tracks, id.0) {
            Some(i) => {
                let ghost ts0 = self.tracks_view();
                self.tracks.remove(i);
                proof {
                    lemma_remove_track_at(ts0, id@, i as int);
                    assert(self.tracks_view() =~= ts0.remove(i as int));
                }
            },
            None => {
                proof {
                    lemma_remove_track_absent(self.tracks_view(), id@);
                }
            },
        }
    }

    /// The track's last worker-reported state, or nothing for an unknown id.
    pub fn get_state(&self, id: TrackId) -> (r: Option<TrackState>)
        requires
            self.wf(),
        ensures
            r == (match track_of(self.tracks_view(), id@) {
                Some(tv) => Some(tv.worker),
                None => None::<TrackState>,
            }),
    {
        match find_track(&self.tracks, id.0) {
            Some(i) => {
                proof {
                    lemma_track_of_is_first(self.tracks_view(), id@, i as int);
                }
                Some(self.tracks[i].worker_state.clone())
            },
            None => {
                proof {
                    lemma_track_of_absent(self.tracks_view(), id@);
                }
                None
            },
        }
    }

    /// Records the host's intent to play track `id`; the worker is told at
    /// the next `update`. Nothing else about the track changes — in
    /// particular the queue and clock stay, so playback resumes where it
    /// left off.
    pub fn play(&mut self, id: TrackId)
        requires
            old(self).wf(),
        ensures
            final(self).wf(),
            final(self).next_id_spec() == old(self).next_id_spec(),
            final(self).tracks_view() == set_desired(
                old(self).tracks_view(),
                id@,
                TrackState::Playing,
            ),
    {
        self.set_desired_state(id, TrackState::Playing);
    }

    /// Records the host's intent to pause track `id`; the worker is told at
    /// the next `update`. Nothing else about the track changes.
    pub fn pause(&mut self, id: TrackId)
        requires
            old(self).wf(),
        ensures
            final(self).wf(),
            final(self).next_id_spec() == old(self).next_id_spec(),
            final(self).tracks_view() == set_desired(
                old(self).tracks_view(),
                id@,
                TrackState::Paused,
            ),
    {
        self.set_desired_state(id, TrackState::Paused);
    }

    /// Shared body of `play` and `pause`: replace the desired state of the
    /// track registered under `id`, if any.
    fn set_desired_state(&mut self, id: TrackId, s: TrackState)
        requires
            old(self).wf(),
        ensures
            final(self).wf(),
            final(self).next_id_spec() == old(self).next_id_spec(),
            final(self).tracks_view() == set_desired(old(self).tracks_view(), id@, s),
    {
        let ghost ts0 = self.tracks_view();
        match find_track(&self.tracks, id.0) {
            Some(i) => {
                let mut t = self.tracks.remove(i);
                t.desired_state = s;
                self.tracks.insert(i, t);
                proof {
                    assert(self.tracks_view() =~= set_desired(ts0, id@, s));
                }
            },
            None => {
                proof {
                    assert(self.tracks_view() =~= set_desired(ts0, id@, s));
                }
            },
        }
    }

    /// Turns looping at end of stream on or off for track `id`.
    pub fn set_loop(&mut self, id: TrackId, enabled: bool)
        requires
            old(self).wf(),
        ensures
            final(self).wf(),
            final(self).next_id_spec() == old(self).next_id_spec(),
            final(self).tracks_view() == set_loop_spec(old(self).tracks_view(), id@, enabled),
    {
        let ghost ts0 = self.tracks_view();
        match find_track(&self.tracks, id.0) {
            Some(i) => {
                let mut t = self.tracks.remove(i);
                t.loop_enabled = enabled;
                self.tracks.insert(i, t);
                proof {
                    assert(self.tracks_view() =~= set_loop_spec(ts0, id@, enabled));
                }
            },
            None => {
                proof {
                    assert(self.tracks_view() =~= set_loop_spec(ts0, id@, enabled));
                }
            },
        }
    }

    /// Asks track `id`'s worker to reposition to `micros` of stream time
    /// and records the intent to play. Whether repositioning has any
    /// effect is the worker's affair — the reference worker keeps it a
    /// stub.
    pub fn seek(&mut self, id: TrackId, micros: i64)
        requires
            old(self).wf(),
        ensures
            final(self).wf(),
            final(self).next_id_spec() == old(self).next_id_spec(),
            final(self).tracks_view() == set_desired(
                old(self).tracks_view(),
                id@,
                TrackState::Playing,
            ),
    {
        let ghost ts0 = self.tracks_view();
        match find_track(&self.tracks, id.0) {
            Some(i) => {
                let mut t = self.tracks.remove(i);
                t.desired_state = TrackState::Playing;
                chan_send(&t.cmd_tx, WorkerCommand::Seek(micros));
                self.tracks.insert(i, t);
                proof {
                    assert(self.tracks_view() =~= set_desired(ts0, id@, TrackState::Playing));
                }
            },
            None => {
                proof {
                    assert(self.tracks_view() =~= set_desired(ts0, id@, TrackState::Playing));
                }
            },
        }
    }

    /// Removes and returns the oldest queued frame of track `id`, if any.
    pub fn try_get_video_frame(&mut self, id: TrackId) -> (r: Option<VideoFrame>)
        requires
            old(self).wf(),
        ensures
            final(self).wf(),
            final(self).next_id_spec() == old(self).next_id_spec(),
            match track_of(old(self).tracks_view(), id@) {
                Some(tv) => if tv.queue.len() > 0 {
                    r == Some(tv.queue[0]) && final(self).tracks_view() == with_queue(
                        old(self).tracks_view(),
                        id@,
                        tv.queue.drop_first(),
                    )
                } else {
                    r is None && final(self).tracks_view() == old(self).tracks_view()
                },
                None => r is None && final(self).tracks_view() == old(self).tracks_view(),
            },
    {
        let ghost ts0 = self.tracks_view();
        match find_track(&self.tracks, id.0) {
            Some(i) => {
                proof {
                    lemma_track_of_is_first(ts0, id@, i as int);
                }
                let mut t = self.tracks.remove(i);
                let r = if t.video_queue.len() > 0 {
                    Some(t.video_queue.remove(0))
                } else {
                    None
                };
                self.tracks.insert(i, t);
                proof {
                    let tv = track_of(ts0, id@)->0;
                    if tv.queue.len() > 0 {
                        assert(tv.queue.remove(0) =~= tv.queue.drop_first());
                        assert(self.tracks_view() =~= with_queue(ts0, id@, tv.queue.drop_first()));
                    } else {
                        assert(self.tracks_view() =~= ts0);
                    }
                }
                r
            },
            None => {
                proof {
                    lemma_track_of_absent(ts0, id@);
                }
                None
            },
        }
    }

    /// A borrow of the oldest queued frame of track `id`, if any, without
    /// removing it.
    pub fn peek_video_frame(&self, id: TrackId) -> (r: Option<&VideoFrame>)
        requires
            self.wf(),
        ensures
            match track_of(self.tracks_view(), id@) {
                Some(tv) => if tv.queue.len() > 0 {
                    r matches Some(f) && *f == tv.queue[0]
                } else {
                    r is None
                },
                None => r is None,
            },
    {
        match find_track(&self.tracks, id.0) {
            Some(i) => {
                proof {
                    lemma_track_of_is_first(self.tracks_view(), id@, i as int);
                }
                if self.tracks[i].video_queue.len() > 0 {
                    Some(&self.tracks[i].video_queue[0])
                } else {
                    None
                }
            },
            None => {
                proof {
                    lemma_track_of_absent(self.tracks_view(), id@);
                }
                None
            },
        }
    }

    /// Hands a no-longer-needed pixel buffer back toward track `id`'s pool.
    /// The worker's pool itself decides whether the buffer is one of its
    /// own; an unknown id drops the buffer.
    pub fn reycle_video_frame_buffer(&self, id: TrackId, buffer: Vec<u8>)
        requires
            self.wf(),
    {
        match find_track(&self.tracks, id.0) {
            Some(i) => {
                chan_send(&self.tracks[i].buf_tx, buffer);
            },
            None => {},
        }
    }

    /// Converts a raw timestamp of track `id` to microseconds past the
    /// stream start, once the track's clock is known and usable and the
    /// value fits; otherwise reports the conversion unavailable.
    pub fn pts_in_micros(&self, id: TrackId, pts: i64) -> (r: Option<i64>)
        requires
            self.wf(),
        ensures
            r == (match track_of(self.tracks_view(), id@) {
                Some(tv) => match track_clock(tv) {
                    Some(c) => {
                        let m = pts_micros(pts, c.start_pts, c.num, c.den);
                        if i64::MIN <= m <= i64::MAX {
                            Some(m as i64)
                        } else {
                            None::<i64>
                        }
                    },
                    None => None::<i64>,
                },
                None => None::<i64>,
            }),
    {
        match find_track(&self.tracks, id.0) {
            Some(i) => {
                proof {
                    lemma_track_of_is_first(self.tracks_view(), id@, i as int);
                }
                match (self.tracks[i].time_base, self.tracks[i].start_pts) {
                    (Some(tb), Some(s)) => pts_to_micros(pts, s, tb.0, tb.1),
                    _ => None,
                }
            },
            None => {
                proof {
                    lemma_track_of_absent(self.tracks_view(), id@);
                }
                None
            },
        }
    }

    /// The track's frame size in pixels, once reported.
    pub fn get_size(&self, id: TrackId) -> (r: Option<(u32, u32)>)
        requires
            self.wf(),
        ensures
            r == (match track_of(self.tracks_view(), id@) {
                Some(tv) => tv.size,
                None => None::<(u32, u32)>,
            }),
    {
        match find_track(&self.tracks, id.0) {
            Some(i) => {
                proof {
                    lemma_track_of_is_first(self.tracks_view(), id@, i as int);
                }
                self.tracks[i].size
            },
            None => {
                proof {
                    lemma_track_of_absent(self.tracks_view(), id@);
                }
                None
            },
        }
    }

    /// The track's stream duration in raw timestamp units, once reported.
    pub fn get_duration(&self, id: TrackId) -> (r: Option<i64>)
        requires
            self.wf(),
        ensures
            r == (match track_of(self.tracks_view(), id@) {
                Some(tv) => tv.duration,
                None => None::<i64>,
            }),
    {
        match find_track(&self.tracks, id.0) {
            Some(i) => {
                proof {
                    lemma_track_of_is_first(self.tracks_view(), id@, i as int);
                }
                self.tracks[i].duration
            },
            None => {
                proof {
                    lemma_track_of_absent(self.tracks_view(), id@);
                }
                None
            },
        }
    }

    /// One selection pass over track `id`'s queue (see
    /// [`crate::selector::select_frame`]): delivers the most recent frame
    /// due at `target_micros`, if any, and sends every skipped frame's
    /// buffer back toward the track's pool.
    pub fn select_video_frame(&mut self, id: TrackId, target_micros: i64) -> (r: Option<
        VideoFrame,
    >)
        requires
            old(self).wf(),
        ensures
            final(self).wf(),
            final(self).next_id_spec() == old(self).next_id_spec(),
            match track_of(old(self).tracks_view(), id@) {
                Some(tv) => {
                    &&& final(self).tracks_view() == with_queue(
                        old(self).tracks_view(),
                        id@,
                        tv.queue.skip(stop_index(tv.queue, track_clock(tv), target_micros)),
                    )
                    &&& r == (match chosen_index(tv.queue, track_clock(tv), target_micros) {
                        Some(ci) => Some(tv.queue[ci]),
                        None => None::<VideoFrame>,
                    })
                },
                None => r is None && final(self).tracks_view() == old(self).tracks_view(),
            },
    {
        let ghost ts0 = self.tracks_view();
        match find_track(&self.tracks, id.0) {
            Some(i) => {
                proof {
                    lemma_track_of_is_first(ts0, id@, i as int);
                }
                let mut t = self.tracks.remove(i);
                let clock: Option<ClockInfo> = match (t.time_base, t.start_pts) {
                    (Some(tb), Some(s)) => if tb.0 >= 0 && tb.1 > 0 {
                        Some(ClockInfo { num: tb.0, den: tb.1, start_pts: s })
                    } else {
                        None
                    },
                    _ => None,
                };
                proof {
                    assert(t.tv() == track_of(ts0, id@)->0);
                    assert(clock == track_clock(track_of(ts0, id@)->0));
                }
                let sel = select_frame(&mut t.video_queue, clock, target_micros);
                let frame = sel.frame;
                let mut recycled = sel.recycled;
                loop
                    invariant
                        true,
                    decreases recycled@.len(),
                {
                    match recycled.pop() {
                        Some(buf) => {
                            chan_send(&t.buf_tx, buf);
                        },
                        None => {
                            break ;
                        },
                    }
                }
                self.tracks.insert(i, t);
                proof {
                    let tv = track_of(ts0, id@)->0;
                    assert(self.tracks_view() =~= with_queue(
                        ts0,
                        id@,
                        tv.queue.skip(stop_index(tv.queue, track_clock(tv), target_micros)),
                    ));
                }
                frame
            },
            None => {
                proof {
                    lemma_track_of_absent(ts0, id@);
                }
                None
            },
        }
    }

    /// One reconciliation tick, never blocking: per track, digest the
    /// pending worker messages in arrival order (up to the per-tick
    /// budget), then forward an actionable desired state the worker does
    /// not yet reflect. Which messages arrive is the workers' affair, so
    /// the promise is over every possible arrival: each track ends the tick
    /// as some message sequence digested by `drain_spec` and then
    /// reconciled — its intent and settings untouched, its queued frames
    /// never removed or reordered, a reported error left alone — and no
    /// track appears, disappears or changes id.
    pub fn update(&mut self)
        requires
            old(self).wf(),
        ensures
            final(self).wf(),
            final(self).next_id_spec() == old(self).next_id_spec(),
            final(self).tracks_view().len() == old(self).tracks_view().len(),
            forall|i: int|
                #![trigger final(self).tracks_view()[i]]
                0 <= i < final(self).tracks_view().len() ==> {
                    &&& final(self).tracks_view()[i].0 == old(self).tracks_view()[i].0
                    &&& updated_track(
                        old(self).tracks_view()[i].1,
                        final(self).tracks_view()[i].1,
                    )
                    &&& exists|msgs: Seq<WorkerMessage>|
                        final(self).tracks_view()[i].1 == reconcile_spec(
                            drain_spec(old(self).tracks_view()[i].1, msgs),
                        )
                },
    {
        let n: usize = self.tracks.len();
        let mut idx: usize = 0;
        while idx < n
            invariant
                idx <= n,
                n == self.tracks@.len(),
                self.wf(),
                self.next_id == old(self).next_id,
                self.tracks_view().len() == old(self).tracks_view().len(),
                forall|i: int|
                    #![trigger self.tracks_view()[i]]
                    idx <= i < n ==> self.tracks_view()[i] == old(self).tracks_view()[i],
                forall|i: int|
                    #![trigger self.tracks_view()[i]]
                    0 <= i < idx ==> {
                        &&& self.tracks_view()[i].0 == old(self).tracks_view()[i].0
                        &&& updated_track(
                            old(self).tracks_view()[i].1,
                            self.tracks_view()[i].1,
                        )
                        &&& exists|msgs: Seq<WorkerMessage>|
                            self.tracks_view()[i].1 == reconcile_spec(
                                drain_spec(old(self).tracks_view()[i].1, msgs),
                            )
                    },
            decreases n - idx,
        {
            let ghost ts_entry = self.tracks_view();
            let mut t = self.tracks.remove(idx);
            let ghost tid: u32 = t.id;
            let ghost tv_entry = t.tv();
            proof {
                assert((tid, tv_entry) == ts_entry[idx as int]);
                assert(ts_entry[idx as int] == old(self).tracks_view()[idx as int]);
            }
            let ghost mut msgs: Seq<WorkerMessage> = Seq::empty();
            let mut budget: usize = UPDATE_MESSAGE_BUDGET;
            while budget > 0
                invariant
                    t.id == tid,
                    t.tv() == drain_spec(tv_entry, msgs),
                decreases budget,
            {
                match chan_try_recv(&t.msg_rx) {
                    Some(msg) => {
                        let ghost msnap = msg;
                        proof {
                            lemma_drain_snoc(tv_entry, msgs, msnap);
                        }
                        apply_message(&mut t, msg);
                        proof {
                            msgs = msgs.push(msnap);
                        }
                    },
                    None => {
                        break ;
                    },
                }
                budget = budget - 1;
            }
            proof {
                lemma_drain_shape(tv_entry, msgs);
                lemma_reconcile_idempotent(drain_spec(tv_entry, msgs));
            }
            reconcile_track(&mut t);
            let ghost tv_final = t.tv();
            self.tracks.insert(idx, t);
            proof {
                assert(self.tracks_view() =~= ts_entry.update(idx as int, (tid, tv_final)));
                assert(tv_final == reconcile_spec(drain_spec(tv_entry, msgs)));
                assert(updated_track(tv_entry, tv_final));
            }
            idx += 1;
        }
    }
}

/// Applies one worker message to a track, as [`apply_message_spec`] says;
/// a looping track additionally asks its worker to seek back to the start
/// on end of stream.
fn apply_message(t: &mut MediaTrack, msg: WorkerMessage)
    ensures
        final(t).id == old(t).id,
        final(t).tv() == apply_message_spec(old(t).tv(), msg),
{
    match msg {
        WorkerMessage::Initialized {
            width,
            height,
            duration,
            time_base_num,
            time_base_den,
            start_pts,
        } => {
            t.worker_state = TrackState::Ready;
            t.size = Some((width, height));
            t.duration = Some(duration);
            t.time_base = Some((time_base_num, time_base_den));
            t.start_pts = Some(start_pts);
        },
        WorkerMessage::VideoFrame(f) => {
            t.video_queue.push(f);
        },
        WorkerMessage::Error(e) => {
            t.worker_state = TrackState::Error(e);
        },
        WorkerMessage::EndOfStream => {
            if t.loop_enabled {
                chan_send(&t.cmd_tx, WorkerCommand::Seek(0));
                t.worker_state = TrackState::Playing;
            } else {
                t.worker_state = TrackState::Ended;
            }
        },
    }
}

/// Reconciles one track, as [`reconcile_spec`] says, forwarding `Play` or
/// `Pause` to the worker when its reported state lags the host's intent.
fn reconcile_track(t: &mut MediaTrack)
    ensures
        final(t).id == old(t).id,
        final(t).tv() == reconcile_spec(old(t).tv()),
{
    match &t.worker_state {
        TrackState::Error(_) => {
            return ;
        },
        _ => {},
    }
    match &t.desired_state {
        TrackState::Playing => {
            match &t.worker_state {
                TrackState::Playing => {},
                _ => {
                    chan_send(&t.cmd_tx, WorkerCommand::Play);
                    t.worker_state = TrackState::Playing;
                },
            }
        },
        TrackState::Paused => {
            match &t.worker_state {
                TrackState::Paused => {},
                _ => {
                    chan_send(&t.cmd_tx, WorkerCommand::Pause);
                    t.worker_state = TrackState::Paused;
                },
            }
        },
        _ => {},
    }
}

/// The position of the first track registered under `id`, if any.
fn find_track(tracks: &Vec<MediaTrack>, id: u32) -> (r: Option<usize>)
    ensures
        r matches Some(i) ==> i < tracks@.len() && tracks@[i as int].id == id,
        r is None ==> forall|j: int| 0 <= j < tracks@.len() ==> tracks@[j].id != id,
{
    let mut i: usize = 0;
    while i < tracks.len()
        invariant
            i <= tracks@.len(),
            forall|j: int| 0 <= j < i ==> tracks@[j].id != id,
        decreases tracks@.len() - i,
    {
        if tracks[i].id == id {
            return Some(i);
        }
        i += 1;
    }
    None
}

/// `track_of` finds the entry at `i` when it is the only one under `id`.
proof fn lemma_track_of_is_first(ts: Seq<(u32, TrackView)>, id: u32, i: int)
    requires
        0 <= i < ts.len(),
        ts[i].0 == id,
        forall|j: int, k: int| 0 <= j < k < ts.len() ==> (#[trigger] ts[j]).0 != (#[trigger] ts[k]).0,
    ensures
        track_of(ts, id) == Some(ts[i].1),
    decreases ts.len(),
{
    if i == 0 {
    } else {
        assert(ts[0].0 != id);
        let rest = ts.drop_first();
        assert(rest[i - 1] == ts[i]);
        assert forall|j: int, k: int| 0 <= j < k < rest.len() implies (#[trigger] rest[j]).0 != (
        #[trigger] rest[k]).0 by {
            assert(rest[j] == ts[j + 1]);
            assert(rest[k] == ts[k + 1]);
        }
        lemma_track_of_is_first(rest, id, i - 1);
    }
}

/// `track_of` finds nothing when no entry carries `id`.
proof fn lemma_track_of_absent(ts: Seq<(u32, TrackView)>, id: u32)
    requires
        forall|j: int| 0 <= j < ts.len() ==> (#[trigger] ts[j]).0 != id,
    ensures
        track_of(ts, id) is None,
    decreases ts.len(),
{
    if ts.len() > 0 {
        let rest = ts.drop_first();
        assert forall|j: int| 0 <= j < rest.len() implies (#[trigger] rest[j]).0 != id by {
            assert(rest[j] == ts[j + 1]);
        }
        lemma_track_of_absent(rest, id);
    }
}

/// Removing the entry at `i` — the only one under `id` — is what
/// `remove_track` does.
proof fn lemma_remove_track_at(ts: Seq<(u32, TrackView)>, id: u32, i: int)
    requires
        0 <= i < ts.len(),
        ts[i].0 == id,
        forall|j: int| 0 <= j < i ==> (#[trigger] ts[j]).0 != id,
    ensures
        remove_track(ts, id) == ts.remove(i),
    decreases ts.len(),
{
    if i == 0 {
        assert(remove_track(ts, id) == ts.drop_first());
        assert(ts.drop_first() =~= ts.remove(0));
    } else {
        let rest = ts.drop_first();
        assert(rest[i - 1] == ts[i]);
        assert forall|j: int| 0 <= j < i - 1 implies (#[trigger] rest[j]).0 != id by {
            assert(rest[j] == ts[j + 1]);
        }
        lemma_remove_track_at(rest, id, i - 1);
        assert(remove_track(ts, id) == seq![ts[0]] + rest.remove(i - 1));
        assert(seq![ts[0]] + rest.remove(i - 1) =~= ts.remove(i));
    }
}

/// `remove_track` is the identity when no entry carries `id`.
proof fn lemma_remove_track_absent(ts: Seq<(u32, TrackView)>, id: u32)
    requires
        forall|j: int| 0 <= j < ts.len() ==> (#[trigger] ts[j]).0 != id,
    ensures
        remove_track(ts, id) == ts,
    decreases ts.len(),
{
    if ts.len() > 0 {
        let rest = ts.drop_first();
        assert forall|j: int| 0 <= j < rest.len() implies (#[trigger] rest[j]).0 != id by {
            assert(rest[j] == ts[j + 1]);
        }
        lemma_remove_track_absent(rest, id);
        assert(seq![ts[0]] + rest =~= ts);
    }
}

/// One message leaves the host's intent and the looping setting alone and
/// only ever appends to the queue.
proof fn lemma_apply_message_shape(t: TrackView, msg: WorkerMessage)
    ensures
        apply_message_spec(t, msg).desired == t.desired,
        apply_message_spec(t, msg).loop_enabled == t.loop_enabled,
        t.queue.is_prefix_of(apply_message_spec(t, msg).queue),
{
    assert(t.queue =~= t.queue.subrange(0, t.queue.len() as int));
    match msg {
        WorkerMessage::VideoFrame(f) => {
            assert(t.queue =~= t.queue.push(f).subrange(0, t.queue.len() as int));
        },
        _ => {},
    }
}

/// Digesting one more message at the end is one more application.
proof fn lemma_drain_snoc(t: TrackView, msgs: Seq<WorkerMessage>, m: WorkerMessage)
    ensures
        drain_spec(t, msgs.push(m)) == apply_message_spec(drain_spec(t, msgs), m),
    decreases msgs.len(),
{
    if msgs.len() == 0 {
        assert(msgs.push(m)[0] == m);
        assert(msgs.push(m).drop_first() =~= msgs);
        assert(drain_spec(t, msgs) == t);
        assert(drain_spec(apply_message_spec(t, m), msgs) == apply_message_spec(t, m));
    } else {
        assert(msgs.push(m)[0] == msgs[0]);
        assert(msgs.push(m).drop_first() =~= msgs.drop_first().push(m));
        lemma_drain_snoc(apply_message_spec(t, msgs[0]), msgs.drop_first(), m);
        assert(drain_spec(t, msgs) == drain_spec(
            apply_message_spec(t, msgs[0]),
            msgs.drop_first(),
        ));
    }
}

/// A whole drain, like each of its steps, preserves intent and settings and
/// only appends to the queue.
proof fn lemma_drain_shape(t: TrackView, msgs: Seq<WorkerMessage>)
    ensures
        drain_spec(t, msgs).desired == t.desired,
        drain_spec(t, msgs).loop_enabled == t.loop_enabled,
        t.queue.is_prefix_of(drain_spec(t, msgs).queue),
    decreases msgs.len(),
{
    if msgs.len() == 0 {
        assert(t.queue =~= t.queue.subrange(0, t.queue.len() as int));
    } else {
        let t1 = apply_message_spec(t, msgs[0]);
        let t2 = drain_spec(t, msgs);
        lemma_apply_message_shape(t, msgs[0]);
        lemma_drain_shape(t1, msgs.drop_first());
        assert forall|i: int| 0 <= i < t.queue.len() implies t.queue[i] == t2.queue[i] by {
            assert(t.queue[i] == t1.queue[i]);
            assert(t1.queue[i] == t2.queue[i]);
        }
        assert(t.queue =~= t2.queue.subrange(0, t.queue.len() as int));
    }
}

/// Reconciliation settles in one step: its result needs no further
/// reconciliation, and it never touches the host's intent, the looping
/// setting or the queue.
pub proof fn lemma_reconcile_idempotent(t: TrackView)
    ensures
        reconcile_spec(reconcile_spec(t)) == reconcile_spec(t),
        reconcile_spec(t).desired == t.desired,
        reconcile_spec(t).loop_enabled == t.loop_enabled,
        reconcile_spec(t).queue == t.queue,
{
}

/// Pausing and then resuming, with nothing else in between, leaves the
/// registry exactly as a single resume would: the track's desired state is
/// `Playing` again, and its queue, geometry and clock were never touched —
/// playback continues from where the last displayed frame left it rather
/// than restarting.
pub proof fn lemma_pause_play_round_trip(ts: Seq<(u32, TrackView)>, id: u32)
    ensures
        set_desired(set_desired(ts, id, TrackState::Paused), id, TrackState::Playing)
            == set_desired(ts, id, TrackState::Playing),
{
    assert(set_desired(set_desired(ts, id, TrackState::Paused), id, TrackState::Playing)
        =~= set_desired(ts, id, TrackState::Playing));
}

/// A worker-reported error is terminal: whatever the host's intent becomes
/// afterwards, reconciliation leaves the track — and in particular its
/// `Error` state — exactly as it is.
pub proof fn lemma_error_is_terminal(t: TrackView, desired: TrackState)
    requires
        t.worker is Error,
    ensures
        reconcile_spec(TrackView { desired: desired, ..t }) == (TrackView {
            desired: desired,
            ..t
        }),
        reconcile_spec(TrackView { desired: desired, ..t }).worker == t.worker,
{
}

/// Frames alone never move the lifecycle: a drain consisting only of
/// `VideoFrame` messages leaves the worker-reported state exactly as it
/// was — so a reported error outlives a whole tick of frame arrivals and
/// any host intent, reconciliation included.
pub proof fn lemma_frames_only_drain(t0: TrackView, msgs: Seq<WorkerMessage>)
    requires
        forall|i: int| 0 <= i < msgs.len() ==> (#[trigger] msgs[i]) is VideoFrame,
    ensures
        drain_spec(t0, msgs).worker == t0.worker,
        t0.worker is Error ==> reconcile_spec(drain_spec(t0, msgs)).worker == t0.worker,
    decreases msgs.len(),
{
    if msgs.len() > 0 {
        assert(msgs[0] is VideoFrame);
        let rest = msgs.drop_first();
        assert forall|i: int| 0 <= i < rest.len() implies (#[trigger] rest[i]) is VideoFrame by {
            assert(rest[i] == msgs[i + 1]);
        }
        lemma_frames_only_drain(apply_message_spec(t0, msgs[0]), rest);
    }
}

/// What a tick makes of a trailing end of stream: after digesting
/// `EndOfStream` last and reconciling, a looping track is `Playing` (the
/// engine also asked its worker to rewind), unless the host meanwhile asked
/// for a pause; a non-looping track is `Ended`, and stays so through
/// reconciliation as long as the host's intent is not an actionable
/// `Playing` or `Paused`.
pub proof fn lemma_tick_end_of_stream(t0: TrackView, msgs: Seq<WorkerMessage>)
    ensures
        ({
            let t = drain_spec(t0, msgs);
            let after = reconcile_spec(
                drain_spec(t0, msgs.push(WorkerMessage::EndOfStream)),
            );
            &&& (t.loop_enabled && !(t.desired is Paused) ==> after.worker is Playing)
            &&& (!t.loop_enabled && !(t.desired is Playing) && !(t.desired is Paused)
                ==> after.worker is Ended)
        }),
{
    lemma_drain_snoc(t0, msgs, WorkerMessage::EndOfStream);
}

/// End of stream ends the track — unless looping is enabled, in which case
/// the track keeps playing (and the engine asks the worker to seek back to
/// the start).
pub proof fn lemma_end_of_stream(t: TrackView)
    ensures
        t.loop_enabled ==> apply_message_spec(t, WorkerMessage::EndOfStream) == (TrackView {
            worker: TrackState::Playing,
            ..t
        }),
        !t.loop_enabled ==> apply_message_spec(t, WorkerMessage::EndOfStream) == (TrackView {
            worker: TrackState::Ended,
            ..t
        }),
{
}

} // verus!
