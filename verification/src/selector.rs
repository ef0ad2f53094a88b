use vstd::prelude::*;
use crate::frame::VideoFrame;
use crate::timing::{pts_due_by, pts_micros, time_base_valid};

verus! {

/// What a selection pass knows of a track's clock: the stream time base and
/// start timestamp, once the track's geometry has been reported and is
/// usable for conversion.
#[derive(Clone, Copy, Debug)]
pub struct ClockInfo {
    pub num: i32,
    pub den: i32,
    pub start_pts: i64,
}

/// The presentation time of `f` in microseconds, read through clock `c`.
/// Meaningful only for a frame that carries a timestamp.
pub open spec fn frame_micros(f: VideoFrame, c: ClockInfo) -> int {
    pts_micros(f.pts->0, c.start_pts, c.num, c.den)
}

/// A scanned frame halts the selector: it carries a timestamp that either
/// cannot be converted (no usable clock — conservatively not yet due) or
/// falls strictly after the target time.
pub open spec fn stops_scan(f: VideoFrame, clock: Option<ClockInfo>, target: i64) -> bool {
    f.pts is Some && match clock {
        Some(c) => frame_micros(f, c) > target,
        None => true,
    }
}

/// The frame is stamped at or before the target time: showing it now would
/// not be early.
pub open spec fn frame_due(f: VideoFrame, clock: Option<ClockInfo>, target: i64) -> bool {
    f.pts is Some && (clock matches Some(c) && frame_micros(f, c) <= target)
}

/// Index of the first frame that halts the scan — the queue length if none
/// does. Everything before it is consumed by one selection pass.
pub open spec fn stop_index(q: Seq<VideoFrame>, clock: Option<ClockInfo>, target: i64) -> int
    decreases q.len(),
{
    if q.len() == 0 {
        0
    } else if stops_scan(q[0], clock, target) {
        0
    } else {
        1 + stop_index(q.drop_first(), clock, target)
    }
}

/// Index of the frame a selection pass delivers: the last timestamped frame
/// before the stop index, i.e. the most recent frame already due.
pub open spec fn chosen_index(q: Seq<VideoFrame>, clock: Option<ClockInfo>, target: i64) -> Option<
    int,
>
    decreases q.len(),
{
    if q.len() == 0 || stops_scan(q[0], clock, target) {
        None
    } else {
        match chosen_index(q.drop_first(), clock, target) {
            Some(j) => Some(1 + j),
            None => if q[0].pts is Some {
                Some(0)
            } else {
                None
            },
        }
    }
}

/// The pixel buffers of a run of frames, in order.
pub open spec fn frame_datas(q: Seq<VideoFrame>) -> Seq<Seq<u8>> {
    q.map_values(|f: VideoFrame| f.data@)
}

/// The contents of a run of byte buffers, in order.
pub open spec fn buffer_views(bufs: Seq<Vec<u8>>) -> Seq<Seq<u8>> {
    bufs.map_values(|b: Vec<u8>| b@)
}

/// The buffers one selection pass recycles: those of every consumed frame
/// except the delivered one, in queue order.
pub open spec fn recycled_data(q: Seq<VideoFrame>, clock: Option<ClockInfo>, target: i64) -> Seq<
    Seq<u8>,
> {
    let datas = frame_datas(q.take(stop_index(q, clock, target)));
    match chosen_index(q, clock, target) {
        Some(c) => datas.remove(c),
        None => datas,
    }
}

/// The stop index stays within the queue, and a delivered frame always lies
/// before it, carries a timestamp, and did not halt the scan; when nothing
/// is delivered, no consumed frame had a timestamp.
pub proof fn lemma_selection_bounds(q: Seq<VideoFrame>, clock: Option<ClockInfo>, target: i64)
    ensures
        0 <= stop_index(q, clock, target) <= q.len(),
        chosen_index(q, clock, target) matches Some(c) ==> {
            &&& 0 <= c < stop_index(q, clock, target)
            &&& q[c].pts is Some
            &&& !stops_scan(q[c], clock, target)
        },
        chosen_index(q, clock, target) is None ==> forall|i: int|
            0 <= i < stop_index(q, clock, target) ==> q[i].pts is None,
    decreases q.len(),
{
    if q.len() == 0 || stops_scan(q[0], clock, target) {
    } else {
        lemma_selection_bounds(q.drop_first(), clock, target);
        if chosen_index(q, clock, target) is None {
            assert forall|i: int| 0 <= i < stop_index(q, clock, target) implies q[i].pts
                is None by {
                if i > 0 {
                    assert(q.drop_first()[i - 1] == q[i]);
                }
            }
        }
    }
}

/// The scan that stopped at `k` found the stop index: every earlier frame
/// let it pass and the frame at `k`, if there is one, halted it.
proof fn lemma_stop_index_from_scan(
    q: Seq<VideoFrame>,
    clock: Option<ClockInfo>,
    target: i64,
    k: int,
)
    requires
        0 <= k <= q.len(),
        forall|i: int| 0 <= i < k ==> !stops_scan(q[i], clock, target),
        k < q.len() ==> stops_scan(q[k], clock, target),
    ensures
        stop_index(q, clock, target) == k,
    decreases q.len(),
{
    if k > 0 {
        let rest = q.drop_first();
        assert forall|i: int| 0 <= i < k - 1 implies !stops_scan(rest[i], clock, target) by {
            assert(rest[i] == q[i + 1]);
        }
        if k - 1 < rest.len() {
            assert(rest[k - 1] == q[k]);
        }
        lemma_stop_index_from_scan(rest, clock, target, k - 1);
    }
}

/// The scan that remembered `c` as the last timestamped frame it passed
/// found the chosen index.
proof fn lemma_chosen_index_from_scan(
    q: Seq<VideoFrame>,
    clock: Option<ClockInfo>,
    target: i64,
    k: int,
    c: Option<int>,
)
    requires
        0 <= k <= q.len(),
        forall|i: int| 0 <= i < k ==> !stops_scan(q[i], clock, target),
        k < q.len() ==> stops_scan(q[k], clock, target),
        match c {
            Some(ci) => {
                &&& 0 <= ci < k
                &&& q[ci].pts is Some
                &&& forall|i: int| ci < i < k ==> q[i].pts is None
            },
            None => forall|i: int| 0 <= i < k ==> q[i].pts is None,
        },
    ensures
        chosen_index(q, clock, target) == c,
    decreases q.len(),
{
    if k == 0 {
        assert(c is None);
    } else {
        let rest = q.drop_first();
        assert forall|i: int| 0 <= i < k - 1 implies !stops_scan(rest[i], clock, target) by {
            assert(rest[i] == q[i + 1]);
        }
        if k - 1 < rest.len() {
            assert(rest[k - 1] == q[k]);
        }
        let c_rest: Option<int> = match c {
            Some(ci) => if ci > 0 {
                Some(ci - 1)
            } else {
                None
            },
            None => None,
        };
        match c {
            Some(ci) => {
                if ci > 0 {
                    assert(rest[ci - 1] == q[ci]);
                    assert forall|i: int| ci - 1 < i < k - 1 implies rest[i].pts is None by {
                        assert(rest[i] == q[i + 1]);
                    }
                } else {
                    assert forall|i: int| 0 <= i < k - 1 implies rest[i].pts is None by {
                        assert(rest[i] == q[i + 1]);
                    }
                }
            },
            None => {
                assert forall|i: int| 0 <= i < k - 1 implies rest[i].pts is None by {
                    assert(rest[i] == q[i + 1]);
                }
            },
        }
        lemma_chosen_index_from_scan(rest, clock, target, k - 1, c_rest);
    }
}

/// Appending a frame to a run appends its buffer to the run's buffers.
proof fn lemma_frame_datas_take_push(q: Seq<VideoFrame>, j: int)
    requires
        0 <= j < q.len(),
    ensures
        frame_datas(q.take(j + 1)) == frame_datas(q.take(j)).push(q[j].data@),
{
    assert(frame_datas(q.take(j + 1)) =~= frame_datas(q.take(j)).push(q[j].data@));
}

/// Appending a buffer appends its contents to the run's views.
proof fn lemma_buffer_views_push(bufs: Seq<Vec<u8>>, b: Vec<u8>)
    ensures
        buffer_views(bufs.push(b)) == buffer_views(bufs).push(b@),
{
    assert(buffer_views(bufs.push(b)) =~= buffer_views(bufs).push(b@));
}

/// Removing an earlier element commutes with appending one.
proof fn lemma_remove_then_push(s: Seq<Seq<u8>>, c: int, x: Seq<u8>)
    requires
        0 <= c < s.len(),
    ensures
        s.push(x).remove(c) == s.remove(c).push(x),
{
    assert(s.push(x).remove(c) =~= s.remove(c).push(x));
}

/// Removing the just-appended last element undoes the append.
proof fn lemma_push_remove_last(s: Seq<Seq<u8>>, x: Seq<u8>)
    ensures
        s.push(x).remove(s.len() as int) == s,
{
    assert(s.push(x).remove(s.len() as int) =~= s);
}

/// What one selection pass produced: at most one frame for the display
/// sink, and the buffers of every other consumed frame, owed to the pool.
pub struct Selection {
    /// The frame to hand to the sink, when one became due; otherwise the
    /// previously displayed frame simply stays up.
    pub frame: Option<VideoFrame>,
    /// Buffers of the skipped frames, in scan order, to recycle.
    pub recycled: Vec<Vec<u8>>,
}

/// One selection pass over a track's frame queue, oldest frame first.
///
/// A frame without a timestamp is consumed and recycled on sight. Each
/// timestamped frame at or before `target` supersedes the previous
/// candidate, whose buffer joins the recycled set; the first frame strictly
/// after the target — or any timestamped frame while no clock is usable —
/// halts the pass and stays queued, as does everything behind it. The pass
/// delivers the last candidate: the most recent frame already due.
pub fn select_frame(queue: &mut Vec<VideoFrame>, clock: Option<ClockInfo>, target: i64) -> (sel:
    Selection)
    requires
        clock matches Some(c) ==> time_base_valid(c.num, c.den),
    ensures
        final(queue)@ == old(queue)@.skip(stop_index(old(queue)@, clock, target)),
        sel.frame == (match chosen_index(old(queue)@, clock, target) {
            Some(ci) => Some(old(queue)@[ci]),
            None => None::<VideoFrame>,
        }),
        buffer_views(sel.recycled@) == recycled_data(old(queue)@, clock, target),
        sel.frame matches Some(f) ==> frame_due(f, clock, target),
{
    let ghost q0 = queue@;
    let mut k: usize = 0;
    let mut best: Option<usize> = None;
    loop
        invariant
            k <= q0.len(),
            queue@ == q0,
            clock matches Some(c) ==> time_base_valid(c.num, c.den),
            forall|i: int| 0 <= i < k ==> !stops_scan(q0[i], clock, target),
            match best {
                Some(ci) => {
                    &&& 0 <= ci < k
                    &&& q0[ci as int].pts is Some
                    &&& forall|i: int| ci < i < k ==> q0[i].pts is None
                },
                None => forall|i: int| 0 <= i < k ==> q0[i].pts is None,
            },
        ensures
            k <= q0.len(),
            queue@ == q0,
            forall|i: int| 0 <= i < k ==> !stops_scan(q0[i], clock, target),
            k < q0.len() ==> stops_scan(q0[k as int], clock, target),
            match best {
                Some(ci) => {
                    &&& 0 <= ci < k
                    &&& q0[ci as int].pts is Some
                    &&& forall|i: int| ci < i < k ==> q0[i].pts is None
                },
                None => forall|i: int| 0 <= i < k ==> q0[i].pts is None,
            },
        decreases q0.len() - k,
    {
        if k == queue.len() {
            break ;
        }
        let halted: bool = match (&queue[k].pts, &clock) {
            (Option::None, _) => false,
            (Option::Some(p), Option::Some(c)) => !pts_due_by(
                *p,
                c.start_pts,
                c.num,
                c.den,
                target,
            ),
            (Option::Some(_), Option::None) => true,
        };
        proof {
            assert(halted == stops_scan(q0[k as int], clock, target));
        }
        if halted {
            break ;
        }
        if queue[k].pts.is_some() {
            best = Some(k);
        }
        k += 1;
    }
    proof {
        lemma_stop_index_from_scan(q0, clock, target, k as int);
        lemma_chosen_index_from_scan(
            q0,
            clock,
            target,
            k as int,
            match best {
                Some(ci) => Some(ci as int),
                None => None,
            },
        );
        assert(q0.skip(0) =~= q0);
    }

    let mut recycled: Vec<Vec<u8>> = Vec::new();
    let mut frame: Option<VideoFrame> = None;
    let mut j: usize = 0;
    while j < k
        invariant
            j <= k <= q0.len(),
            queue@ == q0.skip(j as int),
            stop_index(q0, clock, target) == k,
            chosen_index(q0, clock, target) == (match best {
                Some(ci) => Some(ci as int),
                None => None::<int>,
            }),
            match best {
                Some(ci) => {
                    &&& ci < k
                    &&& q0[ci as int].pts is Some
                    &&& !stops_scan(q0[ci as int], clock, target)
                    &&& (ci < j ==> frame == Some(q0[ci as int]))
                    &&& (ci >= j ==> frame is None)
                },
                None => frame is None,
            },
            buffer_views(recycled@) == (match best {
                Some(ci) => if ci < j {
                    frame_datas(q0.take(j as int)).remove(ci as int)
                } else {
                    frame_datas(q0.take(j as int))
                },
                None => frame_datas(q0.take(j as int)),
            }),
        decreases k - j,
    {
        let ghost jj: int = j as int;
        let ghost rec0 = recycled@;
        let f = queue.remove(0);
        let deliver: bool = match best {
            Some(ci) => ci == j,
            None => false,
        };
        if deliver {
            frame = Some(f);
        } else {
            recycled.push(f.data);
        }
        proof {
            assert(q0.skip(jj)[0] == q0[jj]);
            assert(q0.skip(jj).remove(0) =~= q0.skip(jj + 1));
            lemma_frame_datas_take_push(q0, jj);
            let datas_j = frame_datas(q0.take(jj));
            assert(datas_j.len() == jj);
            match best {
                Some(ci) => {
                    if (ci as int) < jj {
                        lemma_buffer_views_push(rec0, q0[jj].data);
                        lemma_remove_then_push(datas_j, ci as int, q0[jj].data@);
                    } else if ci == j {
                        lemma_push_remove_last(datas_j, q0[jj].data@);
                    } else {
                        lemma_buffer_views_push(rec0, q0[jj].data);
                    }
                },
                None => {
                    lemma_buffer_views_push(rec0, q0[jj].data);
                },
            }
        }
        j += 1;
    }
    proof {
        lemma_selection_bounds(q0, clock, target);
    }
    Selection { frame, recycled }
}

/// The queue's timestamped frames appear in nondecreasing presentation
/// time — the order a well-behaved stream produces them in.
pub open spec fn queue_time_ordered(q: Seq<VideoFrame>, c: ClockInfo) -> bool {
    forall|i: int, j: int| #![trigger q[i], q[j]]
        0 <= i <= j < q.len() && q[i].pts is Some && q[j].pts is Some ==> frame_micros(q[i], c)
            <= frame_micros(q[j], c)
}

/// The selector never rewinds the display: over a time-ordered queue, the
/// frame a later pass delivers from what this pass left behind is stamped
/// no earlier than the frame this pass delivered, whatever the two target
/// times were.
pub proof fn lemma_delivery_never_regresses(
    q: Seq<VideoFrame>,
    c: ClockInfo,
    t1: i64,
    t2: i64,
    c1: int,
    c2: int,
)
    requires
        queue_time_ordered(q, c),
        chosen_index(q, Some(c), t1) == Some(c1),
        chosen_index(q.skip(stop_index(q, Some(c), t1)), Some(c), t2) == Some(c2),
    ensures
        frame_micros(q.skip(stop_index(q, Some(c), t1))[c2], c) >= frame_micros(q[c1], c),
{
    let k1: int = stop_index(q, Some(c), t1);
    lemma_selection_bounds(q, Some(c), t1);
    let q2 = q.skip(k1);
    lemma_selection_bounds(q2, Some(c), t2);
    assert(q2[c2] == q[k1 + c2]);
    assert(q[c1].pts is Some);
    assert(q[k1 + c2].pts is Some);
    assert(0 <= c1 <= k1 + c2 < q.len());
}

/// Round-trip accounting for one selection pass: every consumed queue
/// position is accounted exactly once — the chosen frame is delivered,
/// every other consumed frame's buffer is recycled, in order, and the
/// positions from the stop index on stay queued. No buffer is recycled
/// twice and none is both delivered and recycled.
pub proof fn lemma_selection_accounting(q: Seq<VideoFrame>, clock: Option<ClockInfo>, target: i64)
    ensures
        ({
            let k = stop_index(q, clock, target);
            let r = recycled_data(q, clock, target);
            match chosen_index(q, clock, target) {
                Some(ci) => {
                    &&& r.len() == k - 1
                    &&& (forall|i: int| 0 <= i < ci ==> r[i] == q[i].data@)
                    &&& (forall|i: int| ci < i < k ==> r[i - 1] == q[i].data@)
                },
                None => {
                    &&& r.len() == k
                    &&& (forall|i: int| 0 <= i < k ==> r[i] == q[i].data@)
                },
            }
        }),
{
    lemma_selection_bounds(q, clock, target);
    let k: int = stop_index(q, clock, target);
    let datas = frame_datas(q.take(k));
    assert(datas.len() == k);
    assert forall|i: int| 0 <= i < k implies datas[i] == q[i].data@ by {
        assert(q.take(k)[i] == q[i]);
    }
    match chosen_index(q, clock, target) {
        Some(ci) => {
            let r = datas.remove(ci);
            assert forall|i: int| 0 <= i < ci implies r[i] == q[i].data@ by {
                assert(r[i] == datas[i]);
            }
            assert forall|i: int| ci < i < k implies r[i - 1] == q[i].data@ by {
                assert(r[i - 1] == datas[i]);
            }
        },
        None => {},
    }
}

} // verus!
