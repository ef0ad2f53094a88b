use vstd::prelude::*;

verus! {

/// A fixed set of reusable, identically sized pixel buffers.
///
/// A pool is created once per track, when the stream geometry becomes known,
/// with `num_buffers` zero-filled buffers of `frame_size` bytes, and never
/// allocates again. `get` hands a free buffer out, making it outstanding;
/// `recycle` takes an outstanding buffer back. A buffer of the wrong size —
/// one this pool cannot have issued — is rejected, as is a return when no
/// buffer is outstanding. At every point `free_count() + outstanding_count()
/// == capacity()`.
pub struct FramePool {
    free: Vec<Vec<u8>>,
    outstanding: usize,
    num_buffers: usize,
    frame_size: usize,
}

impl FramePool {
    /// How many buffers are waiting to be handed out.
    pub closed spec fn free_count(&self) -> int {
        self.free@.len() as int
    }

    /// How many buffers have been handed out and not yet returned.
    pub closed spec fn outstanding_count(&self) -> int {
        self.outstanding as int
    }

    /// The fixed number of buffers the pool was created with.
    pub closed spec fn capacity(&self) -> int {
        self.num_buffers as int
    }

    /// The fixed byte size every buffer of this pool has.
    pub closed spec fn buffer_size(&self) -> int {
        self.frame_size as int
    }

    /// The contents of the free buffers, oldest first.
    pub closed spec fn free_view(&self) -> Seq<Seq<u8>> {
        self.free@.map_values(|b: Vec<u8>| b@)
    }

    /// Conservation: free and outstanding buffers always add up to the
    /// capacity, and every waiting buffer has the pool's fixed size.
    pub closed spec fn wf(&self) -> bool {
        &&& self.free@.len() + self.outstanding == self.num_buffers
        &&& forall|i: int|
            0 <= i < self.free@.len() ==> (#[trigger] self.free@[i])@.len() == self.frame_size
    }

    /// Conservation law: at every observable instant, a conserving pool's
    /// free and outstanding buffers add up exactly to the `num_buffers` it
    /// was created with — buffers are neither created nor destroyed by
    /// `get` and `recycle`.
    pub proof fn lemma_conservation(&self)
        requires
            self.wf(),
        ensures
            self.free_count() + self.outstanding_count() == self.capacity(),
            self.free_view().len() == self.free_count(),
            self.free_count() >= 0,
            self.outstanding_count() >= 0,
            self.capacity() >= 0,
            self.buffer_size() >= 0,
    {
    }

    /// Pre-allocates `num_buffers` zero-filled buffers of `frame_size` bytes.
    pub fn new(num_buffers: usize, frame_size: usize) -> (pool: Self)
        ensures
            pool.wf(),
            pool.capacity() == num_buffers,
            pool.buffer_size() == frame_size,
            pool.free_count() == num_buffers,
            pool.outstanding_count() == 0,
            pool.free_view().len() == pool.free_count(),
            forall|i: int, j: int|
                0 <= i < num_buffers && 0 <= j < frame_size ==> pool.free_view()[i][j] == 0u8,
    {
        let mut free: Vec<Vec<u8>> = Vec::new();
        let mut i: usize = 0;
        while i < num_buffers
            invariant
                i <= num_buffers,
                free@.len() == i,
                forall|k: int| 0 <= k < i ==> (#[trigger] free@[k])@.len() == frame_size,
                forall|k: int, j: int|
                    0 <= k < i && 0 <= j < frame_size ==> #[trigger] free@[k]@[j] == 0u8,
            decreases num_buffers - i,
        {
            free.push(zero_buffer(frame_size));
            i += 1;
        }
        FramePool { free, outstanding: 0, num_buffers, frame_size }
    }

    /// Removes and returns a free buffer, or returns nothing when every
    /// buffer is outstanding — the caller's cue to wait for a recycle before
    /// decoding further (backpressure), never a fault.
    pub fn get(&mut self) -> (r: Option<Vec<u8>>)
        requires
            old(self).wf(),
        ensures
            final(self).wf(),
            final(self).capacity() == old(self).capacity(),
            final(self).buffer_size() == old(self).buffer_size(),
            final(self).free_count() + final(self).outstanding_count() == final(self).capacity(),
            final(self).free_view().len() == final(self).free_count(),
            old(self).free_view().len() == old(self).free_count(),
            old(self).free_count() > 0 ==> {
                &&& r matches Some(b) && b@ == old(self).free_view().last()
                &&& final(self).free_view() == old(self).free_view().drop_last()
                &&& final(self).free_count() == old(self).free_count() - 1
                &&& final(self).outstanding_count() == old(self).outstanding_count() + 1
            },
            old(self).free_count() == 0 ==> {
                &&& r is None
                &&& final(self).free_view() == old(self).free_view()
                &&& final(self).outstanding_count() == old(self).outstanding_count()
            },
            r matches Some(b) ==> b@.len() == old(self).buffer_size(),
    {
        match self.free.pop() {
            Some(buf) => {
                self.outstanding = self.outstanding + 1;
                proof {
                    assert(self.free_view() =~= old(self).free_view().drop_last());
                    assert(old(self).free@[old(self).free@.len() - 1]@.len()
                        == old(self).frame_size);
                }
                Some(buf)
            }
            None => None,
        }
    }

    /// Returns a buffer to the free set. A buffer of the wrong size, or one
    /// returned while nothing is outstanding, cannot have come from this pool
    /// and is handed back unaccepted.
    pub fn recycle(&mut self, buf: Vec<u8>) -> (r: Result<(), Vec<u8>>)
        requires
            old(self).wf(),
        ensures
            final(self).wf(),
            final(self).capacity() == old(self).capacity(),
            final(self).buffer_size() == old(self).buffer_size(),
            final(self).free_count() + final(self).outstanding_count() == final(self).capacity(),
            final(self).free_view().len() == final(self).free_count(),
            old(self).free_view().len() == old(self).free_count(),
            buf@.len() == old(self).buffer_size() && old(self).outstanding_count() > 0 ==> {
                &&& r is Ok
                &&& final(self).free_view() == old(self).free_view().push(buf@)
                &&& final(self).free_count() == old(self).free_count() + 1
                &&& final(self).outstanding_count() == old(self).outstanding_count() - 1
            },
            !(buf@.len() == old(self).buffer_size() && old(self).outstanding_count() > 0) ==> {
                &&& r matches Err(b) && b == buf
                &&& *final(self) == *old(self)
            },
    {
        if buf.len() == self.frame_size && self.outstanding > 0 {
            self.free.push(buf);
            self.outstanding = self.outstanding - 1;
            proof {
                assert(self.free_view() =~= old(self).free_view().push(buf@));
            }
            Ok(())
        } else {
            Err(buf)
        }
    }

    /// The number of buffers currently free, as a runtime value.
    pub fn free_len(&self) -> (n: usize)
        ensures
            n == self.free_count(),
    {
        self.free.len()
    }

    /// The number of buffers currently outstanding, as a runtime value.
    pub fn outstanding_len(&self) -> (n: usize)
        ensures
            n == self.outstanding_count(),
    {
        self.outstanding
    }

    /// The fixed buffer count, as a runtime value.
    pub fn buffer_count(&self) -> (n: usize)
        ensures
            n == self.capacity(),
    {
        self.num_buffers
    }

    /// The fixed buffer byte size, as a runtime value.
    pub fn buffer_len(&self) -> (n: usize)
        ensures
            n == self.buffer_size(),
    {
        self.frame_size
    }
}

/// A zero-filled byte buffer of the requested length.
fn zero_buffer(frame_size: usize) -> (buf: Vec<u8>)
    ensures
        buf@.len() == frame_size,
        forall|j: int| 0 <= j < frame_size ==> buf@[j] == 0u8,
{
    let mut buf: Vec<u8> = Vec::new();
    let mut j: usize = 0;
    while j < frame_size
        invariant
            j <= frame_size,
            buf@.len() == j,
            forall|k: int| 0 <= k < j ==> buf@[k] == 0u8,
        decreases frame_size - j,
    {
        buf.push(0u8);
        j += 1;
    }
    buf
}

} // verus!
