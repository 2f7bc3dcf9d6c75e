//! The shared frame window: one bounded buffer of frames behind a
//! reader/writer lock, so capture can push while a save takes a snapshot.

use crate::clip::frames_view;
use crate::frame::CapturedFrame;
use crate::ring_buffer::RingBuffer;
use vstd::prelude::*;
use vstd::rwlock::{RwLock, RwLockPredicate};

verus! {

/// `ceil(duration_ms × fps / 1000)`: the number of frames that
/// `duration_ms` milliseconds of capture at `fps` frames per second produce.
pub open spec fn spec_frame_capacity(duration_ms: u32, fps: u32) -> int {
    (duration_ms as int * fps as int + 999) / 1000
}

/// The number of frames a window of `duration_ms` milliseconds at `fps`
/// frames per second holds, rounded up.
pub fn frame_capacity(duration_ms: u32, fps: u32) -> (r: usize)
    requires
        spec_frame_capacity(duration_ms, fps) <= usize::MAX,
    ensures
        r == spec_frame_capacity(duration_ms, fps),
{
    proof {
        assert(duration_ms as int * fps as int <= 0xFFFF_FFFFint * 0xFFFF_FFFFint) by (nonlinear_arith)
            requires
                duration_ms <= 0xFFFF_FFFFint,
                fps <= 0xFFFF_FFFFint,
        ;
    }
    let product: u64 = duration_ms as u64 * fps as u64;
    ((product + 999) / 1000) as usize
}

/// The window size for `duration_ms` at `fps`, or `None` when that is no
/// frame at all or more than memory can index.
pub fn checked_frame_capacity(duration_ms: u32, fps: u32) -> (r: Option<usize>)
    ensures
        r == if 0 < spec_frame_capacity(duration_ms, fps) <= usize::MAX {
            Some(spec_frame_capacity(duration_ms, fps) as usize)
        } else {
            None::<usize>
        },
{
    proof {
        assert(duration_ms as int * fps as int <= 0xFFFF_FFFFint * 0xFFFF_FFFFint) by (nonlinear_arith)
            requires
                duration_ms <= 0xFFFF_FFFFint,
                fps <= 0xFFFF_FFFFint,
        ;
    }
    let cap: u64 = (duration_ms as u64 * fps as u64 + 999) / 1000;
    if cap == 0 || cap > usize::MAX as u64 {
        None
    } else {
        Some(cap as usize)
    }
}

/// What the lock guarantees of the buffer it guards: well-formed, with the
/// window's capacity.
pub struct WindowInvariant {
    pub capacity: usize,
}

impl RwLockPredicate<RingBuffer<CapturedFrame>> for WindowInvariant {
    open spec fn inv(self, v: RingBuffer<CapturedFrame>) -> bool {
        v.wf() && v.spec_capacity() == self.capacity
    }
}

/// A copy of every frame of `buffer`, oldest first.
pub fn snapshot_of(buffer: &RingBuffer<CapturedFrame>) -> (r: Vec<CapturedFrame>)
    ensures
        r@.len() == buffer@.len(),
        frames_view(r@) == frames_view(buffer@),
{
    let n = buffer.len();
    let mut out: Vec<CapturedFrame> = Vec::new();
    let mut i: usize = 0;
    while i < n
        invariant
            n == buffer@.len(),
            i <= n,
            out@.len() == i,
            frames_view(out@) == frames_view(buffer@.subrange(0, i as int)),
        decreases n - i,
    {
        let f = buffer.get(i).duplicate();
        proof {
            let next = out@.push(f);
            let sub = buffer@.subrange(0, i + 1);
            assert forall|j: int| 0 <= j < i + 1 implies #[trigger] frames_view(next)[j]
                == frames_view(sub)[j] by {
                if j < i {
                    assert(frames_view(out@)[j] == frames_view(buffer@.subrange(0, i as int))[j]);
                }
            }
            assert(frames_view(next) =~= frames_view(sub));
        }
        out.push(f);
        i = i + 1;
    }
    proof {
        assert(buffer@.subrange(0, n as int) =~= buffer@);
    }
    out
}

/// Taking a snapshot leaves the buffer as it was, so any number of
/// snapshots of a buffer that is not modified in between hold the same
/// frames, in the same order.
pub proof fn lemma_snapshots_agree(
    buffer: RingBuffer<CapturedFrame>,
    first: Seq<CapturedFrame>,
    second: Seq<CapturedFrame>,
)
    requires
        frames_view(first) == frames_view(buffer@),
        frames_view(second) == frames_view(buffer@),
    ensures
        frames_view(first) == frames_view(second),
        first.len() == second.len(),
{
    assert(first.len() == frames_view(first).len());
    assert(second.len() == frames_view(second).len());
}

/// A fixed-capacity window of the most recent frames, safe to share between
/// the capture context (which pushes) and the save context (which reads).
pub struct SharedFrameBuffer {
    inner: RwLock<RingBuffer<CapturedFrame>, WindowInvariant>,
    capacity: usize,
}

impl SharedFrameBuffer {
    /// The number of frames the window holds at most.
    pub closed spec fn spec_capacity(&self) -> nat {
        self.capacity as nat
    }

    /// The lock guards a well-formed buffer of this window's capacity.
    pub closed spec fn wf(&self) -> bool {
        &&& self.capacity > 0
        &&& self.inner.pred() == WindowInvariant { capacity: self.capacity }
    }

    /// An empty window holding `duration_ms` milliseconds of frames at `fps`
    /// frames per second, that is `ceil(duration_ms × fps / 1000)` frames.
    pub fn new(duration_ms: u32, fps: u32) -> (r: Self)
        requires
            0 < spec_frame_capacity(duration_ms, fps) <= usize::MAX,
        ensures
            r.wf(),
            r.spec_capacity() == spec_frame_capacity(duration_ms, fps),
    {
        let capacity = frame_capacity(duration_ms, fps);
        SharedFrameBuffer::with_capacity(capacity)
    }

    /// An empty window holding at most `capacity` frames.
    pub fn with_capacity(capacity: usize) -> (r: Self)
        requires
            capacity > 0,
        ensures
            r.wf(),
            r.spec_capacity() == capacity,
    {
        let buffer = RingBuffer::new(capacity);
        let inner = RwLock::new(buffer, Ghost(WindowInvariant { capacity }));
        SharedFrameBuffer { inner, capacity }
    }

    /// Adds `frame` as the newest frame, evicting the oldest when full
    /// (`RingBuffer::push`, under the write lock). Other holders of the
    /// window may push or clear at any time, so the contract can say nothing
    /// of the contents afterwards; the lock keeps the buffer well formed and
    /// of this window's capacity.
    pub fn push_frame(&self, frame: CapturedFrame)
        requires
            self.wf(),
    {
        let (mut buffer, handle) = self.inner.acquire_write();
        buffer.push(frame);
        handle.release_write(buffer);
    }

    /// A copy of the window's frames, oldest first, taken under the read
    /// lock; the window itself is left as it is. No more than the capacity
    /// is ever returned.
    pub fn snapshot(&self) -> (r: Vec<CapturedFrame>)
        requires
            self.wf(),
        ensures
            r@.len() <= self.spec_capacity(),
    {
        let handle = self.inner.acquire_read();
        let frames = snapshot_of(handle.borrow());
        handle.release_read();
        frames
    }

    /// The number of frames currently held (never more than the capacity).
    pub fn frame_count(&self) -> (r: usize)
        requires
            self.wf(),
        ensures
            r <= self.spec_capacity(),
    {
        let handle = self.inner.acquire_read();
        let n = handle.borrow().len();
        handle.release_read();
        n
    }

    /// The number of frames the window holds at most.
    pub fn capacity(&self) -> (r: usize)
        ensures
            r == self.spec_capacity(),
    {
        self.capacity
    }

    /// Removes every frame (`RingBuffer::clear`, under the write lock); the
    /// capacity is unchanged.
    pub fn clear(&self)
        requires
            self.wf(),
    {
        let (mut buffer, handle) = self.inner.acquire_write();
        buffer.clear();
        handle.release_write(buffer);
    }
}

} // verus!
