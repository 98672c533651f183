//! Bounded first-in first-out frame queue, backed by a `ringbuf` heap ring
//! buffer.

use vstd::prelude::*;
use ringbuf::traits::{Consumer, Producer};
use crate::protocol::RdxUsbFsPacket;

verus! {

/// Holds a `ringbuf` heap ring buffer of frames. Verus sees nothing inside
/// it; what it holds is named by `rb_frames` and `rb_capacity`.
#[verifier::external_body]
pub struct FrameRing {
    rb: ringbuf::HeapRb<RdxUsbFsPacket>,
}

/// The frames held by a ring buffer, eldest first.
pub uninterp spec fn rb_frames(rb: FrameRing) -> Seq<RdxUsbFsPacket>;

/// The capacity a ring buffer was created with.
pub uninterp spec fn rb_capacity(rb: FrameRing) -> nat;

/// Relies on `HeapRb::new`: an empty buffer whose storage holds exactly
/// `capacity` items (it panics on a zero capacity).
#[verifier::external_body]
fn rb_new(capacity: usize) -> (r: FrameRing)
    requires
        capacity > 0,
    ensures
        rb_frames(r) == Seq::<RdxUsbFsPacket>::empty(),
        rb_capacity(r) == capacity,
{
    FrameRing { rb: ringbuf::HeapRb::new(capacity) }
}

/// Relies on `Producer::try_push`: appends the frame unless the buffer is
/// full, in which case the frame is handed back (here as `Some`).
#[verifier::external_body]
fn rb_try_push(rb: &mut FrameRing, f: RdxUsbFsPacket) -> (r: Option<RdxUsbFsPacket>)
    ensures
        rb_capacity(*final(rb)) == rb_capacity(*old(rb)),
        rb_frames(*old(rb)).len() < rb_capacity(*old(rb)) ==> r is None && rb_frames(*final(rb))
            == rb_frames(*old(rb)).push(f),
        rb_frames(*old(rb)).len() >= rb_capacity(*old(rb)) ==> r == Some(f) && rb_frames(
            *final(rb),
        ) == rb_frames(*old(rb)),
{
    rb.rb.try_push(f).err()
}

/// Relies on `Consumer::try_pop`: removes and returns the eldest frame, or
/// `None` when the buffer is empty.
#[verifier::external_body]
fn rb_try_pop(rb: &mut FrameRing) -> (r: Option<RdxUsbFsPacket>)
    ensures
        rb_capacity(*final(rb)) == rb_capacity(*old(rb)),
        rb_frames(*old(rb)).len() == 0 ==> r is None && rb_frames(*final(rb)) == rb_frames(
            *old(rb),
        ),
        rb_frames(*old(rb)).len() > 0 ==> r == Some(rb_frames(*old(rb))[0]) && rb_frames(
            *final(rb),
        ) == rb_frames(*old(rb)).drop_first(),
{
    rb.rb.try_pop()
}

/// A bounded queue of frames.
pub struct FrameQueue {
    rb: FrameRing,
}

impl FrameQueue {
    /// The frames in the queue, eldest first.
    pub closed spec fn frames(&self) -> Seq<RdxUsbFsPacket> {
        rb_frames(self.rb)
    }

    /// The number of frames the queue can hold.
    pub closed spec fn capacity(&self) -> nat {
        rb_capacity(self.rb)
    }

    pub open spec fn wf(&self) -> bool {
        &&& 0 < self.capacity()
        &&& self.frames().len() <= self.capacity()
    }

    /// An empty queue that holds up to `capacity` frames.
    pub fn new(capacity: usize) -> (r: FrameQueue)
        requires
            capacity > 0,
        ensures
            r.wf(),
            r.frames() == Seq::<RdxUsbFsPacket>::empty(),
            r.capacity() == capacity,
    {
        FrameQueue { rb: rb_new(capacity) }
    }

    /// Appends `f` if there is room; otherwise hands it back as `Some`.
    pub fn try_push(&mut self, f: RdxUsbFsPacket) -> (r: Option<RdxUsbFsPacket>)
        requires
            old(self).wf(),
        ensures
            final(self).wf(),
            final(self).capacity() == old(self).capacity(),
            r is None <==> old(self).frames().len() < old(self).capacity(),
            r is None ==> final(self).frames() == old(self).frames().push(f),
            r is Some ==> r == Some(f) && final(self).frames() == old(self).frames(),
    {
        rb_try_push(&mut self.rb, f)
    }

    /// Removes and returns the eldest frame, if any.
    pub fn try_pop(&mut self) -> (r: Option<RdxUsbFsPacket>)
        requires
            old(self).wf(),
        ensures
            final(self).wf(),
            final(self).capacity() == old(self).capacity(),
            old(self).frames().len() == 0 ==> r is None && final(self).frames()
                == old(self).frames(),
            old(self).frames().len() > 0 ==> r == Some(old(self).frames()[0])
                && final(self).frames() == old(self).frames().drop_first(),
    {
        rb_try_pop(&mut self.rb)
    }
}

} // verus!
