//! The queues of one connected session: one inbound queue per channel, filled
//! from the bulk-in endpoint and drained by readers, and one outbound queue,
//! filled by writers and drained towards the bulk-out endpoint.

use vstd::prelude::*;
use crate::protocol::{RdxUsbFsPacket, RdxUsbPacket, to_public, wire_of};
use crate::queue::FrameQueue;

verus! {

/// What a session holds: the frames waiting on each inbound channel and the
/// frames waiting to be sent, eldest first.
pub ghost struct SessionView {
    pub inbound: Seq<Seq<RdxUsbFsPacket>>,
    pub outbound: Seq<RdxUsbFsPacket>,
}

/// Errors of a single non-blocking read.
#[derive(Debug, Clone, Copy, PartialEq, Eq, Structural)]
pub enum DeviceIOError {
    ChannelOutOfRange,
    NoData,
}

/// What became of a frame handed to the inbound side of a session.
#[derive(Debug, Clone, Copy, PartialEq, Eq)]
pub enum InboundOutcome {
    /// Appended to its channel's queue.
    Queued,
    /// Its channel's queue is full; the frame is handed back.
    Full(RdxUsbFsPacket),
    /// Not a frame of this session (bad length code or channel); dropped.
    Discarded,
    /// There is no session to take it.
    Detached,
}

/// The smaller of two naturals.
pub open spec fn min_nat(a: nat, b: nat) -> nat {
    if a < b {
        a
    } else {
        b
    }
}

/// The frames that a read of up to `max` frames takes from `q`.
pub open spec fn taken(q: Seq<RdxUsbFsPacket>, max: nat) -> Seq<RdxUsbFsPacket> {
    q.take(min_nat(max, q.len()) as int)
}

/// A session's read of up to `max` frames from `channel`: `None` when the
/// channel does not exist (only checked when there is room for a frame).
pub open spec fn session_read(s: SessionView, channel: u8, max: nat) -> Option<
    Seq<RdxUsbFsPacket>,
> {
    if max == 0 {
        Some(Seq::empty())
    } else if channel >= s.inbound.len() {
        None
    } else {
        Some(taken(s.inbound[channel as int], max))
    }
}

/// The session after that read.
pub open spec fn session_after_read(s: SessionView, channel: u8, max: nat) -> SessionView {
    match session_read(s, channel, max) {
        Some(t) => if t.len() == 0 {
            s
        } else {
            SessionView {
                inbound: s.inbound.update(channel as int, s.inbound[channel as int].skip(t.len() as int)),
                outbound: s.outbound,
            }
        },
        None => s,
    }
}

/// How many of `ps` a write accepts when the outbound queue has `room` free
/// places: it stops at the first frame whose payload does not fit in a wire
/// frame and when the queue is full.
pub open spec fn write_count(room: int, ps: Seq<RdxUsbPacket>) -> nat
    decreases ps.len(),
{
    if ps.len() == 0 || room <= 0 || ps[0].dlc > 48 {
        0
    } else {
        1 + write_count(room - 1, ps.drop_first())
    }
}

/// The wire forms of the public frames `ps`.
pub open spec fn wire_frames(ps: Seq<RdxUsbPacket>) -> Seq<RdxUsbFsPacket> {
    ps.map_values(|p: RdxUsbPacket| wire_of(p))
}

/// The number of frames a write of `ps` accepts into a session whose queues
/// hold `cap` frames each.
pub open spec fn session_write_count(s: SessionView, cap: nat, ps: Seq<RdxUsbPacket>) -> nat {
    write_count(cap - s.outbound.len(), ps)
}

/// The session after that write.
pub open spec fn session_after_write(s: SessionView, cap: nat, ps: Seq<RdxUsbPacket>) -> SessionView {
    SessionView {
        inbound: s.inbound,
        outbound: s.outbound + wire_frames(ps.take(session_write_count(s, cap, ps) as int)),
    }
}

/// What becomes of the frame `f` handed to the inbound side.
pub open spec fn session_push_outcome(s: SessionView, cap: nat, f: RdxUsbFsPacket) -> InboundOutcome {
    if f.dlc > 48 || f.channel >= s.inbound.len() {
        InboundOutcome::Discarded
    } else if s.inbound[f.channel as int].len() >= cap {
        InboundOutcome::Full(f)
    } else {
        InboundOutcome::Queued
    }
}

/// The session after `f` was handed to the inbound side.
pub open spec fn session_after_push(s: SessionView, cap: nat, f: RdxUsbFsPacket) -> SessionView {
    if session_push_outcome(s, cap, f) == InboundOutcome::Queued {
        SessionView {
            inbound: s.inbound.update(f.channel as int, s.inbound[f.channel as int].push(f)),
            outbound: s.outbound,
        }
    } else {
        s
    }
}

/// A freshly opened session with `n` empty channels.
pub open spec fn fresh_session(n: nat) -> SessionView {
    SessionView {
        inbound: Seq::new(n, |i: int| Seq::<RdxUsbFsPacket>::empty()),
        outbound: Seq::empty(),
    }
}

proof fn lemma_write_count_step(room: int, ps: Seq<RdxUsbPacket>, i: int)
    requires
        0 <= i < ps.len(),
    ensures
        (room - i > 0 && ps[i].dlc <= 48) ==> write_count(room - i, ps.skip(i)) == 1 + write_count(
            room - i - 1,
            ps.skip(i + 1),
        ),
        !(room - i > 0 && ps[i].dlc <= 48) ==> write_count(room - i, ps.skip(i)) == 0,
{
    assert(ps.skip(i)[0] == ps[i]);
    assert(ps.skip(i).drop_first() =~= ps.skip(i + 1));
}

/// The queues of one connected session.
pub struct OpenDevice {
    pub channels: Vec<FrameQueue>,
    pub writer: FrameQueue,
}

impl View for OpenDevice {
    type V = SessionView;

    open spec fn view(&self) -> SessionView {
        SessionView {
            inbound: self.channels@.map_values(|q: FrameQueue| q.frames()),
            outbound: self.writer.frames(),
        }
    }
}

impl OpenDevice {
    /// The number of frames each queue of the session holds.
    pub open spec fn capacity(&self) -> nat {
        self.writer.capacity()
    }

    /// Every queue is well formed and holds as many frames as the others.
    pub open spec fn wf(&self) -> bool {
        &&& self.channels@.len() <= 255
        &&& forall|i: int|
            0 <= i < self.channels@.len() ==> (#[trigger] self.channels@[i]).wf()
                && self.channels@[i].capacity() == self.writer.capacity()
        &&& self.writer.wf()
    }

    /// A session with `n_channels` empty inbound queues and an empty outbound
    /// queue, each holding up to `cap` frames.
    pub fn new(n_channels: u8, cap: usize) -> (r: OpenDevice)
        requires
            cap > 0,
        ensures
            r.wf(),
            r.capacity() == cap,
            r@ == fresh_session(n_channels as nat),
    {
        let mut channels: Vec<FrameQueue> = Vec::new();
        let mut i: u8 = 0;
        while i < n_channels
            invariant
                i <= n_channels,
                cap > 0,
                channels@.len() == i,
                forall|k: int|
                    0 <= k < i ==> (#[trigger] channels@[k]).wf() && channels@[k].capacity() == cap
                        && channels@[k].frames() == Seq::<RdxUsbFsPacket>::empty(),
            decreases n_channels - i,
        {
            channels.push(FrameQueue::new(cap));
            i = i + 1;
        }
        let r = OpenDevice { channels, writer: FrameQueue::new(cap) };
        assert(r@.inbound =~= fresh_session(n_channels as nat).inbound);
        r
    }

    /// The number of inbound channels.
    pub fn n_channels(&self) -> (r: usize)
        ensures
            r == self@.inbound.len(),
    {
        self.channels.len()
    }

    /// Takes the eldest frame waiting on `channel_idx`, in its public form.
    pub fn try_read(&mut self, channel_idx: u8) -> (r: Result<RdxUsbPacket, DeviceIOError>)
        requires
            old(self).wf(),
        ensures
            final(self).wf(),
            final(self).capacity() == old(self).capacity(),
            channel_idx >= old(self)@.inbound.len() ==> r
                == Err::<RdxUsbPacket, DeviceIOError>(DeviceIOError::ChannelOutOfRange)
                && final(self)@ == old(self)@,
            channel_idx < old(self)@.inbound.len() && old(self)@.inbound[channel_idx as int].len()
                == 0 ==> r == Err::<RdxUsbPacket, DeviceIOError>(DeviceIOError::NoData)
                && final(self)@ == old(self)@,
            channel_idx < old(self)@.inbound.len() && old(self)@.inbound[channel_idx as int].len()
                > 0 ==> r == Ok::<RdxUsbPacket, DeviceIOError>(
                to_public(old(self)@.inbound[channel_idx as int][0]),
            ) && final(self)@ == (SessionView {
                inbound: old(self)@.inbound.update(
                    channel_idx as int,
                    old(self)@.inbound[channel_idx as int].drop_first(),
                ),
                outbound: old(self)@.outbound,
            }),
    {
        let ch = channel_idx as usize;
        if ch >= self.channels.len() {
            return Err(DeviceIOError::ChannelOutOfRange);
        }
        let ghost before = self.channels@;
        let popped = self.channels[ch].try_pop();
        proof {
            assert(self.channels@ == before.update(ch as int, self.channels@[ch as int]));
            assert forall|i: int| 0 <= i < self.channels@.len() implies (
            #[trigger] self.channels@[i]).wf() && self.channels@[i].capacity()
                == self.writer.capacity() by {
                if i != ch {
                    assert(self.channels@[i] == before[i]);
                }
            }
            assert(self@.inbound =~= old(self)@.inbound.update(
                ch as int,
                self.channels@[ch as int].frames(),
            ));
        }
        match popped {
            Some(f) => Ok(RdxUsbPacket::from(f)),
            None => {
                proof {
                    assert(self@.inbound =~= old(self)@.inbound);
                }
                Err(DeviceIOError::NoData)
            },
        }
    }
    /// Reads up to `packets.len()` frames from `channel` into `packets`, in
    /// arrival order, and returns how many were read. Stops at the first
    /// empty poll; the channel is only checked when there is room for a frame.
    pub fn read_into(&mut self, channel: u8, packets: &mut [RdxUsbPacket]) -> (r: Result<
        usize,
        DeviceIOError,
    >)
        requires
            old(self).wf(),
        ensures
            final(self).wf(),
            final(self).capacity() == old(self).capacity(),
            final(self)@ == session_after_read(old(self)@, channel, old(packets)@.len()),
            final(packets)@.len() == old(packets)@.len(),
            match session_read(old(self)@, channel, old(packets)@.len()) {
                None => r == Err::<usize, DeviceIOError>(DeviceIOError::ChannelOutOfRange)
                    && final(packets)@ == old(packets)@,
                Some(t) => r == Ok::<usize, DeviceIOError>(t.len() as usize) && (forall|i: int|
                    0 <= i < t.len() ==> #[trigger] final(packets)@[i] == to_public(t[i])) && (
                forall|i: int|
                    t.len() <= i < old(packets)@.len() ==> final(packets)@[i] == old(
                        packets,
                    )@[i]),
            },
    {
        let ghost s0 = self@;
        let ghost q0 = if (channel as int) < s0.inbound.len() {
            s0.inbound[channel as int]
        } else {
            Seq::empty()
        };
        let n = packets.len();
        let mut count: usize = 0;
        proof {
            if (channel as int) < s0.inbound.len() {
                assert(q0.skip(0) =~= q0);
                assert(s0.inbound.update(channel as int, q0) =~= s0.inbound);
            }
        }
        while count < n
            invariant
                self.wf(),
                self.capacity() == old(self).capacity(),
                n == packets@.len(),
                packets@.len() == old(packets)@.len(),
                count <= n,
                count <= q0.len(),
                count > 0 ==> (channel as int) < s0.inbound.len(),
                (channel as int) < s0.inbound.len() ==> self@ == (SessionView {
                    inbound: s0.inbound.update(channel as int, q0.skip(count as int)),
                    outbound: s0.outbound,
                }),
                (channel as int) >= s0.inbound.len() ==> self@ == s0,
                s0 == old(self)@,
                forall|i: int| 0 <= i < count ==> packets@[i] == to_public(#[trigger] q0[i]),
                forall|i: int| count <= i < n ==> packets@[i] == old(packets)@[i],
            ensures
                count == n || ((channel as int) < s0.inbound.len() && count == q0.len()),
            decreases n - count,
        {
            match self.try_read(channel) {
                Ok(p) => {
                    proof {
                        assert(q0.skip(count as int)[0] == q0[count as int]);
                        assert(q0.skip(count as int).drop_first() =~= q0.skip(count + 1));
                    }
                    packets[count] = p;
                    count = count + 1;
                    proof {
                        assert(self@.inbound =~= s0.inbound.update(
                            channel as int,
                            q0.skip(count as int),
                        ));
                    }
                },
                Err(DeviceIOError::ChannelOutOfRange) => {
                    proof {
                        assert(packets@ =~= old(packets)@);
                    }
                    return Err(DeviceIOError::ChannelOutOfRange);
                },
                Err(DeviceIOError::NoData) => {
                    break ;
                },
            }
        }
        proof {
            if (channel as int) < s0.inbound.len() && n > 0 {
                let t = taken(q0, n as nat);
                assert(t.len() == count);
                if count > 0 {
                    assert(s0.inbound.update(channel as int, q0.skip(count as int)) =~= session_after_read(s0, channel, n as nat).inbound);
                } else {
                    assert(s0.inbound.update(channel as int, q0.skip(0)) =~= s0.inbound);
                }
            } else if (channel as int) < s0.inbound.len() {
                assert(s0.inbound.update(channel as int, q0.skip(0)) =~= s0.inbound);
            }
        }
        Ok(count)
    }

    /// Queues `packet` for sending; hands it back when its payload does not fit
    /// in a wire frame or the outbound queue is full.
    pub fn try_write(&mut self, packet: &RdxUsbPacket) -> (r: Result<(), RdxUsbPacket>)
        requires
            old(self).wf(),
        ensures
            final(self).wf(),
            final(self).capacity() == old(self).capacity(),
            r is Ok <==> packet.dlc <= 48 && old(self)@.outbound.len() < old(self).capacity(),
            r is Ok ==> final(self)@ == (SessionView {
                inbound: old(self)@.inbound,
                outbound: old(self)@.outbound.push(wire_of(*packet)),
            }),
            r is Err ==> r == Err::<(), RdxUsbPacket>(*packet) && final(self)@ == old(self)@,
    {
        match RdxUsbFsPacket::try_from(*packet) {
            Err(p) => Err(p),
            Ok(f) => {
                match self.writer.try_push(f) {
                    Some(_) => Err(*packet),
                    None => Ok(()),
                }
            },
        }
    }

    /// Queues the leading frames of `packets` for sending, stopping at the first
    /// that does not fit in a wire frame and when the queue is full; returns
    /// how many were queued.
    pub fn write_from(&mut self, packets: &[RdxUsbPacket]) -> (r: usize)
        requires
            old(self).wf(),
        ensures
            final(self).wf(),
            final(self).capacity() == old(self).capacity(),
            r == session_write_count(old(self)@, old(self).capacity(), packets@),
            final(self)@ == session_after_write(old(self)@, old(self).capacity(), packets@),
    {
        let ghost s0 = self@;
        let ghost room = self.capacity() - s0.outbound.len();
        let n = packets.len();
        let mut count: usize = 0;
        proof {
            assert(packets@.skip(0) =~= packets@);
        }
        while count < n
            invariant
                self.wf(),
                self.capacity() == old(self).capacity(),
                s0 == old(self)@,
                room == self.capacity() - s0.outbound.len(),
                n == packets@.len(),
                count <= n,
                self@.inbound == s0.inbound,
                self@.outbound == s0.outbound + wire_frames(packets@.take(count as int)),
                write_count(room, packets@) == count + write_count(room - count, packets@.skip(count as int)),
            ensures
                write_count(room - count, packets@.skip(count as int)) == 0,
            decreases n - count,
        {
            proof {
                lemma_write_count_step(room, packets@, count as int);
            }
            match self.try_write(&packets[count]) {
                Ok(()) => {
                    proof {
                        assert(wire_frames(packets@.take(count + 1)) =~= wire_frames(packets@.take(count as int)).push(wire_of(packets@[count as int])));
                    }
                    count = count + 1;
                },
                Err(_) => {
                    break ;
                },
            }
        }
        proof {
            assert(packets@.take(count as int) =~= packets@.take(session_write_count(s0, old(self).capacity(), packets@) as int));
        }
        count
    }

    /// Hands the frame `f`, received on the bulk-in endpoint, to its channel.
    pub fn push_inbound(&mut self, f: RdxUsbFsPacket) -> (r: InboundOutcome)
        requires
            old(self).wf(),
        ensures
            final(self).wf(),
            final(self).capacity() == old(self).capacity(),
            r == session_push_outcome(old(self)@, old(self).capacity(), f),
            final(self)@ == session_after_push(old(self)@, old(self).capacity(), f),
    {
        if f.dlc > 48 || f.channel as usize >= self.channels.len() {
            return InboundOutcome::Discarded;
        }
        let ch = f.channel as usize;
        let ghost before = self.channels@;
        let rejected = self.channels[ch].try_push(f);
        proof {
            assert(self.channels@ == before.update(ch as int, self.channels@[ch as int]));
            assert forall|i: int| 0 <= i < self.channels@.len() implies (
            #[trigger] self.channels@[i]).wf() && self.channels@[i].capacity()
                == self.writer.capacity() by {
                if i != ch {
                    assert(self.channels@[i] == before[i]);
                }
            }
        }
        match rejected {
            Some(g) => {
                proof {
                    assert(self@.inbound =~= old(self)@.inbound);
                }
                InboundOutcome::Full(g)
            },
            None => {
                proof {
                    assert(self@.inbound =~= old(self)@.inbound.update(
                        ch as int,
                        old(self)@.inbound[ch as int].push(f),
                    ));
                }
                InboundOutcome::Queued
            },
        }
    }

    /// Takes the eldest frame waiting to be sent, if any.
    pub fn pop_outbound(&mut self) -> (r: Option<RdxUsbFsPacket>)
        requires
            old(self).wf(),
        ensures
            final(self).wf(),
            final(self).capacity() == old(self).capacity(),
            old(self)@.outbound.len() == 0 ==> r is None && final(self)@ == old(self)@,
            old(self)@.outbound.len() > 0 ==> r == Some(old(self)@.outbound[0]) && final(self)@ == (
            SessionView { inbound: old(self)@.inbound, outbound: old(self)@.outbound.drop_first() }),
    {
        self.writer.try_pop()
    }

}

} // verus!
