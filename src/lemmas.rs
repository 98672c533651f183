//! Facts about sequences of registry operations, proved over the spec
//! functions that the operations' contracts use.

use vstd::prelude::*;
use crate::protocol::{RdxUsbFsPacket, RdxUsbPacket};
use crate::session::{InboundOutcome, fresh_session, write_count, wire_frames};
use crate::event_loop::{
    EventLoopError,
    EventLoopView,
    after_close,
    after_push,
    after_read,
    after_write,
    evolves,
    push_outcome,
    read_result,
    view_wf,
    with_session,
    write_result,
};

verus! {

/// The frames waiting on channel `ch` of the session of handle `h`.
pub open spec fn inbound_queue(v: EventLoopView, h: i32, ch: int) -> Seq<RdxUsbFsPacket> {
    v.slots[h].session.unwrap().inbound[ch]
}

/// The frames waiting to be sent on the session of handle `h`.
pub open spec fn outbound_queue(v: EventLoopView, h: i32) -> Seq<RdxUsbFsPacket> {
    v.slots[h].session.unwrap().outbound
}

/// Handle `h` has a live session with channel `ch`.
pub open spec fn connected(v: EventLoopView, h: i32, ch: int) -> bool {
    &&& v.slots.contains_key(h)
    &&& v.slots[h].session is Some
    &&& 0 <= ch < v.slots[h].session.unwrap().inbound.len()
}

/// Changes of the registry compose.
pub proof fn lemma_evolves_trans(a: EventLoopView, b: EventLoopView, c: EventLoopView)
    requires
        evolves(a, b),
        evolves(b, c),
    ensures
        evolves(a, c),
{
    assert forall|h: i32| #![trigger c.slots.contains_key(h)]
        c.slots.contains_key(h) && !a.slots.contains_key(h) implies a.next_handle <= h
        < c.next_handle by {
        if !b.slots.contains_key(h) {
            assert(b.next_handle <= h);
        }
    }
}

/// Once a handle is closed, every later read and write on it reports that it
/// is not open, and closing it again changes nothing.
pub proof fn lemma_closed_handle_stays_closed(
    a: EventLoopView,
    b: EventLoopView,
    h: i32,
    ch: u8,
    max: nat,
    ps: Seq<RdxUsbPacket>,
)
    requires
        view_wf(a),
        a.slots.contains_key(h),
        evolves(after_close(a, h), b),
    ensures
        !b.slots.contains_key(h),
        read_result(b, h, ch, max) == Err::<Seq<RdxUsbFsPacket>, EventLoopError>(
            EventLoopError::DeviceNotOpened,
        ),
        write_result(b, h, ps) == Err::<nat, EventLoopError>(EventLoopError::DeviceNotOpened),
        after_close(b, h) == b,
{
    assert(!after_close(a, h).slots.contains_key(h));
    assert(h < a.next_handle);
    assert(after_close(b, h).slots =~= b.slots);
}

/// Handles are handed out in increasing order: a slot that appears later has
/// a greater handle than any handed out before, so no handle is used twice.
pub proof fn lemma_new_handles_increase(a: EventLoopView, b: EventLoopView, earlier: i32, later: i32)
    requires
        view_wf(a),
        earlier < a.next_handle,
        evolves(a, b),
        b.slots.contains_key(later),
        !a.slots.contains_key(later),
    ensures
        earlier < later,
        a.next_handle <= later < b.next_handle,
{
}

/// Reading never loses, repeats or reorders frames: the frames a read returns,
/// followed by those it leaves waiting, are the frames that were waiting.
pub proof fn lemma_read_delivers_in_order(v: EventLoopView, h: i32, ch: u8, max: nat)
    requires
        connected(v, h, ch as int),
    ensures
        read_result(v, h, ch, max) is Ok,
        connected(after_read(v, h, ch, max), h, ch as int),
        read_result(v, h, ch, max).unwrap() + inbound_queue(after_read(v, h, ch, max), h, ch as int)
            == inbound_queue(v, h, ch as int),
{
    let q = inbound_queue(v, h, ch as int);
    let t = read_result(v, h, ch, max).unwrap();
    if max == 0 || t.len() == 0 {
        assert(t =~= Seq::<RdxUsbFsPacket>::empty());
        assert(t + q =~= q);
    } else {
        assert(t + q.skip(t.len() as int) =~= q);
    }
}

/// A frame accepted from the device waits behind the frames already waiting on
/// its channel; a read with room for all of them returns them and then it,
/// each once, and leaves the channel empty.
pub proof fn lemma_accepted_frame_read_once(v: EventLoopView, h: i32, f: RdxUsbFsPacket, max: nat)
    requires
        push_outcome(v, h, f) == InboundOutcome::Queued,
        max > inbound_queue(v, h, f.channel as int).len(),
    ensures
        connected(v, h, f.channel as int),
        inbound_queue(after_push(v, h, f), h, f.channel as int) == inbound_queue(
            v,
            h,
            f.channel as int,
        ).push(f),
        read_result(after_push(v, h, f), h, f.channel, max) == Ok::<
            Seq<RdxUsbFsPacket>,
            EventLoopError,
        >(inbound_queue(v, h, f.channel as int).push(f)),
        inbound_queue(after_read(after_push(v, h, f), h, f.channel, max), h, f.channel as int)
            == Seq::<RdxUsbFsPacket>::empty(),
{
    let q = inbound_queue(v, h, f.channel as int);
    let w = after_push(v, h, f);
    let q2 = inbound_queue(w, h, f.channel as int);
    assert(q2 == q.push(f));
    assert(q2.take(q2.len() as int) =~= q2);
    assert(q2.skip(q2.len() as int) =~= Seq::<RdxUsbFsPacket>::empty());
}

proof fn lemma_write_count_bound(room: int, ps: Seq<RdxUsbPacket>, k: int)
    requires
        0 <= k < ps.len(),
        ps[k].dlc > 48,
    ensures
        write_count(room, ps) <= k,
        forall|i: int| 0 <= i < write_count(room, ps) ==> ps[i].dlc <= 48,
    decreases ps.len(),
{
    if ps.len() == 0 || room <= 0 || ps[0].dlc > 48 {
    } else {
        lemma_write_count_bound(room - 1, ps.drop_first(), k - 1);
        assert forall|i: int| 0 <= i < write_count(room, ps) implies ps[i].dlc <= 48 by {
            if i > 0 {
                assert(ps[i] == ps.drop_first()[i - 1]);
            }
        }
    }
}

/// A write stops before the first frame whose payload exceeds 48 bytes: that
/// frame and those after it are not queued, and only frames that fit are.
pub proof fn lemma_write_stops_at_oversize(v: EventLoopView, h: i32, ps: Seq<RdxUsbPacket>, k: int)
    requires
        v.slots.contains_key(h),
        v.slots[h].session is Some,
        0 <= k < ps.len(),
        ps[k].dlc > 48,
    ensures
        write_result(v, h, ps) is Ok,
        write_result(v, h, ps).unwrap() <= k,
        forall|i: int| 0 <= i < write_result(v, h, ps).unwrap() ==> ps[i].dlc <= 48,
        outbound_queue(after_write(v, h, ps), h) == outbound_queue(v, h) + wire_frames(
            ps.take(write_result(v, h, ps).unwrap() as int),
        ),
{
    let s = v.slots[h].session.unwrap();
    lemma_write_count_bound(v.slots[h].buf_size - s.outbound.len(), ps, k);
}

/// After the session of a handle ends (and the slot does not close on
/// disconnect), the handle stays open and reports "not connected"; once a new
/// session is installed, reads succeed again (empty at first) and frames
/// received from then on are read, without opening the handle again.
pub proof fn lemma_reconnect_resumes_reads(
    a: EventLoopView,
    h: i32,
    n: u8,
    f: RdxUsbFsPacket,
    max: nat,
    ps: Seq<RdxUsbPacket>,
)
    requires
        a.slots.contains_key(h),
        a.slots[h].buf_size > 0,
        f.channel < n,
        f.dlc <= 48,
        max > 0,
    ensures
        ({
            let gone = with_session(a, h, None);
            let back = with_session(gone, h, Some(fresh_session(n as nat)));
            &&& gone.slots.contains_key(h)
            &&& read_result(gone, h, f.channel, max) == Err::<Seq<RdxUsbFsPacket>, EventLoopError>(
                EventLoopError::DeviceNotConnected,
            )
            &&& write_result(gone, h, ps) == Err::<nat, EventLoopError>(
                EventLoopError::DeviceNotConnected,
            )
            &&& read_result(back, h, f.channel, max) == Ok::<Seq<RdxUsbFsPacket>, EventLoopError>(
                Seq::empty(),
            )
            &&& push_outcome(back, h, f) == InboundOutcome::Queued
            &&& read_result(after_push(back, h, f), h, f.channel, max) == Ok::<
                Seq<RdxUsbFsPacket>,
                EventLoopError,
            >(seq![f])
        }),
{
    let gone = with_session(a, h, None);
    let back = with_session(gone, h, Some(fresh_session(n as nat)));
    let e = Seq::<RdxUsbFsPacket>::empty();
    assert(inbound_queue(back, h, f.channel as int) == e);
    assert(e.take(0) =~= e);
    let w = after_push(back, h, f);
    assert(inbound_queue(w, h, f.channel as int) == e.push(f));
    assert(e.push(f).take(1) =~= seq![f]);
}

} // verus!
