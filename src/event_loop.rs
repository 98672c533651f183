//! The handle registry: the table of device slots, each a match criterion
//! with at most one live session, and the non-blocking reads and writes that
//! foreign callers make through it.

use vstd::prelude::*;
use crate::protocol::{RdxUsbFsPacket, RdxUsbPacket, to_public, wire_bytes};
use crate::session::{
    InboundOutcome,
    OpenDevice,
    SessionView,
    fresh_session,
    session_after_push,
    session_after_read,
    session_after_write,
    session_push_outcome,
    session_read,
    session_write_count,
};

verus! {

/// The queue size used when a device is opened with a buffer size of zero.
pub const DEFAULT_BUFFER_SIZE: usize = 48;

/// Errors reported to foreign callers, each with a negative code.
#[derive(Debug, Clone, Copy, PartialEq, Eq, Structural)]
pub enum EventLoopError {
    NoError,
    EventLoopCrashed,
    CannotListDevices,
    DeviceIterInvalid,
    DeviceIterIdxOutOfRange,
    NullPointer,
    DeviceNotOpened,
    DeviceNotConnected,
    ChannelOutOfRange,
}

/// The negative code of each error in the foreign interface (zero for none).
pub open spec fn error_code(e: EventLoopError) -> i32 {
    match e {
        EventLoopError::NoError => 0,
        EventLoopError::EventLoopCrashed => -100i32,
        EventLoopError::CannotListDevices => -101i32,
        EventLoopError::DeviceIterInvalid => -102i32,
        EventLoopError::DeviceIterIdxOutOfRange => -103i32,
        EventLoopError::NullPointer => -104i32,
        EventLoopError::DeviceNotOpened => -200i32,
        EventLoopError::DeviceNotConnected => -201i32,
        EventLoopError::ChannelOutOfRange => -202i32,
    }
}

impl EventLoopError {
    pub const ERR_EVENT_LOOP_CRASHED: i32 = -100;
    pub const ERR_CANNOT_LIST_DEVICES: i32 = -101;
    pub const ERR_DEVICE_ITER_INVALID: i32 = -102;
    pub const ERR_DEVICE_ITER_IDX_OUT_OF_RANGE: i32 = -103;
    pub const ERR_NULL_PTR: i32 = -104;
    pub const ERR_DEVICE_NOT_OPENED: i32 = -200;
    pub const ERR_DEVICE_NOT_CONNECTED: i32 = -201;
    pub const ERR_CHANNEL_OUT_OF_RANGE: i32 = -202;

    /// The error's code in the foreign interface.
    pub fn code(&self) -> (r: i32)
        ensures
            r == error_code(*self),
    {
        match self {
            EventLoopError::NoError => 0,
            EventLoopError::EventLoopCrashed => Self::ERR_EVENT_LOOP_CRASHED,
            EventLoopError::CannotListDevices => Self::ERR_CANNOT_LIST_DEVICES,
            EventLoopError::DeviceIterInvalid => Self::ERR_DEVICE_ITER_INVALID,
            EventLoopError::DeviceIterIdxOutOfRange => Self::ERR_DEVICE_ITER_IDX_OUT_OF_RANGE,
            EventLoopError::NullPointer => Self::ERR_NULL_PTR,
            EventLoopError::DeviceNotOpened => Self::ERR_DEVICE_NOT_OPENED,
            EventLoopError::DeviceNotConnected => Self::ERR_DEVICE_NOT_CONNECTED,
            EventLoopError::ChannelOutOfRange => Self::ERR_CHANNEL_OUT_OF_RANGE,
        }
    }
}

impl From<EventLoopError> for i32 {
    fn from(value: EventLoopError) -> (r: i32) {
        value.code()
    }
}

impl vstd::std_specs::convert::FromSpecImpl<EventLoopError> for i32 {
    open spec fn obeys_from_spec() -> bool {
        true
    }

    open spec fn from_spec(v: EventLoopError) -> i32 {
        error_code(v)
    }
}

/// What becomes of the bulk-out side of a session on one poll.
#[derive(Debug, Clone, PartialEq, Eq)]
pub enum OutboundOutcome {
    /// These 64 bytes are to be sent.
    Send(Vec<u8>),
    /// Nothing is waiting.
    Idle,
    /// There is no session any more.
    Detached,
}

/// A slot as the registry sees it: its match criterion, its settings and its
/// session, if one is live.
pub ghost struct SlotView {
    pub vid: u16,
    pub pid: u16,
    pub serial: Option<Seq<char>>,
    pub close_on_dc: bool,
    pub buf_size: nat,
    pub session: Option<SessionView>,
}

/// The registry: its slots by handle, and the handle the next new slot gets.
pub ghost struct EventLoopView {
    pub slots: Map<i32, SlotView>,
    pub next_handle: int,
}

/// Does a slot for (`vid`, `pid`, `slot_serial`) take a device with
/// (`v`, `p`, `serial`)? A slot without a serial takes any serial.
pub open spec fn criteria_match(
    vid: u16,
    pid: u16,
    slot_serial: Option<Seq<char>>,
    v: u16,
    p: u16,
    serial: Option<Seq<char>>,
) -> bool {
    &&& vid == v
    &&& pid == p
    &&& match slot_serial {
        Some(s) => serial == Some(s),
        None => true,
    }
}

/// Does slot `s` take a device with (`vid`, `pid`, `serial`)?
pub open spec fn slot_matches(s: SlotView, vid: u16, pid: u16, serial: Option<Seq<char>>) -> bool {
    criteria_match(s.vid, s.pid, s.serial, vid, pid, serial)
}

/// The characters of an optional serial number.
pub open spec fn serial_view(s: Option<String>) -> Option<Seq<char>> {
    match s {
        Some(x) => Some(x@),
        None => None,
    }
}

/// `h` is the least handle whose slot matches (`vid`, `pid`, `serial`).
pub open spec fn is_first_match(
    v: EventLoopView,
    h: i32,
    vid: u16,
    pid: u16,
    serial: Option<Seq<char>>,
) -> bool {
    &&& v.slots.contains_key(h)
    &&& slot_matches(v.slots[h], vid, pid, serial)
    &&& forall|g: i32|
        #![trigger v.slots.contains_key(g)]
        v.slots.contains_key(g) && g < h ==> !slot_matches(v.slots[g], vid, pid, serial)
}

/// No slot matches (`vid`, `pid`, `serial`).
pub open spec fn no_match(v: EventLoopView, vid: u16, pid: u16, serial: Option<Seq<char>>) -> bool {
    forall|g: i32|
        #![trigger v.slots.contains_key(g)]
        v.slots.contains_key(g) ==> !slot_matches(v.slots[g], vid, pid, serial)
}

/// The registry with the slot `h` given session `s`.
pub open spec fn with_session(v: EventLoopView, h: i32, s: Option<SessionView>) -> EventLoopView {
    EventLoopView {
        slots: v.slots.insert(h, SlotView { session: s, ..v.slots[h] }),
        next_handle: v.next_handle,
    }
}

/// The result of reading up to `max` frames from channel `ch` of handle `h`:
/// the frames taken, or the error.
pub open spec fn read_result(v: EventLoopView, h: i32, ch: u8, max: nat) -> Result<
    Seq<RdxUsbFsPacket>,
    EventLoopError,
> {
    if !v.slots.contains_key(h) {
        Err(EventLoopError::DeviceNotOpened)
    } else {
        match v.slots[h].session {
            None => Err(EventLoopError::DeviceNotConnected),
            Some(s) => match session_read(s, ch, max) {
                Some(t) => Ok(t),
                None => Err(EventLoopError::ChannelOutOfRange),
            },
        }
    }
}

/// The registry after that read.
pub open spec fn after_read(v: EventLoopView, h: i32, ch: u8, max: nat) -> EventLoopView {
    if !v.slots.contains_key(h) {
        v
    } else {
        match v.slots[h].session {
            None => v,
            Some(s) => with_session(v, h, Some(session_after_read(s, ch, max))),
        }
    }
}

/// The result of writing `ps` to handle `h`: how many frames were queued, or
/// the error.
pub open spec fn write_result(v: EventLoopView, h: i32, ps: Seq<RdxUsbPacket>) -> Result<
    nat,
    EventLoopError,
> {
    if !v.slots.contains_key(h) {
        Err(EventLoopError::DeviceNotOpened)
    } else {
        match v.slots[h].session {
            None => Err(EventLoopError::DeviceNotConnected),
            Some(s) => Ok(session_write_count(s, v.slots[h].buf_size, ps)),
        }
    }
}

/// The registry after that write.
pub open spec fn after_write(v: EventLoopView, h: i32, ps: Seq<RdxUsbPacket>) -> EventLoopView {
    if !v.slots.contains_key(h) {
        v
    } else {
        match v.slots[h].session {
            None => v,
            Some(s) => with_session(
                v,
                h,
                Some(session_after_write(s, v.slots[h].buf_size, ps)),
            ),
        }
    }
}

/// What becomes of the frame `f` received by the session of handle `h`.
pub open spec fn push_outcome(v: EventLoopView, h: i32, f: RdxUsbFsPacket) -> InboundOutcome {
    if !v.slots.contains_key(h) {
        InboundOutcome::Detached
    } else {
        match v.slots[h].session {
            None => InboundOutcome::Detached,
            Some(s) => session_push_outcome(s, v.slots[h].buf_size, f),
        }
    }
}

/// The registry after that frame was received.
pub open spec fn after_push(v: EventLoopView, h: i32, f: RdxUsbFsPacket) -> EventLoopView {
    if !v.slots.contains_key(h) {
        v
    } else {
        match v.slots[h].session {
            None => v,
            Some(s) => with_session(v, h, Some(session_after_push(s, v.slots[h].buf_size, f))),
        }
    }
}

/// The registry after handle `h` was closed.
pub open spec fn after_close(v: EventLoopView, h: i32) -> EventLoopView {
    EventLoopView { slots: v.slots.remove(h), next_handle: v.next_handle }
}

/// Each change the registry goes through: handles are only ever added from
/// `next_handle` upwards, and `next_handle` never goes down.
pub open spec fn evolves(a: EventLoopView, b: EventLoopView) -> bool {
    &&& a.next_handle <= b.next_handle
    &&& forall|h: i32|
        #![trigger b.slots.contains_key(h)]
        b.slots.contains_key(h) && !a.slots.contains_key(h) ==> a.next_handle <= h < b.next_handle
}

/// Every handle in the table lies below `next_handle`.
pub open spec fn view_wf(v: EventLoopView) -> bool {
    &&& 0 <= v.next_handle <= i32::MAX
    &&& forall|h: i32| #![trigger v.slots.contains_key(h)] v.slots.contains_key(h) ==> 0 <= h < v.next_handle
}

/// A device slot.
pub struct Device {
    pub handle_id: i32,
    pub vid: u16,
    pub pid: u16,
    pub serial_number: Option<String>,
    pub close_on_dc: bool,
    pub buf_size: usize,
    pub handle: Option<OpenDevice>,
}

impl View for Device {
    type V = SlotView;

    open spec fn view(&self) -> SlotView {
        SlotView {
            vid: self.vid,
            pid: self.pid,
            serial: serial_view(self.serial_number),
            close_on_dc: self.close_on_dc,
            buf_size: self.buf_size as nat,
            session: match self.handle {
                Some(o) => Some(o@),
                None => None,
            },
        }
    }
}

impl Device {
    pub open spec fn wf(&self) -> bool {
        &&& self.buf_size > 0
        &&& match self.handle {
            Some(o) => o.wf() && o.capacity() == self.buf_size,
            None => true,
        }
    }

    /// Does this slot take a device with (`vid`, `pid`, `serial_number`)?
    pub fn matches(&self, vid: u16, pid: u16, serial_number: &Option<String>) -> (r: bool)
        ensures
            r == criteria_match(
                self.vid,
                self.pid,
                serial_view(self.serial_number),
                vid,
                pid,
                serial_view(*serial_number),
            ),
    {
        self.vid == vid && self.pid == pid && match &self.serial_number {
            Some(s) => match serial_number {
                Some(s2) => s.eq(s2),
                None => false,
            },
            None => true,
        }
    }
}

impl Device {
    /// Reads up to `packets.len()` frames from `channel` of this slot's session.
    fn read(&mut self, channel: u8, packets: &mut [RdxUsbPacket]) -> (r: Result<usize, EventLoopError>)
        requires
            old(self).wf(),
        ensures
            final(self).wf(),
            final(self).handle_id == old(self).handle_id,
            final(packets)@.len() == old(packets)@.len(),
            match old(self)@.session {
                None => r == Err::<usize, EventLoopError>(EventLoopError::DeviceNotConnected)
                    && final(self)@ == old(self)@ && final(packets)@ == old(packets)@,
                Some(s) => final(self)@ == (SlotView {
                    session: Some(session_after_read(s, channel, old(packets)@.len())),
                    ..old(self)@
                }) && match session_read(s, channel, old(packets)@.len()) {
                    None => r == Err::<usize, EventLoopError>(EventLoopError::ChannelOutOfRange)
                        && final(packets)@ == old(packets)@,
                    Some(t) => r == Ok::<usize, EventLoopError>(t.len() as usize) && (forall|i: int|
                        0 <= i < t.len() ==> #[trigger] final(packets)@[i] == to_public(t[i])) && (
                    forall|i: int|
                        t.len() <= i < old(packets)@.len() ==> final(packets)@[i] == old(
                            packets,
                        )@[i]),
                },
            },
    {
        match &mut self.handle {
            None => Err(EventLoopError::DeviceNotConnected),
            Some(od) => match od.read_into(channel, packets) {
                Ok(n) => Ok(n),
                Err(_) => Err(EventLoopError::ChannelOutOfRange),
            },
        }
    }

    /// Queues the leading frames of `packets` on this slot's session.
    fn write(&mut self, packets: &[RdxUsbPacket]) -> (r: Result<usize, EventLoopError>)
        requires
            old(self).wf(),
        ensures
            final(self).wf(),
            final(self).handle_id == old(self).handle_id,
            match old(self)@.session {
                None => r == Err::<usize, EventLoopError>(EventLoopError::DeviceNotConnected)
                    && final(self)@ == old(self)@,
                Some(s) => r == Ok::<usize, EventLoopError>(
                    session_write_count(s, old(self)@.buf_size, packets@) as usize,
                ) && final(self)@ == (SlotView {
                    session: Some(session_after_write(s, old(self)@.buf_size, packets@)),
                    ..old(self)@
                }),
            },
    {
        match &mut self.handle {
            None => Err(EventLoopError::DeviceNotConnected),
            Some(od) => Ok(od.write_from(packets)),
        }
    }

    /// Hands a received frame to this slot's session.
    fn push(&mut self, f: RdxUsbFsPacket) -> (r: InboundOutcome)
        requires
            old(self).wf(),
        ensures
            final(self).wf(),
            final(self).handle_id == old(self).handle_id,
            match old(self)@.session {
                None => r == InboundOutcome::Detached && final(self)@ == old(self)@,
                Some(s) => r == session_push_outcome(s, old(self)@.buf_size, f) && final(self)@
                    == (SlotView {
                    session: Some(session_after_push(s, old(self)@.buf_size, f)),
                    ..old(self)@
                }),
            },
    {
        match &mut self.handle {
            None => InboundOutcome::Detached,
            Some(od) => od.push_inbound(f),
        }
    }

    /// Takes the eldest frame waiting to be sent on this slot's session.
    fn pop(&mut self) -> (r: OutboundOutcome)
        requires
            old(self).wf(),
        ensures
            final(self).wf(),
            final(self).handle_id == old(self).handle_id,
            match old(self)@.session {
                None => r == OutboundOutcome::Detached && final(self)@ == old(self)@,
                Some(s) => if s.outbound.len() == 0 {
                    r == OutboundOutcome::Idle && final(self)@ == old(self)@
                } else {
                    (r matches OutboundOutcome::Send(b) && b@ == wire_bytes(s.outbound[0]))
                        && final(self)@ == (SlotView {
                        session: Some(
                            SessionView { inbound: s.inbound, outbound: s.outbound.drop_first() },
                        ),
                        ..old(self)@
                    })
                },
            },
    {
        match &mut self.handle {
            None => OutboundOutcome::Detached,
            Some(od) => match od.pop_outbound() {
                None => OutboundOutcome::Idle,
                Some(f) => OutboundOutcome::Send(f.encode()),
            },
        }
    }
}

spec fn ids_increasing(s: Seq<Device>) -> bool {
    forall|i: int, j: int| 0 <= i < j < s.len() ==> s[i].handle_id < s[j].handle_id
}

spec fn has_id(s: Seq<Device>, h: i32) -> bool {
    exists|i: int| 0 <= i < s.len() && s[i].handle_id == h
}

spec fn index_of(s: Seq<Device>, h: i32) -> int {
    choose|i: int| 0 <= i < s.len() && s[i].handle_id == h
}

/// The slots of a table kept in handle order, by handle.
spec fn slots_of(s: Seq<Device>) -> Map<i32, SlotView> {
    Map::new(|h: i32| has_id(s, h), |h: i32| s[index_of(s, h)]@)
}

proof fn lemma_index_of(s: Seq<Device>, i: int)
    requires
        ids_increasing(s),
        0 <= i < s.len(),
    ensures
        has_id(s, s[i].handle_id),
        index_of(s, s[i].handle_id) == i,
        slots_of(s).contains_key(s[i].handle_id),
        slots_of(s)[s[i].handle_id] == s[i]@,
{
    let h = s[i].handle_id;
    assert(has_id(s, h));
    let j = index_of(s, h);
    if j < i {
        assert(s[j].handle_id < s[i].handle_id);
    } else if j > i {
        assert(s[i].handle_id < s[j].handle_id);
    }
}

proof fn lemma_slots_update(s: Seq<Device>, k: int, d: Device)
    requires
        ids_increasing(s),
        0 <= k < s.len(),
        d.handle_id == s[k].handle_id,
    ensures
        ids_increasing(s.update(k, d)),
        slots_of(s.update(k, d)) == slots_of(s).insert(d.handle_id, d@),
{
    let t = s.update(k, d);
    assert(ids_increasing(t));
    let m = slots_of(s).insert(d.handle_id, d@);
    assert forall|h: i32| #[trigger] slots_of(t).contains_key(h) <==> m.contains_key(h) by {
        if has_id(t, h) {
            let j = choose|j: int| 0 <= j < t.len() && t[j].handle_id == h;
            assert(s[j].handle_id == h);
        }
        if has_id(s, h) {
            let j = choose|j: int| 0 <= j < s.len() && s[j].handle_id == h;
            assert(t[j].handle_id == h);
        }
    }
    assert forall|h: i32| #[trigger] slots_of(t).contains_key(h) implies slots_of(t)[h] == m[h] by {
        let j = choose|j: int| 0 <= j < t.len() && t[j].handle_id == h;
        lemma_index_of(t, j);
        if j != k {
            lemma_index_of(s, j);
        }
    }
    assert(slots_of(t) =~= m);
}

proof fn lemma_slots_remove(s: Seq<Device>, k: int)
    requires
        ids_increasing(s),
        0 <= k < s.len(),
    ensures
        ids_increasing(s.remove(k)),
        slots_of(s.remove(k)) == slots_of(s).remove(s[k].handle_id),
{
    let t = s.remove(k);
    let id = s[k].handle_id;
    assert forall|i: int, j: int| 0 <= i < j < t.len() implies t[i].handle_id < t[j].handle_id by {
        let i2 = if i < k { i } else { i + 1 };
        let j2 = if j < k { j } else { j + 1 };
        assert(t[i] == s[i2] && t[j] == s[j2]);
    }
    let m = slots_of(s).remove(id);
    assert forall|h: i32| #[trigger] slots_of(t).contains_key(h) <==> m.contains_key(h) by {
        if has_id(t, h) {
            let j = choose|j: int| 0 <= j < t.len() && t[j].handle_id == h;
            let j2 = if j < k { j } else { j + 1 };
            assert(t[j] == s[j2]);
            assert(has_id(s, h));
            if j2 < k {
                assert(s[j2].handle_id < s[k].handle_id);
            } else {
                assert(s[k].handle_id < s[j2].handle_id);
            }
        }
        if has_id(s, h) && h != id {
            let j = choose|j: int| 0 <= j < s.len() && s[j].handle_id == h;
            assert(j != k);
            let j2 = if j < k { j } else { j - 1 };
            assert(t[j2] == s[j]);
        }
    }
    assert forall|h: i32| #[trigger] slots_of(t).contains_key(h) implies slots_of(t)[h] == m[h] by {
        let j = choose|j: int| 0 <= j < t.len() && t[j].handle_id == h;
        let j2 = if j < k { j } else { j + 1 };
        assert(t[j] == s[j2]);
        lemma_index_of(t, j);
        lemma_index_of(s, j2);
    }
    assert(slots_of(t) =~= m);
}

proof fn lemma_slots_push(s: Seq<Device>, d: Device)
    requires
        ids_increasing(s),
        forall|i: int| 0 <= i < s.len() ==> s[i].handle_id < d.handle_id,
    ensures
        ids_increasing(s.push(d)),
        slots_of(s.push(d)) == slots_of(s).insert(d.handle_id, d@),
{
    let t = s.push(d);
    let m = slots_of(s).insert(d.handle_id, d@);
    assert forall|h: i32| #[trigger] slots_of(t).contains_key(h) <==> m.contains_key(h) by {
        if has_id(t, h) {
            let j = choose|j: int| 0 <= j < t.len() && t[j].handle_id == h;
            if j < s.len() {
                assert(t[j] == s[j]);
            }
        }
        if has_id(s, h) {
            let j = choose|j: int| 0 <= j < s.len() && s[j].handle_id == h;
            assert(t[j] == s[j]);
        }
        if h == d.handle_id {
            assert(t[s.len() as int] == d);
        }
    }
    assert forall|h: i32| #[trigger] slots_of(t).contains_key(h) implies slots_of(t)[h] == m[h] by {
        let j = choose|j: int| 0 <= j < t.len() && t[j].handle_id == h;
        lemma_index_of(t, j);
        if j < s.len() {
            assert(t[j] == s[j]);
            lemma_index_of(s, j);
        }
    }
    assert(slots_of(t) =~= m);
}

/// The registry of device slots.
pub struct EventLoop {
    devices: Vec<Device>,
    next_handle: i32,
}

impl View for EventLoop {
    type V = EventLoopView;

    closed spec fn view(&self) -> EventLoopView {
        EventLoopView { slots: slots_of(self.devices@), next_handle: self.next_handle as int }
    }
}

impl EventLoop {
    /// The slot table is kept in handle order, every handle lies below
    /// `next_handle`, and every slot is well formed.
    pub closed spec fn wf(&self) -> bool {
        &&& 0 <= self.next_handle
        &&& ids_increasing(self.devices@)
        &&& forall|i: int|
            0 <= i < self.devices@.len() ==> 0 <= (#[trigger] self.devices@[i]).handle_id
                < self.next_handle && self.devices@[i].wf()
    }

    /// A well-formed registry keeps its handles below `next_handle`, and each
    /// of its slots has room for at least one frame per queue.
    pub proof fn lemma_view_wf(&self)
        requires
            self.wf(),
        ensures
            view_wf(self@),
            forall|h: i32| #[trigger]
                self@.slots.contains_key(h) ==> self@.slots[h].buf_size > 0,
    {
        assert forall|h: i32| #[trigger] self@.slots.contains_key(h) implies 0 <= h < self@.next_handle
            && self@.slots[h].buf_size > 0 by {
            let j = choose|j: int|
                0 <= j < self.devices@.len() && self.devices@[j].handle_id == h;
            lemma_index_of(self.devices@, j);
        }
    }

    /// An empty registry.
    pub fn new() -> (r: EventLoop)
        ensures
            r.wf(),
            r@.slots == Map::<i32, SlotView>::empty(),
            r@.next_handle == 0,
    {
        let r = EventLoop { devices: Vec::new(), next_handle: 0 };
        assert(slots_of(r.devices@) =~= Map::<i32, SlotView>::empty());
        r
    }

    /// The handle the next new slot gets.
    pub fn next_handle(&self) -> (r: i32)
        ensures
            r == self@.next_handle,
    {
        self.next_handle
    }

    fn find(&self, h: i32) -> (r: Option<usize>)
        requires
            self.wf(),
        ensures
            r matches Some(i) ==> i < self.devices@.len() && self.devices@[i as int].handle_id == h
                && self@.slots.contains_key(h) && self@.slots[h] == self.devices@[i as int]@,
            r is None ==> !self@.slots.contains_key(h),
    {
        let mut i: usize = 0;
        while i < self.devices.len()
            invariant
                self.wf(),
                i <= self.devices@.len(),
                forall|j: int| 0 <= j < i ==> (#[trigger] self.devices@[j]).handle_id != h,
            decreases self.devices@.len() - i,
        {
            if self.devices[i].handle_id == h {
                proof {
                    lemma_index_of(self.devices@, i as int);
                }
                return Some(i);
            }
            i = i + 1;
        }
        None
    }

    /// Is `h` the handle of an open slot?
    pub fn is_open(&self, h: i32) -> (r: bool)
        requires
            self.wf(),
        ensures
            r == self@.slots.contains_key(h),
    {
        self.find(h).is_some()
    }

    /// The least handle whose slot takes a device with (`vid`, `pid`,
    /// `serial_number`), if any.
    pub fn find_matching(&self, vid: u16, pid: u16, serial_number: &Option<String>) -> (r: Option<i32>)
        requires
            self.wf(),
        ensures
            r matches Some(h) ==> is_first_match(self@, h, vid, pid, serial_view(*serial_number)),
            r is None ==> no_match(self@, vid, pid, serial_view(*serial_number)),
    {
        let mut i: usize = 0;
        while i < self.devices.len()
            invariant
                self.wf(),
                i <= self.devices@.len(),
                forall|j: int|
                    0 <= j < i ==> !slot_matches(
                        #[trigger] self.devices@[j]@,
                        vid,
                        pid,
                        serial_view(*serial_number),
                    ),
            decreases self.devices@.len() - i,
        {
            if self.devices[i].matches(vid, pid, serial_number) {
                let h = self.devices[i].handle_id;
                proof {
                    lemma_index_of(self.devices@, i as int);
                    assert forall|g: i32| #![trigger self@.slots.contains_key(g)]
                        self@.slots.contains_key(g) && g < h implies !slot_matches(
                        self@.slots[g],
                        vid,
                        pid,
                        serial_view(*serial_number),
                    ) by {
                        let j = choose|j: int|
                            0 <= j < self.devices@.len() && self.devices@[j].handle_id == g;
                        lemma_index_of(self.devices@, j);
                        if j >= i {
                            if j > i {
                                assert(self.devices@[i as int].handle_id < self.devices@[j].handle_id);
                            }
                        }
                    }
                }
                return Some(h);
            }
            i = i + 1;
        }
        proof {
            assert forall|g: i32| #![trigger self@.slots.contains_key(g)]
                self@.slots.contains_key(g) implies !slot_matches(
                self@.slots[g],
                vid,
                pid,
                serial_view(*serial_number),
            ) by {
                let j = choose|j: int|
                    0 <= j < self.devices@.len() && self.devices@[j].handle_id == g;
                lemma_index_of(self.devices@, j);
            }
        }
        None
    }
}

impl EventLoop {
    /// Installs a fresh session with `n_channels` empty channels on slot `id`;
    /// `false` when the slot is gone.
    pub fn update_open_device(&mut self, id: i32, n_channels: u8) -> (r: bool)
        requires
            old(self).wf(),
        ensures
            final(self).wf(),
            evolves(old(self)@, final(self)@),
            r == old(self)@.slots.contains_key(id),
            r ==> final(self)@ == with_session(old(self)@, id, Some(fresh_session(n_channels as nat))),
            !r ==> final(self)@ == old(self)@,
    {
        match self.find(id) {
            None => false,
            Some(i) => {
                let ghost before = self.devices@;
                let cap = self.devices[i].buf_size;
                self.devices[i].handle = Some(OpenDevice::new(n_channels, cap));
                proof {
                    lemma_slots_update(before, i as int, self.devices@[i as int]);
                    assert(self.devices@ == before.update(i as int, self.devices@[i as int]));
                    assert(self.devices@[i as int]@ == (SlotView {
                        session: Some(fresh_session(n_channels as nat)),
                        ..before[i as int]@
                    }));
                }
                true
            },
        }
    }

    /// Ends the session of slot `id`. A slot opened with `close_on_dc` is
    /// closed with it. Returns whether the slot's poller goes on.
    pub fn remove_open_device(&mut self, id: i32) -> (r: bool)
        requires
            old(self).wf(),
        ensures
            final(self).wf(),
            evolves(old(self)@, final(self)@),
            !old(self)@.slots.contains_key(id) ==> !r && final(self)@ == old(self)@,
            old(self)@.slots.contains_key(id) && old(self)@.slots[id].close_on_dc ==> !r
                && final(self)@ == after_close(old(self)@, id),
            old(self)@.slots.contains_key(id) && !old(self)@.slots[id].close_on_dc ==> r
                && final(self)@ == with_session(old(self)@, id, None),
    {
        match self.find(id) {
            None => false,
            Some(i) => {
                let ghost before = self.devices@;
                if self.devices[i].close_on_dc {
                    self.devices.remove(i);
                    proof {
                        lemma_slots_remove(before, i as int);
                        assert forall|j: int| 0 <= j < self.devices@.len() implies 0 <= (
                        #[trigger] self.devices@[j]).handle_id < self.next_handle
                            && self.devices@[j].wf() by {
                            let j2 = if j < i { j } else { j + 1 };
                            assert(self.devices@[j] == before[j2]);
                        }
                    }
                    false
                } else {
                    self.devices[i].handle = None;
                    proof {
                        lemma_slots_update(before, i as int, self.devices@[i as int]);
                        assert(self.devices@ == before.update(i as int, self.devices@[i as int]));
                    }
                    true
                }
            },
        }
    }

    /// Hands the frame `f`, received by the session of slot `id`, to its
    /// channel's queue.
    pub fn push_inbound(&mut self, id: i32, f: RdxUsbFsPacket) -> (r: InboundOutcome)
        requires
            old(self).wf(),
        ensures
            final(self).wf(),
            evolves(old(self)@, final(self)@),
            r == push_outcome(old(self)@, id, f),
            final(self)@ == after_push(old(self)@, id, f),
    {
        match self.find(id) {
            None => InboundOutcome::Detached,
            Some(i) => {
                let ghost before = self.devices@;
                let r = self.devices[i].push(f);
                proof {
                    lemma_slots_update(before, i as int, self.devices@[i as int]);
                    assert(self.devices@ == before.update(i as int, self.devices@[i as int]));
                    if before[i as int].handle is None {
                        assert(self@.slots =~= old(self)@.slots);
                    }
                }
                r
            },
        }
    }

    /// Hands a buffer completed on the bulk-in endpoint to slot `id`: a
    /// 64-byte buffer is decoded and its frame pushed; any other is discarded.
    pub fn deliver_inbound(&mut self, id: i32, buf: &[u8]) -> (r: InboundOutcome)
        requires
            old(self).wf(),
        ensures
            final(self).wf(),
            evolves(old(self)@, final(self)@),
            buf@.len() != 64 ==> r == InboundOutcome::Discarded && final(self)@ == old(self)@,
            buf@.len() == 64 ==> exists|f: RdxUsbFsPacket|
                wire_bytes(f) == buf@ && r == push_outcome(old(self)@, id, f) && final(self)@
                    == after_push(old(self)@, id, f),
    {
        match RdxUsbFsPacket::decode(buf) {
            None => InboundOutcome::Discarded,
            Some(f) => self.push_inbound(id, f),
        }
    }

    /// Takes the eldest frame waiting to be sent on the session of slot `id`,
    /// as the bytes of a bulk-out transfer.
    pub fn next_outbound(&mut self, id: i32) -> (r: OutboundOutcome)
        requires
            old(self).wf(),
        ensures
            final(self).wf(),
            evolves(old(self)@, final(self)@),
            !old(self)@.slots.contains_key(id) ==> r == OutboundOutcome::Detached && final(self)@
                == old(self)@,
            old(self)@.slots.contains_key(id) ==> match old(self)@.slots[id].session {
                None => r == OutboundOutcome::Detached && final(self)@ == old(self)@,
                Some(s) => if s.outbound.len() == 0 {
                    r == OutboundOutcome::Idle && final(self)@ == old(self)@
                } else {
                    (r matches OutboundOutcome::Send(b) && b@ == wire_bytes(s.outbound[0]))
                        && final(self)@ == with_session(
                        old(self)@,
                        id,
                        Some(SessionView { inbound: s.inbound, outbound: s.outbound.drop_first() }),
                    )
                },
            },
    {
        match self.find(id) {
            None => OutboundOutcome::Detached,
            Some(i) => {
                let ghost before = self.devices@;
                let r = self.devices[i].pop();
                proof {
                    lemma_slots_update(before, i as int, self.devices@[i as int]);
                    assert(self.devices@ == before.update(i as int, self.devices@[i as int]));
                    if before[i as int].handle is None || before[i as int]@.session.unwrap().outbound.len() == 0 {
                        assert(self@.slots =~= old(self)@.slots);
                    }
                }
                r
            },
        }
    }
}

/// Opens a slot for (`vid`, `pid`, `serial_number`). When a slot already
/// takes such a device, the least such handle is returned and nothing changes;
/// otherwise a new slot, without a session, gets the next handle. A buffer
/// size of zero stands for the default. The flag tells whether a slot was made.
pub fn open_device(
    event_loop: &mut EventLoop,
    vid: u16,
    pid: u16,
    serial_number: Option<String>,
    close_on_dc: bool,
    buf_size: usize,
) -> (r: (i32, bool))
    requires
        old(event_loop).wf(),
        old(event_loop)@.next_handle < i32::MAX,
    ensures
        final(event_loop).wf(),
        evolves(old(event_loop)@, final(event_loop)@),
        r.1 == no_match(old(event_loop)@, vid, pid, serial_view(serial_number)),
        !r.1 ==> is_first_match(old(event_loop)@, r.0, vid, pid, serial_view(serial_number))
            && final(event_loop)@ == old(event_loop)@,
        r.1 ==> r.0 == old(event_loop)@.next_handle && final(event_loop)@ == (EventLoopView {
            slots: old(event_loop)@.slots.insert(
                r.0,
                SlotView {
                    vid,
                    pid,
                    serial: serial_view(serial_number),
                    close_on_dc,
                    buf_size: if buf_size == 0 {
                        DEFAULT_BUFFER_SIZE as nat
                    } else {
                        buf_size as nat
                    },
                    session: None,
                },
            ),
            next_handle: old(event_loop)@.next_handle + 1,
        }),
{
    match event_loop.find_matching(vid, pid, &serial_number) {
        Some(h) => (h, false),
        None => {
            let handle = event_loop.next_handle;
            let ghost before = event_loop.devices@;
            let d = Device {
                handle_id: handle,
                vid,
                pid,
                serial_number,
                close_on_dc,
                buf_size: if buf_size == 0 {
                    DEFAULT_BUFFER_SIZE
                } else {
                    buf_size
                },
                handle: None,
            };
            event_loop.devices.push(d);
            event_loop.next_handle = handle + 1;
            proof {
                lemma_slots_push(before, d);
                assert(event_loop.devices@ == before.push(d));
                assert forall|j: int| 0 <= j < event_loop.devices@.len() implies 0 <= (
                #[trigger] event_loop.devices@[j]).handle_id < event_loop.next_handle
                    && event_loop.devices@[j].wf() by {
                    if j < before.len() {
                        assert(event_loop.devices@[j] == before[j]);
                    }
                }
            }
            (handle, true)
        },
    }
}

/// Reads up to `packets.len()` frames waiting on `channel` of handle
/// `handle_id` into `packets`, eldest first, and returns how many were read.
/// Stops at the first empty poll; an empty queue is no error.
pub fn read_packets(event_loop: &mut EventLoop, handle_id: i32, channel: u8, packets: &mut [RdxUsbPacket]) -> (r: Result<usize, EventLoopError>)
    requires
        old(event_loop).wf(),
    ensures
        final(event_loop).wf(),
        evolves(old(event_loop)@, final(event_loop)@),
        final(event_loop)@ == after_read(old(event_loop)@, handle_id, channel, old(packets)@.len()),
        final(packets)@.len() == old(packets)@.len(),
        match read_result(old(event_loop)@, handle_id, channel, old(packets)@.len()) {
            Ok(t) => r == Ok::<usize, EventLoopError>(t.len() as usize) && (forall|i: int|
                0 <= i < t.len() ==> #[trigger] final(packets)@[i] == to_public(t[i])) && (forall|
                i: int,
            |
                t.len() <= i < old(packets)@.len() ==> final(packets)@[i] == old(packets)@[i]),
            Err(e) => r == Err::<usize, EventLoopError>(e) && final(packets)@ == old(packets)@,
        },
{
    match event_loop.find(handle_id) {
        None => Err(EventLoopError::DeviceNotOpened),
        Some(i) => {
            let ghost before = event_loop.devices@;
            let r = event_loop.devices[i].read(channel, packets);
            proof {
                lemma_slots_update(before, i as int, event_loop.devices@[i as int]);
                assert(event_loop.devices@ == before.update(i as int, event_loop.devices@[i as int]));
                if before[i as int].handle is None {
                    assert(event_loop@.slots =~= old(event_loop)@.slots);
                }
            }
            r
        },
    }
}

/// Queues the leading frames of `packets` for sending on handle `handle_id`
/// and returns how many were queued: it stops at the first frame whose
/// payload exceeds 48 bytes and when the outbound queue is full.
pub fn write_packets(event_loop: &mut EventLoop, handle_id: i32, packets: &[RdxUsbPacket]) -> (r: Result<usize, EventLoopError>)
    requires
        old(event_loop).wf(),
    ensures
        final(event_loop).wf(),
        evolves(old(event_loop)@, final(event_loop)@),
        final(event_loop)@ == after_write(old(event_loop)@, handle_id, packets@),
        match write_result(old(event_loop)@, handle_id, packets@) {
            Ok(n) => r == Ok::<usize, EventLoopError>(n as usize),
            Err(e) => r == Err::<usize, EventLoopError>(e),
        },
{
    match event_loop.find(handle_id) {
        None => Err(EventLoopError::DeviceNotOpened),
        Some(i) => {
            let ghost before = event_loop.devices@;
            let r = event_loop.devices[i].write(packets);
            proof {
                lemma_slots_update(before, i as int, event_loop.devices@[i as int]);
                assert(event_loop.devices@ == before.update(i as int, event_loop.devices@[i as int]));
                if before[i as int].handle is None {
                    assert(event_loop@.slots =~= old(event_loop)@.slots);
                }
            }
            r
        },
    }
}

/// Closes handle `handle_id`. Closing a handle that is not open does nothing.
pub fn close_device(event_loop: &mut EventLoop, handle_id: i32) -> (r: Result<(), EventLoopError>)
    requires
        old(event_loop).wf(),
    ensures
        final(event_loop).wf(),
        evolves(old(event_loop)@, final(event_loop)@),
        r == Ok::<(), EventLoopError>(()),
        final(event_loop)@ == after_close(old(event_loop)@, handle_id),
{
    match event_loop.find(handle_id) {
        None => {
            assert(event_loop@.slots =~= old(event_loop)@.slots.remove(handle_id));
            Ok(())
        },
        Some(i) => {
            let ghost before = event_loop.devices@;
            event_loop.devices.remove(i);
            proof {
                lemma_slots_remove(before, i as int);
                assert forall|j: int| 0 <= j < event_loop.devices@.len() implies 0 <= (
                #[trigger] event_loop.devices@[j]).handle_id < event_loop.next_handle
                    && event_loop.devices@[j].wf() by {
                    let j2 = if j < i { j } else { j + 1 };
                    assert(event_loop.devices@[j] == before[j2]);
                }
            }
            Ok(())
        },
    }
}

/// Closes every handle.
pub fn close_all_devices(event_loop: &mut EventLoop) -> (r: Result<(), EventLoopError>)
    requires
        old(event_loop).wf(),
    ensures
        final(event_loop).wf(),
        evolves(old(event_loop)@, final(event_loop)@),
        r == Ok::<(), EventLoopError>(()),
        final(event_loop)@.slots == Map::<i32, SlotView>::empty(),
        final(event_loop)@.next_handle == old(event_loop)@.next_handle,
{
    event_loop.devices = Vec::new();
    assert(event_loop@.slots =~= Map::<i32, SlotView>::empty());
    Ok(())
}

} // verus!
