//! Wire contract: the packed 64-byte frame, the 80-byte public frame, the
//! 32-byte device-info descriptor and the arbitration-id flag helpers.

use vstd::prelude::*;

verus! {

/// In bulk transfer endpoint (has the top bit set).
pub const ENDPOINT_IN: u8 = 0x81;

/// Out bulk transfer endpoint.
pub const ENDPOINT_OUT: u8 = 0x02;

/// Set on arbitration ids of extended (29-bit) frames.
pub const MESSAGE_ARB_ID_EXT: u32 = 0x8000_0000;

/// Set on arbitration ids of RTR frames.
pub const MESSAGE_ARB_ID_RTR: u32 = 0x4000_0000;

/// Set on frames addressed to or coming from the device itself rather than a
/// bus proxied through it.
pub const MESSAGE_ARB_ID_DEVICE: u32 = 0x2000_0000;

/// Mask of the identifier bits of an arbitration id.
pub const MESSAGE_ARB_ID_MASK: u32 = 0x1fff_ffff;

/// USB full-speed protocol version.
pub const PROTOCOL_VERSION_FS: u16 = 1;

/// Size in bytes of a full-speed wire frame.
pub const FS_PACKET_SIZE: usize = 64;

/// Size in bytes of the device-info descriptor.
pub const DEVICE_INFO_SIZE: usize = 32;

/// Data packet exchanged with USB full-speed devices (max packet size 64).
#[derive(Debug, PartialEq, Eq, Clone, Copy)]
pub struct RdxUsbFsPacket {
    /// Timestamp since device boot (nanoseconds).
    pub timestamp_ns: u64,
    /// CAN arbitration id; the top three bits are flags.
    pub arb_id: u32,
    /// Data length code.
    pub dlc: u8,
    /// Relevant channel. Zero most of the time.
    pub channel: u8,
    /// Reserved flags.
    pub flags: u16,
    /// Payload (at most 48 bytes).
    pub data: [u8; 48],
}

/// Generic data packet passed to and from the public API.
#[derive(Debug, PartialEq, Eq, Clone, Copy)]
pub struct RdxUsbPacket {
    /// Timestamp since device boot (nanoseconds).
    pub timestamp_ns: u64,
    /// CAN arbitration id; the top three bits are flags.
    pub arb_id: u32,
    /// Data length code.
    pub dlc: u8,
    /// Relevant channel. Zero most of the time.
    pub channel: u8,
    /// Reserved flags.
    pub flags: u16,
    /// Payload (at most 64 bytes).
    pub data: [u8; 64],
}

/// Descriptor returned by the device-info control request.
#[derive(Debug, PartialEq, Eq, Clone, Copy)]
pub struct RdxUsbDeviceInfo {
    /// The SKU index of the device (the first number in the serial).
    pub sku: u16,
    /// The interface index that the RdxUsb interface uses.
    pub interface_idx: u8,
    /// The number of channels that the RdxUsb interface supports.
    pub n_channels: u8,
    /// The major protocol version.
    pub protocol_version_major: u16,
    /// The minor protocol version.
    pub protocol_version_minor: u16,
    /// Reserved bytes.
    pub reserved: [u8; 24],
}

/// Vendor control requests understood by the device.
#[derive(Debug, PartialEq, Eq, Clone, Copy)]
pub enum RdxUsbCtrl {
    DeviceInfo,
    ResetChannel,
}

/// The `bRequest` value of each control request.
pub open spec fn ctrl_code(c: RdxUsbCtrl) -> u8 {
    match c {
        RdxUsbCtrl::DeviceInfo => 0,
        RdxUsbCtrl::ResetChannel => 1,
    }
}

impl RdxUsbCtrl {
    /// The `bRequest` value of the control request.
    pub fn code(&self) -> (r: u8)
        ensures
            r == ctrl_code(*self),
    {
        match self {
            RdxUsbCtrl::DeviceInfo => 0,
            RdxUsbCtrl::ResetChannel => 1,
        }
    }
}

// ---------------------------------------------------------------------------
// Little-endian byte layout

/// The two bytes of `v`, least significant first.
pub open spec fn le_u16(v: u16) -> Seq<u8> {
    seq![(v & 0xff) as u8, (v >> 8u16) as u8]
}

/// The four bytes of `v`, least significant first.
pub open spec fn le_u32(v: u32) -> Seq<u8> {
    seq![
        (v & 0xff) as u8,
        ((v >> 8u32) & 0xff) as u8,
        ((v >> 16u32) & 0xff) as u8,
        (v >> 24u32) as u8,
    ]
}

/// The eight bytes of `v`, least significant first.
pub open spec fn le_u64(v: u64) -> Seq<u8> {
    seq![
        (v & 0xff) as u8,
        ((v >> 8u64) & 0xff) as u8,
        ((v >> 16u64) & 0xff) as u8,
        ((v >> 24u64) & 0xff) as u8,
        ((v >> 32u64) & 0xff) as u8,
        ((v >> 40u64) & 0xff) as u8,
        ((v >> 48u64) & 0xff) as u8,
        (v >> 56u64) as u8,
    ]
}

/// The 64 bytes that carry `p` on the bulk endpoints.
pub open spec fn wire_bytes(p: RdxUsbFsPacket) -> Seq<u8> {
    le_u64(p.timestamp_ns) + le_u32(p.arb_id) + seq![p.dlc, p.channel] + le_u16(p.flags)
        + p.data@
}

/// The 32 bytes of a device-info descriptor.
pub open spec fn device_info_bytes(d: RdxUsbDeviceInfo) -> Seq<u8> {
    le_u16(d.sku) + seq![d.interface_idx, d.n_channels] + le_u16(d.protocol_version_major)
        + le_u16(d.protocol_version_minor) + d.reserved@
}

proof fn lemma_le_u16(b0: u16, b1: u16)
    requires
        b0 < 256,
        b1 < 256,
    ensures
        ((b0 | (b1 << 8u16)) & 0xff) == b0,
        ((b0 | (b1 << 8u16)) >> 8u16) == b1,
{
    assert(((b0 | (b1 << 8u16)) & 0xff) == b0 && ((b0 | (b1 << 8u16)) >> 8u16) == b1)
        by (bit_vector)
        requires
            b0 < 256,
            b1 < 256,
    ;
}

proof fn lemma_le_u32(b0: u32, b1: u32, b2: u32, b3: u32)
    requires
        b0 < 256,
        b1 < 256,
        b2 < 256,
        b3 < 256,
    ensures
        ({
            let v = b0 | (b1 << 8u32) | (b2 << 16u32) | (b3 << 24u32);
            &&& (v & 0xff) == b0
            &&& ((v >> 8u32) & 0xff) == b1
            &&& ((v >> 16u32) & 0xff) == b2
            &&& (v >> 24u32) == b3
        }),
{
    assert({
        let v = b0 | (b1 << 8u32) | (b2 << 16u32) | (b3 << 24u32);
        &&& (v & 0xff) == b0
        &&& ((v >> 8u32) & 0xff) == b1
        &&& ((v >> 16u32) & 0xff) == b2
        &&& (v >> 24u32) == b3
    }) by (bit_vector)
        requires
            b0 < 256,
            b1 < 256,
            b2 < 256,
            b3 < 256,
    ;
}

proof fn lemma_le_u64(b0: u64, b1: u64, b2: u64, b3: u64, b4: u64, b5: u64, b6: u64, b7: u64)
    requires
        b0 < 256,
        b1 < 256,
        b2 < 256,
        b3 < 256,
        b4 < 256,
        b5 < 256,
        b6 < 256,
        b7 < 256,
    ensures
        ({
            let v = b0 | (b1 << 8u64) | (b2 << 16u64) | (b3 << 24u64) | (b4 << 32u64) | (b5
                << 40u64) | (b6 << 48u64) | (b7 << 56u64);
            &&& (v & 0xff) == b0
            &&& ((v >> 8u64) & 0xff) == b1
            &&& ((v >> 16u64) & 0xff) == b2
            &&& ((v >> 24u64) & 0xff) == b3
            &&& ((v >> 32u64) & 0xff) == b4
            &&& ((v >> 40u64) & 0xff) == b5
            &&& ((v >> 48u64) & 0xff) == b6
            &&& (v >> 56u64) == b7
        }),
{
    assert({
        let v = b0 | (b1 << 8u64) | (b2 << 16u64) | (b3 << 24u64) | (b4 << 32u64) | (b5 << 40u64)
            | (b6 << 48u64) | (b7 << 56u64);
        &&& (v & 0xff) == b0
        &&& ((v >> 8u64) & 0xff) == b1
        &&& ((v >> 16u64) & 0xff) == b2
        &&& ((v >> 24u64) & 0xff) == b3
        &&& ((v >> 32u64) & 0xff) == b4
        &&& ((v >> 40u64) & 0xff) == b5
        &&& ((v >> 48u64) & 0xff) == b6
        &&& (v >> 56u64) == b7
    }) by (bit_vector)
        requires
            b0 < 256,
            b1 < 256,
            b2 < 256,
            b3 < 256,
            b4 < 256,
            b5 < 256,
            b6 < 256,
            b7 < 256,
    ;
}

fn read_u16_le(b: &[u8], at: usize) -> (r: u16)
    requires
        at + 2 <= b@.len(),
    ensures
        le_u16(r) == b@.subrange(at as int, at + 2),
{
    let b0 = b[at] as u16;
    let b1 = b[at + 1] as u16;
    proof {
        lemma_le_u16(b0, b1);
    }
    let r = b0 | (b1 << 8u16);
    assert(le_u16(r) =~= b@.subrange(at as int, at + 2));
    r
}

fn read_u32_le(b: &[u8], at: usize) -> (r: u32)
    requires
        at + 4 <= b@.len(),
    ensures
        le_u32(r) == b@.subrange(at as int, at + 4),
{
    let b0 = b[at] as u32;
    let b1 = b[at + 1] as u32;
    let b2 = b[at + 2] as u32;
    let b3 = b[at + 3] as u32;
    proof {
        lemma_le_u32(b0, b1, b2, b3);
    }
    let r = b0 | (b1 << 8u32) | (b2 << 16u32) | (b3 << 24u32);
    assert(le_u32(r) =~= b@.subrange(at as int, at + 4));
    r
}

fn read_u64_le(b: &[u8], at: usize) -> (r: u64)
    requires
        at + 8 <= b@.len(),
    ensures
        le_u64(r) == b@.subrange(at as int, at + 8),
{
    let b0 = b[at] as u64;
    let b1 = b[at + 1] as u64;
    let b2 = b[at + 2] as u64;
    let b3 = b[at + 3] as u64;
    let b4 = b[at + 4] as u64;
    let b5 = b[at + 5] as u64;
    let b6 = b[at + 6] as u64;
    let b7 = b[at + 7] as u64;
    proof {
        lemma_le_u64(b0, b1, b2, b3, b4, b5, b6, b7);
    }
    let r = b0 | (b1 << 8u64) | (b2 << 16u64) | (b3 << 24u64) | (b4 << 32u64) | (b5 << 40u64) | (
    b6 << 48u64) | (b7 << 56u64);
    assert(le_u64(r) =~= b@.subrange(at as int, at + 8));
    r
}

fn push_u16_le(out: &mut Vec<u8>, v: u16)
    ensures
        final(out)@ == old(out)@ + le_u16(v),
{
    out.push((v & 0xff) as u8);
    out.push((v >> 8u16) as u8);
    assert(final(out)@ =~= old(out)@ + le_u16(v));
}

fn push_u32_le(out: &mut Vec<u8>, v: u32)
    ensures
        final(out)@ == old(out)@ + le_u32(v),
{
    out.push((v & 0xff) as u8);
    out.push(((v >> 8u32) & 0xff) as u8);
    out.push(((v >> 16u32) & 0xff) as u8);
    out.push((v >> 24u32) as u8);
    assert(final(out)@ =~= old(out)@ + le_u32(v));
}

fn push_u64_le(out: &mut Vec<u8>, v: u64)
    ensures
        final(out)@ == old(out)@ + le_u64(v),
{
    out.push((v & 0xff) as u8);
    out.push(((v >> 8u64) & 0xff) as u8);
    out.push(((v >> 16u64) & 0xff) as u8);
    out.push(((v >> 24u64) & 0xff) as u8);
    out.push(((v >> 32u64) & 0xff) as u8);
    out.push(((v >> 40u64) & 0xff) as u8);
    out.push(((v >> 48u64) & 0xff) as u8);
    out.push((v >> 56u64) as u8);
    assert(final(out)@ =~= old(out)@ + le_u64(v));
}


proof fn lemma_le_u16_injective(a: u16, b: u16)
    requires
        le_u16(a) == le_u16(b),
    ensures
        a == b,
{
    assert((a & 0xff) <= 0xff && (a >> 8u16) <= 0xff && (b & 0xff) <= 0xff && (b >> 8u16) <= 0xff)
        by (bit_vector);
    assert(le_u16(a)[0] == le_u16(b)[0] && le_u16(a)[1] == le_u16(b)[1]);
    assert(a == b) by (bit_vector)
        requires
            (a & 0xff) == (b & 0xff),
            (a >> 8u16) == (b >> 8u16),
    ;
}

proof fn lemma_le_u32_injective(a: u32, b: u32)
    requires
        le_u32(a) == le_u32(b),
    ensures
        a == b,
{
    assert((a & 0xff) <= 0xff && ((a >> 8u32) & 0xff) <= 0xff && ((a >> 16u32) & 0xff) <= 0xff
        && (a >> 24u32) <= 0xff) by (bit_vector);
    assert((b & 0xff) <= 0xff && ((b >> 8u32) & 0xff) <= 0xff && ((b >> 16u32) & 0xff) <= 0xff
        && (b >> 24u32) <= 0xff) by (bit_vector);
    assert(le_u32(a)[0] == le_u32(b)[0] && le_u32(a)[1] == le_u32(b)[1] && le_u32(a)[2] == le_u32(
        b,
    )[2] && le_u32(a)[3] == le_u32(b)[3]);
    assert(a == b) by (bit_vector)
        requires
            (a & 0xff) == (b & 0xff),
            ((a >> 8u32) & 0xff) == ((b >> 8u32) & 0xff),
            ((a >> 16u32) & 0xff) == ((b >> 16u32) & 0xff),
            (a >> 24u32) == (b >> 24u32),
    ;
}

proof fn lemma_le_u64_injective(a: u64, b: u64)
    requires
        le_u64(a) == le_u64(b),
    ensures
        a == b,
{
    assert((a & 0xff) <= 0xff && ((a >> 8u64) & 0xff) <= 0xff && ((a >> 16u64) & 0xff) <= 0xff
        && ((a >> 24u64) & 0xff) <= 0xff && ((a >> 32u64) & 0xff) <= 0xff && ((a >> 40u64) & 0xff)
        <= 0xff && ((a >> 48u64) & 0xff) <= 0xff && (a >> 56u64) <= 0xff) by (bit_vector);
    assert((b & 0xff) <= 0xff && ((b >> 8u64) & 0xff) <= 0xff && ((b >> 16u64) & 0xff) <= 0xff
        && ((b >> 24u64) & 0xff) <= 0xff && ((b >> 32u64) & 0xff) <= 0xff && ((b >> 40u64) & 0xff)
        <= 0xff && ((b >> 48u64) & 0xff) <= 0xff && (b >> 56u64) <= 0xff) by (bit_vector);
    assert(le_u64(a)[0] == le_u64(b)[0]);
    assert(le_u64(a)[1] == le_u64(b)[1]);
    assert(le_u64(a)[2] == le_u64(b)[2]);
    assert(le_u64(a)[3] == le_u64(b)[3]);
    assert(le_u64(a)[4] == le_u64(b)[4]);
    assert(le_u64(a)[5] == le_u64(b)[5]);
    assert(le_u64(a)[6] == le_u64(b)[6]);
    assert(le_u64(a)[7] == le_u64(b)[7]);
    assert(a == b) by (bit_vector)
        requires
            (a & 0xff) == (b & 0xff),
            ((a >> 8u64) & 0xff) == ((b >> 8u64) & 0xff),
            ((a >> 16u64) & 0xff) == ((b >> 16u64) & 0xff),
            ((a >> 24u64) & 0xff) == ((b >> 24u64) & 0xff),
            ((a >> 32u64) & 0xff) == ((b >> 32u64) & 0xff),
            ((a >> 40u64) & 0xff) == ((b >> 40u64) & 0xff),
            ((a >> 48u64) & 0xff) == ((b >> 48u64) & 0xff),
            (a >> 56u64) == (b >> 56u64),
    ;
}

/// Two frames with the same 64 wire bytes are the same frame, so decoding the
/// bytes that `encode` produced gives the frame back.
pub proof fn lemma_wire_bytes_injective(f: RdxUsbFsPacket, g: RdxUsbFsPacket)
    requires
        wire_bytes(f) == wire_bytes(g),
    ensures
        f == g,
{
    broadcast use vstd::array::group_array_axioms;

    let a = wire_bytes(f);
    let b = wire_bytes(g);
    assert(a.subrange(0, 8) =~= le_u64(f.timestamp_ns));
    assert(b.subrange(0, 8) =~= le_u64(g.timestamp_ns));
    lemma_le_u64_injective(f.timestamp_ns, g.timestamp_ns);
    assert(a.subrange(8, 12) =~= le_u32(f.arb_id));
    assert(b.subrange(8, 12) =~= le_u32(g.arb_id));
    lemma_le_u32_injective(f.arb_id, g.arb_id);
    assert(a[12] == f.dlc && b[12] == g.dlc);
    assert(a[13] == f.channel && b[13] == g.channel);
    assert(a.subrange(14, 16) =~= le_u16(f.flags));
    assert(b.subrange(14, 16) =~= le_u16(g.flags));
    lemma_le_u16_injective(f.flags, g.flags);
    assert(a.subrange(16, 64) =~= f.data@);
    assert(b.subrange(16, 64) =~= g.data@);
    assert(f.data =~= g.data);
}

// ---------------------------------------------------------------------------
// Public frame conversions

/// The array of `N` bytes that starts with the first `n` bytes of `s` and is
/// zero after them.
pub open spec fn array_prefix<const N: usize>(s: Seq<u8>, n: nat) -> [u8; N]
    decreases n,
{
    if n == 0 {
        vstd::array::spec_array_fill_for_copy_type::<u8, N>(0u8)
    } else {
        vstd::array::spec_array_update(array_prefix::<N>(s, (n - 1) as nat), n - 1, s[n - 1])
    }
}

proof fn lemma_array_prefix<const N: usize>(s: Seq<u8>, n: nat)
    requires
        n <= N,
        n <= s.len(),
    ensures
        array_prefix::<N>(s, n)@.len() == N,
        forall|i: int| 0 <= i < n ==> array_prefix::<N>(s, n)@[i] == s[i],
        forall|i: int| n <= i < N ==> array_prefix::<N>(s, n)@[i] == 0u8,
    decreases n,
{
    broadcast use vstd::array::group_array_axioms;

    if n == 0 {
        let a = vstd::array::spec_array_fill_for_copy_type::<u8, N>(0u8);
        assert forall|i: int| 0 <= i < N implies a@[i] == 0u8 by {
            assert(a.view()[i] == 0u8);
        }
    } else {
        lemma_array_prefix::<N>(s, (n - 1) as nat);
    }
}

/// The array whose bytes are `s`.
pub open spec fn array_of<const N: usize>(s: Seq<u8>) -> [u8; N] {
    array_prefix::<N>(s, s.len())
}

proof fn lemma_array_of<const N: usize>(s: Seq<u8>)
    requires
        s.len() == N,
    ensures
        array_of::<N>(s)@ == s,
{
    lemma_array_prefix::<N>(s, s.len());
    assert(array_of::<N>(s)@ =~= s);
}

/// The public frame that carries the wire frame `f`: the same header, the 48
/// wire payload bytes, then zeros.
pub open spec fn to_public(f: RdxUsbFsPacket) -> RdxUsbPacket {
    RdxUsbPacket {
        timestamp_ns: f.timestamp_ns,
        arb_id: f.arb_id,
        dlc: f.dlc,
        channel: f.channel,
        flags: f.flags,
        data: array_of::<64>(f.data@ + Seq::new(16, |i: int| 0u8)),
    }
}

/// The wire frame that carries the public frame `p`: the same header and the
/// first 48 payload bytes. A frame whose length code exceeds 48 has none and
/// is handed back.
pub open spec fn from_public(p: RdxUsbPacket) -> Result<RdxUsbFsPacket, RdxUsbPacket> {
    if p.dlc > 48 {
        Err(p)
    } else {
        Ok(wire_of(p))
    }
}

/// The header of `p` with its first 48 payload bytes.
pub open spec fn wire_of(p: RdxUsbPacket) -> RdxUsbFsPacket {
    RdxUsbFsPacket {
        timestamp_ns: p.timestamp_ns,
        arb_id: p.arb_id,
        dlc: p.dlc,
        channel: p.channel,
        flags: p.flags,
        data: array_of::<48>(p.data@.subrange(0, 48)),
    }
}

/// Converting a wire frame to its public form and back gives the same frame.
pub proof fn lemma_public_round_trip(f: RdxUsbFsPacket)
    requires
        f.dlc <= 48,
    ensures
        from_public(to_public(f)) == Ok::<RdxUsbFsPacket, RdxUsbPacket>(f),
{
    broadcast use vstd::array::group_array_axioms;

    let d = f.data@ + Seq::new(16, |i: int| 0u8);
    lemma_array_of::<64>(d);
    assert(d.subrange(0, 48) =~= f.data@);
    lemma_array_of::<48>(f.data@);
    assert(array_of::<48>(f.data@) =~= f.data);
}

impl From<RdxUsbFsPacket> for RdxUsbPacket {
    fn from(value: RdxUsbFsPacket) -> (r: Self) {
        let mut data = [0u8; 64];
        let mut i: usize = 0;
        while i < 48
            invariant
                0 <= i <= 48,
                forall|k: int| 0 <= k < i ==> data@[k] == value.data@[k],
                forall|k: int| i <= k < 64 ==> data@[k] == 0u8,
            decreases 48 - i,
        {
            data[i] = value.data[i];
            i = i + 1;
        }
        let r = RdxUsbPacket {
            timestamp_ns: value.timestamp_ns,
            arb_id: value.arb_id,
            dlc: value.dlc,
            channel: value.channel,
            flags: value.flags,
            data,
        };
        proof {
            broadcast use vstd::array::group_array_axioms;

            let d = value.data@ + Seq::new(16, |i: int| 0u8);
            assert(r.data@ =~= d);
            lemma_array_of::<64>(d);
            assert(r.data =~= to_public(value).data);
        }
        r
    }
}

impl vstd::std_specs::convert::FromSpecImpl<RdxUsbFsPacket> for RdxUsbPacket {
    open spec fn obeys_from_spec() -> bool {
        true
    }

    open spec fn from_spec(v: RdxUsbFsPacket) -> Self {
        to_public(v)
    }
}

impl TryFrom<RdxUsbPacket> for RdxUsbFsPacket {
    type Error = RdxUsbPacket;

    /// Fails, handing the frame back, when its payload does not fit in 48 bytes.
    fn try_from(value: RdxUsbPacket) -> (r: Result<Self, Self::Error>) {
        if value.dlc > 48 {
            return Err(value);
        }
        let mut data = [0u8; 48];
        let mut i: usize = 0;
        while i < 48
            invariant
                0 <= i <= 48,
                forall|k: int| 0 <= k < i ==> data@[k] == value.data@[k],
            decreases 48 - i,
        {
            data[i] = value.data[i];
            i = i + 1;
        }
        let f = RdxUsbFsPacket {
            timestamp_ns: value.timestamp_ns,
            arb_id: value.arb_id,
            dlc: value.dlc,
            channel: value.channel,
            flags: value.flags,
            data,
        };
        proof {
            broadcast use vstd::array::group_array_axioms;

            let d = value.data@.subrange(0, 48);
            assert(f.data@ =~= d);
            lemma_array_of::<48>(d);
            assert(f.data =~= array_of::<48>(d));
        }
        Ok(f)
    }
}

impl vstd::std_specs::convert::TryFromSpecImpl<RdxUsbPacket> for RdxUsbFsPacket {
    open spec fn obeys_try_from_spec() -> bool {
        true
    }

    open spec fn try_from_spec(v: RdxUsbPacket) -> Result<Self, Self::Error> {
        from_public(v)
    }
}

// ---------------------------------------------------------------------------
// Wire encoding

impl RdxUsbFsPacket {
    /// The message arbitration id, without the flag bits.
    pub fn id(&self) -> (r: u32)
        ensures
            r == self.arb_id & MESSAGE_ARB_ID_MASK,
    {
        self.arb_id & MESSAGE_ARB_ID_MASK
    }

    /// Does the packet use extended (29-bit) ids?
    pub fn extended(&self) -> (r: bool)
        ensures
            r == (self.arb_id & MESSAGE_ARB_ID_EXT != 0),
    {
        self.arb_id & MESSAGE_ARB_ID_EXT != 0
    }

    /// Is the packet an RTR packet?
    pub fn rtr(&self) -> (r: bool)
        ensures
            r == (self.arb_id & MESSAGE_ARB_ID_RTR != 0),
    {
        self.arb_id & MESSAGE_ARB_ID_RTR != 0
    }

    /// Is the packet addressed to or from the device itself?
    pub fn device(&self) -> (r: bool)
        ensures
            r == (self.arb_id & MESSAGE_ARB_ID_DEVICE != 0),
    {
        self.arb_id & MESSAGE_ARB_ID_DEVICE != 0
    }

    /// The 64 bytes sent on the bulk-out endpoint for this frame.
    pub fn encode(&self) -> (r: Vec<u8>)
        ensures
            r@ == wire_bytes(*self),
    {
        let mut out: Vec<u8> = Vec::with_capacity(FS_PACKET_SIZE);
        push_u64_le(&mut out, self.timestamp_ns);
        push_u32_le(&mut out, self.arb_id);
        out.push(self.dlc);
        out.push(self.channel);
        push_u16_le(&mut out, self.flags);
        let ghost head = out@;
        let mut i: usize = 0;
        while i < 48
            invariant
                0 <= i <= 48,
                out@ == head + self.data@.subrange(0, i as int),
            decreases 48 - i,
        {
            out.push(self.data[i]);
            i = i + 1;
            assert(out@ =~= head + self.data@.subrange(0, i as int));
        }
        assert(self.data@.subrange(0, 48) =~= self.data@);
        assert(out@ =~= wire_bytes(*self));
        out
    }

    /// Reads a frame from a bulk-in buffer. Every 64-byte buffer is a frame;
    /// a buffer of another length is none.
    pub fn decode(b: &[u8]) -> (r: Option<RdxUsbFsPacket>)
        ensures
            r is Some <==> b@.len() == 64,
            r matches Some(f) ==> wire_bytes(f) == b@,
    {
        if b.len() != FS_PACKET_SIZE {
            return None;
        }
        let timestamp_ns = read_u64_le(b, 0);
        let arb_id = read_u32_le(b, 8);
        let dlc = b[12];
        let channel = b[13];
        let flags = read_u16_le(b, 14);
        let mut data = [0u8; 48];
        let mut i: usize = 0;
        while i < 48
            invariant
                0 <= i <= 48,
                b@.len() == 64,
                forall|k: int| 0 <= k < i ==> data@[k] == b@[16 + k],
            decreases 48 - i,
        {
            data[i] = b[16 + i];
            i = i + 1;
        }
        let f = RdxUsbFsPacket { timestamp_ns, arb_id, dlc, channel, flags, data };
        assert(f.data@ =~= b@.subrange(16, 64));
        assert(wire_bytes(f) =~= b@);
        Some(f)
    }
}

impl RdxUsbDeviceInfo {
    /// Reads the descriptor from a control-transfer reply. Every 32-byte reply
    /// is a descriptor; a reply of another length is none.
    pub fn decode(b: &[u8]) -> (r: Option<RdxUsbDeviceInfo>)
        ensures
            r is Some <==> b@.len() == 32,
            r matches Some(d) ==> device_info_bytes(d) == b@,
    {
        if b.len() != DEVICE_INFO_SIZE {
            return None;
        }
        let sku = read_u16_le(b, 0);
        let interface_idx = b[2];
        let n_channels = b[3];
        let protocol_version_major = read_u16_le(b, 4);
        let protocol_version_minor = read_u16_le(b, 6);
        let mut reserved = [0u8; 24];
        let mut i: usize = 0;
        while i < 24
            invariant
                0 <= i <= 24,
                b@.len() == 32,
                forall|k: int| 0 <= k < i ==> reserved@[k] == b@[8 + k],
            decreases 24 - i,
        {
            reserved[i] = b[8 + i];
            i = i + 1;
        }
        let d = RdxUsbDeviceInfo {
            sku,
            interface_idx,
            n_channels,
            protocol_version_major,
            protocol_version_minor,
            reserved,
        };
        assert(d.reserved@ =~= b@.subrange(8, 32));
        assert(device_info_bytes(d) =~= b@);
        Some(d)
    }
}

} // verus!
