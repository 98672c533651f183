use rdxusb::event_loop::{
    close_all_devices, close_device, open_device, read_packets, write_packets, EventLoop,
    EventLoopError, OutboundOutcome,
};
use rdxusb::protocol::{RdxUsbFsPacket, RdxUsbPacket};
use rdxusb::session::InboundOutcome;

fn wire_frame(ts: u64, arb_id: u32, dlc: u8, channel: u8, payload: &[u8]) -> RdxUsbFsPacket {
    let mut data = [0u8; 48];
    data[..payload.len()].copy_from_slice(payload);
    RdxUsbFsPacket { timestamp_ns: ts, arb_id, dlc, channel, flags: 0, data }
}

fn public_frame(dlc: u8, channel: u8) -> RdxUsbPacket {
    RdxUsbPacket { timestamp_ns: 0, arb_id: 0x10, dlc, channel, flags: 0, data: [0u8; 64] }
}

fn blank() -> RdxUsbPacket {
    public_frame(0, 0)
}

/// A registry with one connected slot of `n_channels` channels.
fn connected(buf_size: usize, n_channels: u8) -> (EventLoop, i32) {
    let mut el = EventLoop::new();
    let (h, created) = open_device(&mut el, 0x16D0, 0x1278, None, false, buf_size);
    assert!(created);
    assert!(el.update_open_device(h, n_channels));
    (el, h)
}

#[test]
fn open_close_idempotent() {
    let mut el = EventLoop::new();
    assert_eq!(open_device(&mut el, 0x16D0, 0x1278, None, false, 48), (0, true));
    assert_eq!(close_device(&mut el, 0), Ok(()));
    assert_eq!(close_device(&mut el, 0), Ok(()));
    let mut out = [blank(); 1];
    let r = read_packets(&mut el, 0, 0, &mut out);
    assert_eq!(r, Err(EventLoopError::DeviceNotOpened));
    assert_eq!(r.unwrap_err().code(), -200);
    assert_eq!(write_packets(&mut el, 0, &[blank()]), Err(EventLoopError::DeviceNotOpened));
}

#[test]
fn small_frame_round_trip() {
    let (mut el, h) = connected(48, 1);
    let f = wire_frame(1, 0x8000_0123, 3, 0, &[0xAA, 0xBB, 0xCC]);
    assert_eq!(el.deliver_inbound(h, &f.encode()), InboundOutcome::Queued);
    let mut out = [blank(); 1];
    assert_eq!(read_packets(&mut el, h, 0, &mut out), Ok(1));
    assert_eq!(out[0].dlc, 3);
    assert_eq!(&out[0].data[0..3], &[0xAA, 0xBB, 0xCC]);
    let back = RdxUsbFsPacket::try_from(out[0]).unwrap();
    assert_eq!(back.id(), 0x123);
    assert!(back.extended());
}

#[test]
fn channel_out_of_range() {
    let (mut el, h) = connected(48, 2);
    let mut out = [blank(); 1];
    let r = read_packets(&mut el, h, 5, &mut out);
    assert_eq!(r, Err(EventLoopError::ChannelOutOfRange));
    assert_eq!(r.unwrap_err().code(), -202);
    assert_eq!(out[0], blank());
    assert_eq!(read_packets(&mut el, h, 1, &mut out), Ok(0));
}

#[test]
fn write_oversize_rejection() {
    let (mut el, h) = connected(48, 1);
    assert_eq!(write_packets(&mut el, h, &[public_frame(49, 0)]), Ok(0));
    assert_eq!(el.next_outbound(h), OutboundOutcome::Idle);
}

#[test]
fn write_stops_at_oversize_frame() {
    let (mut el, h) = connected(48, 1);
    let ps = [public_frame(8, 0), public_frame(49, 0), public_frame(8, 0)];
    assert_eq!(write_packets(&mut el, h, &ps), Ok(1));
    let expected = RdxUsbFsPacket::try_from(ps[0]).unwrap().encode();
    assert_eq!(el.next_outbound(h), OutboundOutcome::Send(expected));
    assert_eq!(el.next_outbound(h), OutboundOutcome::Idle);
}

#[test]
fn write_stops_at_full_queue() {
    let (mut el, h) = connected(2, 1);
    let ps = [public_frame(1, 0), public_frame(2, 0), public_frame(3, 0)];
    assert_eq!(write_packets(&mut el, h, &ps), Ok(2));
    assert_eq!(write_packets(&mut el, h, &ps), Ok(0));
    for dlc in [1u8, 2] {
        let expected = RdxUsbFsPacket::try_from(public_frame(dlc, 0)).unwrap().encode();
        assert_eq!(el.next_outbound(h), OutboundOutcome::Send(expected));
    }
    assert_eq!(el.next_outbound(h), OutboundOutcome::Idle);
    assert_eq!(write_packets(&mut el, h, &ps[2..]), Ok(1));
}

#[test]
fn backpressure_drop_on_full() {
    let (mut el, h) = connected(4, 1);
    for i in 0..10u64 {
        let f = wire_frame(i, 1, 1, 0, &[i as u8]);
        let r = el.push_inbound(h, f);
        if i < 4 {
            assert_eq!(r, InboundOutcome::Queued);
        } else {
            assert_eq!(r, InboundOutcome::Full(f));
        }
    }
    let mut out = [blank(); 16];
    assert_eq!(read_packets(&mut el, h, 0, &mut out), Ok(4));
    for i in 0..4 {
        assert_eq!(out[i].timestamp_ns, i as u64);
    }
    assert_eq!(read_packets(&mut el, h, 0, &mut out), Ok(0));
}

#[test]
fn backpressure_await_on_full() {
    let (mut el, h) = connected(4, 1);
    let mut read = Vec::new();
    let mut out = [blank(); 3];
    for i in 0..10u64 {
        let mut f = wire_frame(i, 1, 1, 0, &[]);
        loop {
            match el.push_inbound(h, f) {
                InboundOutcome::Queued => break,
                InboundOutcome::Full(back) => {
                    f = back;
                    let n = read_packets(&mut el, h, 0, &mut out).unwrap();
                    read.extend_from_slice(&out[..n]);
                }
                other => panic!("unexpected {:?}", other),
            }
        }
    }
    loop {
        let n = read_packets(&mut el, h, 0, &mut out).unwrap();
        if n == 0 {
            break;
        }
        read.extend_from_slice(&out[..n]);
    }
    assert_eq!(read.len(), 10);
    for (i, p) in read.iter().enumerate() {
        assert_eq!(p.timestamp_ns, i as u64);
    }
}

#[test]
fn reconnect_resumes_reads() {
    let (mut el, h) = connected(48, 1);
    let f = wire_frame(1, 0x8000_0123, 3, 0, &[0xAA, 0xBB, 0xCC]);
    assert_eq!(el.deliver_inbound(h, &f.encode()), InboundOutcome::Queued);
    let mut out = [blank(); 1];
    assert_eq!(read_packets(&mut el, h, 0, &mut out), Ok(1));
    assert_eq!(read_packets(&mut el, h, 0, &mut out), Ok(0));
    assert!(el.remove_open_device(h));
    let r = read_packets(&mut el, h, 0, &mut out);
    assert_eq!(r, Err(EventLoopError::DeviceNotConnected));
    assert_eq!(r.unwrap_err().code(), -201);
    assert_eq!(write_packets(&mut el, h, &[blank()]), Err(EventLoopError::DeviceNotConnected));
    assert_eq!(el.deliver_inbound(h, &f.encode()), InboundOutcome::Detached);
    assert_eq!(el.next_outbound(h), OutboundOutcome::Detached);
    assert!(el.is_open(h));
    assert!(el.update_open_device(h, 1));
    assert_eq!(read_packets(&mut el, h, 0, &mut out), Ok(0));
    assert_eq!(el.deliver_inbound(h, &f.encode()), InboundOutcome::Queued);
    assert_eq!(read_packets(&mut el, h, 0, &mut out), Ok(1));
    assert_eq!(RdxUsbFsPacket::try_from(out[0]), Ok(f));
}

#[test]
fn close_on_disconnect_removes_slot() {
    let mut el = EventLoop::new();
    let (h, _) = open_device(&mut el, 1, 2, None, true, 8);
    assert!(el.update_open_device(h, 1));
    assert!(!el.remove_open_device(h));
    assert!(!el.is_open(h));
    let mut out = [blank(); 1];
    assert_eq!(read_packets(&mut el, h, 0, &mut out), Err(EventLoopError::DeviceNotOpened));
    assert!(!el.update_open_device(h, 1));
    assert!(!el.remove_open_device(h));
}

#[test]
fn handles_increase_and_are_not_reused() {
    let mut el = EventLoop::new();
    let (a, _) = open_device(&mut el, 1, 1, None, false, 8);
    let (b, _) = open_device(&mut el, 1, 2, None, false, 8);
    assert!(a < b);
    close_device(&mut el, a).unwrap();
    close_device(&mut el, b).unwrap();
    let (c, created) = open_device(&mut el, 1, 1, None, false, 8);
    assert!(created);
    assert!(c > b);
    close_all_devices(&mut el).unwrap();
    assert!(!el.is_open(c));
    let (d, _) = open_device(&mut el, 1, 1, None, false, 8);
    assert_eq!(d, c + 1);
    assert_eq!(el.next_handle(), d + 1);
}

#[test]
fn open_existing_returns_same_handle() {
    let mut el = EventLoop::new();
    let (a, created) = open_device(&mut el, 5, 6, Some("ABC".to_string()), false, 8);
    assert!(created);
    assert_eq!(open_device(&mut el, 5, 6, Some("ABC".to_string()), false, 8), (a, false));
    let (b, created) = open_device(&mut el, 5, 6, Some("XYZ".to_string()), false, 8);
    assert!(created);
    assert_ne!(a, b);
    let (w, created) = open_device(&mut el, 5, 6, None, false, 8);
    assert!(created);
    assert_eq!(open_device(&mut el, 5, 6, Some("other".to_string()), false, 8), (w, false));
    assert_eq!(open_device(&mut el, 5, 6, Some("ABC".to_string()), false, 8), (a, false));
}

#[test]
fn matching_uses_least_handle() {
    let mut el = EventLoop::new();
    let (a, _) = open_device(&mut el, 5, 6, Some("S".to_string()), false, 8);
    let (w, _) = open_device(&mut el, 5, 6, None, false, 8);
    assert!(a < w);
    assert_eq!(el.find_matching(5, 6, &Some("S".to_string())), Some(a));
    assert_eq!(el.find_matching(5, 6, &Some("T".to_string())), Some(w));
    assert_eq!(el.find_matching(5, 7, &None), None);
}

#[test]
fn inbound_discards_foreign_frames() {
    let (mut el, h) = connected(4, 2);
    assert_eq!(el.deliver_inbound(h, &[0u8; 63]), InboundOutcome::Discarded);
    let bad_channel = wire_frame(0, 1, 1, 2, &[]);
    assert_eq!(el.deliver_inbound(h, &bad_channel.encode()), InboundOutcome::Discarded);
    let oversize = wire_frame(0, 1, 49, 0, &[]);
    assert_eq!(el.push_inbound(h, oversize), InboundOutcome::Discarded);
    let mut out = [blank(); 4];
    assert_eq!(read_packets(&mut el, h, 0, &mut out), Ok(0));
    assert_eq!(read_packets(&mut el, h, 1, &mut out), Ok(0));
    assert_eq!(el.push_inbound(99, wire_frame(0, 1, 1, 0, &[])), InboundOutcome::Detached);
}

#[test]
fn channels_are_independent_and_ordered() {
    let (mut el, h) = connected(8, 2);
    for i in 0..3u64 {
        assert_eq!(el.push_inbound(h, wire_frame(i, 1, 0, 0, &[])), InboundOutcome::Queued);
        assert_eq!(el.push_inbound(h, wire_frame(100 + i, 1, 0, 1, &[])), InboundOutcome::Queued);
    }
    let mut out = [blank(); 2];
    assert_eq!(read_packets(&mut el, h, 1, &mut out), Ok(2));
    assert_eq!(out[0].timestamp_ns, 100);
    assert_eq!(out[1].timestamp_ns, 101);
    assert_eq!(read_packets(&mut el, h, 0, &mut out), Ok(2));
    assert_eq!(out[0].timestamp_ns, 0);
    assert_eq!(out[1].timestamp_ns, 1);
    let mut rest = [blank(); 4];
    assert_eq!(read_packets(&mut el, h, 0, &mut rest), Ok(1));
    assert_eq!(rest[0].timestamp_ns, 2);
    assert_eq!(rest[1], blank());
}

#[test]
fn read_with_no_room_reads_nothing() {
    let (mut el, h) = connected(4, 1);
    el.push_inbound(h, wire_frame(0, 1, 0, 0, &[]));
    let mut none: [RdxUsbPacket; 0] = [];
    assert_eq!(read_packets(&mut el, h, 0, &mut none), Ok(0));
    assert_eq!(read_packets(&mut el, h, 9, &mut none), Ok(0));
    let mut out = [blank(); 1];
    assert_eq!(read_packets(&mut el, h, 0, &mut out), Ok(1));
}

#[test]
fn zero_buffer_size_uses_default() {
    let (mut el, h) = connected(0, 1);
    for i in 0..48u64 {
        assert_eq!(el.push_inbound(h, wire_frame(i, 1, 0, 0, &[])), InboundOutcome::Queued);
    }
    let f = wire_frame(48, 1, 0, 0, &[]);
    assert_eq!(el.push_inbound(h, f), InboundOutcome::Full(f));
}

#[test]
fn not_connected_before_session() {
    let mut el = EventLoop::new();
    let (h, _) = open_device(&mut el, 1, 1, None, false, 8);
    let mut out = [blank(); 1];
    assert_eq!(read_packets(&mut el, h, 0, &mut out), Err(EventLoopError::DeviceNotConnected));
    assert_eq!(el.next_outbound(h), OutboundOutcome::Detached);
    assert_eq!(el.next_outbound(42), OutboundOutcome::Detached);
}

#[test]
fn error_codes() {
    let all = [
        (EventLoopError::NoError, 0),
        (EventLoopError::EventLoopCrashed, -100),
        (EventLoopError::CannotListDevices, -101),
        (EventLoopError::DeviceIterInvalid, -102),
        (EventLoopError::DeviceIterIdxOutOfRange, -103),
        (EventLoopError::NullPointer, -104),
        (EventLoopError::DeviceNotOpened, -200),
        (EventLoopError::DeviceNotConnected, -201),
        (EventLoopError::ChannelOutOfRange, -202),
    ];
    for (e, c) in all {
        assert_eq!(e.code(), c);
        assert_eq!(i32::from(e), c);
    }
}
