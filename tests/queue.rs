use rdxusb::protocol::RdxUsbFsPacket;
use rdxusb::queue::FrameQueue;

fn frame(ts: u64) -> RdxUsbFsPacket {
    RdxUsbFsPacket { timestamp_ns: ts, arb_id: 0, dlc: 0, channel: 0, flags: 0, data: [0u8; 48] }
}

#[test]
fn queue_is_bounded_fifo() {
    let mut q = FrameQueue::new(2);
    assert_eq!(q.try_pop(), None);
    assert_eq!(q.try_push(frame(1)), None);
    assert_eq!(q.try_push(frame(2)), None);
    assert_eq!(q.try_push(frame(3)), Some(frame(3)));
    assert_eq!(q.try_pop(), Some(frame(1)));
    assert_eq!(q.try_push(frame(4)), None);
    assert_eq!(q.try_pop(), Some(frame(2)));
    assert_eq!(q.try_pop(), Some(frame(4)));
    assert_eq!(q.try_pop(), None);
}
