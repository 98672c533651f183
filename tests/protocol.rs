use rdxusb::protocol::{
    RdxUsbCtrl, RdxUsbDeviceInfo, RdxUsbFsPacket, RdxUsbPacket, MESSAGE_ARB_ID_DEVICE,
    MESSAGE_ARB_ID_EXT, MESSAGE_ARB_ID_RTR,
};

fn wire_frame(ts: u64, arb_id: u32, dlc: u8, channel: u8, payload: &[u8]) -> RdxUsbFsPacket {
    let mut data = [0u8; 48];
    data[..payload.len()].copy_from_slice(payload);
    RdxUsbFsPacket { timestamp_ns: ts, arb_id, dlc, channel, flags: 0, data }
}

#[test]
fn flag_helpers_on_extended_id() {
    let f = wire_frame(1, 0x8000_0123, 3, 0, &[0xAA, 0xBB, 0xCC]);
    assert_eq!(f.id(), 0x123);
    assert!(f.extended());
    assert!(!f.rtr());
    assert!(!f.device());
}

#[test]
fn flag_helpers_on_all_flags() {
    let f = wire_frame(0, MESSAGE_ARB_ID_EXT | MESSAGE_ARB_ID_RTR | MESSAGE_ARB_ID_DEVICE | 0x1fff_ffff, 0, 0, &[]);
    assert_eq!(f.id(), 0x1fff_ffff);
    assert!(f.extended());
    assert!(f.rtr());
    assert!(f.device());
    let g = wire_frame(0, 0x7ff, 0, 0, &[]);
    assert_eq!(g.id(), 0x7ff);
    assert!(!g.extended());
    assert!(!g.rtr());
    assert!(!g.device());
}

#[test]
fn encode_is_little_endian_and_packed() {
    let mut f = wire_frame(0x0102_0304_0506_0708, 0x8000_0123, 3, 1, &[0xAA, 0xBB, 0xCC]);
    f.flags = 0xBEEF;
    let b = f.encode();
    assert_eq!(b.len(), 64);
    assert_eq!(&b[0..8], &[0x08, 0x07, 0x06, 0x05, 0x04, 0x03, 0x02, 0x01]);
    assert_eq!(&b[8..12], &[0x23, 0x01, 0x00, 0x80]);
    assert_eq!(b[12], 3);
    assert_eq!(b[13], 1);
    assert_eq!(&b[14..16], &[0xEF, 0xBE]);
    assert_eq!(&b[16..19], &[0xAA, 0xBB, 0xCC]);
    assert!(b[19..].iter().all(|x| *x == 0));
}

#[test]
fn decode_reads_encoded_frame_back() {
    let mut f = wire_frame(123_456_789, 0x4000_0042, 48, 2, &[7u8; 48]);
    f.flags = 0x1234;
    let b = f.encode();
    assert_eq!(RdxUsbFsPacket::decode(&b), Some(f));
}

#[test]
fn decode_rejects_wrong_length() {
    assert_eq!(RdxUsbFsPacket::decode(&[0u8; 63]), None);
    assert_eq!(RdxUsbFsPacket::decode(&[0u8; 65]), None);
    assert_eq!(RdxUsbFsPacket::decode(&[]), None);
    assert!(RdxUsbFsPacket::decode(&[0u8; 64]).is_some());
}

#[test]
fn to_public_copies_payload_and_zero_pads() {
    let f = wire_frame(9, 0x123, 48, 1, &[0x55u8; 48]);
    let p: RdxUsbPacket = f.into();
    assert_eq!(p.timestamp_ns, 9);
    assert_eq!(p.arb_id, 0x123);
    assert_eq!(p.dlc, 48);
    assert_eq!(p.channel, 1);
    assert_eq!(&p.data[..48], &[0x55u8; 48]);
    assert_eq!(&p.data[48..], &[0u8; 16]);
}

#[test]
fn from_public_round_trip() {
    let mut f = wire_frame(1, 0x8000_0123, 3, 0, &[0xAA, 0xBB, 0xCC]);
    f.data[40] = 0x99;
    f.flags = 7;
    let p = RdxUsbPacket::from(f);
    assert_eq!(RdxUsbFsPacket::try_from(p), Ok(f));
}

#[test]
fn from_public_rejects_oversize() {
    let p = RdxUsbPacket { timestamp_ns: 0, arb_id: 1, dlc: 49, channel: 0, flags: 0, data: [1u8; 64] };
    assert_eq!(RdxUsbFsPacket::try_from(p), Err(p));
    let q = RdxUsbPacket { dlc: 48, ..p };
    let w = RdxUsbFsPacket::try_from(q).unwrap();
    assert_eq!(w.dlc, 48);
    assert_eq!(w.data, [1u8; 48]);
}

#[test]
fn device_info_decodes_fields() {
    let mut b = [0u8; 32];
    b[0] = 0x34;
    b[1] = 0x12;
    b[2] = 1;
    b[3] = 2;
    b[4] = 1;
    b[5] = 0;
    b[6] = 3;
    b[7] = 0;
    b[31] = 0xFF;
    let d = RdxUsbDeviceInfo::decode(&b).unwrap();
    assert_eq!(d.sku, 0x1234);
    assert_eq!(d.interface_idx, 1);
    assert_eq!(d.n_channels, 2);
    assert_eq!(d.protocol_version_major, 1);
    assert_eq!(d.protocol_version_minor, 3);
    assert_eq!(d.reserved[23], 0xFF);
    assert_eq!(RdxUsbDeviceInfo::decode(&b[..31]), None);
}

#[test]
fn control_request_codes() {
    assert_eq!(RdxUsbCtrl::DeviceInfo.code(), 0);
    assert_eq!(RdxUsbCtrl::ResetChannel.code(), 1);
}
