use rdxusb::device_list::{DeviceInfos, RdxUsbDeviceEntry};
use rdxusb::event_loop::{open_device, EventLoop, EventLoopError};
use rdxusb::usb::{device_info_request, find_rdxusb_interface, InterfaceDesc, UsbDeviceInfo};

fn info(serial: Option<&str>) -> UsbDeviceInfo {
    UsbDeviceInfo {
        vendor_id: 0x16d0,
        product_id: 0x1278,
        serial_number: serial.map(|s| s.to_string()),
        manufacturer_string: Some("Redux".to_string()),
        product_string: None,
        device_address: 7,
    }
}

#[test]
fn iterator_allocates_reads_and_frees() {
    let mut d = DeviceInfos::new();
    let a = d.allocate_idx_and_insert(vec![info(Some("A1")), info(None)]);
    let b = d.allocate_idx_and_insert(vec![]);
    assert_eq!((a, b), (0, 1));
    let e = d.get_entry(a, 0).unwrap();
    assert_eq!(&e.serial[..3], b"A1\0");
    assert_eq!(&e.manufacturer[..6], b"Redux\0");
    assert_eq!(e.product_str, [0u8; 256]);
    assert_eq!((e.vid, e.pid, e.bus_number, e.device_address), (0x16d0, 0x1278, 0, 7));
    assert_eq!(d.get_entry(a, 2), Err(EventLoopError::DeviceIterIdxOutOfRange));
    assert_eq!(d.get_entry(b, 0), Err(EventLoopError::DeviceIterIdxOutOfRange));
    assert_eq!(d.get_entry(7, 0), Err(EventLoopError::DeviceIterInvalid));
    d.free_idx(a);
    assert_eq!(d.get_entry(a, 0), Err(EventLoopError::DeviceIterInvalid));
    d.free_idx(a);
    assert_eq!(d.next_idx(), 2);
}

#[test]
fn entry_strings_are_truncated_and_terminated() {
    let long = "x".repeat(300);
    let e = RdxUsbDeviceEntry::from_info(&info(Some(&long)));
    assert!(e.serial[..255].iter().all(|c| *c == b'x'));
    assert_eq!(e.serial[255], 0);
    let nul = RdxUsbDeviceEntry::from_info(&info(Some("ab\0cd")));
    assert_eq!(nul.serial, [0u8; 256]);
    let exact = "y".repeat(255);
    let e2 = RdxUsbDeviceEntry::from_info(&info(Some(&exact)));
    assert_eq!(e2.serial[254], b'y');
    assert_eq!(e2.serial[255], 0);
}

#[test]
fn interface_selection() {
    let ifaces = [
        InterfaceDesc { interface_number: 0, class: 0x02, subclass: 0, protocol: 0 },
        InterfaceDesc { interface_number: 1, class: 0xff, subclass: 1, protocol: 0 },
        InterfaceDesc { interface_number: 2, class: 0xff, subclass: 0, protocol: 0 },
        InterfaceDesc { interface_number: 3, class: 0xff, subclass: 0, protocol: 0 },
    ];
    assert_eq!(find_rdxusb_interface(&ifaces), Some(2));
    assert_eq!(find_rdxusb_interface(&ifaces[..2]), None);
    assert_eq!(find_rdxusb_interface(&[]), None);
}

#[test]
fn device_info_request_fields() {
    let r = device_info_request();
    assert_eq!((r.request, r.value, r.index, r.length), (0, 1, 0, 32));
}

#[test]
fn hotplug_dispatch_picks_matching_slot() {
    let mut el = EventLoop::new();
    let (a, _) = open_device(&mut el, 0x16d0, 0x1278, Some("A1".to_string()), false, 8);
    let (w, _) = open_device(&mut el, 0x16d0, 0x1278, None, false, 8);
    assert_eq!(el.slot_for_device(&info(Some("A1"))), Some(a));
    assert_eq!(el.slot_for_device(&info(Some("B2"))), Some(w));
    assert_eq!(el.slot_for_device(&info(None)), Some(w));
    let other = UsbDeviceInfo { product_id: 1, ..info(None) };
    assert_eq!(el.slot_for_device(&other), None);
}
