//! What the runtime reads of an attached USB device, and the choice of the
//! interface and control request that open a session on it.

use vstd::prelude::*;
use crate::protocol::DEVICE_INFO_SIZE;
use crate::event_loop::{Device, EventLoop, criteria_match, is_first_match, no_match, serial_view};

verus! {

/// An attached USB device, as enumeration or a hotplug event describes it.
#[derive(Debug, Clone, PartialEq, Eq)]
pub struct UsbDeviceInfo {
    pub vendor_id: u16,
    pub product_id: u16,
    pub serial_number: Option<String>,
    pub manufacturer_string: Option<String>,
    pub product_string: Option<String>,
    pub device_address: u8,
}

/// One interface of a USB device's active configuration.
#[derive(Debug, Clone, Copy, PartialEq, Eq)]
pub struct InterfaceDesc {
    pub interface_number: u8,
    pub class: u8,
    pub subclass: u8,
    pub protocol: u8,
}

/// The interface class, subclass and protocol of an RdxUsb interface.
pub open spec fn is_rdxusb_interface(i: InterfaceDesc) -> bool {
    i.class == 0xff && i.subclass == 0 && i.protocol == 0
}

/// The number of the first interface with class 0xFF, subclass 0 and
/// protocol 0, if any.
pub fn find_rdxusb_interface(ifaces: &[InterfaceDesc]) -> (r: Option<u8>)
    ensures
        r matches Some(n) ==> exists|k: int|
            0 <= k < ifaces@.len() && is_rdxusb_interface(ifaces@[k]) && ifaces@[k].interface_number
                == n && forall|j: int| 0 <= j < k ==> !is_rdxusb_interface(#[trigger] ifaces@[j]),
        r is None ==> forall|j: int| 0 <= j < ifaces@.len() ==> !is_rdxusb_interface(#[trigger] ifaces@[j]),
{
    let mut i: usize = 0;
    while i < ifaces.len()
        invariant
            i <= ifaces@.len(),
            forall|j: int| 0 <= j < i ==> !is_rdxusb_interface(#[trigger] ifaces@[j]),
        decreases ifaces@.len() - i,
    {
        let d = ifaces[i];
        if d.class == 0xff && d.subclass == 0 && d.protocol == 0 {
            return Some(d.interface_number);
        }
        i = i + 1;
    }
    None
}

/// The fields of a vendor control-in request addressed to the interface.
#[derive(Debug, Clone, Copy, PartialEq, Eq)]
pub struct ControlRequest {
    pub request: u8,
    pub value: u16,
    pub index: u16,
    pub length: u16,
}

/// The request that reads the device-info descriptor: request 0 (device
/// info), value 1, index 0, 32 bytes.
pub fn device_info_request() -> (r: ControlRequest)
    ensures
        r.request == 0,
        r.value == 1,
        r.index == 0,
        r.length == 32,
{
    ControlRequest { request: 0, value: 1, index: 0, length: DEVICE_INFO_SIZE as u16 }
}

impl Device {
    /// Does this slot take the device `info`?
    pub fn matches_device_info(&self, info: &UsbDeviceInfo) -> (r: bool)
        ensures
            r == criteria_match(
                self.vid,
                self.pid,
                serial_view(self.serial_number),
                info.vendor_id,
                info.product_id,
                serial_view(info.serial_number),
            ),
    {
        self.matches(info.vendor_id, info.product_id, &info.serial_number)
    }
}

impl EventLoop {
    /// The slot that a newly seen device `info` is handed to: the least handle
    /// whose slot takes it, if any.
    pub fn slot_for_device(&self, info: &UsbDeviceInfo) -> (r: Option<i32>)
        requires
            self.wf(),
        ensures
            r matches Some(h) ==> is_first_match(
                self@,
                h,
                info.vendor_id,
                info.product_id,
                serial_view(info.serial_number),
            ),
            r is None ==> no_match(
                self@,
                info.vendor_id,
                info.product_id,
                serial_view(info.serial_number),
            ),
    {
        self.find_matching(info.vendor_id, info.product_id, &info.serial_number)
    }
}

} // verus!
