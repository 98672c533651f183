//! Device-enumeration snapshots handed to foreign callers by id, and the
//! fixed-size entries they read from them.

use vstd::prelude::*;
use std::collections::HashMap;
use crate::event_loop::EventLoopError;
use crate::usb::UsbDeviceInfo;

verus! {

/// One device of a snapshot, as a fixed-size record of NUL-terminated strings
/// and numbers.
#[derive(Debug, Clone, Copy, PartialEq, Eq)]
pub struct RdxUsbDeviceEntry {
    pub serial: [u8; 256],
    pub manufacturer: [u8; 256],
    pub product_str: [u8; 256],
    pub vid: u16,
    pub pid: u16,
    pub bus_number: u8,
    pub device_address: u8,
}

/// The UTF-8 bytes of an optional string; no string has none.
pub open spec fn text_bytes(s: Option<String>) -> Seq<u8> {
    match s {
        Some(x) => vstd::utf8::encode_utf8(x@),
        None => Seq::empty(),
    }
}

/// A 256-byte NUL-terminated field holding `b`: a text with a NUL byte in it
/// is stored as the empty string, a longer one is cut to 255 bytes, and the
/// rest of the field is zero.
pub open spec fn c_string_field(b: Seq<u8>) -> Seq<u8> {
    if b.contains(0u8) {
        Seq::new(256, |i: int| 0u8)
    } else {
        Seq::new(256, |i: int| if i < b.len() && i < 255 { b[i] } else { 0u8 })
    }
}

fn c_string(s: &Option<String>) -> (r: [u8; 256])
    ensures
        r@ == c_string_field(text_bytes(*s)),
{
    let mut out = [0u8; 256];
    match s {
        None => {
            assert(out@ =~= c_string_field(text_bytes(*s)));
        },
        Some(text) => {
            let b = text.as_str().as_bytes();
            assert(b@ == text_bytes(*s));
            assert(forall|j: int| 0 <= j < 256 ==> out@[j] == 0u8);
            let mut i: usize = 0;
            while i < b.len()
                invariant
                    i <= b@.len(),
                    b@ == text_bytes(*s),
                    forall|j: int| 0 <= j < 256 ==> out@[j] == 0u8,
                    forall|j: int| 0 <= j < i ==> b@[j] != 0u8,
                decreases b@.len() - i,
            {
                if b[i] == 0 {
                    assert(b@.contains(0u8));
                    assert(out@ =~= c_string_field(text_bytes(*s)));
                    return out;
                }
                i = i + 1;
            }
            let n = if b.len() < 255 {
                b.len()
            } else {
                255
            };
            let mut k: usize = 0;
            while k < n
                invariant
                    k <= n,
                    n <= b@.len(),
                    n <= 255,
                    forall|j: int| 0 <= j < k ==> out@[j] == b@[j],
                    forall|j: int| k <= j < 256 ==> out@[j] == 0u8,
                decreases n - k,
            {
                out[k] = b[k];
                k = k + 1;
            }
            assert(!b@.contains(0u8));
            assert(out@ =~= c_string_field(text_bytes(*s)));
        },
    }
    out
}

/// The entry that describes `info`. The bus number is not reported and is
/// zero.
pub open spec fn entry_of(e: RdxUsbDeviceEntry, info: UsbDeviceInfo) -> bool {
    &&& e.serial@ == c_string_field(text_bytes(info.serial_number))
    &&& e.manufacturer@ == c_string_field(text_bytes(info.manufacturer_string))
    &&& e.product_str@ == c_string_field(text_bytes(info.product_string))
    &&& e.vid == info.vendor_id
    &&& e.pid == info.product_id
    &&& e.bus_number == 0
    &&& e.device_address == info.device_address
}

impl RdxUsbDeviceEntry {
    /// The entry that describes `info`.
    pub fn from_info(info: &UsbDeviceInfo) -> (r: RdxUsbDeviceEntry)
        ensures
            entry_of(r, *info),
    {
        RdxUsbDeviceEntry {
            serial: c_string(&info.serial_number),
            manufacturer: c_string(&info.manufacturer_string),
            product_str: c_string(&info.product_string),
            vid: info.vendor_id,
            pid: info.product_id,
            bus_number: 0,
            device_address: info.device_address,
        }
    }
}

/// The snapshots by id, and the id the next snapshot gets.
pub ghost struct DeviceInfosView {
    pub snapshots: Map<u64, Seq<UsbDeviceInfo>>,
    pub next_idx: int,
}

/// Enumeration snapshots by id.
pub struct DeviceInfos {
    info_map: HashMap<u64, Vec<UsbDeviceInfo>>,
    next_idx: u64,
}

impl View for DeviceInfos {
    type V = DeviceInfosView;

    closed spec fn view(&self) -> DeviceInfosView {
        DeviceInfosView {
            snapshots: self.info_map@.map_values(|v: Vec<UsbDeviceInfo>| v@),
            next_idx: self.next_idx as int,
        }
    }
}

impl DeviceInfos {
    /// Every snapshot id lies below the next one.
    pub closed spec fn wf(&self) -> bool {
        forall|k: u64| #[trigger] self.info_map@.contains_key(k) ==> k < self.next_idx
    }

    /// No snapshots.
    pub fn new() -> (r: DeviceInfos)
        ensures
            r.wf(),
            r@.snapshots == Map::<u64, Seq<UsbDeviceInfo>>::empty(),
            r@.next_idx == 0,
    {
        let r = DeviceInfos { info_map: HashMap::new(), next_idx: 0 };
        assert(r@.snapshots =~= Map::<u64, Seq<UsbDeviceInfo>>::empty());
        r
    }

    /// The id the next snapshot gets.
    pub fn next_idx(&self) -> (r: u64)
        ensures
            r == self@.next_idx,
    {
        self.next_idx
    }

    /// Stores a snapshot under a fresh id and returns the id.
    pub fn allocate_idx_and_insert(&mut self, devices: Vec<UsbDeviceInfo>) -> (r: u64)
        requires
            old(self).wf(),
            old(self)@.next_idx < u64::MAX,
        ensures
            final(self).wf(),
            r == old(self)@.next_idx,
            !old(self)@.snapshots.contains_key(r),
            final(self)@.snapshots == old(self)@.snapshots.insert(r, devices@),
            final(self)@.next_idx == old(self)@.next_idx + 1,
    {
        broadcast use vstd::std_specs::hash::group_hash_axioms;

        let idx = self.next_idx;
        let ghost d = devices@;
        self.info_map.insert(idx, devices);
        self.next_idx = idx + 1;
        assert(self@.snapshots =~= old(self)@.snapshots.insert(idx, d));
        idx
    }

    /// Forgets snapshot `idx`; an unknown id is ignored.
    pub fn free_idx(&mut self, idx: u64)
        requires
            old(self).wf(),
        ensures
            final(self).wf(),
            final(self)@.snapshots == old(self)@.snapshots.remove(idx),
            final(self)@.next_idx == old(self)@.next_idx,
    {
        broadcast use vstd::std_specs::hash::group_hash_axioms;

        self.info_map.remove(&idx);
        assert(self@.snapshots =~= old(self)@.snapshots.remove(idx));
    }

    /// The entry for device `device_idx` of snapshot `iter_id`.
    pub fn get_entry(&self, iter_id: u64, device_idx: u64) -> (r: Result<RdxUsbDeviceEntry, EventLoopError>)
        ensures
            !self@.snapshots.contains_key(iter_id) ==> r == Err::<RdxUsbDeviceEntry, EventLoopError>(
                EventLoopError::DeviceIterInvalid,
            ),
            self@.snapshots.contains_key(iter_id) && device_idx >= self@.snapshots[iter_id].len()
                ==> r == Err::<RdxUsbDeviceEntry, EventLoopError>(
                EventLoopError::DeviceIterIdxOutOfRange,
            ),
            self@.snapshots.contains_key(iter_id) && device_idx < self@.snapshots[iter_id].len()
                ==> (r matches Ok(e) && entry_of(e, self@.snapshots[iter_id][device_idx as int])),
    {
        broadcast use vstd::std_specs::hash::group_hash_axioms;

        match self.info_map.get(&iter_id) {
            None => Err(EventLoopError::DeviceIterInvalid),
            Some(devices) => {
                if device_idx >= devices.len() as u64 {
                    Err(EventLoopError::DeviceIterIdxOutOfRange)
                } else {
                    Ok(RdxUsbDeviceEntry::from_info(&devices[device_idx as usize]))
                }
            },
        }
    }
}

} // verus!
