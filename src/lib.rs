//! Host-side runtime for RdxUsb CAN-bridge devices: the frame codec, the
//! per-channel frame queues and the handle registry that connects foreign
//! callers with the device sessions.

pub mod protocol;
pub mod queue;
pub mod session;
pub mod event_loop;
pub mod lemmas;
pub mod usb;
pub mod device_list;
pub mod packaging;
