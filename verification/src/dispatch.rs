//! The closed set of transport variants a print job can be dispatched
//! to, and the errors the transport layer surfaces.  Opening a transport
//! and writing to it are I/O and live outside this crate; the command
//! sequence they consume comes from `commands`.

use vstd::prelude::*;

verus! {

/// A transport endpoint description: USB by vendor and product id,
/// network socket by host and port, or the local console emulator.
#[derive(Clone, Debug)]
pub enum SupportedDriver {
    Usb(u16, u16),
    Network(String, u16),
    Console,
}

/// Vendor id of the default USB printer.
pub const VENDOR_ID: u16 = 0x0FE6;

/// Product id of the default USB printer.
pub const PRODUCT_ID: u16 = 0x811E;

/// The default transport: the USB printer.
pub fn driver() -> (r: SupportedDriver)
    ensures
        r == SupportedDriver::Usb(VENDOR_ID, PRODUCT_ID),
{
    SupportedDriver::Usb(VENDOR_ID, PRODUCT_ID)
}

/// A transport endpoint could not be opened: a connection failure, not a
/// data error, surfaced immediately and never retried by this crate.
#[derive(Clone, Debug)]
pub struct DriverOpenError {
    pub target: SupportedDriver,
    pub detail: String,
}

/// A command failed mid-emission: the remaining emission is aborted and
/// output already sent to the device stays printed.
#[derive(Clone, Debug)]
pub struct TransportWriteError {
    pub detail: String,
}

} // verus!
