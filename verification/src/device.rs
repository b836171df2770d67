//! What is known of the serial devices of the machine.

use vstd::prelude::*;

verus! {

/// How a device is attached, as far as a caller needs to know.
#[derive(Clone, Copy, Debug, PartialEq, Eq, Structural)]
pub enum TransportKind {
    Usb,
    Bluetooth,
    Pci,
    Unknown,
}

/// One serial device: its name and how it is attached.
#[derive(Clone, Debug, PartialEq, Eq)]
pub struct DeviceDescriptor {
    pub name: String,
    pub kind: TransportKind,
}

/// The devices to report for one query of the platform. `found` is what the
/// platform answered, `None` where the query failed. The listing never fails:
/// a failed query lists nothing.
pub fn enumerate_devices(found: Option<Vec<DeviceDescriptor>>) -> (devices: Vec<DeviceDescriptor>)
    ensures
        devices@ == match found {
            Some(list) => list@,
            None => Seq::<DeviceDescriptor>::empty(),
        },
{
    match found {
        Some(list) => list,
        None => Vec::new(),
    }
}

} // verus!
