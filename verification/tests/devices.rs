use serial_monitor::device::{enumerate_devices, DeviceDescriptor, TransportKind};

fn device(name: &str, kind: TransportKind) -> DeviceDescriptor {
    DeviceDescriptor { name: name.to_string(), kind }
}

#[test]
fn failed_query_lists_nothing() {
    assert_eq!(enumerate_devices(None), Vec::<DeviceDescriptor>::new());
}

#[test]
fn empty_answer_lists_nothing() {
    assert_eq!(enumerate_devices(Some(Vec::new())), Vec::<DeviceDescriptor>::new());
}

#[test]
fn devices_are_listed_as_found() {
    let found = vec![
        device("/dev/ttyUSB0", TransportKind::Usb),
        device("/dev/rfcomm0", TransportKind::Bluetooth),
        device("/dev/ttyS0", TransportKind::Pci),
        device("/dev/ttyS1", TransportKind::Unknown),
    ];
    let listed = enumerate_devices(Some(found.clone()));
    assert_eq!(listed, found);
    assert_eq!(listed[0].name, "/dev/ttyUSB0");
    assert_eq!(listed[0].kind, TransportKind::Usb);
    assert_eq!(listed[3].kind, TransportKind::Unknown);
}
