use uefi::protocol::device_path::{END_ENTIRE_PATH, END_INSTANCE, END_TYPE, HEADER_SIZE};
use uefi::protocol::{
    ACPISubTypes, BIOSSubTypes, DevicePath, DevicePathProtocol, DevicePathTypes,
    DevicePathUtilitiesProtocol, EndPathSubTypes, HardwareSubTypes, MediaSubTypes,
    MessagingSubTypes, Protocol,
};
use uefi::{Guid, Status};

fn end() -> Vec<u8> {
    vec![0x7F, 0xFF, 4, 0]
}

/// PciRoot-like ACPI node (12 bytes), PCI node (6 bytes), end node.
fn two_nodes() -> Vec<u8> {
    let mut b = vec![0x02, 0x01, 12, 0, 0xD0, 0x41, 0x03, 0x0A, 0, 0, 0, 0];
    b.extend_from_slice(&[0x01, 0x01, 6, 0, 0x00, 0x01]);
    b.extend_from_slice(&end());
    b
}

#[test]
fn type_bytes() {
    let b: u8 = DevicePathTypes::Hardware.into();
    assert_eq!(b, 0x01);
    assert_eq!(u8::from(DevicePathTypes::ACPI), 0x02);
    assert_eq!(u8::from(DevicePathTypes::Messaging), 0x03);
    assert_eq!(u8::from(DevicePathTypes::Media), 0x04);
    assert_eq!(u8::from(DevicePathTypes::BIOSBootSpecification), 0x05);
    assert_eq!(u8::from(DevicePathTypes::End), 0x7F);
    assert_eq!(END_TYPE, 0x7F);
}

#[test]
fn subtype_bytes() {
    assert_eq!(u8::from(HardwareSubTypes::PCI), 1);
    assert_eq!(u8::from(HardwareSubTypes::BMC), 6);
    assert_eq!(u8::from(ACPISubTypes::ACPIDevicePath), 1);
    assert_eq!(u8::from(ACPISubTypes::_ADR), 3);
    assert_eq!(u8::from(MessagingSubTypes::FireWire), 4);
    assert_eq!(u8::from(MessagingSubTypes::I2O), 6);
    assert_eq!(u8::from(MessagingSubTypes::Infiniband), 9);
    assert_eq!(u8::from(MessagingSubTypes::USBWWID), 0x10);
    assert_eq!(u8::from(MessagingSubTypes::eMMC), 0x1D);
    assert_eq!(u8::from(MediaSubTypes::HardDrive), 1);
    assert_eq!(u8::from(MediaSubTypes::FilePath), 4);
    assert_eq!(u8::from(MediaSubTypes::RAMDisk), 9);
    assert_eq!(u8::from(BIOSSubTypes::BIOSBootSpecification), 1);
    assert_eq!(u8::from(EndPathSubTypes::EndInstance), 0x01);
    assert_eq!(u8::from(EndPathSubTypes::EndEntirePath), 0xFF);
    assert_eq!(END_INSTANCE, 0x01);
    assert_eq!(END_ENTIRE_PATH, 0xFF);
}

#[test]
fn protocol_guids() {
    assert_eq!(
        format!("{:?}", DevicePathProtocol::guid()),
        format!(
            "{:?}",
            Guid(0x09576E91, 0x6D3F, 0x11D2, [0x8E, 0x39, 0x00, 0xA0, 0xC9, 0x69, 0x72, 0x3B])
        )
    );
    let g = DevicePathUtilitiesProtocol::guid();
    assert_eq!(g.0, 0x379BE4E);
    assert_eq!(g.1, 0xD706);
    assert_eq!(g.2, 0x437D);
    assert_eq!(g.3, [0xB0, 0x37, 0xED, 0xB8, 0x2F, 0xB7, 0x72, 0xA4]);
}

#[test]
fn len_reads_low_byte_first() {
    let h = DevicePathProtocol { type_: 4, sub_type: 4, length: [0x16, 0x00] };
    assert_eq!(h.len(), 22);
    let h = DevicePathProtocol { type_: 4, sub_type: 4, length: [0x34, 0x12] };
    assert_eq!(h.len(), 0x1234);
    let h = DevicePathProtocol { type_: 4, sub_type: 4, length: [0xFF, 0xFF] };
    assert_eq!(h.len(), 0xFFFF);
    let h = DevicePathProtocol { type_: 4, sub_type: 4, length: [0, 1] };
    assert_eq!(h.len(), 256);
}

#[test]
fn header_length_round_trip() {
    for length in [0u16, 3, 4, 22, 255, 256, 0x1234, 0xFFFF] {
        let h = DevicePathProtocol::new(0x04, 0x04, length);
        assert_eq!(h.len(), length);
        let back = DevicePathProtocol::from_bytes(h.to_bytes());
        assert_eq!(back, h);
        assert_eq!(back.len(), length);
    }
}

#[test]
fn header_bytes_are_wire_exact() {
    let h = DevicePathProtocol::new(0x7F, 0xFF, 4);
    assert_eq!(h.to_bytes(), [0x7F, 0xFF, 0x04, 0x00]);
    let h = DevicePathProtocol::new(0x04, 0x04, 0x0102);
    assert_eq!(h.to_bytes(), [0x04, 0x04, 0x02, 0x01]);
    let h = DevicePathProtocol::from_bytes([1, 2, 3, 4]);
    assert_eq!(h.type_, 1);
    assert_eq!(h.sub_type, 2);
    assert_eq!(h.length, [3, 4]);
}

#[test]
fn header_kinds() {
    let end = DevicePathProtocol::new(0x7F, 0xFF, 4);
    assert!(end.is_end());
    assert!(end.is_end_entire_path());
    let instance = DevicePathProtocol::new(0x7F, 0x01, 4);
    assert!(instance.is_end());
    assert!(!instance.is_end_entire_path());
    let media = DevicePathProtocol::new(0x04, 0xFF, 4);
    assert!(!media.is_end());
    assert!(!media.is_end_entire_path());
}

#[test]
fn header_next_steps_by_length() {
    let h = DevicePathProtocol::new(0x02, 0x01, 12);
    assert_eq!(h.next(0), Some(12));
    assert_eq!(h.next(100), Some(112));
    assert_eq!(h.data(100), Some(104));
    assert_eq!(HEADER_SIZE, 4);
}

#[test]
fn header_next_refuses_short_length_and_end() {
    assert_eq!(DevicePathProtocol::new(0x02, 0x01, 3).next(0), None);
    assert_eq!(DevicePathProtocol::new(0x02, 0x01, 0).next(0), None);
    assert_eq!(DevicePathProtocol::new(0x7F, 0xFF, 4).next(0), None);
    assert_eq!(DevicePathProtocol::new(0x7F, 0x01, 4).next(8), Some(12));
    assert_eq!(DevicePathProtocol::new(0x02, 0x01, 12).next(usize::MAX - 4), None);
    assert_eq!(DevicePathProtocol::new(0x02, 0x01, 12).data(usize::MAX - 2), None);
}

#[test]
fn buffer_round_trip() {
    let p = DevicePath::from_bytes(two_nodes());
    assert_eq!(p.as_bytes(), &two_nodes()[..]);
    assert_eq!(p.into_bytes(), two_nodes());
    assert_eq!(DevicePath::end().as_bytes(), &[0x7F, 0xFF, 4, 0]);
}

#[test]
fn walk_visits_each_node_once_and_ends_at_the_terminator() {
    let p = DevicePath::from_bytes(two_nodes());
    assert!(p.is_well_formed());
    assert_eq!(p.walk(), Some(vec![0, 12, 18]));
    assert_eq!(p.terminator(), Some(18));
    assert_eq!(p.size(), Some(22));
    let visited = p.walk().unwrap();
    let enders: Vec<&usize> = visited
        .iter()
        .filter(|at| p.header(**at).unwrap().is_end_entire_path())
        .collect();
    assert_eq!(enders, vec![&18]);
}

#[test]
fn walk_of_the_empty_path() {
    let p = DevicePath::end();
    assert_eq!(p.walk(), Some(vec![0]));
    assert_eq!(p.terminator(), Some(0));
    assert_eq!(p.size(), Some(4));
}

#[test]
fn walk_passes_instance_ends() {
    let mut b = vec![0x01, 0x01, 6, 0, 0, 1];
    b.extend_from_slice(&[0x7F, 0x01, 4, 0]);
    b.extend_from_slice(&[0x01, 0x01, 6, 0, 0, 2]);
    b.extend_from_slice(&end());
    let p = DevicePath::from_bytes(b);
    assert_eq!(p.walk(), Some(vec![0, 6, 10, 16]));
    assert_eq!(p.size(), Some(20));
}

#[test]
fn walk_ignores_bytes_behind_the_terminator() {
    let mut b = two_nodes();
    b.extend_from_slice(&[9, 9, 9]);
    let p = DevicePath::from_bytes(b);
    assert_eq!(p.walk(), Some(vec![0, 12, 18]));
    assert_eq!(p.size(), Some(22));
}

#[test]
fn malformed_buffers_are_told_apart() {
    // nothing at all
    assert!(!DevicePath::from_bytes(Vec::new()).is_well_formed());
    // half a header
    assert!(!DevicePath::from_bytes(vec![0x7F, 0xFF]).is_well_formed());
    // a length field smaller than a header
    assert!(!DevicePath::from_bytes(vec![0x01, 0x01, 3, 0, 0x7F, 0xFF, 4, 0]).is_well_formed());
    assert!(!DevicePath::from_bytes(vec![0x01, 0x01, 0, 0, 0x7F, 0xFF, 4, 0]).is_well_formed());
    // a node that runs beyond the buffer
    assert!(!DevicePath::from_bytes(vec![0x01, 0x01, 6, 0, 0]).is_well_formed());
    // no node that ends the path
    assert!(!DevicePath::from_bytes(vec![0x01, 0x01, 6, 0, 0, 1]).is_well_formed());
    // only the end of an instance
    assert!(!DevicePath::from_bytes(vec![0x7F, 0x01, 4, 0]).is_well_formed());
    let p = DevicePath::from_bytes(vec![0x01, 0x01, 6, 0, 0, 1]);
    assert_eq!(p.walk(), None);
    assert_eq!(p.terminator(), None);
    assert_eq!(p.size(), None);
}

#[test]
fn header_payload_and_next_are_checked() {
    let p = DevicePath::from_bytes(two_nodes());
    let h = p.header(0).unwrap();
    assert_eq!((h.type_, h.sub_type, h.len()), (0x02, 0x01, 12));
    assert_eq!(p.payload(0), Some(vec![0xD0, 0x41, 0x03, 0x0A, 0, 0, 0, 0]));
    assert_eq!(p.payload(12), Some(vec![0x00, 0x01]));
    assert_eq!(p.payload(18), Some(Vec::new()));
    assert_eq!(p.next(0), Some(12));
    assert_eq!(p.next(12), Some(18));
    assert_eq!(p.next(18), None);
    assert_eq!(p.next(19), None);
    assert_eq!(p.next(22), None);
    assert_eq!(p.next(usize::MAX), None);
    assert!(p.header(19).is_none());
    assert!(p.header(22).is_none());
    assert!(p.payload(20).is_none());
}

#[test]
fn duplicate_copies_the_path_and_no_more() {
    let utilities = DevicePathUtilitiesProtocol::new();
    let mut b = two_nodes();
    b.extend_from_slice(&[1, 2, 3, 4, 5]);
    let copy = utilities.duplicate_device_path(&DevicePath::from_bytes(b)).unwrap();
    assert_eq!(copy.as_bytes(), &two_nodes()[..]);
    let copy = utilities.duplicate_device_path(&DevicePath::end()).unwrap();
    assert_eq!(copy.as_bytes(), &end()[..]);
}

#[test]
fn duplicate_refuses_malformed_paths() {
    let utilities = DevicePathUtilitiesProtocol::new();
    let r = utilities.duplicate_device_path(&DevicePath::from_bytes(vec![1, 1, 6, 0, 0, 0]));
    assert_eq!(r.unwrap_err(), Status::OutOfResources);
    let r = utilities.duplicate_device_path(&DevicePath::from_bytes(Vec::new()));
    assert_eq!(r.unwrap_err(), Status::OutOfResources);
}

#[test]
fn append_path_replaces_the_first_end() {
    let utilities = DevicePathUtilitiesProtocol::new();
    let a = DevicePath::from_bytes(vec![0x01, 0x01, 6, 0, 0, 1, 0x7F, 0xFF, 4, 0, 0xEE]);
    let b = DevicePath::from_bytes(vec![0x03, 0x05, 6, 0, 2, 3, 0x7F, 0xFF, 4, 0, 0xDD]);
    let joined = utilities.append_device_path(&a, &b).unwrap();
    assert_eq!(
        joined.as_bytes(),
        &[0x01, 0x01, 6, 0, 0, 1, 0x03, 0x05, 6, 0, 2, 3, 0x7F, 0xFF, 4, 0]
    );
    assert_eq!(joined.walk(), Some(vec![0, 6, 12]));
}

#[test]
fn append_path_with_empty_paths() {
    let utilities = DevicePathUtilitiesProtocol::new();
    let a = DevicePath::from_bytes(two_nodes());
    let joined = utilities.append_device_path(&a, &DevicePath::end()).unwrap();
    assert_eq!(joined.as_bytes(), &two_nodes()[..]);
    let joined = utilities.append_device_path(&DevicePath::end(), &a).unwrap();
    assert_eq!(joined.as_bytes(), &two_nodes()[..]);
}

#[test]
fn append_path_refuses_malformed_paths() {
    let utilities = DevicePathUtilitiesProtocol::new();
    let good = DevicePath::from_bytes(two_nodes());
    let bad = DevicePath::from_bytes(vec![0x01, 0x01, 2, 0]);
    assert_eq!(utilities.append_device_path(&good, &bad).unwrap_err(), Status::OutOfResources);
    assert_eq!(utilities.append_device_path(&bad, &good).unwrap_err(), Status::OutOfResources);
    assert_eq!(utilities.append_device_path(&bad, &bad).unwrap_err(), Status::OutOfResources);
}

#[test]
fn append_node_to_the_empty_path_gives_two_nodes() {
    let utilities = DevicePathUtilitiesProtocol::new();
    let path = DevicePath::end();
    let node = DevicePath::from_bytes(vec![0x01, 0x01, 6, 0, 0x00, 0x1F]);
    let out = utilities.append_device_node(&path, &node).unwrap();
    assert_eq!(out.as_bytes(), &[0x01, 0x01, 6, 0, 0x00, 0x1F, 0x7F, 0xFF, 4, 0]);
    assert_eq!(out.walk(), Some(vec![0, 6]));
    assert_eq!(out.walk().unwrap().len(), 2);
}

#[test]
fn append_node_goes_before_the_end() {
    let utilities = DevicePathUtilitiesProtocol::new();
    let path = DevicePath::from_bytes(two_nodes());
    // only the first node of the second buffer is taken
    let node = DevicePath::from_bytes(vec![0x04, 0x04, 8, 0, 0x61, 0, 0, 0, 0xAA, 0xBB]);
    let out = utilities.append_device_node(&path, &node).unwrap();
    let mut want = two_nodes()[..18].to_vec();
    want.extend_from_slice(&[0x04, 0x04, 8, 0, 0x61, 0, 0, 0]);
    want.extend_from_slice(&end());
    assert_eq!(out.as_bytes(), &want[..]);
    assert_eq!(out.walk(), Some(vec![0, 12, 18, 26]));
}

#[test]
fn append_node_refuses_malformed_input() {
    let utilities = DevicePathUtilitiesProtocol::new();
    let good = DevicePath::from_bytes(two_nodes());
    let short = DevicePath::from_bytes(vec![0x04, 0x04, 8, 0, 0x61]);
    assert_eq!(utilities.append_device_node(&good, &short).unwrap_err(), Status::OutOfResources);
    let tiny = DevicePath::from_bytes(vec![0x04, 0x04, 3, 0]);
    assert_eq!(utilities.append_device_node(&good, &tiny).unwrap_err(), Status::OutOfResources);
    let bad = DevicePath::from_bytes(vec![0x01, 0x01, 6, 0, 0, 1]);
    let node = DevicePath::from_bytes(vec![0x01, 0x01, 6, 0, 0, 1]);
    assert_eq!(utilities.append_device_node(&bad, &node).unwrap_err(), Status::OutOfResources);
}

#[test]
fn create_node_writes_the_header_and_zeros() {
    let utilities = DevicePathUtilitiesProtocol::new();
    let node = utilities
        .create_device_node(DevicePathTypes::Media, MediaSubTypes::FilePath, 10)
        .unwrap();
    assert_eq!(node.as_bytes(), &[0x04, 0x04, 10, 0, 0, 0, 0, 0, 0, 0]);
    let node = utilities.create_device_node(0x7Fu8, 0xFFu8, 4).unwrap();
    assert_eq!(node.as_bytes(), &[0x7F, 0xFF, 4, 0]);
    let node = utilities
        .create_device_node(DevicePathTypes::Hardware, HardwareSubTypes::Vendor, 0x0104)
        .unwrap();
    assert_eq!(node.as_bytes().len(), 0x0104);
    assert_eq!(&node.as_bytes()[..4], &[0x01, 0x04, 0x04, 0x01]);
    assert!(node.as_bytes()[4..].iter().all(|b| *b == 0));
    let node = DevicePath::create_node(1, 2, 0xFFFF).unwrap();
    assert_eq!(node.as_bytes().len(), 0xFFFF);
    assert_eq!(&node.as_bytes()[..4], &[1, 2, 0xFF, 0xFF]);
}

#[test]
fn create_node_refuses_a_length_below_the_header() {
    let utilities = DevicePathUtilitiesProtocol::new();
    for length in [0u16, 1, 2, 3] {
        let r = utilities.create_device_node(DevicePathTypes::Media, MediaSubTypes::FilePath, length);
        assert_eq!(r.unwrap_err(), Status::InvalidParameter);
        assert!(DevicePath::create_node(4, 4, length).is_none());
    }
}
