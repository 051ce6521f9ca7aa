use uefi::protocol::{DevicePath, DevicePathUtilitiesProtocol};
use uefi::util::{
    create_file_device_node, parent_device_path, str_to_utf16_ptr, utf16_ptr_to_str, utf16_strlen,
};
use uefi::Status;

fn end() -> Vec<u8> {
    vec![0x7F, 0xFF, 4, 0]
}

#[test]
fn strlen_counts_up_to_the_first_zero() {
    assert_eq!(utf16_strlen(&[0x61, 0x62, 0x63, 0]), 3);
    assert_eq!(utf16_strlen(&[0]), 0);
    assert_eq!(utf16_strlen(&[0x61, 0, 0x62, 0]), 1);
    assert_eq!(utf16_strlen(&[0xD83D, 0xDE00, 0]), 2);
}

#[test]
fn strlen_of_a_buffer_without_zero_is_its_length() {
    assert_eq!(utf16_strlen(&[]), 0);
    assert_eq!(utf16_strlen(&[0x61, 0x62]), 2);
}

#[test]
fn decode_reads_ascii() {
    assert_eq!(utf16_ptr_to_str(&[0x50, 0x63, 0x69, 0]), Ok("Pci".to_string()));
    assert_eq!(utf16_ptr_to_str(&[0]), Ok(String::new()));
    assert_eq!(utf16_ptr_to_str(&[0x7F, 0x01, 0]), Ok("\u{7f}\u{1}".to_string()));
}

#[test]
fn decode_stops_at_the_first_zero() {
    assert_eq!(utf16_ptr_to_str(&[0x61, 0, 0xE9, 0]), Ok("a".to_string()));
    assert_eq!(utf16_ptr_to_str(&[0x61, 0x62]), Ok("ab".to_string()));
}

#[test]
fn decode_refuses_units_beyond_ascii() {
    assert_eq!(utf16_ptr_to_str(&[0x00E9, 0]), Err(Status::InvalidParameter));
    assert_eq!(utf16_ptr_to_str(&[0x61, 0x62, 0x80, 0x63, 0]), Err(Status::InvalidParameter));
    assert_eq!(utf16_ptr_to_str(&[0xFFFF, 0]), Err(Status::InvalidParameter));
    assert_eq!(utf16_ptr_to_str(&[0x61, 0x0100]), Err(Status::InvalidParameter));
}

#[test]
fn encode_widens_and_terminates() {
    assert_eq!(str_to_utf16_ptr("Pci"), Ok(vec![0x50, 0x63, 0x69, 0]));
    assert_eq!(str_to_utf16_ptr(""), Ok(vec![0]));
    assert_eq!(str_to_utf16_ptr("a\0b"), Ok(vec![0x61, 0, 0x62, 0]));
    assert_eq!(str_to_utf16_ptr("\u{7f}"), Ok(vec![0x7F, 0]));
}

#[test]
fn encode_refuses_text_beyond_ascii() {
    assert_eq!(str_to_utf16_ptr("é"), Err(Status::Unsupported));
    assert_eq!(str_to_utf16_ptr("abc\u{80}"), Err(Status::Unsupported));
    assert_eq!(str_to_utf16_ptr("日本"), Err(Status::Unsupported));
}

#[test]
fn ascii_round_trip() {
    for text in ["", "a", "boot.efi", "PciRoot(0x0)/Pci(0x1,0x0)", "\\EFI\\BOOT\\BOOTX64.EFI", "~ \t\n\u{7f}"] {
        let units = str_to_utf16_ptr(text).unwrap();
        assert_eq!(units.len(), text.len() + 1);
        assert_eq!(utf16_ptr_to_str(&units), Ok(text.to_string()));
    }
}

#[test]
fn round_trip_cuts_at_a_zero_character() {
    let units = str_to_utf16_ptr("a\0b").unwrap();
    assert_eq!(utf16_ptr_to_str(&units), Ok("a".to_string()));
}

#[test]
fn file_node_for_boot_efi() {
    let node = create_file_device_node("boot.efi").unwrap();
    let bytes = node.as_bytes();
    assert_eq!(bytes.len(), 22);
    assert_eq!(&bytes[..4], &[0x04, 0x04, 22, 0]);
    let header = node.header(0).unwrap();
    assert_eq!(header.type_, 0x04);
    assert_eq!(header.sub_type, 0x04);
    assert_eq!(header.len(), 22);
    assert_eq!(
        &bytes[4..],
        &[
            b'b', 0, b'o', 0, b'o', 0, b't', 0, b'.', 0, b'e', 0, b'f', 0, b'i', 0, 0, 0
        ]
    );
    assert_eq!(
        node.payload(0).unwrap(),
        "boot.efi\0".encode_utf16().flat_map(|u| u.to_le_bytes()).collect::<Vec<u8>>()
    );
}

#[test]
fn file_node_for_the_empty_name() {
    let node = create_file_device_node("").unwrap();
    assert_eq!(node.as_bytes(), &[0x04, 0x04, 6, 0, 0, 0]);
}

#[test]
fn file_node_cuts_the_name_at_a_zero_character() {
    let node = create_file_device_node("ab\0cd").unwrap();
    assert_eq!(node.as_bytes(), &[0x04, 0x04, 10, 0, b'a', 0, b'b', 0, 0, 0]);
}

#[test]
fn file_node_refuses_names_beyond_ascii() {
    assert_eq!(create_file_device_node("bööt.efi").unwrap_err(), Status::Unsupported);
}

#[test]
fn file_node_of_the_longest_name() {
    let name = "x".repeat(32764);
    let node = create_file_device_node(&name).unwrap();
    assert_eq!(node.as_bytes().len(), 65534);
    assert_eq!(&node.as_bytes()[..4], &[0x04, 0x04, 0xFE, 0xFF]);
    assert_eq!(&node.as_bytes()[65530..], &[b'x', 0, 0, 0]);
}

#[test]
fn file_node_refuses_names_too_long_for_the_length_field() {
    let name = "x".repeat(32765);
    assert_eq!(create_file_device_node(&name).unwrap_err(), Status::InvalidParameter);
    let name = "x".repeat(40000);
    assert_eq!(create_file_device_node(&name).unwrap_err(), Status::InvalidParameter);
}

#[test]
fn file_node_can_be_appended() {
    let utilities = DevicePathUtilitiesProtocol::new();
    let node = create_file_device_node("boot.efi").unwrap();
    let path = utilities.append_device_node(&DevicePath::end(), &node).unwrap();
    assert_eq!(path.as_bytes().len(), 26);
    assert_eq!(path.walk(), Some(vec![0, 22]));
    assert_eq!(&path.as_bytes()[..22], node.as_bytes());
    assert_eq!(&path.as_bytes()[22..], &end()[..]);
}

#[test]
fn parent_of_two_nodes_keeps_the_first() {
    let mut b = vec![0x02, 0x01, 12, 0, 0xD0, 0x41, 0x03, 0x0A, 0, 0, 0, 0];
    b.extend_from_slice(&[0x01, 0x01, 6, 0, 0x00, 0x01]);
    b.extend_from_slice(&end());
    let parent = parent_device_path(&DevicePath::from_bytes(b.clone())).unwrap();
    assert_eq!(parent.walk(), Some(vec![0, 12]));
    assert_eq!(&parent.as_bytes()[..12], &b[..12]);
    assert_eq!(&parent.as_bytes()[12..16], &[0x7F, 0xFF, 4, 0]);
    // the copy keeps its size; what lies behind the new end is not part of the path
    assert_eq!(parent.as_bytes().len(), 22);
    assert_eq!(&parent.as_bytes()[16..], &b[16..]);
    assert_eq!(parent.size(), Some(16));
}

#[test]
fn parent_of_three_nodes_keeps_two() {
    let mut b = vec![0x01, 0x01, 6, 0, 0, 1];
    b.extend_from_slice(&[0x03, 0x05, 6, 0, 1, 2]);
    b.extend_from_slice(&[0x04, 0x04, 8, 0, b'a', 0, 0, 0]);
    b.extend_from_slice(&end());
    let parent = parent_device_path(&DevicePath::from_bytes(b.clone())).unwrap();
    assert_eq!(parent.walk(), Some(vec![0, 6, 12]));
    assert_eq!(&parent.as_bytes()[..12], &b[..12]);
    assert!(parent.header(12).unwrap().is_end_entire_path());
    assert_eq!(parent.header(12).unwrap().len(), 4);
}

#[test]
fn parent_of_one_node_is_the_empty_path() {
    let mut b = vec![0x01, 0x01, 6, 0, 0, 1];
    b.extend_from_slice(&end());
    let parent = parent_device_path(&DevicePath::from_bytes(b)).unwrap();
    assert_eq!(parent.walk(), Some(vec![0]));
    assert_eq!(&parent.as_bytes()[..4], &[0x7F, 0xFF, 4, 0]);
}

#[test]
fn parent_leaves_the_source_alone() {
    let mut b = vec![0x01, 0x01, 6, 0, 0, 1];
    b.extend_from_slice(&end());
    let src = DevicePath::from_bytes(b.clone());
    let _ = parent_device_path(&src).unwrap();
    assert_eq!(src.as_bytes(), &b[..]);
}

#[test]
fn parent_refuses_a_path_that_begins_with_an_end() {
    assert_eq!(parent_device_path(&DevicePath::end()).unwrap_err(), Status::InvalidParameter);
    let instance_end = DevicePath::from_bytes(vec![0x7F, 0x01, 4, 0, 0x7F, 0xFF, 4, 0]);
    assert_eq!(parent_device_path(&instance_end).unwrap_err(), Status::InvalidParameter);
    let only_a_type = DevicePath::from_bytes(vec![0x7F]);
    assert_eq!(parent_device_path(&only_a_type).unwrap_err(), Status::InvalidParameter);
}

#[test]
fn parent_refuses_malformed_paths() {
    let r = parent_device_path(&DevicePath::from_bytes(vec![0x01, 0x01, 6, 0, 0, 1]));
    assert_eq!(r.unwrap_err(), Status::OutOfResources);
    let r = parent_device_path(&DevicePath::from_bytes(Vec::new()));
    assert_eq!(r.unwrap_err(), Status::OutOfResources);
    let r = parent_device_path(&DevicePath::from_bytes(vec![0x01, 0x01, 2, 0, 0x7F, 0xFF, 4, 0]));
    assert_eq!(r.unwrap_err(), Status::OutOfResources);
}

#[test]
fn parent_stops_at_the_end_of_the_first_instance() {
    let mut b = vec![0x01, 0x01, 6, 0, 0, 1];
    b.extend_from_slice(&[0x03, 0x05, 6, 0, 1, 2]);
    b.extend_from_slice(&[0x7F, 0x01, 4, 0]);
    b.extend_from_slice(&[0x01, 0x01, 6, 0, 0, 2]);
    b.extend_from_slice(&end());
    let parent = parent_device_path(&DevicePath::from_bytes(b)).unwrap();
    assert_eq!(parent.walk(), Some(vec![0, 6]));
}

#[test]
fn parent_undoes_the_append_of_a_node() {
    let utilities = DevicePathUtilitiesProtocol::new();
    let mut b = vec![0x02, 0x01, 12, 0, 0xD0, 0x41, 0x03, 0x0A, 0, 0, 0, 0];
    b.extend_from_slice(&end());
    let path = DevicePath::from_bytes(b.clone());
    let node = create_file_device_node("boot.efi").unwrap();
    let longer = utilities.append_device_node(&path, &node).unwrap();
    assert_eq!(longer.walk(), Some(vec![0, 12, 34]));
    let parent = parent_device_path(&longer).unwrap();
    assert_eq!(parent.walk(), path.walk());
    assert_eq!(&parent.as_bytes()[..16], &b[..]);
    // and the parent of the empty path with one node appended is the empty path
    let one = utilities.append_device_node(&DevicePath::end(), &node).unwrap();
    let parent = parent_device_path(&one).unwrap();
    assert_eq!(parent.walk(), Some(vec![0]));
}

#[test]
fn duplicate_of_a_joined_path_is_the_joined_path() {
    let utilities = DevicePathUtilitiesProtocol::new();
    let a = DevicePath::from_bytes(vec![0x01, 0x01, 6, 0, 0, 1, 0x7F, 0xFF, 4, 0]);
    let b = DevicePath::from_bytes(vec![0x03, 0x05, 6, 0, 2, 3, 0x7F, 0xFF, 4, 0]);
    let joined = utilities.append_device_path(&a, &b).unwrap();
    let copy = utilities.duplicate_device_path(&joined).unwrap();
    assert_eq!(copy.as_bytes(), joined.as_bytes());
    assert_eq!(copy.size(), Some(16));
}
