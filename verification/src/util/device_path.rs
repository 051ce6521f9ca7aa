//! Device paths for files, and the parent of a device path.

use crate::base::Status;
use crate::protocol::chain::{
    begins_with_end, chain_from, duplicate_of, end_at, last_before_end, lemma_duplicate, lemma_terminator,
    length_at, node_at, parent_of, well_formed,
};
use crate::protocol::device_path::{
    DevicePathTypes, DevicePathUtilitiesProtocol, MediaSubTypes, END_TYPE,
};
use crate::protocol::path::DevicePath;
use crate::util::{encoded, str_to_utf16_ptr, utf16_strlen, utf16_text};
use vstd::prelude::*;
use vstd::utf8::is_ascii_chars;

verus! {

/// The largest length that a node's length field can hold.
pub const MAX_NODE_LENGTH: usize = 0xFFFF;

/// UTF-16 units as bytes, the low byte of each unit first.
pub open spec fn utf16_le(units: Seq<u16>) -> Seq<u8> {
    Seq::new(
        2 * units.len(),
        |i: int|
            if i % 2 == 0 {
                (units[i / 2] % 256) as u8
            } else {
                (units[i / 2] / 256) as u8
            },
    )
}

/// The length of the file path node that holds the name: the header, the
/// name's units and a terminating zero unit.
pub open spec fn file_path_node_length(name: Seq<u16>) -> int {
    4 + (name.len() as int + 1) * 2
}

/// The file path node that holds the name: a media node of subtype file path
/// whose payload is the name, null-terminated, in UTF-16 with the low byte
/// first.
pub open spec fn file_path_node(name: Seq<u16>) -> Seq<u8> {
    seq![
        0x04u8,
        0x04u8,
        (file_path_node_length(name) % 256) as u8,
        (file_path_node_length(name) / 256) as u8,
    ] + utf16_le(name) + seq![0u8, 0u8]
}

/// The name as the node holds it: the text's units up to its first zero
/// character, or all of them.
pub open spec fn file_name_units(filename: Seq<char>) -> Seq<u16> {
    utf16_text(encoded(filename))
}

/// A file path node for the file name.
///
/// The name must be ASCII, and short enough for the node's length to fit
/// the length field.
pub fn create_file_device_node(filename: &str) -> (r: Result<DevicePath, Status>)
    ensures
        !is_ascii_chars(filename@) ==> r == Err::<DevicePath, Status>(Status::Unsupported),
        is_ascii_chars(filename@) && file_path_node_length(file_name_units(filename@))
            > MAX_NODE_LENGTH ==> r == Err::<DevicePath, Status>(Status::InvalidParameter),
        is_ascii_chars(filename@) && file_path_node_length(file_name_units(filename@))
            <= MAX_NODE_LENGTH ==> (r matches Ok(node) && node@ == file_path_node(
            file_name_units(filename@),
        )),
        r matches Ok(node) ==> node_at(node@, 0) && length_at(node@, 0) == node@.len()
            == file_path_node_length(file_name_units(filename@)),
{
    let units = match str_to_utf16_ptr(filename) {
        Err(e) => {
            return Err(e);
        },
        Ok(units) => units,
    };
    let filename_len = utf16_strlen(units.as_slice());
    if filename_len > (MAX_NODE_LENGTH - 6) / 2 {
        return Err(Status::InvalidParameter);
    }
    let node_size_bytes: usize = 4 + (filename_len + 1) * 2;
    let ghost name = file_name_units(filename@);
    assert(name.len() == filename_len);
    let utilities = DevicePathUtilitiesProtocol::new();
    let node = match utilities.create_device_node(
        DevicePathTypes::Media,
        MediaSubTypes::FilePath,
        node_size_bytes as u16,
    ) {
        Err(e) => {
            return Err(e);
        },
        Ok(node) => node,
    };
    let mut bytes = node.into_bytes();
    let mut i: usize = 0;
    while i < filename_len
        invariant
            i <= filename_len <= (MAX_NODE_LENGTH - 6) / 2,
            filename_len == name.len(),
            filename_len <= units@.len(),
            name == units@.subrange(0, filename_len as int),
            bytes@.len() == 4 + (filename_len + 1) * 2,
            bytes@.subrange(0, 4) == file_path_node(name).subrange(0, 4),
            forall|k: int| 0 <= k < 2 * i ==> bytes@[4 + k] == utf16_le(name)[k],
            forall|k: int| 4 + 2 * i <= k < bytes@.len() ==> bytes@[k] == 0u8,
        decreases filename_len - i,
    {
        let unit = units[i];
        let ghost before = bytes@;
        bytes[4 + 2 * i] = (unit % 256) as u8;
        bytes[4 + 2 * i + 1] = (unit / 256) as u8;
        assert(bytes@.subrange(0, 4) =~= before.subrange(0, 4));
        assert forall|k: int| 0 <= k < 2 * (i + 1) implies bytes@[4 + k] == utf16_le(name)[k] by {
            if k == 2 * i {
                assert(k / 2 == i as int && k % 2 == 0);
            } else if k == 2 * i + 1 {
                assert(k / 2 == i as int && k % 2 == 1);
            } else {
                assert(bytes@[4 + k] == before[4 + k]);
            }
        }
        i += 1;
    }
    proof {
        let want = file_path_node(name);
        assert(bytes@.len() == want.len());
        assert forall|k: int| 0 <= k < want.len() implies bytes@[k] == want[k] by {
            if k < 4 {
                assert(bytes@[k] == bytes@.subrange(0, 4)[k]);
                assert(want[k] == want.subrange(0, 4)[k]);
            } else if k < 4 + 2 * filename_len {
                assert(bytes@[4 + (k - 4)] == utf16_le(name)[k - 4]);
            }
        }
        assert(bytes@ =~= want);
    }
    Ok(DevicePath::from_bytes(bytes))
}

/// The parent of a device path: a copy without its last node.
///
/// The path is copied whole; then the last node before the first end node
/// is overwritten with the node that ends a path. A path that begins with
/// an end node has no parent.
pub fn parent_device_path(src_device_path: &DevicePath) -> (r: Result<DevicePath, Status>)
    ensures
        begins_with_end(src_device_path@) ==> r == Err::<DevicePath, Status>(
            Status::InvalidParameter,
        ),
        !begins_with_end(src_device_path@) && !well_formed(src_device_path@) ==> r == Err::<
            DevicePath,
            Status,
        >(Status::OutOfResources),
        !begins_with_end(src_device_path@) && well_formed(src_device_path@) ==> (r matches Ok(p)
            && p@ == parent_of(src_device_path@)),
{
    let head = src_device_path.as_bytes();
    if head.len() > 0 && head[0] == END_TYPE {
        return Err(Status::InvalidParameter);
    }
    let utilities = DevicePathUtilitiesProtocol::new();
    let mut device_path = match utilities.duplicate_device_path(src_device_path) {
        Err(e) => {
            return Err(e);
        },
        Ok(device_path) => device_path,
    };
    let ghost copy = device_path@;
    proof {
        lemma_terminator(src_device_path@, 0);
        lemma_duplicate(src_device_path@);
        assert(copy[0] == src_device_path@[0]);
    }
    let mut this: usize = 0;
    loop
        invariant
            device_path@ == copy,
            chain_from(copy, this as int),
            !end_at(copy, this as int),
            last_before_end(copy, this as int) == last_before_end(copy, 0),
            copy == duplicate_of(src_device_path@),
            well_formed(src_device_path@),
            !begins_with_end(src_device_path@),
        decreases copy.len() - this,
    {
        proof {
            lemma_terminator(copy, this as int);
            assert(chain_from(copy, this + length_at(copy, this as int)));
        }
        let next = match device_path.next(this) {
            None => {
                assert(false);
                return Err(Status::OutOfResources);
            },
            Some(next) => next,
        };
        let next_is_end = match device_path.header(next) {
            None => {
                assert(false);
                return Err(Status::OutOfResources);
            },
            Some(header) => header.is_end(),
        };
        if next_is_end {
            device_path.set_end(this);
            return Ok(device_path);
        }
        this = next;
    }
}

} // verus!
