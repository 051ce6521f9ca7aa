//! The firmware's protocols: device paths and the utilities and converters
//! for them, the loaded image, and serial I/O.

use crate::base::{Handle, MemoryType, Status};
use crate::guid::Guid;
use vstd::prelude::*;

pub mod chain;
pub mod device_path;
pub mod path;
pub mod serial;

pub use self::device_path::{
    ACPISubTypes, BIOSSubTypes, DevicePathFromTextProtocol, DevicePathProtocol,
    DevicePathToTextProtocol, DevicePathTypes, DevicePathUtilitiesProtocol, EndPathSubTypes,
    HardwareSubTypes, MediaSubTypes, MessagingSubTypes,
};
pub use self::path::DevicePath;
pub use self::serial::{
    ControlBits, ParityType, RawSerialIOProtocol, SerialAttributes, SerialIOMode,
    SerialIOProtocol, StopBits,
};

verus! {

/// A firmware interface that is looked up by its identifier.
pub trait Protocol {
    /// The identifier under which the firmware publishes the interface.
    fn guid() -> Guid;
}

/// Identifies the loaded image protocol.
pub open spec fn efi_loaded_image_protocol_guid() -> Guid {
    Guid(0x5B1B31A1, 0x9562, 0x11d2, [0x8E, 0x3F, 0x00, 0xA0, 0xC9, 0x69, 0x72, 0x3B])
}

/// What the firmware records of an image that it has loaded. Where the
/// firmware holds a pointer, the address stands here.
#[derive(Clone, Copy, Debug)]
pub struct LoadedImageProtocol {
    pub revision: u32,
    pub parent_handle: Handle,
    pub system_table: usize,
    pub device_handle: Handle,
    pub file_path: usize,
    pub load_options_size: u32,
    pub load_options: usize,
    pub image_base: usize,
    pub image_size: u64,
    pub image_code_type: MemoryType,
    pub image_data_type: MemoryType,
    pub unload: usize,
}

impl Protocol for LoadedImageProtocol {
    fn guid() -> (g: Guid)
        ensures
            g == efi_loaded_image_protocol_guid(),
    {
        Guid(0x5B1B31A1, 0x9562, 0x11d2, [0x8E, 0x3F, 0x00, 0xA0, 0xC9, 0x69, 0x72, 0x3B])
    }
}

/// The image that is running, once it has been made known.
pub struct CurrentImage {
    image: Option<LoadedImageProtocol>,
}

impl CurrentImage {
    /// The image that was made known last, if any was.
    pub closed spec fn image(&self) -> Option<LoadedImageProtocol> {
        self.image
    }

    /// No image is known yet.
    pub fn new() -> (current: CurrentImage)
        ensures
            current.image() is None,
    {
        CurrentImage { image: None }
    }
}

/// Asks for the loaded image protocol of `handle` and, where the firmware has
/// it, makes that image the current one. Where it has not, the current image
/// stays as it was.
pub fn set_current_image<F: FnOnce(Handle) -> Result<LoadedImageProtocol, Status>>(
    current: &mut CurrentImage,
    handle: Handle,
    handle_protocol: F,
) -> (r: Result<LoadedImageProtocol, Status>)
    requires
        call_requires(handle_protocol, (handle,)),
    ensures
        call_ensures(handle_protocol, (handle,), r),
        r matches Ok(image) ==> final(current).image() == Some(image),
        r is Err ==> final(current).image() == old(current).image(),
{
    let loaded_image_proto = handle_protocol(handle);
    if let Ok(image) = loaded_image_proto {
        current.image = Some(image);
    }
    loaded_image_proto
}

/// The current image, if one has been made known.
pub fn get_current_image(current: &CurrentImage) -> (r: Option<LoadedImageProtocol>)
    ensures
        r == current.image(),
{
    current.image
}

} // verus!
