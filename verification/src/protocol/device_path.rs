//! Device paths as the firmware defines them: the types and subtypes of
//! nodes, the header that every node starts with, the utilities that copy,
//! join and create paths, and the firmware's converters between paths and
//! text.

use crate::base::Status;
use crate::guid::Guid;
use crate::protocol::chain::{
    duplicate_of, joined, length_at, node_at, well_formed, with_node,
};
use crate::protocol::path::{blank_node, DevicePath};
use crate::protocol::Protocol;
use crate::util::{
    decoded, encoded, str_to_utf16_ptr, text_of, utf16_len, utf16_ptr_to_str, utf16_strlen,
};
use vstd::prelude::*;
use vstd::std_specs::convert::{FromSpecImpl, IntoSpec};
use vstd::utf8::is_ascii_chars;

verus! {

/// The type byte of a device-path node.
#[derive(Clone, Copy, Debug, PartialEq, Eq, Structural)]
pub enum DevicePathTypes {
    Hardware,
    ACPI,
    Messaging,
    Media,
    BIOSBootSpecification,
    End,
}

impl DevicePathTypes {
    /// The byte that stands for the variant in a node's header.
    pub open spec fn value(self) -> u8 {
        match self {
            DevicePathTypes::Hardware => 0x01,
            DevicePathTypes::ACPI => 0x02,
            DevicePathTypes::Messaging => 0x03,
            DevicePathTypes::Media => 0x04,
            DevicePathTypes::BIOSBootSpecification => 0x05,
            DevicePathTypes::End => 0x7f,
        }
    }
}

impl From<DevicePathTypes> for u8 {
    fn from(t: DevicePathTypes) -> (b: u8) {
        match t {
            DevicePathTypes::Hardware => 0x01,
            DevicePathTypes::ACPI => 0x02,
            DevicePathTypes::Messaging => 0x03,
            DevicePathTypes::Media => 0x04,
            DevicePathTypes::BIOSBootSpecification => 0x05,
            DevicePathTypes::End => 0x7f,
        }
    }
}

impl FromSpecImpl<DevicePathTypes> for u8 {
    open spec fn obeys_from_spec() -> bool {
        true
    }

    open spec fn from_spec(t: DevicePathTypes) -> u8 {
        t.value()
    }
}

/// The subtypes of a hardware node.
#[derive(Clone, Copy, Debug, PartialEq, Eq, Structural)]
pub enum HardwareSubTypes {
    PCI,
    PCCARD,
    MemoryMapped,
    Vendor,
    Controller,
    BMC,
}

impl HardwareSubTypes {
    /// The byte that stands for the variant in a node's header.
    pub open spec fn value(self) -> u8 {
        match self {
            HardwareSubTypes::PCI => 0x01,
            HardwareSubTypes::PCCARD => 0x02,
            HardwareSubTypes::MemoryMapped => 0x03,
            HardwareSubTypes::Vendor => 0x04,
            HardwareSubTypes::Controller => 0x05,
            HardwareSubTypes::BMC => 0x06,
        }
    }
}

impl From<HardwareSubTypes> for u8 {
    fn from(t: HardwareSubTypes) -> (b: u8) {
        match t {
            HardwareSubTypes::PCI => 0x01,
            HardwareSubTypes::PCCARD => 0x02,
            HardwareSubTypes::MemoryMapped => 0x03,
            HardwareSubTypes::Vendor => 0x04,
            HardwareSubTypes::Controller => 0x05,
            HardwareSubTypes::BMC => 0x06,
        }
    }
}

impl FromSpecImpl<HardwareSubTypes> for u8 {
    open spec fn obeys_from_spec() -> bool {
        true
    }

    open spec fn from_spec(t: HardwareSubTypes) -> u8 {
        t.value()
    }
}

/// The subtypes of an ACPI node.
#[derive(Clone, Copy, Debug, PartialEq, Eq, Structural)]
pub enum ACPISubTypes {
    ACPIDevicePath,
    ExpandedACPIDevicePath,
    _ADR,
}

impl ACPISubTypes {
    /// The byte that stands for the variant in a node's header.
    pub open spec fn value(self) -> u8 {
        match self {
            ACPISubTypes::ACPIDevicePath => 0x01,
            ACPISubTypes::ExpandedACPIDevicePath => 0x02,
            ACPISubTypes::_ADR => 0x03,
        }
    }
}

impl From<ACPISubTypes> for u8 {
    fn from(t: ACPISubTypes) -> (b: u8) {
        match t {
            ACPISubTypes::ACPIDevicePath => 0x01,
            ACPISubTypes::ExpandedACPIDevicePath => 0x02,
            ACPISubTypes::_ADR => 0x03,
        }
    }
}

impl FromSpecImpl<ACPISubTypes> for u8 {
    open spec fn obeys_from_spec() -> bool {
        true
    }

    open spec fn from_spec(t: ACPISubTypes) -> u8 {
        t.value()
    }
}

/// The subtypes of a messaging node.
#[allow(non_camel_case_types)]
#[derive(Clone, Copy, Debug, PartialEq, Eq, Structural)]
pub enum MessagingSubTypes {
    ATAPI,
    SCSI,
    FibreChannel,
    /// The firmware's name for it is "1394".
    FireWire,
    USB,
    I2O,
    Infiniband,
    Vendor,
    MACAddress,
    IPv4,
    IPv6,
    UART,
    USBClass,
    USBWWID,
    DeviceLogicalUnit,
    SATA,
    iSCSI,
    Vlan,
    FibreChannelEx,
    SASEx,
    NVMExpressNamespace,
    URI,
    UFS,
    SD,
    Bluetooth,
    WiFi,
    eMMC,
}

impl MessagingSubTypes {
    /// The byte that stands for the variant in a node's header.
    pub open spec fn value(self) -> u8 {
        match self {
            MessagingSubTypes::ATAPI => 0x01,
            MessagingSubTypes::SCSI => 0x02,
            MessagingSubTypes::FibreChannel => 0x03,
            MessagingSubTypes::FireWire => 0x04,
            MessagingSubTypes::USB => 0x05,
            MessagingSubTypes::I2O => 0x06,
            MessagingSubTypes::Infiniband => 0x09,
            MessagingSubTypes::Vendor => 0x0a,
            MessagingSubTypes::MACAddress => 0x0b,
            MessagingSubTypes::IPv4 => 0x0c,
            MessagingSubTypes::IPv6 => 0x0d,
            MessagingSubTypes::UART => 0x0e,
            MessagingSubTypes::USBClass => 0x0f,
            MessagingSubTypes::USBWWID => 0x10,
            MessagingSubTypes::DeviceLogicalUnit => 0x11,
            MessagingSubTypes::SATA => 0x12,
            MessagingSubTypes::iSCSI => 0x13,
            MessagingSubTypes::Vlan => 0x14,
            MessagingSubTypes::FibreChannelEx => 0x15,
            MessagingSubTypes::SASEx => 0x16,
            MessagingSubTypes::NVMExpressNamespace => 0x17,
            MessagingSubTypes::URI => 0x18,
            MessagingSubTypes::UFS => 0x19,
            MessagingSubTypes::SD => 0x1a,
            MessagingSubTypes::Bluetooth => 0x1b,
            MessagingSubTypes::WiFi => 0x1c,
            MessagingSubTypes::eMMC => 0x1d,
        }
    }
}

impl From<MessagingSubTypes> for u8 {
    fn from(t: MessagingSubTypes) -> (b: u8) {
        match t {
            MessagingSubTypes::ATAPI => 0x01,
            MessagingSubTypes::SCSI => 0x02,
            MessagingSubTypes::FibreChannel => 0x03,
            MessagingSubTypes::FireWire => 0x04,
            MessagingSubTypes::USB => 0x05,
            MessagingSubTypes::I2O => 0x06,
            MessagingSubTypes::Infiniband => 0x09,
            MessagingSubTypes::Vendor => 0x0a,
            MessagingSubTypes::MACAddress => 0x0b,
            MessagingSubTypes::IPv4 => 0x0c,
            MessagingSubTypes::IPv6 => 0x0d,
            MessagingSubTypes::UART => 0x0e,
            MessagingSubTypes::USBClass => 0x0f,
            MessagingSubTypes::USBWWID => 0x10,
            MessagingSubTypes::DeviceLogicalUnit => 0x11,
            MessagingSubTypes::SATA => 0x12,
            MessagingSubTypes::iSCSI => 0x13,
            MessagingSubTypes::Vlan => 0x14,
            MessagingSubTypes::FibreChannelEx => 0x15,
            MessagingSubTypes::SASEx => 0x16,
            MessagingSubTypes::NVMExpressNamespace => 0x17,
            MessagingSubTypes::URI => 0x18,
            MessagingSubTypes::UFS => 0x19,
            MessagingSubTypes::SD => 0x1a,
            MessagingSubTypes::Bluetooth => 0x1b,
            MessagingSubTypes::WiFi => 0x1c,
            MessagingSubTypes::eMMC => 0x1d,
        }
    }
}

impl FromSpecImpl<MessagingSubTypes> for u8 {
    open spec fn obeys_from_spec() -> bool {
        true
    }

    open spec fn from_spec(t: MessagingSubTypes) -> u8 {
        t.value()
    }
}

/// The subtypes of a media node.
#[derive(Clone, Copy, Debug, PartialEq, Eq, Structural)]
pub enum MediaSubTypes {
    HardDrive,
    CDROM,
    Vendor,
    FilePath,
    MediaProtocol,
    PIWGFirmwareFile,
    PIWGFirmwareVolume,
    RelativeOffsetRange,
    RAMDisk,
}

impl MediaSubTypes {
    /// The byte that stands for the variant in a node's header.
    pub open spec fn value(self) -> u8 {
        match self {
            MediaSubTypes::HardDrive => 0x01,
            MediaSubTypes::CDROM => 0x02,
            MediaSubTypes::Vendor => 0x03,
            MediaSubTypes::FilePath => 0x04,
            MediaSubTypes::MediaProtocol => 0x05,
            MediaSubTypes::PIWGFirmwareFile => 0x06,
            MediaSubTypes::PIWGFirmwareVolume => 0x07,
            MediaSubTypes::RelativeOffsetRange => 0x08,
            MediaSubTypes::RAMDisk => 0x09,
        }
    }
}

impl From<MediaSubTypes> for u8 {
    fn from(t: MediaSubTypes) -> (b: u8) {
        match t {
            MediaSubTypes::HardDrive => 0x01,
            MediaSubTypes::CDROM => 0x02,
            MediaSubTypes::Vendor => 0x03,
            MediaSubTypes::FilePath => 0x04,
            MediaSubTypes::MediaProtocol => 0x05,
            MediaSubTypes::PIWGFirmwareFile => 0x06,
            MediaSubTypes::PIWGFirmwareVolume => 0x07,
            MediaSubTypes::RelativeOffsetRange => 0x08,
            MediaSubTypes::RAMDisk => 0x09,
        }
    }
}

impl FromSpecImpl<MediaSubTypes> for u8 {
    open spec fn obeys_from_spec() -> bool {
        true
    }

    open spec fn from_spec(t: MediaSubTypes) -> u8 {
        t.value()
    }
}

/// The subtype of a BIOS boot specification node.
#[derive(Clone, Copy, Debug, PartialEq, Eq, Structural)]
pub enum BIOSSubTypes {
    BIOSBootSpecification,
}

impl BIOSSubTypes {
    /// The byte that stands for the variant in a node's header.
    pub open spec fn value(self) -> u8 {
        match self {
            BIOSSubTypes::BIOSBootSpecification => 0x01,
        }
    }
}

impl From<BIOSSubTypes> for u8 {
    fn from(t: BIOSSubTypes) -> (b: u8) {
        match t {
            BIOSSubTypes::BIOSBootSpecification => 0x01,
        }
    }
}

impl FromSpecImpl<BIOSSubTypes> for u8 {
    open spec fn obeys_from_spec() -> bool {
        true
    }

    open spec fn from_spec(t: BIOSSubTypes) -> u8 {
        t.value()
    }
}

/// The subtypes of an end node.
#[derive(Clone, Copy, Debug, PartialEq, Eq, Structural)]
pub enum EndPathSubTypes {
    EndInstance,
    EndEntirePath,
}

impl EndPathSubTypes {
    /// The byte that stands for the variant in a node's header.
    pub open spec fn value(self) -> u8 {
        match self {
            EndPathSubTypes::EndInstance => 0x01,
            EndPathSubTypes::EndEntirePath => 0xff,
        }
    }
}

impl From<EndPathSubTypes> for u8 {
    fn from(t: EndPathSubTypes) -> (b: u8) {
        match t {
            EndPathSubTypes::EndInstance => 0x01,
            EndPathSubTypes::EndEntirePath => 0xff,
        }
    }
}

impl FromSpecImpl<EndPathSubTypes> for u8 {
    open spec fn obeys_from_spec() -> bool {
        true
    }

    open spec fn from_spec(t: EndPathSubTypes) -> u8 {
        t.value()
    }
}
/// The type byte of an end node.
pub const END_TYPE: u8 = 0x7F;

/// The subtype byte of the node that ends one instance of a path.
pub const END_INSTANCE: u8 = 0x01;

/// The subtype byte of the node that ends the whole path.
pub const END_ENTIRE_PATH: u8 = 0xFF;

/// The number of bytes in a node's header.
pub const HEADER_SIZE: usize = 4;

/// Identifies the device path protocol.
pub open spec fn efi_device_path_protocol_guid() -> Guid {
    Guid(0x09576E91, 0x6D3F, 0x11D2, [0x8E, 0x39, 0x00, 0xA0, 0xC9, 0x69, 0x72, 0x3B])
}

/// The four bytes that every device-path node starts with.
#[derive(Clone, Copy, Debug, PartialEq, Eq)]
pub struct DevicePathProtocol {
    pub type_: u8,
    pub sub_type: u8,
    /// The node's whole length, header included, low byte first.
    pub length: [u8; 2],
}

impl Protocol for DevicePathProtocol {
    fn guid() -> (g: Guid)
        ensures
            g == efi_device_path_protocol_guid(),
    {
        Guid(0x09576E91, 0x6D3F, 0x11D2, [0x8E, 0x39, 0x00, 0xA0, 0xC9, 0x69, 0x72, 0x3B])
    }
}

impl DevicePathProtocol {
    /// The number that the two length bytes stand for.
    pub open spec fn len_spec(&self) -> int {
        self.length[0] as int + 256 * (self.length[1] as int)
    }

    /// The header as it lies in memory.
    pub open spec fn encoding(&self) -> Seq<u8> {
        seq![self.type_, self.sub_type, self.length[0], self.length[1]]
    }

    /// The header that four bytes in memory stand for.
    pub open spec fn decoding(bytes: Seq<u8>) -> DevicePathProtocol {
        DevicePathProtocol { type_: bytes[0], sub_type: bytes[1], length: [bytes[2], bytes[3]] }
    }

    /// Whether this is the header of the node that ends the whole path.
    pub open spec fn is_end_entire_path_spec(&self) -> bool {
        self.type_ == END_TYPE && self.sub_type == END_ENTIRE_PATH
    }

    /// A header with the given type, subtype and length.
    pub fn new(type_: u8, sub_type: u8, length: u16) -> (h: DevicePathProtocol)
        ensures
            h.type_ == type_,
            h.sub_type == sub_type,
            h.len_spec() == length,
    {
        let lo: u8 = (length & 0xff) as u8;
        let hi: u8 = (length >> 8) as u8;
        assert((length & 0xff) + 256 * (length >> 8) == length) by (bit_vector);
        assert(length & 0xff < 256 && length >> 8 < 256) by (bit_vector);
        DevicePathProtocol { type_, sub_type, length: [lo, hi] }
    }

    /// The node's whole length in bytes, its header included.
    pub fn len(&self) -> (n: u16)
        ensures
            n == self.len_spec(),
    {
        let lo: u16 = self.length[0] as u16;
        let hi: u16 = self.length[1] as u16;
        assert(lo | (hi << 8) == lo + 256 * hi) by (bit_vector)
            requires
                lo < 256,
                hi < 256,
        ;
        lo | (hi << 8)
    }

    /// Whether the node is an end node, of either subtype.
    pub fn is_end(&self) -> (b: bool)
        ensures
            b == (self.type_ == END_TYPE),
    {
        self.type_ == END_TYPE
    }

    /// Whether the node ends the whole path.
    pub fn is_end_entire_path(&self) -> (b: bool)
        ensures
            b == self.is_end_entire_path_spec(),
    {
        self.type_ == END_TYPE && self.sub_type == END_ENTIRE_PATH
    }

    /// The four bytes of the header, in memory order.
    pub fn to_bytes(&self) -> (bytes: [u8; 4])
        ensures
            bytes@ == self.encoding(),
    {
        let bytes = [self.type_, self.sub_type, self.length[0], self.length[1]];
        assert(bytes@ =~= self.encoding());
        bytes
    }

    /// The header that four bytes in memory hold.
    pub fn from_bytes(bytes: [u8; 4]) -> (h: DevicePathProtocol)
        ensures
            h == Self::decoding(bytes@),
    {
        let h = DevicePathProtocol {
            type_: bytes[0],
            sub_type: bytes[1],
            length: [bytes[2], bytes[3]],
        };
        assert(h.length =~= Self::decoding(bytes@).length);
        h
    }

    /// Where the node's payload starts, for a node that starts at `at`.
    pub fn data(&self, at: usize) -> (r: Option<usize>)
        ensures
            at + HEADER_SIZE <= usize::MAX ==> r == Some((at + HEADER_SIZE) as usize),
            at + HEADER_SIZE > usize::MAX ==> r is None,
    {
        at.checked_add(HEADER_SIZE)
    }

    /// Where the node after this one starts, for a node that starts at `at`.
    ///
    /// There is none after the node that ends the whole path, nor after a
    /// node whose length field is smaller than a header.
    pub fn next(&self, at: usize) -> (r: Option<usize>)
        ensures
            r is Some <==> !self.is_end_entire_path_spec() && self.len_spec() >= HEADER_SIZE && at
                + self.len_spec() <= usize::MAX,
            r matches Some(n) ==> n == at + self.len_spec(),
    {
        if self.is_end_entire_path() {
            return None;
        }
        let len = self.len();
        if len < 4 {
            return None;
        }
        at.checked_add(len as usize)
    }
}

/// Writing a header to memory and reading it back gives the same header,
/// and so the same length.
pub proof fn lemma_header_round_trip(h: DevicePathProtocol)
    ensures
        DevicePathProtocol::decoding(h.encoding()) == h,
        DevicePathProtocol::decoding(h.encoding()).len_spec() == h.len_spec(),
{
    let d = DevicePathProtocol::decoding(h.encoding());
    assert(d.length =~= h.length);
}

/// Reading a header from four bytes and writing it back gives the same
/// four bytes.
pub proof fn lemma_header_bytes_round_trip(bytes: Seq<u8>)
    requires
        bytes.len() == 4,
    ensures
        DevicePathProtocol::decoding(bytes).encoding() == bytes,
        DevicePathProtocol::decoding(bytes).len_spec() == bytes[2] as int + 256 * (
        bytes[3] as int),
{
    assert(DevicePathProtocol::decoding(bytes).encoding() =~= bytes);
}

/// Identifies the device path utilities protocol.
pub open spec fn efi_device_path_utilities_protocol_guid() -> Guid {
    Guid(0x379BE4E, 0xD706, 0x437D, [0xB0, 0x37, 0xED, 0xB8, 0x2F, 0xB7, 0x72, 0xA4])
}

/// The utilities that copy, join and create device paths.
///
/// They work on buffers of the caller's and give back buffers of their own.
/// A path that is not well formed is answered as the firmware answers it:
/// with the one error that also stands for exhausted memory.
#[derive(Clone, Copy, Debug)]
pub struct DevicePathUtilitiesProtocol {}

impl Protocol for DevicePathUtilitiesProtocol {
    fn guid() -> (g: Guid)
        ensures
            g == efi_device_path_utilities_protocol_guid(),
    {
        Guid(0x379BE4E, 0xD706, 0x437D, [0xB0, 0x37, 0xED, 0xB8, 0x2F, 0xB7, 0x72, 0xA4])
    }
}

impl DevicePathUtilitiesProtocol {
    /// The utilities. They hold nothing; one is as good as another.
    pub fn new() -> (utilities: DevicePathUtilitiesProtocol)
        ensures
            utilities == (DevicePathUtilitiesProtocol {  }),
    {
        DevicePathUtilitiesProtocol {  }
    }

    /// A copy of the whole path, in a buffer of exactly its size.
    pub fn duplicate_device_path(&self, src: &DevicePath) -> (r: Result<DevicePath, Status>)
        ensures
            well_formed(src@) ==> (r matches Ok(d) && d@ == duplicate_of(src@)),
            !well_formed(src@) ==> r == Err::<DevicePath, Status>(Status::OutOfResources),
    {
        match src.duplicate() {
            None => Err(Status::OutOfResources),
            Some(out) => Ok(out),
        }
    }

    /// The first path with the second in place of the node that ends it.
    pub fn append_device_path(&self, src1: &DevicePath, src2: &DevicePath) -> (r: Result<
        DevicePath,
        Status,
    >)
        ensures
            well_formed(src1@) && well_formed(src2@) ==> (r matches Ok(d) && d@ == joined(
                src1@,
                src2@,
            )),
            !(well_formed(src1@) && well_formed(src2@)) ==> r == Err::<DevicePath, Status>(
                Status::OutOfResources,
            ),
    {
        match src1.append_path(src2) {
            None => Err(Status::OutOfResources),
            Some(out) => Ok(out),
        }
    }

    /// The path with the node put in before the node that ends the path.
    pub fn append_device_node(&self, path: &DevicePath, node: &DevicePath) -> (r: Result<
        DevicePath,
        Status,
    >)
        ensures
            well_formed(path@) && node_at(node@, 0) ==> (r matches Ok(d) && d@ == with_node(
                path@,
                node@,
            )),
            !(well_formed(path@) && node_at(node@, 0)) ==> r == Err::<DevicePath, Status>(
                Status::OutOfResources,
            ),
    {
        match path.append_node(node) {
            None => Err(Status::OutOfResources),
            Some(out) => Ok(out),
        }
    }

    /// A single node of the given type, subtype and whole length, its payload
    /// zero. A length that does not cover the header is refused.
    pub fn create_device_node<T: Into<u8>, U: Into<u8>>(
        &self,
        node_type: T,
        node_subtype: U,
        node_length: u16,
    ) -> (r: Result<DevicePath, Status>)
        ensures
            node_length < HEADER_SIZE ==> r == Err::<DevicePath, Status>(Status::InvalidParameter),
            node_length >= HEADER_SIZE ==> (r matches Ok(d) && node_at(d@, 0) && length_at(d@, 0)
                == d@.len() == node_length),
            T::obeys_into_spec() && U::obeys_into_spec() ==> (r matches Ok(d) ==> d@ == blank_node(
                node_type.into_spec(),
                node_subtype.into_spec(),
                node_length as int,
            )),
    {
        match DevicePath::create_node(node_type.into(), node_subtype.into(), node_length) {
            None => Err(Status::InvalidParameter),
            Some(out) => Ok(out),
        }
    }
}

/// Identifies the protocol that converts a device path to text.
pub open spec fn efi_device_path_to_text_protocol_guid() -> Guid {
    Guid(0x8B843E20, 0x8132, 0x4852, [0x90, 0xCC, 0x55, 0x1A, 0x4E, 0x4A, 0x7F, 0x1C])
}

/// Identifies the protocol that converts text to a device path.
pub open spec fn efi_device_path_from_text_protocol_guid() -> Guid {
    Guid(0x5C99A21, 0xC70F, 0x4AD2, [0x8A, 0x5F, 0x35, 0xDF, 0x33, 0x43, 0xF5, 0x1E])
}

/// A flag as the converter takes it: one for true, zero for false.
pub open spec fn flag(b: bool) -> u8 {
    if b {
        1
    } else {
        0
    }
}

fn flag_of(b: bool) -> (f: u8)
    ensures
        f == flag(b),
{
    if b {
        1
    } else {
        0
    }
}

/// What the answer of a converter to text reads as. An answer without a
/// terminating zero is no text: the converter had none to give. Any other
/// answer is read as a null-terminated string, all of which must be ASCII.
pub open spec fn answered_text(chars: Seq<u16>) -> Result<Seq<char>, Status> {
    if utf16_len(chars) >= chars.len() {
        Err(Status::OutOfResources)
    } else {
        decoded(chars)
    }
}

/// What the answer of a converter from text is taken for, where a node was
/// asked for. An answer that holds no whole node is no node: the converter
/// had none to give.
pub open spec fn answered_node(out: DevicePath) -> Result<DevicePath, Status> {
    if node_at(out@, 0) {
        Ok(out)
    } else {
        Err(Status::OutOfResources)
    }
}

/// What the answer of a converter from text is taken for, where a path was
/// asked for. An answer that holds no well-formed path is no path: the
/// converter had none to give.
pub open spec fn answered_path(out: DevicePath) -> Result<DevicePath, Status> {
    if well_formed(out@) {
        Ok(out)
    } else {
        Err(Status::OutOfResources)
    }
}

fn read_answer(chars: &[u16]) -> (r: Result<String, Status>)
    ensures
        text_of(r) == answered_text(chars@),
{
    if utf16_strlen(chars) >= chars.len() {
        return Err(Status::OutOfResources);
    }
    utf16_ptr_to_str(chars)
}

/// The entry points of the converter from device paths to text.
///
/// Each takes a node or a path and the two flags, and gives the text as a
/// null-terminated UTF-16 string; an answer without a terminating zero
/// stands for no text. What the text is, and what the flags do to it, is
/// the converter's business.
pub struct DevicePathToTextProtocol<N, P> {
    pub device_path_node_to_text: N,
    pub device_path_to_text: P,
}

impl<N, P> Protocol for DevicePathToTextProtocol<N, P> {
    fn guid() -> (g: Guid)
        ensures
            g == efi_device_path_to_text_protocol_guid(),
    {
        Guid(0x8B843E20, 0x8132, 0x4852, [0x90, 0xCC, 0x55, 0x1A, 0x4E, 0x4A, 0x7F, 0x1C])
    }
}

impl<
    N: Fn(&DevicePath, u8, u8) -> Vec<u16>,
    P: Fn(&DevicePath, u8, u8) -> Vec<u16>,
> DevicePathToTextProtocol<N, P> {
    /// The text of a single node, as the converter gives it.
    ///
    /// The converter is asked only where a whole node lies at the start of
    /// the buffer; a buffer without one is refused. Its answer must be a
    /// text, and all of the text ASCII.
    pub fn device_path_node_to_text(
        &self,
        device_node: &DevicePath,
        display_only: bool,
        allow_shortcuts: bool,
    ) -> (r: Result<String, Status>)
        requires
            node_at(device_node@, 0) ==> call_requires(
                self.device_path_node_to_text,
                (device_node, flag(display_only), flag(allow_shortcuts)),
            ),
        ensures
            !node_at(device_node@, 0) ==> r == Err::<String, Status>(Status::InvalidParameter),
            node_at(device_node@, 0) ==> exists|chars: Vec<u16>| #[trigger]
                call_ensures(
                    self.device_path_node_to_text,
                    (device_node, flag(display_only), flag(allow_shortcuts)),
                    chars,
                ) && text_of(r) == answered_text(chars@),
    {
        if device_node.header(0).is_none() {
            return Err(Status::InvalidParameter);
        }
        let chars = (self.device_path_node_to_text)(
            device_node,
            flag_of(display_only),
            flag_of(allow_shortcuts),
        );
        read_answer(chars.as_slice())
    }

    /// The text of a whole path, as the converter gives it.
    ///
    /// The converter is asked only where the buffer holds a well-formed
    /// path; any other buffer is refused. Its answer must be a text, and all
    /// of the text ASCII.
    pub fn device_path_to_text(
        &self,
        device_node: &DevicePath,
        display_only: bool,
        allow_shortcuts: bool,
    ) -> (r: Result<String, Status>)
        requires
            well_formed(device_node@) ==> call_requires(
                self.device_path_to_text,
                (device_node, flag(display_only), flag(allow_shortcuts)),
            ),
        ensures
            !well_formed(device_node@) ==> r == Err::<String, Status>(Status::InvalidParameter),
            well_formed(device_node@) ==> exists|chars: Vec<u16>| #[trigger]
                call_ensures(
                    self.device_path_to_text,
                    (device_node, flag(display_only), flag(allow_shortcuts)),
                    chars,
                ) && text_of(r) == answered_text(chars@),
    {
        if !device_node.is_well_formed() {
            return Err(Status::InvalidParameter);
        }
        let chars = (self.device_path_to_text)(
            device_node,
            flag_of(display_only),
            flag_of(allow_shortcuts),
        );
        read_answer(chars.as_slice())
    }

    /// Writes the text of a single node to the console, given the outcome
    /// of the converter's lookup.
    ///
    /// Nothing is written where the lookup or the conversion fails: the
    /// console need only take the text that the conversion gave.
    pub fn print_device_path_node<W: Fn(&str)>(
        located: Result<&Self, Status>,
        console_write: W,
        device_node: &DevicePath,
        display_only: bool,
        allow_shortcuts: bool,
    ) -> (r: Result<(), Status>)
        requires
            located matches Ok(this) ==> (node_at(device_node@, 0) ==> call_requires(
                this.device_path_node_to_text,
                (device_node, flag(display_only), flag(allow_shortcuts)),
            )),
            forall|text: &str, chars: Vec<u16>|
                located is Ok && node_at(device_node@, 0) && #[trigger] call_ensures(
                    located->Ok_0.device_path_node_to_text,
                    (device_node, flag(display_only), flag(allow_shortcuts)),
                    chars,
                ) && answered_text(chars@) == Ok::<Seq<char>, Status>(text@)
                    ==> #[trigger] call_requires(console_write, (text,)),
        ensures
            located matches Err(e) ==> r == Err::<(), Status>(e),
            located is Ok && !node_at(device_node@, 0) ==> r == Err::<(), Status>(
                Status::InvalidParameter,
            ),
            located matches Ok(this) ==> (node_at(device_node@, 0) ==> exists|chars: Vec<u16>|
                #[trigger] call_ensures(
                    this.device_path_node_to_text,
                    (device_node, flag(display_only), flag(allow_shortcuts)),
                    chars,
                ) && match answered_text(chars@) {
                    Err(e) => r == Err::<(), Status>(e),
                    Ok(text) => r == Ok::<(), Status>(()) && exists|written: &str|
                        written@ == text && #[trigger] call_ensures(console_write, (written,), ()),
                }),
    {
        match located {
            Err(e) => Err(e),
            Ok(this) => match this.device_path_node_to_text(
                device_node,
                display_only,
                allow_shortcuts,
            ) {
                Err(e) => Err(e),
                Ok(result) => {
                    console_write(result.as_str());
                    Ok(())
                },
            },
        }
    }

    /// Writes the text of a whole path to the console, given the outcome of
    /// the converter's lookup.
    ///
    /// Nothing is written where the lookup or the conversion fails: the
    /// console need only take the text that the conversion gave.
    pub fn print_device_path<W: Fn(&str)>(
        located: Result<&Self, Status>,
        console_write: W,
        device_node: &DevicePath,
        display_only: bool,
        allow_shortcuts: bool,
    ) -> (r: Result<(), Status>)
        requires
            located matches Ok(this) ==> (well_formed(device_node@) ==> call_requires(
                this.device_path_to_text,
                (device_node, flag(display_only), flag(allow_shortcuts)),
            )),
            forall|text: &str, chars: Vec<u16>|
                located is Ok && well_formed(device_node@) && #[trigger] call_ensures(
                    located->Ok_0.device_path_to_text,
                    (device_node, flag(display_only), flag(allow_shortcuts)),
                    chars,
                ) && answered_text(chars@) == Ok::<Seq<char>, Status>(text@)
                    ==> #[trigger] call_requires(console_write, (text,)),
        ensures
            located matches Err(e) ==> r == Err::<(), Status>(e),
            located is Ok && !well_formed(device_node@) ==> r == Err::<(), Status>(
                Status::InvalidParameter,
            ),
            located matches Ok(this) ==> (well_formed(device_node@) ==> exists|chars: Vec<u16>|
                #[trigger] call_ensures(
                    this.device_path_to_text,
                    (device_node, flag(display_only), flag(allow_shortcuts)),
                    chars,
                ) && match answered_text(chars@) {
                    Err(e) => r == Err::<(), Status>(e),
                    Ok(text) => r == Ok::<(), Status>(()) && exists|written: &str|
                        written@ == text && #[trigger] call_ensures(console_write, (written,), ()),
                }),
    {
        match located {
            Err(e) => Err(e),
            Ok(this) => match this.device_path_to_text(device_node, display_only, allow_shortcuts) {
                Err(e) => Err(e),
                Ok(result) => {
                    console_write(result.as_str());
                    Ok(())
                },
            },
        }
    }
}

/// The entry points of the converter from text to device paths.
///
/// Each takes the text as a null-terminated UTF-16 string, which becomes the
/// converter's own, and gives the node or the path that the text names. An
/// answer that holds no whole node, or no well-formed path, stands for none.
pub struct DevicePathFromTextProtocol<N, P> {
    pub text_to_device_path_node: N,
    pub text_to_device_path: P,
}

impl<N, P> Protocol for DevicePathFromTextProtocol<N, P> {
    fn guid() -> (g: Guid)
        ensures
            g == efi_device_path_from_text_protocol_guid(),
    {
        Guid(0x5C99A21, 0xC70F, 0x4AD2, [0x8A, 0x5F, 0x35, 0xDF, 0x33, 0x43, 0xF5, 0x1E])
    }
}

impl<N: Fn(Vec<u16>) -> DevicePath, P: Fn(Vec<u16>) -> DevicePath> DevicePathFromTextProtocol<
    N,
    P,
> {
    /// The node that a text names, as the converter gives it.
    ///
    /// The text must be ASCII; the converter is not asked otherwise. Where
    /// its answer holds no whole node, the converter had none to give, and
    /// that is an error as exhausted memory is.
    pub fn text_to_device_path_node(&self, path: &str) -> (r: Result<DevicePath, Status>)
        requires
            is_ascii_chars(path@) ==> forall|text: Vec<u16>|
                text@ == encoded(path@) ==> call_requires(self.text_to_device_path_node, (text,)),
        ensures
            !is_ascii_chars(path@) ==> r == Err::<DevicePath, Status>(Status::Unsupported),
            is_ascii_chars(path@) ==> exists|text: Vec<u16>, out: DevicePath|
                text@ == encoded(path@) && #[trigger] call_ensures(
                    self.text_to_device_path_node,
                    (text,),
                    out,
                ) && r == answered_node(out),
    {
        match str_to_utf16_ptr(path) {
            Err(e) => Err(e),
            Ok(utf16_str) => {
                let out = (self.text_to_device_path_node)(utf16_str);
                if out.header(0).is_some() {
                    Ok(out)
                } else {
                    Err(Status::OutOfResources)
                }
            },
        }
    }

    /// The path that a text names, as the converter gives it.
    ///
    /// The text must be ASCII; the converter is not asked otherwise. Where
    /// its answer holds no well-formed path, the converter had none to give,
    /// and that is an error as exhausted memory is.
    pub fn text_to_device_path(&self, path: &str) -> (r: Result<DevicePath, Status>)
        requires
            is_ascii_chars(path@) ==> forall|text: Vec<u16>|
                text@ == encoded(path@) ==> call_requires(self.text_to_device_path, (text,)),
        ensures
            !is_ascii_chars(path@) ==> r == Err::<DevicePath, Status>(Status::Unsupported),
            is_ascii_chars(path@) ==> exists|text: Vec<u16>, out: DevicePath|
                text@ == encoded(path@) && #[trigger] call_ensures(
                    self.text_to_device_path,
                    (text,),
                    out,
                ) && r == answered_path(out),
    {
        match str_to_utf16_ptr(path) {
            Err(e) => Err(e),
            Ok(utf16_str) => {
                let out = (self.text_to_device_path)(utf16_str);
                if out.is_well_formed() {
                    Ok(out)
                } else {
                    Err(Status::OutOfResources)
                }
            },
        }
    }
}

} // verus!
