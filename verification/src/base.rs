//! The plain values that every firmware call deals in: handles, events,
//! status codes, memory types and time.

use vstd::prelude::*;

verus! {

/// An opaque firmware handle, held as the address the firmware gave out.
#[derive(Copy, Clone, Debug, PartialEq, Eq, Structural)]
pub struct Handle(pub usize);

impl Default for Handle {
    /// The null handle.
    fn default() -> (h: Handle)
        ensures
            h == Handle(0),
    {
        Handle(0)
    }
}

/// A list of handles, as a lookup by protocol returns it.
#[derive(Debug)]
pub struct Handles(Vec<Handle>);

impl View for Handles {
    type V = Seq<Handle>;

    closed spec fn view(&self) -> Seq<Handle> {
        self.0@
    }
}

impl Handles {
    /// The list of the given handles, in their order.
    pub fn new(handles: Vec<Handle>) -> (r: Handles)
        ensures
            r@ == handles@,
    {
        Handles(handles)
    }

    /// A cursor placed before the first handle.
    pub fn into_iter(&self) -> (it: HandlesIterator<'_>)
        ensures
            it.handles() == self@,
            it.position() == 0,
    {
        HandlesIterator { handles: self, offset: 0 }
    }
}

/// A cursor over a list of handles.
pub struct HandlesIterator<'a> {
    handles: &'a Handles,
    offset: usize,
}

impl<'a> HandlesIterator<'a> {
    /// The list that is walked.
    pub closed spec fn handles(&self) -> Seq<Handle> {
        self.handles@
    }

    /// How many handles have been handed out.
    pub closed spec fn position(&self) -> nat {
        self.offset as nat
    }

    /// Hands out the handles in order, each once, then `None` for ever.
    pub fn next(&mut self) -> (item: Option<&'a Handle>)
        ensures
            final(self).handles() == old(self).handles(),
            old(self).position() < old(self).handles().len() ==> {
                &&& item == Some(&old(self).handles()[old(self).position() as int])
                &&& final(self).position() == old(self).position() + 1
            },
            old(self).position() >= old(self).handles().len() ==> {
                &&& item is None
                &&& final(self).position() == old(self).position()
            },
    {
        if self.offset < self.handles.0.len() {
            let item = &self.handles.0[self.offset];
            self.offset += 1;
            Some(item)
        } else {
            None
        }
    }

    /// The number of handles in the list, whatever the cursor's position.
    pub fn len(&self) -> (n: usize)
        ensures
            n == self.handles().len(),
    {
        self.handles.0.len()
    }
}

/// An opaque firmware event, held as the address the firmware gave out.
#[derive(Clone, Copy, Debug, PartialEq, Eq, Structural)]
pub struct Event(pub usize);

/// The bit that marks a status value as an error, in a 64-bit status word.
pub const ERR_FLAG: u64 = 0x8000_0000_0000_0000;

/// The result code of a firmware call.
#[derive(PartialEq, Eq, Structural, PartialOrd, Debug, Clone, Copy)]
pub enum Status {
    Success,
    LoadError,
    InvalidParameter,
    Unsupported,
    BadBufferSize,
    BufferTooSmall,
    NotReady,
    DeviceError,
    WriteProtected,
    OutOfResources,
    VolumeCorrupted,
    VolumeFull,
    NoMedia,
    MediaChanged,
    NotFound,
    AccessDenied,
    NoResponse,
    NoMapping,
    Timeout,
    NotStarted,
    AlreadyStarted,
    Aborted,
    IcmpError,
    TftpError,
    ProtocolError,
    IncompatibleVersion,
    SecurityViolation,
    CrcError,
    EndOfMedia,
    EndOfFile,
}

impl Status {
    /// The number of the status among the errors; 0 for `Success`.
    pub open spec fn index(self) -> int {
        match self {
            Status::Success => 0,
            Status::LoadError => 1,
            Status::InvalidParameter => 2,
            Status::Unsupported => 3,
            Status::BadBufferSize => 4,
            Status::BufferTooSmall => 5,
            Status::NotReady => 6,
            Status::DeviceError => 7,
            Status::WriteProtected => 8,
            Status::OutOfResources => 9,
            Status::VolumeCorrupted => 10,
            Status::VolumeFull => 11,
            Status::NoMedia => 12,
            Status::MediaChanged => 13,
            Status::NotFound => 14,
            Status::AccessDenied => 15,
            Status::NoResponse => 16,
            Status::NoMapping => 17,
            Status::Timeout => 18,
            Status::NotStarted => 19,
            Status::AlreadyStarted => 20,
            Status::Aborted => 21,
            Status::IcmpError => 22,
            Status::TftpError => 23,
            Status::ProtocolError => 24,
            Status::IncompatibleVersion => 25,
            Status::SecurityViolation => 26,
            Status::CrcError => 27,
            Status::EndOfMedia => 28,
            Status::EndOfFile => 31,
        }
    }

    /// The status word: the index, with the error bit set for every status
    /// but `Success`.
    pub open spec fn code_spec(self) -> int {
        if self == Status::Success {
            0
        } else {
            ERR_FLAG as int + self.index()
        }
    }

    /// The text that names the status.
    pub open spec fn name(self) -> Seq<char> {
        match self {
            Status::Success => "success"@,
            Status::LoadError => "load error"@,
            Status::InvalidParameter => "invalid parameter"@,
            Status::Unsupported => "unsupported"@,
            Status::BadBufferSize => "bad buffer size"@,
            Status::BufferTooSmall => "buffer too small"@,
            Status::NotReady => "not ready"@,
            Status::DeviceError => "device error"@,
            Status::WriteProtected => "write protected"@,
            Status::OutOfResources => "out of resources"@,
            Status::VolumeCorrupted => "volume corrupted"@,
            Status::VolumeFull => "volume full"@,
            Status::NoMedia => "no media"@,
            Status::MediaChanged => "media changed"@,
            Status::NotFound => "not found"@,
            Status::AccessDenied => "access denied"@,
            Status::NoResponse => "no response"@,
            Status::NoMapping => "no mapping"@,
            Status::Timeout => "timeout"@,
            Status::NotStarted => "not started"@,
            Status::AlreadyStarted => "already started"@,
            Status::Aborted => "aborted"@,
            Status::IcmpError => "ICMP error"@,
            Status::TftpError => "TFTP error"@,
            Status::ProtocolError => "protocol error"@,
            Status::IncompatibleVersion => "incompatible version"@,
            Status::SecurityViolation => "security violation"@,
            Status::CrcError => "CRC error"@,
            Status::EndOfMedia => "end of media"@,
            Status::EndOfFile => "end of file"@,
        }
    }

    /// The name of the status, in lower case but for abbreviations.
    pub fn str(&self) -> (s: &'static str)
        ensures
            s@ == self.name(),
    {
        match *self {
            Status::Success => "success",
            Status::LoadError => "load error",
            Status::InvalidParameter => "invalid parameter",
            Status::Unsupported => "unsupported",
            Status::BadBufferSize => "bad buffer size",
            Status::BufferTooSmall => "buffer too small",
            Status::NotReady => "not ready",
            Status::DeviceError => "device error",
            Status::WriteProtected => "write protected",
            Status::OutOfResources => "out of resources",
            Status::VolumeCorrupted => "volume corrupted",
            Status::VolumeFull => "volume full",
            Status::NoMedia => "no media",
            Status::MediaChanged => "media changed",
            Status::NotFound => "not found",
            Status::AccessDenied => "access denied",
            Status::NoResponse => "no response",
            Status::NoMapping => "no mapping",
            Status::Timeout => "timeout",
            Status::NotStarted => "not started",
            Status::AlreadyStarted => "already started",
            Status::Aborted => "aborted",
            Status::IcmpError => "ICMP error",
            Status::TftpError => "TFTP error",
            Status::ProtocolError => "protocol error",
            Status::IncompatibleVersion => "incompatible version",
            Status::SecurityViolation => "security violation",
            Status::CrcError => "CRC error",
            Status::EndOfMedia => "end of media",
            Status::EndOfFile => "end of file",
        }
    }

    /// The status word that stands for this status.
    pub fn code(&self) -> (c: u64)
        ensures
            c == self.code_spec(),
    {
        match *self {
            Status::Success => 0,
            Status::LoadError => ERR_FLAG + 1,
            Status::InvalidParameter => ERR_FLAG + 2,
            Status::Unsupported => ERR_FLAG + 3,
            Status::BadBufferSize => ERR_FLAG + 4,
            Status::BufferTooSmall => ERR_FLAG + 5,
            Status::NotReady => ERR_FLAG + 6,
            Status::DeviceError => ERR_FLAG + 7,
            Status::WriteProtected => ERR_FLAG + 8,
            Status::OutOfResources => ERR_FLAG + 9,
            Status::VolumeCorrupted => ERR_FLAG + 10,
            Status::VolumeFull => ERR_FLAG + 11,
            Status::NoMedia => ERR_FLAG + 12,
            Status::MediaChanged => ERR_FLAG + 13,
            Status::NotFound => ERR_FLAG + 14,
            Status::AccessDenied => ERR_FLAG + 15,
            Status::NoResponse => ERR_FLAG + 16,
            Status::NoMapping => ERR_FLAG + 17,
            Status::Timeout => ERR_FLAG + 18,
            Status::NotStarted => ERR_FLAG + 19,
            Status::AlreadyStarted => ERR_FLAG + 20,
            Status::Aborted => ERR_FLAG + 21,
            Status::IcmpError => ERR_FLAG + 22,
            Status::TftpError => ERR_FLAG + 23,
            Status::ProtocolError => ERR_FLAG + 24,
            Status::IncompatibleVersion => ERR_FLAG + 25,
            Status::SecurityViolation => ERR_FLAG + 26,
            Status::CrcError => ERR_FLAG + 27,
            Status::EndOfMedia => ERR_FLAG + 28,
            Status::EndOfFile => ERR_FLAG + 31,
        }
    }

    /// The status that a status word stands for, if it stands for one.
    pub fn from_code(code: u64) -> (r: Option<Status>)
        ensures
            r matches Some(s) ==> s.code_spec() == code,
            r is None ==> forall|s: Status| s.code_spec() != code,
    {
        if code == 0 {
            return Some(Status::Success);
        }
        if code < ERR_FLAG {
            return None;
        }
        let n: u64 = code - ERR_FLAG;
        match n {
            1 => Some(Status::LoadError),
            2 => Some(Status::InvalidParameter),
            3 => Some(Status::Unsupported),
            4 => Some(Status::BadBufferSize),
            5 => Some(Status::BufferTooSmall),
            6 => Some(Status::NotReady),
            7 => Some(Status::DeviceError),
            8 => Some(Status::WriteProtected),
            9 => Some(Status::OutOfResources),
            10 => Some(Status::VolumeCorrupted),
            11 => Some(Status::VolumeFull),
            12 => Some(Status::NoMedia),
            13 => Some(Status::MediaChanged),
            14 => Some(Status::NotFound),
            15 => Some(Status::AccessDenied),
            16 => Some(Status::NoResponse),
            17 => Some(Status::NoMapping),
            18 => Some(Status::Timeout),
            19 => Some(Status::NotStarted),
            20 => Some(Status::AlreadyStarted),
            21 => Some(Status::Aborted),
            22 => Some(Status::IcmpError),
            23 => Some(Status::TftpError),
            24 => Some(Status::ProtocolError),
            25 => Some(Status::IncompatibleVersion),
            26 => Some(Status::SecurityViolation),
            27 => Some(Status::CrcError),
            28 => Some(Status::EndOfMedia),
            31 => Some(Status::EndOfFile),
            _ => None,
        }
    }

    /// `Ok` for `Success`, the status itself as the error otherwise.
    pub fn into_result(self) -> (r: Result<(), Status>)
        ensures
            self == Status::Success ==> r == Ok::<(), Status>(()),
            self != Status::Success ==> r == Err::<(), Status>(self),
    {
        match self {
            Status::Success => Ok(()),
            e => Err(e),
        }
    }
}

/// The kind of a range of memory in the firmware's memory map.
#[derive(PartialEq, Eq, Structural, PartialOrd, Debug, Clone, Copy)]
pub enum MemoryType {
    Reserved,
    LoaderCode,
    LoaderData,
    BootServicesCode,
    BootServicesData,
    RuntimeServicesCode,
    RuntimeServicesData,
    Conventional,
    Unusable,
    AcpiReclaimed,
    AcpiNvs,
    MemoryMappedIo,
    MemoryMappedIoPortSpace,
    PalCode,
}

impl MemoryType {
    /// The number that stands for the memory type in a firmware call.
    pub open spec fn value_spec(self) -> u32 {
        match self {
            MemoryType::Reserved => 0,
            MemoryType::LoaderCode => 1,
            MemoryType::LoaderData => 2,
            MemoryType::BootServicesCode => 3,
            MemoryType::BootServicesData => 4,
            MemoryType::RuntimeServicesCode => 5,
            MemoryType::RuntimeServicesData => 6,
            MemoryType::Conventional => 7,
            MemoryType::Unusable => 8,
            MemoryType::AcpiReclaimed => 9,
            MemoryType::AcpiNvs => 10,
            MemoryType::MemoryMappedIo => 11,
            MemoryType::MemoryMappedIoPortSpace => 12,
            MemoryType::PalCode => 13,
        }
    }

    /// The number that stands for the memory type in a firmware call.
    pub fn value(self) -> (v: u32)
        ensures
            v == self.value_spec(),
    {
        match self {
            MemoryType::Reserved => 0,
            MemoryType::LoaderCode => 1,
            MemoryType::LoaderData => 2,
            MemoryType::BootServicesCode => 3,
            MemoryType::BootServicesData => 4,
            MemoryType::RuntimeServicesCode => 5,
            MemoryType::RuntimeServicesData => 6,
            MemoryType::Conventional => 7,
            MemoryType::Unusable => 8,
            MemoryType::AcpiReclaimed => 9,
            MemoryType::AcpiNvs => 10,
            MemoryType::MemoryMappedIo => 11,
            MemoryType::MemoryMappedIoPortSpace => 12,
            MemoryType::PalCode => 13,
        }
    }

    /// The memory type that a number stands for, if it stands for one.
    pub fn from_value(value: u32) -> (r: Option<MemoryType>)
        ensures
            r matches Some(t) ==> t.value_spec() == value,
            r is None ==> forall|t: MemoryType| t.value_spec() != value,
    {
        match value {
            0 => Some(MemoryType::Reserved),
            1 => Some(MemoryType::LoaderCode),
            2 => Some(MemoryType::LoaderData),
            3 => Some(MemoryType::BootServicesCode),
            4 => Some(MemoryType::BootServicesData),
            5 => Some(MemoryType::RuntimeServicesCode),
            6 => Some(MemoryType::RuntimeServicesData),
            7 => Some(MemoryType::Conventional),
            8 => Some(MemoryType::Unusable),
            9 => Some(MemoryType::AcpiReclaimed),
            10 => Some(MemoryType::AcpiNvs),
            11 => Some(MemoryType::MemoryMappedIo),
            12 => Some(MemoryType::MemoryMappedIoPortSpace),
            13 => Some(MemoryType::PalCode),
            _ => None,
        }
    }
}

/// A point in time as the firmware reports it.
#[derive(Copy, Clone, Debug)]
pub struct Time {
    /// Year [1900 - 9999]
    pub year: u16,
    /// Month [1 - 12]
    pub month: u8,
    /// Day [1 - 31]
    pub day: u8,
    /// Hour [0 - 23]
    pub hour: u8,
    /// Minute [0 - 59]
    pub minute: u8,
    /// Second [0 - 59]
    pub second: u8,
    /// Nanosecond [0 - 999,999,999]
    pub nanosecond: u32,
    /// Timezone [-1440 - 1440] or 2047 for "unspecified timezone"
    pub timezone: i16,
    pub daylight: u8,
}

/// `String::push` of the standard library: the text afterwards is the text
/// before it with the character appended.
pub assume_specification[ String::push ](s: &mut String, ch: char)
    ensures
        final(s)@ == old(s)@.push(ch),
;

/// The character of a decimal digit.
pub open spec fn digit_char(d: int) -> char {
    (0x30 + d) as char
}

/// A number in decimal, without leading zeros.
pub open spec fn decimal(n: nat) -> Seq<char>
    decreases n,
{
    if n < 10 {
        seq![digit_char(n as int)]
    } else {
        decimal(n / 10).push(digit_char((n % 10) as int))
    }
}

/// A number in decimal, with zeros in front where it has fewer digits than
/// `width`.
pub open spec fn zero_padded(n: nat, width: nat) -> Seq<char> {
    if decimal(n).len() >= width {
        decimal(n)
    } else {
        Seq::new((width - decimal(n).len()) as nat, |i: int| '0') + decimal(n)
    }
}

fn digit(d: u16) -> (c: char)
    requires
        d < 10,
    ensures
        c == digit_char(d as int),
{
    let code: u8 = 0x30 + d as u8;
    code as char
}

/// Puts a number behind a text, in decimal, with zeros in front where it has
/// fewer digits than `width`.
fn push_padded(out: &mut String, n: u16, width: usize)
    ensures
        final(out)@ == old(out)@ + zero_padded(n as nat, width as nat),
{
    let digits: usize = if n >= 10000 {
        5
    } else if n >= 1000 {
        4
    } else if n >= 100 {
        3
    } else if n >= 10 {
        2
    } else {
        1
    };
    proof {
        reveal_with_fuel(decimal, 5);
        assert(decimal(n as nat).len() == digits);
    }
    let mut i: usize = digits;
    while i < width
        invariant
            digits <= i,
            i <= width || i == digits,
            out@ == old(out)@ + Seq::new((i - digits) as nat, |k: int| '0'),
        decreases width - i,
    {
        out.push('0');
        i += 1;
        assert(out@ =~= old(out)@ + Seq::new((i - digits) as nat, |k: int| '0'));
    }
    let ghost padded = out@;
    if n >= 10000 {
        out.push(digit(n / 10000));
    }
    if n >= 1000 {
        out.push(digit(n / 1000 % 10));
    }
    if n >= 100 {
        out.push(digit(n / 100 % 10));
    }
    if n >= 10 {
        out.push(digit(n / 10 % 10));
    }
    out.push(digit(n % 10));
    proof {
        reveal_with_fuel(decimal, 5);
        assert(out@ =~= padded + decimal(n as nat));
        let zeros = Seq::new((i - digits) as nat, |k: int| '0');
        assert(padded == old(out)@ + zeros);
        if digits >= width {
            assert(zeros =~= Seq::<char>::empty());
            assert(zero_padded(n as nat, width as nat) == decimal(n as nat));
        } else {
            assert(i == width);
            assert(zero_padded(n as nat, width as nat) == zeros + decimal(n as nat));
        }
        assert(out@ =~= old(out)@ + zero_padded(n as nat, width as nat));
    }
}

impl Time {
    /// The date and the time of day as text: the year in four digits at
    /// least, then month, day, hour, minute and second in two digits at
    /// least each.
    pub open spec fn text(&self) -> Seq<char> {
        zero_padded(self.year as nat, 4) + seq!['-'] + zero_padded(self.month as nat, 2) + seq![
            '-',
        ] + zero_padded(self.day as nat, 2) + seq![' '] + zero_padded(self.hour as nat, 2) + seq![
            ':',
        ] + zero_padded(self.minute as nat, 2) + seq![':'] + zero_padded(self.second as nat, 2)
    }

    /// The date and the time of day, as `YYYY-MM-DD hh:mm:ss`.
    pub fn to_text(&self) -> (s: String)
        ensures
            s@ == self.text(),
    {
        let mut out = String::new();
        push_padded(&mut out, self.year, 4);
        out.push('-');
        push_padded(&mut out, self.month as u16, 2);
        out.push('-');
        push_padded(&mut out, self.day as u16, 2);
        out.push(' ');
        push_padded(&mut out, self.hour as u16, 2);
        out.push(':');
        push_padded(&mut out, self.minute as u16, 2);
        out.push(':');
        push_padded(&mut out, self.second as u16, 2);
        assert(out@ =~= self.text());
        out
    }
}

impl Default for Time {
    /// Every field zero.
    fn default() -> (t: Time)
        ensures
            t == (Time {
                year: 0,
                month: 0,
                day: 0,
                hour: 0,
                minute: 0,
                second: 0,
                nanosecond: 0,
                timezone: 0,
                daylight: 0,
            }),
    {
        Time {
            year: 0,
            month: 0,
            day: 0,
            hour: 0,
            minute: 0,
            second: 0,
            nanosecond: 0,
            timezone: 0,
            daylight: 0,
        }
    }
}

/// What the firmware's clock can do.
#[derive(Copy, Clone, Debug)]
pub struct TimeCapabilities {
    pub resolution: u32,
    pub accuracy: u32,
    pub sets_to_zero: bool,
}

} // verus!
