//! The serial I/O protocol: the device's entry points as a table of
//! functions, and a wrapper that remembers the line attributes and sets them
//! anew before every transfer.

use crate::base::Status;
use crate::guid::Guid;
use crate::protocol::Protocol;
use vstd::prelude::*;
use vstd::string::StringSliceAdditionalSpecFns;

verus! {

/// The line settings that a serial device reports.
#[derive(Clone, Copy, Debug)]
pub struct SerialIOMode {
    pub control_mask: u32,
    pub timeout: u32,
    pub baud_rate: u64,
    pub receive_fifo_depth: u32,
    pub data_bits: u32,
    pub parity: ParityType,
    pub stop_bits: StopBits,
}

/// The parity of a serial line.
#[derive(Clone, Copy, Debug, PartialEq, Eq, Structural)]
pub enum ParityType {
    DefaultParity,
    NoParity,
    EvenParity,
    OddParity,
    MarkParity,
    SpaceParity,
}

/// The number of stop bits of a serial line.
#[derive(Clone, Copy, Debug, PartialEq, Eq, Structural)]
pub enum StopBits {
    DefaultStopBits,
    OneStopBit,
    OneFiveStopBits,
    TwoStopBits,
}

impl ParityType {
    /// The number that stands for the parity in a firmware call.
    pub open spec fn value_spec(self) -> u32 {
        match self {
            ParityType::DefaultParity => 0,
            ParityType::NoParity => 1,
            ParityType::EvenParity => 2,
            ParityType::OddParity => 3,
            ParityType::MarkParity => 4,
            ParityType::SpaceParity => 5,
        }
    }

    /// The number that stands for the parity in a firmware call.
    pub fn value(self) -> (v: u32)
        ensures
            v == self.value_spec(),
    {
        match self {
            ParityType::DefaultParity => 0,
            ParityType::NoParity => 1,
            ParityType::EvenParity => 2,
            ParityType::OddParity => 3,
            ParityType::MarkParity => 4,
            ParityType::SpaceParity => 5,
        }
    }

    /// The parity that a number stands for, if it stands for one.
    pub fn from_value(value: u32) -> (r: Option<ParityType>)
        ensures
            r matches Some(p) ==> p.value_spec() == value,
            r is None ==> forall|p: ParityType| p.value_spec() != value,
    {
        match value {
            0 => Some(ParityType::DefaultParity),
            1 => Some(ParityType::NoParity),
            2 => Some(ParityType::EvenParity),
            3 => Some(ParityType::OddParity),
            4 => Some(ParityType::MarkParity),
            5 => Some(ParityType::SpaceParity),
            _ => None,
        }
    }
}

impl StopBits {
    /// The number that stands for the stop bits in a firmware call.
    pub open spec fn value_spec(self) -> u32 {
        match self {
            StopBits::DefaultStopBits => 0,
            StopBits::OneStopBit => 1,
            StopBits::OneFiveStopBits => 2,
            StopBits::TwoStopBits => 3,
        }
    }

    /// The number that stands for the stop bits in a firmware call.
    pub fn value(self) -> (v: u32)
        ensures
            v == self.value_spec(),
    {
        match self {
            StopBits::DefaultStopBits => 0,
            StopBits::OneStopBit => 1,
            StopBits::OneFiveStopBits => 2,
            StopBits::TwoStopBits => 3,
        }
    }

    /// The stop bits that a number stands for, if it stands for any.
    pub fn from_value(value: u32) -> (r: Option<StopBits>)
        ensures
            r matches Some(s) ==> s.value_spec() == value,
            r is None ==> forall|s: StopBits| s.value_spec() != value,
    {
        match value {
            0 => Some(StopBits::DefaultStopBits),
            1 => Some(StopBits::OneStopBit),
            2 => Some(StopBits::OneFiveStopBits),
            3 => Some(StopBits::TwoStopBits),
            _ => None,
        }
    }
}

/// The control bit by which the host says that it is ready.
pub const DATA_TERMINAL_READY: u32 = 0x0001;

/// The control bit by which the host asks to send.
pub const REQUEST_TO_SEND: u32 = 0x0002;

/// The control bit by which the device allows sending.
pub const CLEAR_TO_SEND: u32 = 0x0010;

/// The control bit by which the device says that it is ready.
pub const DATA_SET_READY: u32 = 0x0020;

/// The control bit that reports a ring.
pub const RING_INDICATE: u32 = 0x0040;

/// The control bit that reports a carrier.
pub const CARRIER_DETECT: u32 = 0x0080;

/// The control bit that reports an empty input buffer.
pub const INPUT_BUFFER_EMPTY: u32 = 0x0100;

/// The control bit that reports an empty output buffer.
pub const OUTPUT_BUFFER_EMPTY: u32 = 0x0200;

/// The control bit that turns the hardware loopback on.
pub const HARDWARE_LOOPBACK_ENABLE: u32 = 0x1000;

/// The control bit that turns the software loopback on.
pub const SOFTWARE_LOOPBACK_ENABLE: u32 = 0x2000;

/// The control bit that turns the hardware flow control on.
pub const HARDWARE_FLOW_CONTROL_ENABLE: u32 = 0x4000;

/// Every control bit that has a meaning.
pub const ALL_CONTROL_BITS: u32 = 0x73F3;

/// A set of control bits of a serial device. It holds no bit without a
/// meaning.
#[derive(Clone, Copy, Debug, PartialEq, Eq)]
pub struct ControlBits {
    bits: u32,
}

impl ControlBits {
    #[verifier::type_invariant]
    spec fn known_bits_only(self) -> bool {
        self.bits & !ALL_CONTROL_BITS == 0
    }

    /// The bits of the set, as one word.
    pub closed spec fn bits_spec(&self) -> u32 {
        self.bits
    }

    /// The set without a bit.
    pub fn empty() -> (r: ControlBits)
        ensures
            r.bits_spec() == 0,
    {
        assert(0u32 & !ALL_CONTROL_BITS == 0) by (bit_vector);
        ControlBits { bits: 0 }
    }

    /// The set of all bits that have a meaning.
    pub fn all() -> (r: ControlBits)
        ensures
            r.bits_spec() == ALL_CONTROL_BITS,
    {
        assert(ALL_CONTROL_BITS & !ALL_CONTROL_BITS == 0) by (bit_vector);
        ControlBits { bits: ALL_CONTROL_BITS }
    }

    /// The bits of the set, as one word.
    #[verifier::when_used_as_spec(bits_spec)]
    pub fn bits(&self) -> (b: u32)
        ensures
            b == self.bits_spec(),
            b & !ALL_CONTROL_BITS == 0,
    {
        proof {
            use_type_invariant(self);
        }
        self.bits
    }

    /// The set that a word stands for, if the word holds no bit without a
    /// meaning.
    pub fn from_bits(bits: u32) -> (r: Option<ControlBits>)
        ensures
            r is Some <==> bits & !ALL_CONTROL_BITS == 0,
            r matches Some(c) ==> c.bits_spec() == bits,
    {
        if bits & !ALL_CONTROL_BITS == 0 {
            Some(ControlBits { bits })
        } else {
            None
        }
    }

    /// The set that a word stands for, bits without a meaning dropped.
    pub fn from_bits_truncate(bits: u32) -> (r: ControlBits)
        ensures
            r.bits_spec() == bits & ALL_CONTROL_BITS,
    {
        assert((bits & ALL_CONTROL_BITS) & !ALL_CONTROL_BITS == 0) by (bit_vector);
        ControlBits { bits: bits & ALL_CONTROL_BITS }
    }

    /// Whether every bit of `other` is in the set.
    pub fn contains(&self, other: ControlBits) -> (b: bool)
        ensures
            b == (self.bits_spec() & other.bits_spec() == other.bits_spec()),
    {
        self.bits & other.bits == other.bits
    }
}

/// Identifies the serial I/O protocol.
pub open spec fn efi_serial_io_protocol_guid() -> Guid {
    Guid(0xBB25CF6F, 0xF1D4, 0x11D2, [0x9A, 0x0C, 0x00, 0x90, 0x27, 0x3F, 0xC1, 0xFD])
}

/// What a status means for a call that gives nothing back: `Ok` for
/// success, the status itself as the error otherwise.
pub open spec fn outcome(status: Status) -> Result<(), Status> {
    if status == Status::Success {
        Ok(())
    } else {
        Err(status)
    }
}

/// What a status and a value mean together: the value on success, the
/// status as the error otherwise.
pub open spec fn outcome_with<T>(status: Status, value: T) -> Result<T, Status> {
    if status == Status::Success {
        Ok(value)
    } else {
        Err(status)
    }
}

/// What a read's status and data mean together: the data on success, no data
/// on a timeout, the status as the error otherwise.
pub open spec fn read_outcome(status: Status, data: Seq<u8>) -> Result<Option<Seq<u8>>, Status> {
    if status == Status::Success {
        Ok(Some(data))
    } else if status == Status::Timeout {
        Ok(None)
    } else {
        Err(status)
    }
}

/// The bytes that a read gave, if it gave any.
pub open spec fn data_of(r: Result<Option<Vec<u8>>, Status>) -> Result<Option<Seq<u8>>, Status> {
    match r {
        Ok(Some(data)) => Ok(Some(data@)),
        Ok(None) => Ok(None),
        Err(e) => Err(e),
    }
}

/// The entry points of a serial device.
///
/// `write` reports the status and the number of bytes written; `read` gets
/// the number of bytes wanted and reports the status and the bytes read.
pub struct RawSerialIOProtocol<R, A, C, G, W, D> {
    pub revision: u32,
    pub reset: R,
    pub set_attributes: A,
    pub set_control_bits: C,
    pub get_control_bits: G,
    pub write: W,
    pub read: D,
    pub mode: SerialIOMode,
}

impl<R, A, C, G, W, D> Protocol for RawSerialIOProtocol<R, A, C, G, W, D> {
    fn guid() -> (g: Guid)
        ensures
            g == efi_serial_io_protocol_guid(),
    {
        Guid(0xBB25CF6F, 0xF1D4, 0x11D2, [0x9A, 0x0C, 0x00, 0x90, 0x27, 0x3F, 0xC1, 0xFD])
    }
}

impl<
    R: Fn() -> Status,
    A: Fn(u64, u32, u32, ParityType, u8, StopBits) -> Status,
    C: Fn(u32) -> Status,
    G: Fn() -> (Status, u32),
    W: Fn(&[u8]) -> (Status, usize),
    D: Fn(usize) -> (Status, Vec<u8>),
> RawSerialIOProtocol<R, A, C, G, W, D> {
    /// Reset the serial device.
    pub fn reset(&self) -> (r: Result<(), Status>)
        requires
            call_requires(self.reset, ()),
        ensures
            exists|status: Status| #[trigger] call_ensures(self.reset, (), status) && r == outcome(status),
    {
        match (self.reset)() {
            Status::Success => Ok(()),
            e => Err(e),
        }
    }

    /// Set the serial device's attributes. An attribute given as `None` is
    /// handed to the device as zero, or as the default variant, which makes
    /// the device take its own default.
    pub fn set_attributes(
        &self,
        baud_rate: Option<u64>,
        receive_fifo_depth: Option<u32>,
        timeout: Option<u32>,
        parity: Option<ParityType>,
        data_bits: Option<u8>,
        stop_bits: Option<StopBits>,
    ) -> (status: Status)
        requires
            call_requires(
                self.set_attributes,
                (
                    baud_rate.unwrap_or(0),
                    receive_fifo_depth.unwrap_or(0),
                    timeout.unwrap_or(0),
                    parity.unwrap_or(ParityType::DefaultParity),
                    data_bits.unwrap_or(0),
                    stop_bits.unwrap_or(StopBits::DefaultStopBits),
                ),
            ),
        ensures
            call_ensures(
                self.set_attributes,
                (
                    baud_rate.unwrap_or(0),
                    receive_fifo_depth.unwrap_or(0),
                    timeout.unwrap_or(0),
                    parity.unwrap_or(ParityType::DefaultParity),
                    data_bits.unwrap_or(0),
                    stop_bits.unwrap_or(StopBits::DefaultStopBits),
                ),
                status,
            ),
    {
        (self.set_attributes)(
            baud_rate.unwrap_or(0),
            receive_fifo_depth.unwrap_or(0),
            timeout.unwrap_or(0),
            parity.unwrap_or(ParityType::DefaultParity),
            data_bits.unwrap_or(0),
            stop_bits.unwrap_or(StopBits::DefaultStopBits),
        )
    }

    /// Set the serial device's control bits.
    pub fn set_control_bits(&self, control: ControlBits) -> (r: Result<(), Status>)
        requires
            call_requires(self.set_control_bits, (control.bits_spec(),)),
        ensures
            exists|status: Status| #[trigger]
                call_ensures(self.set_control_bits, (control.bits_spec(),), status) && r == outcome(
                    status,
                ),
    {
        match (self.set_control_bits)(control.bits()) {
            Status::Success => Ok(()),
            e => Err(e),
        }
    }

    /// Retrieve the serial device's control bits; those without a meaning
    /// are dropped.
    pub fn get_control_bits(&self) -> (r: Result<ControlBits, Status>)
        requires
            call_requires(self.get_control_bits, ()),
        ensures
            exists|status: Status, bits: u32| #[trigger]
                call_ensures(self.get_control_bits, (), (status, bits)) && match r {
                    Ok(control) => status == Status::Success && control.bits_spec() == bits
                        & ALL_CONTROL_BITS,
                    Err(e) => status != Status::Success && e == status,
                },
    {
        let (status, bits) = (self.get_control_bits)();
        match status {
            Status::Success => Ok(ControlBits::from_bits_truncate(bits)),
            e => Err(e),
        }
    }

    /// Write some data to the serial device; gives the number of bytes
    /// written.
    pub fn write_raw(&self, data: &[u8]) -> (r: Result<usize, Status>)
        requires
            call_requires(self.write, (data,)),
        ensures
            exists|status: Status, written: usize| #[trigger]
                call_ensures(self.write, (data,), (status, written)) && r == outcome_with(
                    status,
                    written,
                ),
    {
        let (status, written) = (self.write)(data);
        match status {
            Status::Success => Ok(written),
            e => Err(e),
        }
    }

    /// Write a string to the serial device.
    pub fn write(&self, data: &str) -> (r: Result<usize, Status>)
        requires
            forall|bytes: &[u8]| bytes@ == data.spec_bytes() ==> call_requires(self.write, (bytes,)),
        ensures
            exists|status: Status, written: usize, bytes: &[u8]|
                bytes@ == data.spec_bytes() && #[trigger] call_ensures(
                    self.write,
                    (bytes,),
                    (status, written),
                )
                    && r == outcome_with(status, written),
    {
        self.write_raw(data.as_bytes())
    }

    /// Read up to `length` bytes from the serial device. A timeout gives no
    /// data and is no error.
    pub fn read_bytes(&self, length: usize) -> (r: Result<Option<Vec<u8>>, Status>)
        requires
            call_requires(self.read, (length,)),
        ensures
            exists|status: Status, data: Vec<u8>| #[trigger]
                call_ensures(self.read, (length,), (status, data)) && data_of(r) == read_outcome(
                    status,
                    data@,
                ),
    {
        let (status, data) = (self.read)(length);
        match status {
            Status::Success => Ok(Some(data)),
            Status::Timeout => Ok(None),
            e => Err(e),
        }
    }
}

/// The line attributes that a caller has chosen so far; `None` where the
/// device's default is to stay.
#[derive(Clone, Copy, Debug)]
pub struct SerialAttributes {
    pub baud_rate: Option<u64>,
    pub receive_fifo_depth: Option<u32>,
    pub timeout: Option<u32>,
    pub parity: Option<ParityType>,
    pub data_bits: Option<u8>,
    pub stop_bits: Option<StopBits>,
}

impl SerialAttributes {
    /// No attribute chosen.
    pub open spec fn unset() -> SerialAttributes {
        SerialAttributes {
            baud_rate: None,
            receive_fifo_depth: None,
            timeout: None,
            parity: None,
            data_bits: None,
            stop_bits: None,
        }
    }

    /// The attributes after an update: each attribute that the update names
    /// takes the new value, every other keeps its own.
    pub open spec fn updated(self, update: SerialAttributes) -> SerialAttributes {
        SerialAttributes {
            baud_rate: newer(update.baud_rate, self.baud_rate),
            receive_fifo_depth: newer(update.receive_fifo_depth, self.receive_fifo_depth),
            timeout: newer(update.timeout, self.timeout),
            parity: newer(update.parity, self.parity),
            data_bits: newer(update.data_bits, self.data_bits),
            stop_bits: newer(update.stop_bits, self.stop_bits),
        }
    }

    /// What is handed to the device for these attributes: zero, or the
    /// default variant, where none is chosen.
    pub open spec fn handed(self) -> (u64, u32, u32, ParityType, u8, StopBits) {
        (
            self.baud_rate.unwrap_or(0),
            self.receive_fifo_depth.unwrap_or(0),
            self.timeout.unwrap_or(0),
            self.parity.unwrap_or(ParityType::DefaultParity),
            self.data_bits.unwrap_or(0),
            self.stop_bits.unwrap_or(StopBits::DefaultStopBits),
        )
    }
}

/// The new value where there is one, the old value otherwise.
pub open spec fn newer<T>(new: Option<T>, old: Option<T>) -> Option<T> {
    if new is Some {
        new
    } else {
        old
    }
}

fn pick<T>(new: Option<T>, old: Option<T>) -> (r: Option<T>)
    ensures
        r == newer(new, old),
{
    match new {
        Some(value) => Some(value),
        None => old,
    }
}

/// A serial device together with the attributes chosen for it. The
/// attributes are set on the device anew before every transfer.
pub struct SerialIOProtocol<'a, R, A, C, G, W, D> {
    raw_protocol: &'a RawSerialIOProtocol<R, A, C, G, W, D>,
    baud_rate: Option<u64>,
    receive_fifo_depth: Option<u32>,
    timeout: Option<u32>,
    parity: Option<ParityType>,
    data_bits: Option<u8>,
    stop_bits: Option<StopBits>,
}

impl<
    'a,
    R: Fn() -> Status,
    A: Fn(u64, u32, u32, ParityType, u8, StopBits) -> Status,
    C: Fn(u32) -> Status,
    G: Fn() -> (Status, u32),
    W: Fn(&[u8]) -> (Status, usize),
    D: Fn(usize) -> (Status, Vec<u8>),
> SerialIOProtocol<'a, R, A, C, G, W, D> {
    /// The device.
    pub closed spec fn raw(&self) -> &'a RawSerialIOProtocol<R, A, C, G, W, D> {
        self.raw_protocol
    }

    /// The attributes chosen so far.
    pub closed spec fn attributes(&self) -> SerialAttributes {
        SerialAttributes {
            baud_rate: self.baud_rate,
            receive_fifo_depth: self.receive_fifo_depth,
            timeout: self.timeout,
            parity: self.parity,
            data_bits: self.data_bits,
            stop_bits: self.stop_bits,
        }
    }

    /// Create and reset a new SerialIOProtocol struct, from the outcome of
    /// the lookup of the device. No attribute is chosen yet.
    pub fn new(located: Result<&'a RawSerialIOProtocol<R, A, C, G, W, D>, Status>) -> (r: Result<
        Self,
        Status,
    >)
        requires
            located matches Ok(raw) ==> call_requires(raw.reset, ()),
        ensures
            located matches Err(e) ==> (r matches Err(x) && x == e),
            located matches Ok(raw) ==> exists|status: Status| #[trigger]
                call_ensures(raw.reset, (), status) && match r {
                    Ok(serial) => status == Status::Success && serial.raw() == raw
                        && serial.attributes() == SerialAttributes::unset(),
                    Err(e) => status != Status::Success && e == status,
                },
    {
        match located {
            Err(e) => Err(e),
            Ok(protocol) => {
                if let Err(e) = protocol.reset() {
                    return Err(e);
                }
                Ok(
                    SerialIOProtocol {
                        raw_protocol: protocol,
                        baud_rate: None,
                        receive_fifo_depth: None,
                        timeout: None,
                        parity: None,
                        data_bits: None,
                        stop_bits: None,
                    },
                )
            },
        }
    }

    /// Sets the chosen attributes on the device.
    pub fn set_attributes(&self) -> (r: Result<(), Status>)
        requires
            call_requires(self.raw().set_attributes, self.attributes().handed()),
        ensures
            exists|status: Status| #[trigger]
                call_ensures(self.raw().set_attributes, self.attributes().handed(), status) && r
                    == outcome(status),
    {
        let status = self.raw_protocol.set_attributes(
            self.baud_rate,
            self.receive_fifo_depth,
            self.timeout,
            self.parity,
            self.data_bits,
            self.stop_bits,
        );
        assert(call_ensures(self.raw().set_attributes, self.attributes().handed(), status));
        match status {
            Status::Success => Ok(()),
            e => Err(e),
        }
    }

    /// Update this serial device's attributes. Unlike the device's own entry
    /// point, this function can be called incrementally: passing `None` for
    /// any attribute leaves it as it was chosen before, instead of resetting
    /// it to the device default. The choice is kept whatever the device
    /// answers.
    pub fn update_attributes(
        &mut self,
        baud_rate: Option<u64>,
        receive_fifo_depth: Option<u32>,
        timeout: Option<u32>,
        parity: Option<ParityType>,
        data_bits: Option<u8>,
        stop_bits: Option<StopBits>,
    ) -> (r: Result<(), Status>)
        requires
            call_requires(
                old(self).raw().set_attributes,
                old(self).attributes().updated(
                    (SerialAttributes {
                        baud_rate,
                        receive_fifo_depth,
                        timeout,
                        parity,
                        data_bits,
                        stop_bits,
                    }),
                ).handed(),
            ),
        ensures
            final(self).raw() == old(self).raw(),
            final(self).attributes() == old(self).attributes().updated(
                (SerialAttributes {
                    baud_rate,
                    receive_fifo_depth,
                    timeout,
                    parity,
                    data_bits,
                    stop_bits,
                }),
            ),
            exists|status: Status| #[trigger]
                call_ensures(
                    old(self).raw().set_attributes,
                    final(self).attributes().handed(),
                    status,
                ) && r == outcome(status),
    {
        self.baud_rate = pick(baud_rate, self.baud_rate);
        self.receive_fifo_depth = pick(receive_fifo_depth, self.receive_fifo_depth);
        self.timeout = pick(timeout, self.timeout);
        self.parity = pick(parity, self.parity);
        self.data_bits = pick(data_bits, self.data_bits);
        self.stop_bits = pick(stop_bits, self.stop_bits);
        self.set_attributes()
    }

    /// Write a string to the serial device, after setting the chosen
    /// attributes. Nothing is written where the attributes cannot be set: the
    /// device's write need only be callable once the attributes are set.
    pub fn write(&self, data: &str) -> (r: Result<usize, Status>)
        requires
            call_requires(self.raw().set_attributes, self.attributes().handed()),
            call_ensures(
                self.raw().set_attributes,
                self.attributes().handed(),
                Status::Success,
            ) ==> forall|bytes: &[u8]|
                bytes@ == data.spec_bytes() ==> call_requires(self.raw().write, (bytes,)),
        ensures
            exists|set: Status| #[trigger]
                call_ensures(self.raw().set_attributes, self.attributes().handed(), set) && (set
                    != Status::Success ==> r == Err::<usize, Status>(set)) && (set
                    == Status::Success ==> exists|status: Status, written: usize, bytes: &[u8]|
                    bytes@ == data.spec_bytes() && #[trigger] call_ensures(
                        self.raw().write,
                        (bytes,),
                        (status, written),
                    ) && r == outcome_with(status, written)),
    {
        match self.set_attributes() {
            Err(e) => Err(e),
            Ok(_) => self.raw_protocol.write(data),
        }
    }

    /// Read up to `length` bytes from the serial device, after setting the
    /// chosen attributes. Nothing is read where the attributes cannot be set:
    /// the device's read need only be callable once the attributes are set.
    pub fn read_bytes(&self, length: usize) -> (r: Result<Option<Vec<u8>>, Status>)
        requires
            call_requires(self.raw().set_attributes, self.attributes().handed()),
            call_ensures(
                self.raw().set_attributes,
                self.attributes().handed(),
                Status::Success,
            ) ==> call_requires(self.raw().read, (length,)),
        ensures
            exists|set: Status| #[trigger]
                call_ensures(self.raw().set_attributes, self.attributes().handed(), set) && (set
                    != Status::Success ==> r == Err::<Option<Vec<u8>>, Status>(set)) && (set
                    == Status::Success ==> exists|status: Status, data: Vec<u8>| #[trigger]
                    call_ensures(self.raw().read, (length,), (status, data)) && data_of(r)
                        == read_outcome(status, data@)),
    {
        match self.set_attributes() {
            Err(e) => Err(e),
            Ok(_) => self.raw_protocol.read_bytes(length),
        }
    }
}

} // verus!
