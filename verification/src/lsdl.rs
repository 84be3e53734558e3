//! What the library reads from the messages of a device.

use vstd::prelude::*;

verus! {

/// How a device answers a step of a firmware upload.
#[derive(Clone, Copy, Debug, PartialEq, Eq, Structural)]
pub enum FirmwareStatus {
    Accepted,
    Refused,
    WrongOffset,
    BlockedByApplication,
    TooBig,
    ChecksumErr,
    Other(u32),
}

/// A firmware report.
#[derive(Clone, Copy, Debug, PartialEq, Eq, Structural)]
pub struct FirmwareReport {
    pub status: FirmwareStatus,
    /// The offset that the device expects next.
    pub expected_offset: Option<u32>,
}

/// The properties of a device description.
#[derive(Clone, Copy, Debug, PartialEq, Eq, Structural)]
pub enum PropertyId {
    Manufacturer,
    ApplicationVersion,
    HardwareVersion,
    BootloaderVersion,
    StackVersion,
    Protocol,
    Type,
    Product,
    Included,
    Name,
    Sgtin,
    RadioMode,
    WakeupChannel,
    ChannelMap,
    Uptime,
    ChannelScanTime,
    DiversityMode,
    Ipv6Address,
    MacAddress,
    TxPower,
    WakeupInterval,
    WakeupNow,
    WakeupOffset,
}

/// The manufacturer of a device; one that this gateway does not serve is known
/// by its code only.
#[derive(Clone, Copy, Debug, PartialEq, Eq, Structural)]
pub enum Manufacturer {
    Gardena,
    Other(u64),
}

/// The communication protocol of a device, by its code.
#[derive(Clone, Copy, Debug, PartialEq, Eq, Structural)]
pub struct Protocol {
    pub code: u64,
}

/// When a device listens.
#[derive(Clone, Copy, Debug, PartialEq, Eq, Structural)]
pub enum RadioMode {
    AlwaysOnline,
    WakeOnRadio,
    Other(u64),
}

/// A property of a device description, with everything that its value can be
/// read as.
#[derive(Debug)]
pub struct Property {
    /// Nothing for a property that is not known.
    pub id: Option<PropertyId>,
    pub number: Option<u64>,
    pub text: Option<String>,
    pub hex: Option<Vec<u8>>,
    pub manufacturer: Option<Manufacturer>,
    pub protocol: Option<Protocol>,
    pub radio_mode: Option<RadioMode>,
}

/// What a device has memory for.
#[derive(Clone, Copy, Debug, PartialEq, Eq, Structural)]
pub enum MemoryId {
    Value,
    Other(u32),
}

/// What may be done with a value.
#[derive(Clone, Copy, Debug, PartialEq, Eq, Structural)]
pub enum Permission {
    ReadOnly,
    ReadWrite,
    WriteOnly,
}

/// What a value stands for.
#[derive(Clone, Copy, Debug, PartialEq, Eq, Structural)]
pub enum ValueType {
    GeneralPurpose,
    Counter,
    Other(u32),
}

/// A 64 bit floating point number, by its bits.
#[derive(Clone, Copy, Debug, PartialEq, Eq, Structural)]
pub struct Float {
    pub bits: u64,
}

/// The bits of "not a number".
pub const NAN_BITS: u64 = 0x7ff8_0000_0000_0000;

/// The format that a device reports for a value.
#[derive(Debug)]
pub enum FormatReport {
    Number { unit: String, min: Float, max: Float, step: Float },
    Text { max_length: u32 },
    HexBinary { max_length: u32 },
}

/// A value description as a device reports it.
#[derive(Debug)]
pub struct ValueDescriptionReport {
    pub value_id: u32,
    /// Nothing for a mode that is not known.
    pub permission: Option<Permission>,
    pub name: Option<String>,
    /// Nothing for a type that is not known.
    pub value_type: Option<ValueType>,
    pub persistent: u32,
    pub virtual_value: Option<u32>,
    pub formats: Vec<FormatReport>,
}

/// A value as a device reports it.
#[derive(Debug)]
pub struct ValueReport {
    pub value_id: Option<u32>,
    pub timestamp: u64,
    pub number: Option<Float>,
    pub text: Option<String>,
    pub hex_binary: Option<String>,
}

/// A part of what a device answers when it is asked for its values.
#[derive(Debug)]
pub enum ValueResponse {
    Report(ValueReport),
    /// Anything else.
    Other,
}

/// A new value for a device.
#[derive(Debug)]
pub struct ValueSet {
    pub value_id: u32,
    pub timestamp: u64,
    pub number: Option<Float>,
    pub text: Option<String>,
    pub hex_binary: Option<String>,
}

/// What a status message says, as far as something waits for it.
#[derive(Clone, Copy, Debug, PartialEq, Eq, Structural)]
pub enum StatusCode {
    /// The device has been woken up.
    Awake,
    /// The device is about to forget everything.
    FactoryResetPending,
    /// The device has begun to take a new configuration.
    ConfigurationStarted,
    Other,
}

/// A status message of a device.
#[derive(Debug)]
pub struct RawStatus {
    pub type_id: u32,
    pub code: u32,
    pub level: u32,
    pub data: Option<String>,
}

} // verus!
