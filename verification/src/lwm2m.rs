//! The LwM2M states that are reported for a device.

use crate::lsdl::Float;
use vstd::prelude::*;

verus! {

#[derive(Clone, Copy, Debug, PartialEq, Eq, Structural)]
pub enum FirmwareUpdateState {
    Idle,
    Downloading,
    DownloadComplete,
    Updating,
}

#[derive(Clone, Copy, Debug, PartialEq, Eq, Structural)]
pub enum FirmwareUpdateResult {
    Initial,
    Success,
    NoFlash,
    OutOfRam,
    ConnectionLost,
    IntegrityCheckFail,
    UnsupportedPackageType,
    InvalidUri,
    UpdateFailed,
    UnsupportedProtocol,
}

#[derive(Clone, Copy, Debug, PartialEq, Eq, Structural)]
pub enum DataDownloadStatus {
    Idle,
    Uploading,
    UploadFailed,
    Activating,
    ActivationFailed,
    Activated,
}

/// The objects that a device offers.
#[derive(Clone, Copy, Debug, PartialEq, Eq, Structural)]
pub enum ObjectType {
    Device,
    FirmwareUpdate,
    ConnectionStatus,
    Lemonbeat,
    DataDownload,
    LemonbeatStatusMessage,
}

/// The resources of the objects.
#[derive(Clone, Copy, Debug, PartialEq, Eq, Structural)]
pub enum Resource {
    DeviceManufacturer,
    DeviceModelNumber,
    DeviceSerialNumber,
    DeviceFirmwareVersion,
    DeviceErrorCode,
    DeviceSupportedBindingAndModes,
    DeviceDeviceType,
    DeviceSoftwareVersion,
    DeviceHardwareVersion,
    DeviceUtcOffset,
    DataDownloadSlot,
    DataDownloadChecksum,
    DataDownloadContentTag,
    DataDownloadStatus,
    FirmwareUpdatePackage,
    FirmwareUpdatePackageUri,
    FirmwareUpdateUpdate,
    FirmwareUpdateState,
    FirmwareUpdateUpdateResult,
    FirmwareUpdateDeliveryMethod,
    FirmwareUpdatePkgVersion,
    ConnectionStatusOnline,
    StatusMessageType,
    StatusMessageCode,
    StatusMessageLevel,
    StatusMessageData,
    /// A value of the device, by its resource id.
    Lemonbeat(usize),
}

/// How a number that is read as a resource turns out. Whole numbers are handed
/// out as integers where the step of the value is one.
#[derive(Clone, Copy, Debug, PartialEq, Eq, Structural)]
pub enum NumberReading {
    /// The step is not one.
    Float,
    /// Not a number.
    NotANumber,
    /// Not a whole number, though the step is one.
    Fraction,
    Negative(i64),
    Positive(u64),
    /// Too big for an integer.
    TooBig,
}

/// The data of a resource.
#[derive(Debug)]
pub enum ResourceData {
    NoInteger,
    Signed(i64),
    Unsigned(u64),
    Float(Float),
    Text(String),
    Opaque(Vec<u8>),
}

/// Data that is written to a resource.
#[derive(Debug)]
pub enum WriteData {
    /// A number of any kind, as a floating point number.
    Number(Float),
    Text(String),
    Opaque(Vec<u8>),
    /// No data, or of a kind that no value has.
    Unsupported,
}

/// What may be done with a resource.
#[derive(Clone, Copy, Debug, PartialEq, Eq, Structural)]
pub struct Operations {
    pub read: bool,
    pub write: bool,
}

} // verus!
