//! What can go wrong.

use crate::lsdl::FirmwareStatus;
use crate::lsdl::PropertyId;
use crate::radiomodule::ApiResultCode;
use vstd::prelude::*;

verus! {

/// The fields of a stored value.
#[derive(Clone, Copy, Debug, PartialEq, Eq, Structural)]
pub enum ValueField {
    Id,
    Timestamp,
    Value,
}

/// The fields of a download request.
#[derive(Clone, Copy, Debug, PartialEq, Eq, Structural)]
pub enum DownloadField {
    Slot,
    Checksum,
    ContentTag,
    Data,
}

/// Every failure that the library reports.
#[derive(Clone, Copy, Debug, PartialEq, Eq, Structural)]
pub enum Error {
    /// An IPv4 address has no flow information.
    NoFlowinfo,
    /// There are fewer bytes than were asked for.
    ShortRead,
    /// The magic is not that of a firmware container.
    UnsupportedMagic,
    /// The format version of a firmware container is not known.
    UnsupportedFormatVersion,
    /// Bytes are not valid UTF-8.
    InvalidUtf8,
    /// A firmware container has no image for the main slot, or one for a lower
    /// slot.
    NoMainImage,
    /// A checksum does not match.
    InvalidChecksum,
    /// A firmware container has no image with this index.
    NoSuchImage,
    /// An image does not lie inside the data.
    ImageOutsideData,
    /// A chunk was sent as often as allowed.
    OutOfAttempts,
    /// There are no more chunk indices.
    IndexOverflow,
    /// The device reported a wrong offset, but not the right one.
    MissingOffset,
    /// The device asked for an offset that is not a multiple of the chunk size.
    OffsetNotOnChunk,
    /// A device description lacks this property.
    MissingProperty(PropertyId),
    /// A property cannot be read as what it has to be.
    InvalidProperty(PropertyId),
    /// A SGTIN does not have twelve bytes.
    UnsupportedSgtinLength,
    /// A flag is neither 0 nor 1.
    InvalidFlag,
    /// A value description does not have exactly one format.
    InvalidFormatCount,
    /// The mode of a value description is not known.
    UnsupportedMode,
    /// The type of a value description is not known.
    UnsupportedType,
    /// A value is not of the type that its description, or the caller, asks
    /// for.
    TypeMismatch,
    /// A value is longer than its description allows.
    ValueTooLong,
    /// A value can only be read.
    ReadOnlyValue,
    /// A value is given in more than one way.
    MultipleTypes,
    /// A value is not given at all.
    NoType,
    /// Text is not hexadecimal.
    InvalidHex,
    /// A value has no id.
    MissingValueId,
    /// A field is given twice.
    DuplicateField(ValueField),
    /// A field is not given.
    MissingField(ValueField),
    /// There is no description for a value.
    NoValueDescription,
    /// There is no value for a description.
    NoValue,
    /// Two descriptions are for the same value.
    DuplicateDescription,
    /// There are not as many values as descriptions.
    CountMismatch,
    /// A value does not have the size that it has to have.
    InvalidSize,
    /// A number does not fit.
    OutOfRange,
    /// The device is not included.
    NotIncluded,
    /// There is only one instance of an object.
    NonZeroObjectInstance,
    /// There is only one instance of a resource.
    NonZeroResourceInstance,
    /// A number has a fraction where it must not.
    HasFraction,
    /// A value has no name.
    NoName,
    /// Data of this kind cannot be written.
    UnsupportedData,
    /// Nothing like this is supported.
    Unsupported,
    /// The device did not take the announcement of an upload.
    InitRefused(FirmwareStatus),
    /// The device expects another size.
    SizeMismatch,
    /// Another upload to this slot is running.
    UploadRunning(u32),
    /// An upload or an update is running.
    UpdateInProgress,
    /// There is no complete upload that could be installed.
    NotDownloaded,
    /// The device has not received everything.
    IncompleteDownload,
    /// The device cannot be reset after an upload.
    ResetNotSupported,
    /// The device did not install the update.
    UpdateRefused(FirmwareStatus),
    /// Not as many values were given as have to be.
    InvalidValueCount,
    /// A field of a download request is not given.
    MissingDownloadField(DownloadField),
    /// A field of a download request is of another type.
    InvalidDownloadField(DownloadField),
    /// A socket was closed.
    StreamEnded,
    /// A point in time cannot be represented.
    TimeOverflow,
    /// A message was answered though no answer was expected.
    UnexpectedResponse,
    /// The address of a device is not an IPv6 address.
    Ipv6Required,
    /// The device did not answer.
    RequestFailed,
    /// The queue of a device was closed.
    QueueClosed,
    /// The error queue of a socket could not be read.
    ErrorQueueFailed,
    /// The error queue of a socket could not be read as a whole.
    ErrorQueueTruncated,
    /// A traffic class does not fit into eight bits.
    TrafficClassTooBig,
    /// A packet has no sender.
    NoSender,
    /// A packet does not come from an IP address.
    NoInetSender,
    /// A packet was not sent as a whole.
    ShortWrite,
    /// The API version of the radio module is not known.
    InvalidApiVersion,
    /// The connection to the radio module was lost.
    ConnectionLost,
    /// The radio module did not do what it was asked for.
    ApiError(ApiResultCode),
    /// An address is not an IPv6 address.
    UnsupportedAddress,
    /// An interface has more than one address.
    MultipleAddresses,
    /// An interface has no address.
    NoAddress,
    /// Text is not a MAC address.
    InvalidMacAddress,
    /// A modulus and an exponent are not a public key.
    InvalidPublicKey,
    /// A message is too long for a public key.
    EncryptionFailed,
    /// A message was not confirmed in time.
    NotConfirmed,
    /// A device does not say how many values it has.
    NoMemoryInformation,
    /// A device listens on another wakeup channel than it was told to.
    WrongWakeupChannel,
    /// There was no status message yet.
    MissingStatus,
    /// A request is for another service.
    UnsupportedService,
    /// A request has a path that nothing is found under.
    UnsupportedPath,
    /// There is no such device.
    DeviceNotFound,
    /// There is data already where other data should be moved to.
    WorkdirNotEmpty,
    /// All source ports are taken.
    NoFreePort,
    /// Every wakeup channel is in the channel map.
    NoMatchingChannel,
    /// A wakeup channel has as many users as can be counted.
    OutOfChannels,
    /// There is no wakeup channel with this number.
    ChannelOutOfRange,
}

} // verus!
