//! The object through which data is uploaded to a device.

use crate::device::Device;
use crate::device::fota::DataDownload;
use crate::device::fota::FirmwareUploadKind;
use crate::device::fota::FirmwareUploadState;
use crate::device::fota::InitNext;
use crate::device::fota::on_firmware_info;
use crate::device::fota::on_init_report;
use crate::digest;
use crate::digest::xmodem_checksum;
use crate::error::DownloadField;
use crate::error::Error;
use crate::lsdl::FirmwareReport;
use crate::lwm2m::DataDownloadStatus;
use crate::lwm2m::Resource;
use crate::time::Nanos;
use vstd::prelude::*;

verus! {

/// A field of a request that has to be a number.
#[derive(Clone, Copy, Debug, PartialEq, Eq, Structural)]
pub enum NumberField {
    Missing,
    /// It is not an unsigned number.
    WrongType,
    Number(u64),
}

/// A field of a request that has to be bytes.
#[derive(Debug)]
pub enum BytesField {
    Missing,
    WrongType,
    Bytes(Vec<u8>),
}

/// A request to upload data.
#[derive(Debug)]
pub struct DownloadRequest {
    /// How many fields there are in all.
    pub count: usize,
    pub slot: NumberField,
    pub checksum: NumberField,
    pub content_tag: NumberField,
    pub data: BytesField,
}

/// Data to upload.
#[derive(Debug)]
pub struct Download {
    pub slot: u32,
    pub checksum: u16,
    pub content_tag: u32,
    pub data: Vec<u8>,
}

/// What a number field is good for, with the greatest number that it may hold.
pub open spec fn number_error(
    field: NumberField,
    max: u64,
    which: DownloadField,
) -> Option<Error> {
    match field {
        NumberField::Missing => Some(Error::MissingDownloadField(which)),
        NumberField::WrongType => Some(Error::InvalidDownloadField(which)),
        NumberField::Number(number) => if number > max {
            Some(Error::InvalidDownloadField(which))
        } else {
            None
        },
    }
}

fn number_field(field: NumberField, max: u64, which: DownloadField) -> (res: Result<u64, Error>)
    ensures
        match res {
            Ok(number) => number_error(field, max, which) is None && field == NumberField::Number(
                number,
            ),
            Err(e) => number_error(field, max, which) == Some(e),
        },
{
    match field {
        NumberField::Missing => Err(Error::MissingDownloadField(which)),
        NumberField::WrongType => Err(Error::InvalidDownloadField(which)),
        NumberField::Number(number) => if number > max {
            Err(Error::InvalidDownloadField(which))
        } else {
            Ok(number)
        },
    }
}

/// What is wrong with a request whose data has this checksum.
pub open spec fn request_error_with(request: DownloadRequest, actual: u16) -> Option<Error> {
    if request.count != 4 {
        Some(Error::InvalidValueCount)
    } else if number_error(request.slot, u32::MAX as u64, DownloadField::Slot) is Some {
        number_error(request.slot, u32::MAX as u64, DownloadField::Slot)
    } else if number_error(request.checksum, u16::MAX as u64, DownloadField::Checksum) is Some {
        number_error(request.checksum, u16::MAX as u64, DownloadField::Checksum)
    } else if number_error(request.content_tag, u32::MAX as u64, DownloadField::ContentTag)
        is Some {
        number_error(request.content_tag, u32::MAX as u64, DownloadField::ContentTag)
    } else {
        match request.data {
            BytesField::Missing => Some(Error::MissingDownloadField(DownloadField::Data)),
            BytesField::WrongType => Some(Error::InvalidDownloadField(DownloadField::Data)),
            BytesField::Bytes(_) => if actual != request.checksum->Number_0 {
                Some(Error::InvalidChecksum)
            } else {
                None
            },
        }
    }
}

/// The checksum of the data in a request; 0 if there is none.
pub open spec fn data_checksum(request: DownloadRequest) -> u16 {
    match request.data {
        BytesField::Bytes(data) => digest::crc16_xmodem(data@),
        _ => 0,
    }
}

/// What is wrong with a request.
pub open spec fn request_error(request: DownloadRequest) -> Option<Error> {
    request_error_with(request, data_checksum(request))
}

/// Whether a download is what a request asks for.
pub open spec fn is_requested(download: Download, request: DownloadRequest) -> bool {
    &&& request.slot == NumberField::Number(download.slot as u64)
    &&& request.checksum == NumberField::Number(download.checksum as u64)
    &&& request.content_tag == NumberField::Number(download.content_tag as u64)
    &&& request.data == BytesField::Bytes(download.data)
}

/// The data that a request asks to upload, where `actual` is its checksum.
pub fn parse_download_with(request: DownloadRequest, actual: u16) -> (res: Result<Download, Error>)
    ensures
        match res {
            Ok(download) => {
                &&& request_error_with(request, actual) is None
                &&& is_requested(download, request)
                &&& download.checksum == actual
            },
            Err(e) => request_error_with(request, actual) == Some(e),
        },
{
    if request.count != 4 {
        return Err(Error::InvalidValueCount);
    }
    let slot: u64 = number_field(request.slot, 0xffff_ffff, DownloadField::Slot)?;
    let checksum: u64 = number_field(request.checksum, 0xffff, DownloadField::Checksum)?;
    let content_tag: u64 = number_field(
        request.content_tag,
        0xffff_ffff,
        DownloadField::ContentTag,
    )?;
    let data: Vec<u8> = match request.data {
        BytesField::Missing => {
            return Err(Error::MissingDownloadField(DownloadField::Data));
        },
        BytesField::WrongType => {
            return Err(Error::InvalidDownloadField(DownloadField::Data));
        },
        BytesField::Bytes(data) => data,
    };
    if actual != checksum as u16 {
        return Err(Error::InvalidChecksum);
    }
    Ok(
        Download {
            slot: slot as u32,
            checksum: checksum as u16,
            content_tag: content_tag as u32,
            data,
        },
    )
}

/// The data that a request asks to upload. All four fields have to be there and
/// fit, and the checksum has to be that of the data.
pub fn parse_download(request: DownloadRequest) -> (res: Result<Download, Error>)
    ensures
        match res {
            Ok(download) => {
                &&& request_error(request) is None
                &&& is_requested(download, request)
                &&& digest::crc16_xmodem(download.data@) == download.checksum
            },
            Err(e) => request_error(request) == Some(e),
        },
{
    let actual: u16 = match &request.data {
        BytesField::Bytes(data) => xmodem_checksum(data.as_slice()),
        _ => 0,
    };
    parse_download_with(request, actual)
}

/// What follows the announcement of a data upload.
#[derive(Clone, Copy, Debug, PartialEq, Eq, Structural)]
pub enum DownloadNext {
    /// The device has the data already; it only has to be activated.
    Activate,
    /// The device has to be asked for the chunk size.
    AskForChunkSize,
}

impl Device {
    /// Whether a running upload has to be given up for a data upload to this
    /// slot. Another data upload is only given up if it is to the same slot.
    pub fn download_conflict(&self, slot: u32) -> (res: Result<bool, Error>)
        ensures
            match self.upload_state {
                None => res == Ok::<bool, Error>(false),
                Some(state) => match state.kind {
                    FirmwareUploadKind::Fota { .. } => res == Ok::<bool, Error>(true),
                    FirmwareUploadKind::Data { slot: current, .. } => if current == slot {
                        res == Ok::<bool, Error>(true)
                    } else {
                        res == Err::<bool, Error>(Error::UploadRunning(current))
                    },
                },
            },
    {
        match &self.upload_state {
            None => Ok(false),
            Some(state) => match &state.kind {
                FirmwareUploadKind::Fota { .. } => Ok(true),
                FirmwareUploadKind::Data { slot: current, .. } => if *current == slot {
                    Ok(true)
                } else {
                    Err(Error::UploadRunning(*current))
                },
            },
        }
    }

    /// Starts a data upload, once the device has told what it expects. The
    /// upload runs as soon as the state that is handed back is set, which is to
    /// happen after the start was published.
    pub fn start_download(
        &mut self,
        download: Download,
        size: u32,
        chunk_size: u32,
        now: Nanos,
        wall_clock: Nanos,
    ) -> (res: Result<FirmwareUploadState, Error>)
        ensures
            if download.data@.len() != size {
                &&& res == Err::<FirmwareUploadState, Error>(Error::SizeMismatch)
                &&& *final(self) == *old(self)
            } else {
                &&& res == Ok::<FirmwareUploadState, Error>(
                    FirmwareUploadState {
                        chunk_size: chunk_size as usize,
                        index: 0,
                        attempts_left: crate::device::fota::CHUNK_ATTEMPTS,
                        blocked_count: 0,
                        kind: FirmwareUploadKind::Data {
                            data: download.data,
                            slot: download.slot,
                        },
                        next_attempt: None,
                        started: now,
                    },
                )
                &&& *final(self) == (Device {
                    data_download: DataDownload {
                        status: DataDownloadStatus::Uploading,
                        status_time: Some(wall_clock),
                        slot: download.slot as i64,
                        checksum: download.checksum as i64,
                        content_tag: download.content_tag as i64,
                        start_time: Some(wall_clock),
                    },
                    ..*old(self)
                })
            },
    {
        let chunk_size: usize = on_firmware_info(download.data.len(), size, chunk_size)?;
        self.data_download = DataDownload {
            status: DataDownloadStatus::Uploading,
            status_time: Some(wall_clock),
            slot: download.slot as i64,
            checksum: download.checksum as i64,
            content_tag: download.content_tag as i64,
            start_time: Some(wall_clock),
        };
        let kind = FirmwareUploadKind::Data { data: download.data, slot: download.slot };
        Ok(FirmwareUploadState::new(chunk_size, kind, now))
    }

    /// The slot of the last data upload, and when it was set.
    pub fn download_slot(&self) -> (res: (i64, Option<Nanos>))
        ensures
            res == (self.data_download.slot, self.data_download.start_time),
    {
        (self.data_download.slot, self.data_download.start_time)
    }

    pub fn download_checksum(&self) -> (res: (i64, Option<Nanos>))
        ensures
            res == (self.data_download.checksum, self.data_download.start_time),
    {
        (self.data_download.checksum, self.data_download.start_time)
    }

    pub fn download_content_tag(&self) -> (res: (i64, Option<Nanos>))
        ensures
            res == (self.data_download.content_tag, self.data_download.start_time),
    {
        (self.data_download.content_tag, self.data_download.start_time)
    }

    pub fn download_status(&self) -> (res: (DataDownloadStatus, Option<Nanos>))
        ensures
            res == (self.data_download.status, self.data_download.status_time),
    {
        (self.data_download.status, self.data_download.status_time)
    }

    /// The parts of a data upload cannot be written one by one.
    pub fn set_download_part(&mut self) -> (res: Result<(), Error>)
        ensures
            res == Err::<(), Error>(Error::Unsupported),
            *final(self) == *old(self),
    {
        Err(Error::Unsupported)
    }
}

/// The resources that are published when a data upload has started.
pub fn changed_by_download() -> (res: Vec<Resource>)
    ensures
        res@ == seq![
            Resource::DataDownloadStatus,
            Resource::DataDownloadSlot,
            Resource::DataDownloadChecksum,
            Resource::DataDownloadContentTag,
        ],
{
    let mut res: Vec<Resource> = Vec::new();
    res.push(Resource::DataDownloadStatus);
    res.push(Resource::DataDownloadSlot);
    res.push(Resource::DataDownloadChecksum);
    res.push(Resource::DataDownloadContentTag);
    res
}

/// Decides how a data upload goes on once the device has answered its
/// announcement.
pub fn on_download_report(len: usize, report: FirmwareReport) -> (res: Result<DownloadNext, Error>)
    ensures
        if report.status != crate::lsdl::FirmwareStatus::Accepted {
            res == Err::<DownloadNext, Error>(Error::InitRefused(report.status))
        } else if len > u32::MAX {
            res == Err::<DownloadNext, Error>(Error::OutOfRange)
        } else if report.expected_offset == Some(len as u32) {
            res == Ok::<DownloadNext, Error>(DownloadNext::Activate)
        } else {
            res == Ok::<DownloadNext, Error>(DownloadNext::AskForChunkSize)
        },
{
    match on_init_report(len, report) {
        Ok(InitNext::Skip) => Ok(DownloadNext::Activate),
        Ok(InitNext::AskForChunkSize) => Ok(DownloadNext::AskForChunkSize),
        Err(e) => Err(e),
    }
}

/// A number field is good if it holds a number that is not above the greatest
/// one. A missing field is told apart from one that cannot be used.
pub proof fn law_number_fields(field: NumberField, max: u64, number: u64, which: DownloadField)
    ensures
        number <= max ==> number_error(NumberField::Number(number), max, which) is None,
        number > max ==> number_error(NumberField::Number(number), max, which) == Some(
            Error::InvalidDownloadField(which),
        ),
        number_error(NumberField::Missing, max, which) == Some(Error::MissingDownloadField(which)),
        number_error(NumberField::WrongType, max, which) == Some(
            Error::InvalidDownloadField(which),
        ),
{
}

/// A request is accepted if it has exactly its four fields, the numbers fit, and
/// the checksum is that of the data, and only then.
pub proof fn law_which_requests_are_accepted(request: DownloadRequest)
    ensures
        request_error(request) is None <==> {
            &&& request.count == 4
            &&& request.slot matches NumberField::Number(slot) && slot <= 0xffff_ffff
            &&& request.content_tag matches NumberField::Number(tag) && tag <= 0xffff_ffff
            &&& request.checksum matches NumberField::Number(checksum)
            &&& request.data matches BytesField::Bytes(data)
            &&& checksum == digest::crc16_xmodem(data@)
        },
        request.count != 4 ==> request_error(request) == Some(Error::InvalidValueCount),
{
}

/// What is wrong with a request of four fields is said of the first field that
/// cannot be used: the slot, the checksum, the content tag, the data. The
/// checksum is compared last.
pub proof fn law_first_bad_field(request: DownloadRequest)
    requires
        request.count == 4,
    ensures
        match request.slot {
            NumberField::Missing => request_error(request) == Some(
                Error::MissingDownloadField(DownloadField::Slot),
            ),
            NumberField::WrongType => request_error(request) == Some(
                Error::InvalidDownloadField(DownloadField::Slot),
            ),
            NumberField::Number(slot) => slot > 0xffff_ffff ==> request_error(request) == Some(
                Error::InvalidDownloadField(DownloadField::Slot),
            ),
        },
        request.slot matches NumberField::Number(slot) ==> slot <= 0xffff_ffff ==> {
            &&& request.checksum == NumberField::Missing ==> request_error(request) == Some(
                Error::MissingDownloadField(DownloadField::Checksum),
            )
            &&& request.checksum == NumberField::WrongType ==> request_error(request) == Some(
                Error::InvalidDownloadField(DownloadField::Checksum),
            )
            &&& request.checksum matches NumberField::Number(checksum) ==> {
                &&& checksum > 0xffff ==> request_error(request) == Some(
                    Error::InvalidDownloadField(DownloadField::Checksum),
                )
                &&& checksum <= 0xffff ==> {
                    &&& request.content_tag == NumberField::Missing ==> request_error(request)
                        == Some(Error::MissingDownloadField(DownloadField::ContentTag))
                    &&& request.content_tag == NumberField::WrongType ==> request_error(request)
                        == Some(Error::InvalidDownloadField(DownloadField::ContentTag))
                    &&& request.content_tag matches NumberField::Number(tag) ==> {
                        &&& tag > 0xffff_ffff ==> request_error(request) == Some(
                            Error::InvalidDownloadField(DownloadField::ContentTag),
                        )
                        &&& tag <= 0xffff_ffff ==> match request.data {
                            BytesField::Missing => request_error(request) == Some(
                                Error::MissingDownloadField(DownloadField::Data),
                            ),
                            BytesField::WrongType => request_error(request) == Some(
                                Error::InvalidDownloadField(DownloadField::Data),
                            ),
                            BytesField::Bytes(data) => checksum != digest::crc16_xmodem(data@)
                                ==> request_error(request) == Some(Error::InvalidChecksum),
                        }
                    }
                }
            }
        },
{
}

/// A download holds what its request says, and there is no other one for that
/// request.
pub proof fn law_download_of_a_request(download: Download, request: DownloadRequest)
    requires
        is_requested(download, request),
    ensures
        request.slot matches NumberField::Number(slot) && slot == download.slot,
        request.checksum matches NumberField::Number(checksum) && checksum == download.checksum,
        request.content_tag matches NumberField::Number(tag) && tag == download.content_tag,
        request.data matches BytesField::Bytes(data) && data == download.data,
        forall|other: Download| #[trigger] is_requested(other, request) ==> other == download,
{
}

} // verus!
