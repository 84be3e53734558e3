//! Uploads by the Lemonbeat firmware upload protocol: firmware images and data
//! downloads.

use crate::bigint;
use crate::device::container::FirmwareContainer;
use crate::digest;
use crate::digest::content_tag_checksum;
use crate::error::Error;
use crate::hexcode;
use crate::hexcode::encode;
use crate::lsdl::FirmwareReport;
use crate::lsdl::FirmwareStatus;
use crate::lwm2m::DataDownloadStatus;
use crate::lwm2m::FirmwareUpdateResult;
use crate::lwm2m::FirmwareUpdateState;
use crate::random::random_below;
use crate::time::MAX_DURATION;
use crate::time::NANOS_PER_MILLI;
use crate::time::Nanos;
use crate::time::saturating_add;
use vstd::prelude::*;

verus! {

/// How often a chunk is sent before the upload fails.
pub const CHUNK_ATTEMPTS: usize = 10;

/// How often a device may block a chunk before the upload fails.
pub const MAX_BLOCKED: usize = 3;

/// What is uploaded.
#[derive(Debug)]
pub enum FirmwareUploadKind {
    Fota {
        /// The whole firmware container.
        data: Vec<u8>,
        /// What was parsed from `data`.
        container: FirmwareContainer,
        /// The index of the image that is being uploaded.
        image: usize,
    },
    Data {
        /// The data, whatever it is.
        data: Vec<u8>,
        /// The slot to upload it to.
        slot: u32,
    },
}

impl FirmwareUploadKind {
    /// The bytes that have to reach the device.
    pub open spec fn spec_data(self) -> Result<Seq<u8>, Error> {
        match self {
            FirmwareUploadKind::Fota { data, container, image } => {
                if image >= container.images@.len() {
                    Err(Error::NoSuchImage)
                } else {
                    let image = container.images@[image as int];
                    if image.start <= image.end <= data@.len() {
                        Ok(data@.subrange(image.start as int, image.end as int))
                    } else {
                        Err(Error::ImageOutsideData)
                    }
                }
            },
            FirmwareUploadKind::Data { data, .. } => Ok(data@),
        }
    }

    /// The bytes that have to reach the device. It is an error if there is no
    /// such image.
    pub fn data(&self) -> (res: Result<&[u8], Error>)
        ensures
            match res {
                Ok(data) => self.spec_data() == Ok::<Seq<u8>, Error>(data@),
                Err(e) => self.spec_data() == Err::<Seq<u8>, Error>(e),
            },
    {
        match self {
            FirmwareUploadKind::Fota { data, container, image } => {
                if *image >= container.images.len() {
                    return Err(Error::NoSuchImage);
                }
                let image = container.images[*image];
                if image.start <= image.end && image.end <= data.len() {
                    Ok(vstd::slice::slice_subrange(data.as_slice(), image.start, image.end))
                } else {
                    Err(Error::ImageOutsideData)
                }
            },
            FirmwareUploadKind::Data { data, .. } => Ok(data.as_slice()),
        }
    }
}

/// How far an upload has come.
#[derive(Debug)]
pub struct FirmwareUploadState {
    /// The chunk size that the device asked for. With 0 there is nothing to
    /// send: the device has the data already.
    pub chunk_size: usize,
    /// The index of the next chunk.
    pub index: usize,
    /// The attempts that are left for the next chunk.
    pub attempts_left: usize,
    /// How often the device blocked the next chunk.
    pub blocked_count: usize,
    pub kind: FirmwareUploadKind,
    /// When to send the next chunk, at the earliest.
    pub next_attempt: Option<Nanos>,
    pub started: Nanos,
}

/// A piece of the data.
#[derive(Debug)]
pub struct Chunk {
    /// Where it starts.
    pub offset: usize,
    pub data: Vec<u8>,
    /// Whether nothing comes behind it.
    pub is_last: bool,
}

/// Chunk `index` of `data`: `size` bytes from `index * size` on, or as many as
/// are left.
pub open spec fn chunk_at(data: Seq<u8>, size: int, index: int) -> Seq<u8> {
    if (index + 1) * size <= data.len() {
        data.subrange(index * size, (index + 1) * size)
    } else {
        data.skip(index * size)
    }
}

/// The first `count` chunks one behind the other.
pub open spec fn joined_chunks(data: Seq<u8>, size: int, count: nat) -> Seq<u8>
    decreases count,
{
    if count == 0 {
        Seq::empty()
    } else {
        joined_chunks(data, size, (count - 1) as nat) + chunk_at(data, size, count - 1)
    }
}

impl FirmwareUploadState {
    /// The offset, the bytes and whether it is the last one of the chunk to
    /// send next; nothing if there is no chunk left.
    pub open spec fn spec_next_chunk(self) -> Result<Option<(int, Seq<u8>, bool)>, Error> {
        if self.attempts_left == 0 {
            Err(Error::OutOfAttempts)
        } else if self.chunk_size == 0 {
            Ok(None)
        } else {
            match self.kind.spec_data() {
                Err(e) => Err(e),
                Ok(data) => {
                    let offset = self.index * self.chunk_size;
                    if offset >= data.len() {
                        Ok(None)
                    } else {
                        Ok(
                            Some(
                                (
                                    offset,
                                    chunk_at(data, self.chunk_size as int, self.index as int),
                                    (self.index + 1) * self.chunk_size >= data.len(),
                                ),
                            ),
                        )
                    }
                },
            }
        }
    }

    pub fn new(chunk_size: usize, kind: FirmwareUploadKind, now: Nanos) -> (res: Self)
        ensures
            res == (FirmwareUploadState {
                chunk_size,
                index: 0,
                attempts_left: CHUNK_ATTEMPTS,
                blocked_count: 0,
                kind,
                next_attempt: None,
                started: now,
            }),
    {
        Self {
            chunk_size,
            index: 0,
            attempts_left: CHUNK_ATTEMPTS,
            blocked_count: 0,
            kind,
            next_attempt: None,
            started: now,
        }
    }

    /// The next chunk to upload, or nothing if all is done. Each chunk that is
    /// handed out uses up an attempt.
    pub fn next_chunk(&mut self) -> (res: Result<Option<Chunk>, Error>)
        ensures
            match res {
                Err(e) => old(self).spec_next_chunk() == Err::<
                    Option<(int, Seq<u8>, bool)>,
                    Error,
                >(e) && *final(self) == *old(self),
                Ok(None) => old(self).spec_next_chunk() == Ok::<
                    Option<(int, Seq<u8>, bool)>,
                    Error,
                >(None) && *final(self) == *old(self),
                Ok(Some(chunk)) => {
                    &&& old(self).spec_next_chunk() == Ok::<Option<(int, Seq<u8>, bool)>, Error>(
                        Some((chunk.offset as int, chunk.data@, chunk.is_last)),
                    )
                    &&& *final(self) == (FirmwareUploadState {
                        attempts_left: (old(self).attempts_left - 1) as usize,
                        ..*old(self)
                    })
                },
            },
    {
        if self.attempts_left == 0 {
            return Err(Error::OutOfAttempts);
        }
        if self.chunk_size == 0 {
            return Ok(None);
        }
        let chunk: Chunk;
        match self.kind.data() {
            Err(e) => {
                return Err(e);
            },
            Ok(data) => {
                let size: usize = self.chunk_size;
                assert(data.len() == data@.len());
                let offset: usize = match self.index.checked_mul(size) {
                    None => {
                        return Ok(None);
                    },
                    Some(offset) => offset,
                };
                if offset >= data.len() {
                    return Ok(None);
                }
                proof {
                    assert((self.index + 1) * size == self.index * size + size) by (nonlinear_arith);
                }
                let left: usize = data.len() - offset;
                let end: usize = if left <= size {
                    data.len()
                } else {
                    offset + size
                };
                let bytes = vstd::slice::slice_subrange(data, offset, end);
                assert(bytes@ =~= chunk_at(data@, size as int, self.index as int));
                chunk = Chunk {
                    offset,
                    data: vstd::slice::slice_to_vec(bytes),
                    is_last: left <= size,
                };
            },
        }
        self.attempts_left = self.attempts_left - 1;
        Ok(Some(chunk))
    }

    /// The chunk that was handed out last has reached the device.
    pub fn confirm_receival(&mut self) -> (res: Result<(), Error>)
        ensures
            match res {
                Err(e) => {
                    &&& e == Error::IndexOverflow
                    &&& old(self).index == usize::MAX
                    &&& *final(self) == *old(self)
                },
                Ok(()) => {
                    &&& old(self).index < usize::MAX
                    &&& *final(self) == old(self).moved_to((old(self).index + 1) as usize)
                },
            },
    {
        if self.index == usize::MAX {
            return Err(Error::IndexOverflow);
        }
        self.index = self.index + 1;
        self.attempts_left = CHUNK_ATTEMPTS;
        self.blocked_count = 0;
        Ok(())
    }

    /// The state with another chunk to send next, and all attempts left for it.
    pub open spec fn moved_to(self, index: usize) -> FirmwareUploadState {
        FirmwareUploadState {
            index,
            attempts_left: CHUNK_ATTEMPTS,
            blocked_count: 0,
            ..self
        }
    }

    /// Goes on with another chunk, because the device asked for it.
    pub fn set_index(&mut self, index: usize)
        ensures
            *final(self) == old(self).moved_to(index),
    {
        self.index = index;
        self.attempts_left = CHUNK_ATTEMPTS;
        self.blocked_count = 0;
    }

    pub fn kind(&self) -> (res: &FirmwareUploadKind)
        ensures
            *res == self.kind,
    {
        &self.kind
    }

    /// Puts off the next chunk until `duration` after `now`.
    pub fn wait_for(&mut self, now: Nanos, duration: Nanos)
        requires
            now + duration <= u128::MAX,
        ensures
            *final(self) == (FirmwareUploadState {
                next_attempt: Some((now + duration) as u128),
                ..*old(self)
            }),
    {
        self.next_attempt = Some(now + duration);
    }
}

/// The chunks of some data, one behind the other, are the data: nothing is left
/// out and nothing is sent twice.
pub proof fn law_chunks_make_up_data(data: Seq<u8>, size: int, count: nat)
    requires
        size > 0,
    ensures
        count * size <= data.len() ==> joined_chunks(data, size, count) == data.take(
            (count * size) as int,
        ),
        count > 0 && (count - 1) * size < data.len() <= count * size ==> joined_chunks(
            data,
            size,
            count,
        ) == data,
    decreases count,
{
    if count == 0 {
        assert(0nat * size == 0) by (nonlinear_arith);
        assert(joined_chunks(data, size, 0) =~= data.take(0));
    } else {
        let before = (count - 1) as nat;
        law_chunks_make_up_data(data, size, before);
        assert(count * size == before * size + size) by (nonlinear_arith)
            requires
                count == before + 1,
        ;
        assert(before * size >= 0) by (nonlinear_arith)
            requires
                size > 0,
        ;
        if count * size <= data.len() {
            assert(joined_chunks(data, size, count) =~= data.take((count * size) as int));
            if data.len() == count * size {
                assert(data.take((count * size) as int) =~= data);
            }
        } else if before * size < data.len() {
            assert(joined_chunks(data, size, count) =~= data);
        }
    }
}

/// Why an upload failed.
#[derive(Clone, Copy, Debug, PartialEq, Eq, Structural)]
pub enum FirmwareUploadError {
    OffsetTooBig,
    ChunkTooBig,
    UploadFailed(Error),
    InvalidResponse(Error),
    /// The device reported this status.
    Lsdl(FirmwareStatus),
    Aborted,
    BlockedByDevice,
    MissingState,
    MissingExpectedOffset,
}

/// A chunk as it is sent to the device.
#[derive(Debug)]
pub struct SentChunk {
    pub offset: u32,
    pub len: u32,
    /// The bytes as hexadecimal text.
    pub data: String,
    pub is_last: bool,
}

/// Chooses the chunk to send to the device. Nothing means that the upload is
/// complete.
pub fn begin_chunk(upload: &mut Option<FirmwareUploadState>) -> (res: Result<
    Option<SentChunk>,
    FirmwareUploadError,
>)
    ensures
        match *old(upload) {
            None => res == Err::<Option<SentChunk>, FirmwareUploadError>(
                FirmwareUploadError::MissingState,
            ) && *final(upload) == *old(upload),
            Some(state) => match state.spec_next_chunk() {
                Err(e) => res == Err::<Option<SentChunk>, FirmwareUploadError>(
                    FirmwareUploadError::UploadFailed(e),
                ) && *final(upload) == *old(upload),
                Ok(None) => {
                    &&& res == Ok::<Option<SentChunk>, FirmwareUploadError>(None)
                    &&& *final(upload) == *old(upload)
                },
                Ok(Some((offset, data, is_last))) => {
                    &&& *final(upload) == Some(
                        (FirmwareUploadState {
                            attempts_left: (state.attempts_left - 1) as usize,
                            ..state
                        }),
                    )
                    &&& if offset > u32::MAX {
                        res == Err::<Option<SentChunk>, FirmwareUploadError>(
                            FirmwareUploadError::OffsetTooBig,
                        )
                    } else if data.len() > u32::MAX {
                        res == Err::<Option<SentChunk>, FirmwareUploadError>(
                            FirmwareUploadError::ChunkTooBig,
                        )
                    } else {
                        &&& res matches Ok(Some(sent))
                        &&& sent.offset == offset
                        &&& sent.len == data.len()
                        &&& sent.data@ == hexcode::hex_text(data, false)
                        &&& sent.is_last == is_last
                    }
                },
            },
        },
{
    let next = match upload {
        None => {
            return Err(FirmwareUploadError::MissingState);
        },
        Some(state) => state.next_chunk(),
    };
    let chunk = match next {
        Err(e) => {
            return Err(FirmwareUploadError::UploadFailed(e));
        },
        Ok(None) => {
            return Ok(None);
        },
        Ok(Some(chunk)) => chunk,
    };
    if chunk.offset > 0xffff_ffff {
        return Err(FirmwareUploadError::OffsetTooBig);
    }
    if chunk.data.len() > 0xffff_ffff {
        return Err(FirmwareUploadError::ChunkTooBig);
    }
    Ok(
        Some(
            SentChunk {
                offset: chunk.offset as u32,
                len: chunk.data.len() as u32,
                data: encode(chunk.data.as_slice()),
                is_last: chunk.is_last,
            },
        ),
    )
}

/// What came back for a chunk that was sent.
#[derive(Clone, Copy, Debug, PartialEq, Eq, Structural)]
pub enum ChunkAnswer {
    /// No answer, or none that could be read.
    Failed,
    /// An answer without a firmware report.
    Invalid(Error),
    Report(FirmwareReport),
}

/// What becomes of the upload: whether it is complete, or why it failed.
pub open spec fn report_result(
    state: FirmwareUploadState,
    offset: u32,
    len: u32,
    is_last: bool,
    report: FirmwareReport,
) -> Result<bool, FirmwareUploadError> {
    match report.status {
        FirmwareStatus::Accepted => if state.index == usize::MAX {
            Err(FirmwareUploadError::UploadFailed(Error::IndexOverflow))
        } else {
            Ok(is_last)
        },
        FirmwareStatus::Refused => match report.expected_offset {
            None => Err(FirmwareUploadError::MissingExpectedOffset),
            Some(expected) => if is_last && offset + len == expected {
                if state.index == usize::MAX {
                    Err(FirmwareUploadError::UploadFailed(Error::IndexOverflow))
                } else {
                    Ok(true)
                }
            } else {
                Err(FirmwareUploadError::Lsdl(report.status))
            },
        },
        FirmwareStatus::WrongOffset => match report.expected_offset {
            None => Err(FirmwareUploadError::InvalidResponse(Error::MissingOffset)),
            Some(expected) => if state.kind.spec_data() is Ok && (state.kind.spec_data()->Ok_0).len()
                == expected {
                Ok(true)
            } else if state.chunk_size == 0 || expected as int % state.chunk_size as int != 0 {
                Err(FirmwareUploadError::InvalidResponse(Error::OffsetNotOnChunk))
            } else {
                Ok(false)
            },
        },
        FirmwareStatus::BlockedByApplication => if state.blocked_count + 1 >= MAX_BLOCKED {
            Err(FirmwareUploadError::BlockedByDevice)
        } else {
            Ok(false)
        },
        _ => Err(FirmwareUploadError::Lsdl(report.status)),
    }
}

/// How far the upload has come after a report.
pub open spec fn report_state(
    state: FirmwareUploadState,
    offset: u32,
    len: u32,
    is_last: bool,
    report: FirmwareReport,
) -> FirmwareUploadState {
    let result = report_result(state, offset, len, is_last, report);
    match report.status {
        FirmwareStatus::Accepted | FirmwareStatus::Refused => if result is Ok {
            state.moved_to((state.index + 1) as usize)
        } else {
            state
        },
        FirmwareStatus::WrongOffset => if result == Ok::<bool, FirmwareUploadError>(false) {
            state.moved_to((report.expected_offset->0 as int / state.chunk_size as int) as usize)
        } else {
            state
        },
        FirmwareStatus::BlockedByApplication => FirmwareUploadState {
            blocked_count: if state.blocked_count < usize::MAX {
                (state.blocked_count + 1) as usize
            } else {
                usize::MAX
            },
            ..state
        },
        _ => state,
    }
}

/// Takes account of a firmware report.
fn on_report(
    state: &mut FirmwareUploadState,
    offset: u32,
    len: u32,
    is_last: bool,
    report: FirmwareReport,
) -> (res: Result<bool, FirmwareUploadError>)
    ensures
        res == report_result(*old(state), offset, len, is_last, report),
        *final(state) == report_state(*old(state), offset, len, is_last, report),
{
    match report.status {
        FirmwareStatus::Accepted => match state.confirm_receival() {
            Err(e) => Err(FirmwareUploadError::UploadFailed(e)),
            Ok(()) => Ok(is_last),
        },
        FirmwareStatus::Refused => {
            let expected: u32 = match report.expected_offset {
                None => {
                    return Err(FirmwareUploadError::MissingExpectedOffset);
                },
                Some(expected) => expected,
            };
            if is_last && offset as u64 + len as u64 == expected as u64 {
                match state.confirm_receival() {
                    Err(e) => Err(FirmwareUploadError::UploadFailed(e)),
                    Ok(()) => Ok(true),
                }
            } else {
                Err(FirmwareUploadError::Lsdl(report.status))
            }
        },
        FirmwareStatus::WrongOffset => {
            let expected: usize = match report.expected_offset {
                None => {
                    return Err(FirmwareUploadError::InvalidResponse(Error::MissingOffset));
                },
                Some(expected) => expected as usize,
            };
            let at_end: bool = match state.kind.data() {
                Ok(data) => data.len() == expected,
                Err(_) => false,
            };
            if at_end {
                return Ok(true);
            }
            if state.chunk_size == 0 || expected % state.chunk_size != 0 {
                return Err(FirmwareUploadError::InvalidResponse(Error::OffsetNotOnChunk));
            }
            let index: usize = expected / state.chunk_size;
            state.set_index(index);
            Ok(false)
        },
        FirmwareStatus::BlockedByApplication => {
            state.blocked_count = state.blocked_count.saturating_add(1);
            if state.blocked_count >= MAX_BLOCKED {
                Err(FirmwareUploadError::BlockedByDevice)
            } else {
                Ok(false)
            }
        },
        _ => Err(FirmwareUploadError::Lsdl(report.status)),
    }
}

/// A chunk that the device accepts is never sent again: the next one starts
/// where it ends, and there is one unless it was the last.
pub proof fn law_accepted_chunk_advances(
    state: FirmwareUploadState,
    offset: int,
    data: Seq<u8>,
    is_last: bool,
    report: FirmwareReport,
)
    requires
        state.spec_next_chunk() == Ok::<Option<(int, Seq<u8>, bool)>, Error>(
            Some((offset, data, is_last)),
        ),
        state.index < usize::MAX,
        report.status == FirmwareStatus::Accepted,
        offset <= u32::MAX,
        data.len() <= u32::MAX,
    ensures
        ({
            let after = report_state(state, offset as u32, data.len() as u32, is_last, report);
            &&& report_result(state, offset as u32, data.len() as u32, is_last, report) == Ok::<
                bool,
                FirmwareUploadError,
            >(is_last)
            &&& if is_last {
                after.spec_next_chunk() == Ok::<Option<(int, Seq<u8>, bool)>, Error>(None)
            } else {
                after.spec_next_chunk() matches Ok(Some((next, _, _))) && next == offset
                    + data.len()
            }
        }),
{
    let size = state.chunk_size as int;
    let index = state.index as int;
    assert((index + 1) * size == index * size + size) by (nonlinear_arith);
}

/// After a jump the upload goes on with the chunk at that place, whatever
/// happened before, even if it had run out of attempts: all attempts are there
/// for it again, and earlier refusals are forgotten.
pub proof fn law_jump_goes_on(state: FirmwareUploadState, index: usize, data: Seq<u8>)
    requires
        state.kind.spec_data() == Ok::<Seq<u8>, Error>(data),
        state.chunk_size > 0,
        index * state.chunk_size < data.len(),
    ensures
        ({
            let after = state.moved_to(index);
            let size = state.chunk_size as int;
            let stop = if (index + 1) * size <= data.len() {
                (index + 1) * size
            } else {
                data.len() as int
            };
            &&& after.spec_next_chunk() == Ok::<Option<(int, Seq<u8>, bool)>, Error>(
                Some(
                    (
                        index * size,
                        data.subrange(index * size, stop),
                        (index + 1) * size >= data.len(),
                    ),
                ),
            )
            &&& after.attempts_left == CHUNK_ATTEMPTS
            &&& after.blocked_count == 0
            &&& after.kind == state.kind
            &&& after.chunk_size == state.chunk_size
        }),
{
    let size = state.chunk_size as int;
    assert((index + 1) * size == index * size + size) by (nonlinear_arith);
    assert(index * size >= 0) by (nonlinear_arith)
        requires
            size > 0,
            index >= 0,
    ;
    assert(data.skip(index * size) =~= data.subrange(index * size, data.len() as int));
}

/// The state when the next chunk has been sent: it has used up an attempt, and
/// the one after it has to wait.
pub open spec fn sent_state(state: FirmwareUploadState, next_attempt: Nanos) -> FirmwareUploadState {
    FirmwareUploadState {
        attempts_left: (state.attempts_left - 1) as usize,
        next_attempt: Some(next_attempt),
        ..state
    }
}

/// A chunk that the device blocks is sent again, twice. If it is blocked for the
/// third time, the upload is over.
pub proof fn law_blocked_chunk_ends_upload(
    state: FirmwareUploadState,
    offset: int,
    data: Seq<u8>,
    is_last: bool,
    reports: (FirmwareReport, FirmwareReport, FirmwareReport),
    waits: (Nanos, Nanos, Nanos),
)
    requires
        state.spec_next_chunk() == Ok::<Option<(int, Seq<u8>, bool)>, Error>(
            Some((offset, data, is_last)),
        ),
        offset <= u32::MAX,
        data.len() <= u32::MAX,
        state.blocked_count == 0,
        state.attempts_left >= 3,
        reports.0.status == FirmwareStatus::BlockedByApplication,
        reports.1.status == FirmwareStatus::BlockedByApplication,
        reports.2.status == FirmwareStatus::BlockedByApplication,
    ensures
        ({
            let (at, len) = (offset as u32, data.len() as u32);
            let sent = sent_state(state, waits.0);
            let again = report_state(sent, at, len, is_last, reports.0);
            let sent_again = sent_state(again, waits.1);
            let once_more = report_state(sent_again, at, len, is_last, reports.1);
            let sent_once_more = sent_state(once_more, waits.2);
            &&& report_result(sent, at, len, is_last, reports.0) == Ok::<
                bool,
                FirmwareUploadError,
            >(false)
            &&& again.index == state.index
            &&& again.spec_next_chunk() == state.spec_next_chunk()
            &&& report_result(sent_again, at, len, is_last, reports.1) == Ok::<
                bool,
                FirmwareUploadError,
            >(false)
            &&& once_more.index == state.index
            &&& once_more.spec_next_chunk() == state.spec_next_chunk()
            &&& report_result(sent_once_more, at, len, is_last, reports.2) == Err::<
                bool,
                FirmwareUploadError,
            >(FirmwareUploadError::BlockedByDevice)
        }),
{
}

/// Refusals are counted for one chunk: a report that takes the upload to another
/// one starts the count anew, and sending the chunk leaves the count alone.
pub proof fn law_refusals_are_forgotten(
    state: FirmwareUploadState,
    offset: u32,
    len: u32,
    is_last: bool,
    report: FirmwareReport,
    next_attempt: Nanos,
)
    ensures
        sent_state(state, next_attempt).blocked_count == state.blocked_count,
        report.status == FirmwareStatus::Accepted && state.index < usize::MAX ==> report_state(
            state,
            offset,
            len,
            is_last,
            report,
        ).blocked_count == 0,
        report.status == FirmwareStatus::WrongOffset && report_result(
            state,
            offset,
            len,
            is_last,
            report,
        ) == Ok::<bool, FirmwareUploadError>(false) ==> report_state(
            state,
            offset,
            len,
            is_last,
            report,
        ).blocked_count == 0,
        forall|index: usize| (#[trigger] state.moved_to(index)).blocked_count == 0,
{
}

/// A chunk that does not get through is sent again unchanged as long as an
/// attempt is left, and not once more.
pub proof fn law_failed_chunk_is_repeated(state: FirmwareUploadState, failures: usize)
    requires
        failures <= state.attempts_left,
    ensures
        ({
            let after = FirmwareUploadState {
                attempts_left: (state.attempts_left - failures) as usize,
                ..state
            };
            if failures < state.attempts_left {
                after.spec_next_chunk() == state.spec_next_chunk()
            } else {
                after.spec_next_chunk() == Err::<Option<(int, Seq<u8>, bool)>, Error>(
                    Error::OutOfAttempts,
                )
            }
        }),
{
}

/// What a chunk that was sent leads to.
#[derive(Clone, Copy, Debug, PartialEq, Eq)]
pub struct ChunkOutcome {
    /// Whether the upload is complete, or why it failed.
    pub result: Result<bool, FirmwareUploadError>,
    /// The device counts as offline from now on: no attempt is left.
    pub set_offline: bool,
}

/// The outcome for an upload that was at `state` when the chunk was sent.
pub open spec fn chunk_outcome(
    state: FirmwareUploadState,
    offset: u32,
    len: u32,
    is_last: bool,
    answer: ChunkAnswer,
) -> ChunkOutcome {
    match answer {
        ChunkAnswer::Failed => ChunkOutcome {
            result: Ok(false),
            set_offline: state.attempts_left == 0,
        },
        ChunkAnswer::Invalid(e) => ChunkOutcome {
            result: Err(FirmwareUploadError::InvalidResponse(e)),
            set_offline: false,
        },
        ChunkAnswer::Report(report) => ChunkOutcome {
            result: report_result(state, offset, len, is_last, report),
            set_offline: false,
        },
    }
}

/// The pause before the next chunk: the configured one and up to a second of
/// jitter, so that uploads do not disturb each other.
pub fn chunk_pause(min_wait: Nanos, jitter_millis: u64) -> (res: Nanos)
    ensures
        res == (if min_wait + jitter_millis * NANOS_PER_MILLI <= MAX_DURATION {
            min_wait + jitter_millis * NANOS_PER_MILLI
        } else {
            MAX_DURATION as int
        }),
{
    saturating_add(min_wait, jitter_millis as u128 * NANOS_PER_MILLI)
}

/// The pause before the next chunk, with a jitter by chance.
pub fn random_chunk_pause(min_wait: Nanos) -> (res: Nanos)
    ensures
        exists|jitter: int|
            0 <= jitter < 1000 && #[trigger] (jitter * NANOS_PER_MILLI) >= 0 && res == (if min_wait
                + jitter * NANOS_PER_MILLI <= MAX_DURATION {
                min_wait + jitter * NANOS_PER_MILLI
            } else {
                MAX_DURATION as int
            }),
{
    let jitter: u64 = random_below(1000);
    assert(jitter as int * NANOS_PER_MILLI >= 0);
    chunk_pause(min_wait, jitter)
}

/// Takes account of what came back for a chunk. Whatever it was, the next chunk
/// has to wait for `pause`.
pub fn finish_chunk(
    upload: &mut Option<FirmwareUploadState>,
    offset: u32,
    len: u32,
    is_last: bool,
    answer: ChunkAnswer,
    now: Nanos,
    pause: Nanos,
) -> (res: ChunkOutcome)
    requires
        now + pause <= u128::MAX,
    ensures
        match *old(upload) {
            None => {
                &&& *final(upload) == *old(upload)
                &&& res == (ChunkOutcome {
                    result: Err(FirmwareUploadError::MissingState),
                    set_offline: false,
                })
            },
            Some(before) => {
                let state = FirmwareUploadState {
                    next_attempt: Some((now + pause) as u128),
                    ..before
                };
                &&& res == chunk_outcome(state, offset, len, is_last, answer)
                &&& *final(upload) == Some(
                    match answer {
                        ChunkAnswer::Report(report) => report_state(
                            state,
                            offset,
                            len,
                            is_last,
                            report,
                        ),
                        _ => state,
                    },
                )
            },
        },
{
    match upload {
        None => ChunkOutcome {
            result: Err(FirmwareUploadError::MissingState),
            set_offline: false,
        },
        Some(state) => {
            state.wait_for(now, pause);
            match answer {
                ChunkAnswer::Failed => ChunkOutcome {
                    result: Ok(false),
                    set_offline: state.attempts_left == 0,
                },
                ChunkAnswer::Invalid(e) => ChunkOutcome {
                    result: Err(FirmwareUploadError::InvalidResponse(e)),
                    set_offline: false,
                },
                ChunkAnswer::Report(report) => {
                    let result = on_report(state, offset, len, is_last, report);
                    ChunkOutcome { result, set_offline: false }
                },
            }
        },
    }
}

/// What is known of the last data download. A time stands beside each part as
/// soon as it was set.
#[derive(Clone, Copy, Debug, PartialEq, Eq)]
pub struct DataDownload {
    pub status: DataDownloadStatus,
    pub status_time: Option<Nanos>,
    pub slot: i64,
    pub checksum: i64,
    pub content_tag: i64,
    /// When the slot, the checksum and the content tag were set.
    pub start_time: Option<Nanos>,
}

/// Nothing was downloaded yet.
pub open spec fn default_download() -> DataDownload {
    DataDownload {
        status: DataDownloadStatus::Idle,
        status_time: None,
        slot: 0,
        checksum: 0,
        content_tag: 0,
        start_time: None,
    }
}

impl DataDownload {
    pub fn new() -> (res: Self)
        ensures
            res == default_download(),
    {
        Self {
            status: DataDownloadStatus::Idle,
            status_time: None,
            slot: 0,
            checksum: 0,
            content_tag: 0,
            start_time: None,
        }
    }
}

/// What follows the end of an image's upload.
#[derive(Clone, Copy, Debug, PartialEq, Eq, Structural)]
pub enum FotaEnd {
    /// The image with this index has to be uploaded next.
    NextImage(usize),
    /// The upload as a whole is over.
    Report(FirmwareUpdateState, FirmwareUpdateResult),
}

/// The result to report for an upload that failed.
pub open spec fn failure_result(error: FirmwareUploadError) -> FirmwareUpdateResult {
    match error {
        FirmwareUploadError::Lsdl(FirmwareStatus::TooBig) => FirmwareUpdateResult::NoFlash,
        FirmwareUploadError::Lsdl(
            FirmwareStatus::ChecksumErr,
        ) => FirmwareUpdateResult::IntegrityCheckFail,
        _ => FirmwareUpdateResult::ConnectionLost,
    }
}

/// What follows the end of an image's upload, in a container of so many images.
pub open spec fn fota_end(
    images: int,
    image: usize,
    result: Result<(), FirmwareUploadError>,
) -> FotaEnd {
    match result {
        Err(e) => FotaEnd::Report(FirmwareUpdateState::Idle, failure_result(e)),
        Ok(()) => if image + 1 < images {
            FotaEnd::NextImage((image + 1) as usize)
        } else {
            FotaEnd::Report(FirmwareUpdateState::DownloadComplete, FirmwareUpdateResult::Initial)
        },
    }
}

/// Decides what follows the end of an image's upload: the next image, if there
/// is one, or the report of success or failure.
pub fn on_fota_upload_finished(
    container: &FirmwareContainer,
    image: usize,
    result: Result<(), FirmwareUploadError>,
) -> (res: FotaEnd)
    ensures
        res == fota_end(container.images@.len() as int, image, result),
{
    match result {
        Err(e) => FotaEnd::Report(
            FirmwareUpdateState::Idle,
            match e {
                FirmwareUploadError::Lsdl(
                    FirmwareStatus::TooBig,
                ) => FirmwareUpdateResult::NoFlash,
                FirmwareUploadError::Lsdl(
                    FirmwareStatus::ChecksumErr,
                ) => FirmwareUpdateResult::IntegrityCheckFail,
                _ => FirmwareUpdateResult::ConnectionLost,
            },
        ),
        Ok(()) => {
            if container.images.len() > 1 && image < container.images.len() - 1 {
                FotaEnd::NextImage(image + 1)
            } else {
                FotaEnd::Report(
                    FirmwareUpdateState::DownloadComplete,
                    FirmwareUpdateResult::Initial,
                )
            }
        },
    }
}

/// What to report once the device was asked to take the next image: failure if
/// it did not, and nothing yet if it did.
pub fn on_next_image_started(started: bool) -> (res: Option<
    (FirmwareUpdateState, FirmwareUpdateResult),
>)
    ensures
        res == (if started {
            None
        } else {
            Some((FirmwareUpdateState::Idle, FirmwareUpdateResult::IntegrityCheckFail))
        }),
{
    if started {
        None
    } else {
        Some((FirmwareUpdateState::Idle, FirmwareUpdateResult::IntegrityCheckFail))
    }
}

/// Images are uploaded one after the other in the order of the container, and
/// the upload as a whole is complete after the last one only. A failure ends it
/// at once.
pub proof fn law_images_in_order(
    images: int,
    image: usize,
    result: Result<(), FirmwareUploadError>,
)
    requires
        image < images <= usize::MAX,
    ensures
        fota_end(images, image, result) matches FotaEnd::NextImage(next) ==> result is Ok && next
            == image + 1 && next < images,
        fota_end(images, image, result) == FotaEnd::Report(
            FirmwareUpdateState::DownloadComplete,
            FirmwareUpdateResult::Initial,
        ) <==> result is Ok && image == images - 1,
        result is Err ==> (fota_end(images, image, result) matches FotaEnd::Report(state, _)
            && state == FirmwareUpdateState::Idle),
{
}

/// What follows the end of a data upload.
#[derive(Clone, Copy, Debug, PartialEq, Eq, Structural)]
pub struct DataEnd {
    /// The status to report.
    pub status: DataDownloadStatus,
    /// Whether the device has to be told to activate the data.
    pub activate: bool,
}

/// Decides what follows the end of a data upload.
pub fn on_data_upload_finished(result: Result<(), FirmwareUploadError>) -> (res: DataEnd)
    ensures
        res == (if result is Ok {
            DataEnd { status: DataDownloadStatus::Activating, activate: true }
        } else {
            DataEnd { status: DataDownloadStatus::UploadFailed, activate: false }
        }),
{
    match result {
        Ok(()) => DataEnd { status: DataDownloadStatus::Activating, activate: true },
        Err(_) => DataEnd { status: DataDownloadStatus::UploadFailed, activate: false },
    }
}

/// The status to report once the device was told to activate the data: whether
/// it did so.
pub fn on_data_activated(answer: Result<FirmwareStatus, Error>) -> (res: DataDownloadStatus)
    ensures
        res == (if answer == Ok::<FirmwareStatus, Error>(FirmwareStatus::Accepted) {
            DataDownloadStatus::Activated
        } else {
            DataDownloadStatus::ActivationFailed
        }),
{
    match answer {
        Ok(FirmwareStatus::Accepted) => DataDownloadStatus::Activated,
        _ => DataDownloadStatus::ActivationFailed,
    }
}

impl DataDownload {
    /// Sets the status. Returns whether it has changed and is to be published.
    pub fn set_status(&mut self, status: DataDownloadStatus, wall_clock: Nanos) -> (res: bool)
        ensures
            res == (old(self).status != status),
            *final(self) == (if res {
                DataDownload { status, status_time: Some(wall_clock), ..*old(self) }
            } else {
                *old(self)
            }),
    {
        if self.status == status {
            return false;
        }
        self.status = status;
        self.status_time = Some(wall_clock);
        true
    }
}

/// The big endian bytes of a 32 bit number.
pub fn be_bytes_u32(number: u32) -> (res: [u8; 4])
    ensures
        bigint::be_value(res@) == number,
{
    let res: [u8; 4] = [
        (number / 0x1000000) as u8,
        (number / 0x10000 % 0x100) as u8,
        (number / 0x100 % 0x100) as u8,
        (number % 0x100) as u8,
    ];
    proof {
        let bytes = res@;
        let n3 = number as nat / 0x100;
        let n2 = number as nat / 0x10000;
        let n1 = number as nat / 0x1000000;
        assert(n3 / 0x100 == n2);
        assert(n2 / 0x100 == n1);
        assert(bytes.take(0) =~= Seq::<u8>::empty());
        assert(bigint::be_value(bytes.take(0)) == 0);
        assert(bytes.take(1).drop_last() =~= bytes.take(0));
        assert(bigint::be_value(bytes.take(1)) == n1);
        assert(bytes.take(2).drop_last() =~= bytes.take(1));
        assert(bigint::be_value(bytes.take(2)) == n2);
        assert(bytes.take(3).drop_last() =~= bytes.take(2));
        assert(bigint::be_value(bytes.take(3)) == n3);
        assert(bytes.take(4).drop_last() =~= bytes.take(3));
        assert(bytes.take(4) =~= bytes);
    }
    res
}

/// The value that tells a device where the upload that follows belongs: the slot
/// and the content tag, both in big endian bytes.
pub fn data_download_int(slot: u32, content_tag: u32) -> (res: Vec<u8>)
    ensures
        res@.len() == 8,
        bigint::be_value(res@.take(4)) == slot,
        bigint::be_value(res@.skip(4)) == content_tag,
{
    let first = be_bytes_u32(slot);
    let second = be_bytes_u32(content_tag);
    let mut res: Vec<u8> = Vec::new();
    res.push(first[0]);
    res.push(first[1]);
    res.push(first[2]);
    res.push(first[3]);
    res.push(second[0]);
    res.push(second[1]);
    res.push(second[2]);
    res.push(second[3]);
    assert(res@.take(4) =~= first@);
    assert(res@.skip(4) =~= second@);
    res
}

/// What a device is told before an image is uploaded.
#[derive(Clone, Copy, Debug, PartialEq, Eq, Structural)]
pub struct InitPlan {
    /// The content tag for a secondary image, which has to be set first.
    pub content_tag: Option<u32>,
    pub len: usize,
    pub crc: u16,
    pub slot: u32,
}

/// Prepares the upload of an image. Only images for slots above the first one
/// need a content tag; it is a checksum of the image.
pub fn plan_firmware_init(data: &[u8], container: &FirmwareContainer, index: usize) -> (res:
    Result<InitPlan, Error>)
    ensures
        if index >= container.images@.len() {
            res == Err::<InitPlan, Error>(Error::NoSuchImage)
        } else {
            let image = container.images@[index as int];
            if image.slot > 1 && !(image.start <= image.end <= data@.len()) {
                res == Err::<InitPlan, Error>(Error::ImageOutsideData)
            } else {
                res == Ok::<InitPlan, Error>(
                    InitPlan {
                        content_tag: if image.slot > 1 {
                            Some(
                                digest::crc32_iso_hdlc(
                                    data@.subrange(image.start as int, image.end as int),
                                ),
                            )
                        } else {
                            None
                        },
                        len: if image.start <= image.end {
                            (image.end - image.start) as usize
                        } else {
                            0
                        },
                        crc: image.crc,
                        slot: image.slot,
                    },
                )
            }
        },
{
    if index >= container.images.len() {
        return Err(Error::NoSuchImage);
    }
    let image = container.images[index];
    let content_tag: Option<u32> = if image.slot > 1 {
        if image.start > image.end || image.end > data.len() {
            return Err(Error::ImageOutsideData);
        }
        Some(
            content_tag_checksum(vstd::slice::slice_subrange(data, image.start, image.end)),
        )
    } else {
        None
    };
    Ok(
        InitPlan {
            content_tag,
            len: image.end.saturating_sub(image.start),
            crc: image.crc,
            slot: image.slot,
        },
    )
}

/// What follows the announcement of an upload.
#[derive(Clone, Copy, Debug, PartialEq, Eq, Structural)]
pub enum InitNext {
    /// The device has the data already.
    Skip,
    /// The device has to be asked for the chunk size.
    AskForChunkSize,
}

/// Decides how to go on once the device has answered the announcement of `len`
/// bytes.
pub fn on_init_report(len: usize, report: FirmwareReport) -> (res: Result<InitNext, Error>)
    ensures
        if report.status != FirmwareStatus::Accepted {
            res == Err::<InitNext, Error>(Error::InitRefused(report.status))
        } else if len > u32::MAX {
            res == Err::<InitNext, Error>(Error::OutOfRange)
        } else if report.expected_offset == Some(len as u32) {
            res == Ok::<InitNext, Error>(InitNext::Skip)
        } else {
            res == Ok::<InitNext, Error>(InitNext::AskForChunkSize)
        },
{
    if report.status != FirmwareStatus::Accepted {
        return Err(Error::InitRefused(report.status));
    }
    if len > 0xffff_ffff {
        return Err(Error::OutOfRange);
    }
    match report.expected_offset {
        Some(offset) => if offset == len as u32 {
            Ok(InitNext::Skip)
        } else {
            Ok(InitNext::AskForChunkSize)
        },
        None => Ok(InitNext::AskForChunkSize),
    }
}

/// The chunk size for an upload of `len` bytes. The device has to expect exactly
/// as many.
pub fn on_firmware_info(len: usize, size: u32, chunk_size: u32) -> (res: Result<usize, Error>)
    ensures
        if len != size {
            res == Err::<usize, Error>(Error::SizeMismatch)
        } else {
            res == Ok::<usize, Error>(chunk_size as usize)
        },
{
    if len != size as usize {
        return Err(Error::SizeMismatch);
    }
    Ok(chunk_size as usize)
}

/// The bytes of a data upload are the data, and those of a firmware upload are
/// the ones of the image, all of them and in order.
pub proof fn law_uploaded_bytes(kind: FirmwareUploadKind)
    ensures
        match (kind, kind.spec_data()) {
            (FirmwareUploadKind::Data { data, .. }, Ok(bytes)) => bytes == data@,
            (FirmwareUploadKind::Data { .. }, Err(_)) => false,
            (FirmwareUploadKind::Fota { data, container, image }, Ok(bytes)) => {
                &&& image < container.images@.len()
                &&& container.images@[image as int].start + bytes.len()
                    == container.images@[image as int].end
                &&& container.images@[image as int].end <= data@.len()
                &&& forall|k: int|
                    0 <= k < bytes.len() ==> #[trigger] bytes[k]
                        == data@[container.images@[image as int].start + k]
            },
            (FirmwareUploadKind::Fota { data, container, image }, Err(e)) => if image
                >= container.images@.len() {
                e == Error::NoSuchImage
            } else {
                e == Error::ImageOutsideData && (container.images@[image as int].start
                    > container.images@[image as int].end || container.images@[image as int].end
                    > data@.len())
            },
        },
{
}

/// The chunk to send next is the piece of the data that starts at a multiple of
/// the chunk size. It is as long as the chunk size, only the last one may be
/// shorter, and the last one ends where the data ends. There is one as long as
/// the data goes on, if an attempt is left.
pub proof fn law_next_chunk_is_a_piece(state: FirmwareUploadState, data: Seq<u8>)
    requires
        state.kind.spec_data() == Ok::<Seq<u8>, Error>(data),
    ensures
        match state.spec_next_chunk() {
            Err(e) => state.attempts_left == 0 && e == Error::OutOfAttempts,
            Ok(None) => {
                &&& state.attempts_left > 0
                &&& state.chunk_size == 0 || state.index * state.chunk_size >= data.len()
            },
            Ok(Some((offset, bytes, is_last))) => {
                &&& state.attempts_left > 0
                &&& state.chunk_size > 0
                &&& offset == state.index * state.chunk_size
                &&& 0 < bytes.len() <= state.chunk_size
                &&& offset + bytes.len() <= data.len()
                &&& bytes == data.subrange(offset, offset + bytes.len())
                &&& is_last == (offset + bytes.len() == data.len())
                &&& !is_last ==> bytes.len() == state.chunk_size
            },
        },
{
    let size = state.chunk_size as int;
    let index = state.index as int;
    assert((index + 1) * size == index * size + size) by (nonlinear_arith);
    assert(index * size >= 0) by (nonlinear_arith)
        requires
            size >= 0,
            index >= 0,
    ;
    if index * size < data.len() {
        assert(data.skip(index * size) =~= data.subrange(index * size, data.len() as int));
    }
}

/// A device that asks for another offset gets it: the chunk that is sent next
/// starts exactly where the device wants it, ahead of the chunk that was sent or
/// behind it, with all attempts. If the device wants what lies behind the data,
/// it has everything, and an offset inside a chunk cannot be served.
pub proof fn law_device_gets_the_offset_it_asks_for(
    state: FirmwareUploadState,
    data: Seq<u8>,
    offset: u32,
    len: u32,
    is_last: bool,
    expected: u32,
)
    requires
        state.kind.spec_data() == Ok::<Seq<u8>, Error>(data),
        state.chunk_size > 0,
    ensures
        ({
            let report = FirmwareReport {
                status: FirmwareStatus::WrongOffset,
                expected_offset: Some(expected),
            };
            let result = report_result(state, offset, len, is_last, report);
            let after = report_state(state, offset, len, is_last, report);
            let size = state.chunk_size as int;
            &&& after.kind == state.kind
            &&& after.chunk_size == state.chunk_size
            &&& after.started == state.started
            &&& after.next_attempt == state.next_attempt
            &&& if expected == data.len() {
                result == Ok::<bool, FirmwareUploadError>(true)
            } else if expected as int % size != 0 {
                &&& result == Err::<bool, FirmwareUploadError>(
                    FirmwareUploadError::InvalidResponse(Error::OffsetNotOnChunk),
                )
                &&& after == state
            } else {
                &&& result == Ok::<bool, FirmwareUploadError>(false)
                &&& after.attempts_left == 10
                &&& after.blocked_count == 0
                &&& if expected < data.len() {
                    after.spec_next_chunk() matches Ok(Some((next, bytes, last))) && {
                        &&& next == expected
                        &&& bytes.len() > 0
                        &&& bytes == data.subrange(next, next + bytes.len())
                        &&& last == (next + size >= data.len())
                    }
                } else {
                    after.spec_next_chunk() == Ok::<Option<(int, Seq<u8>, bool)>, Error>(None)
                }
            }
        }),
{
    let size = state.chunk_size as int;
    let at = expected as int;
    if at % size == 0 {
        vstd::arithmetic::div_mod::lemma_fundamental_div_mod(at, size);
        assert(0 <= at / size <= at) by (nonlinear_arith)
            requires
                0 <= at,
                size > 0,
        ;
        assert((at / size) * size == at) by (nonlinear_arith)
            requires
                at == size * (at / size),
        ;
        let report = FirmwareReport {
            status: FirmwareStatus::WrongOffset,
            expected_offset: Some(expected),
        };
        let after = report_state(state, offset, len, is_last, report);
        if at != data.len() {
            assert(after.index == at / size);
            law_next_chunk_is_a_piece(after, data);
        }
    }
}

/// A chunk that the device accepts brings the upload to the chunk behind it,
/// whichever attempt it was, and completes it if it was the last.
pub proof fn law_accepted_chunk_is_done(
    state: FirmwareUploadState,
    offset: u32,
    len: u32,
    is_last: bool,
    expected_offset: Option<u32>,
)
    requires
        state.index < usize::MAX,
    ensures
        ({
            let report = FirmwareReport { status: FirmwareStatus::Accepted, expected_offset };
            let after = report_state(state, offset, len, is_last, report);
            &&& report_result(state, offset, len, is_last, report) == Ok::<
                bool,
                FirmwareUploadError,
            >(is_last)
            &&& after == (FirmwareUploadState {
                index: (state.index + 1) as usize,
                attempts_left: 10,
                blocked_count: 0,
                ..state
            })
        }),
{
}

/// A device that refuses a chunk ends the upload, unless it has just taken the
/// last chunk: then it expects what lies behind it, and the upload is complete.
pub proof fn law_refused_chunk(
    state: FirmwareUploadState,
    offset: u32,
    len: u32,
    is_last: bool,
    expected_offset: Option<u32>,
)
    requires
        state.index < usize::MAX,
    ensures
        ({
            let report = FirmwareReport { status: FirmwareStatus::Refused, expected_offset };
            let result = report_result(state, offset, len, is_last, report);
            match expected_offset {
                Some(expected) if is_last && expected - offset == len => result == Ok::<
                    bool,
                    FirmwareUploadError,
                >(true),
                Some(_) => result == Err::<bool, FirmwareUploadError>(
                    FirmwareUploadError::Lsdl(FirmwareStatus::Refused),
                ),
                None => result == Err::<bool, FirmwareUploadError>(
                    FirmwareUploadError::MissingExpectedOffset,
                ),
            }
        }),
{
}

/// A device that blocks chunks is given three chances: the same chunk is sent
/// again after the first and the second refusal, and the third ends the upload.
pub proof fn law_blocked_chunk(
    state: FirmwareUploadState,
    offset: u32,
    len: u32,
    is_last: bool,
    expected_offset: Option<u32>,
)
    requires
        state.blocked_count < usize::MAX,
    ensures
        ({
            let report = FirmwareReport {
                status: FirmwareStatus::BlockedByApplication,
                expected_offset,
            };
            let result = report_result(state, offset, len, is_last, report);
            let after = report_state(state, offset, len, is_last, report);
            &&& after == (FirmwareUploadState {
                blocked_count: (state.blocked_count + 1) as usize,
                ..state
            })
            &&& after.spec_next_chunk() == state.spec_next_chunk()
            &&& state.blocked_count < 2 ==> result == Ok::<bool, FirmwareUploadError>(false)
            &&& state.blocked_count >= 2 ==> result == Err::<bool, FirmwareUploadError>(
                FirmwareUploadError::BlockedByDevice,
            )
        }),
{
}

/// Whatever else a device reports ends the upload with just that report, and a
/// wrong offset without the right one cannot be corrected.
pub proof fn law_other_reports_end_upload(
    state: FirmwareUploadState,
    offset: u32,
    len: u32,
    is_last: bool,
    report: FirmwareReport,
)
    ensures
        report.status != FirmwareStatus::Accepted && report.status != FirmwareStatus::Refused
            && report.status != FirmwareStatus::WrongOffset && report.status
            != FirmwareStatus::BlockedByApplication ==> report_result(
            state,
            offset,
            len,
            is_last,
            report,
        ) == Err::<bool, FirmwareUploadError>(FirmwareUploadError::Lsdl(report.status)),
        report.status == FirmwareStatus::WrongOffset && report.expected_offset is None
            ==> report_result(state, offset, len, is_last, report) == Err::<
            bool,
            FirmwareUploadError,
        >(FirmwareUploadError::InvalidResponse(Error::MissingOffset)),
        report.status == FirmwareStatus::WrongOffset && report.expected_offset is Some
            && state.chunk_size == 0 && (state.kind.spec_data() matches Ok(data) ==> data.len()
            != report.expected_offset->0) ==> report_result(
            state,
            offset,
            len,
            is_last,
            report,
        ) == Err::<bool, FirmwareUploadError>(
            FirmwareUploadError::InvalidResponse(Error::OffsetNotOnChunk),
        ),
        report_result(state, offset, len, is_last, report) is Err && report.status
            != FirmwareStatus::BlockedByApplication ==> report_state(
            state,
            offset,
            len,
            is_last,
            report,
        ) == state,
{
}

/// A chunk without an answer is not lost: the upload goes on, and the device
/// counts as offline only with the last attempt. An answer that says nothing
/// ends the upload, and no answer at all makes a device offline.
pub proof fn law_only_silence_makes_offline(
    state: FirmwareUploadState,
    offset: u32,
    len: u32,
    is_last: bool,
    answer: ChunkAnswer,
)
    ensures
        chunk_outcome(state, offset, len, is_last, answer).set_offline <==> answer
            == ChunkAnswer::Failed && state.attempts_left == 0,
        answer == ChunkAnswer::Failed ==> chunk_outcome(state, offset, len, is_last, answer).result
            == Ok::<bool, FirmwareUploadError>(false),
        answer matches ChunkAnswer::Invalid(e) ==> chunk_outcome(
            state,
            offset,
            len,
            is_last,
            answer,
        ).result == Err::<bool, FirmwareUploadError>(FirmwareUploadError::InvalidResponse(e)),
        answer matches ChunkAnswer::Report(report) ==> chunk_outcome(
            state,
            offset,
            len,
            is_last,
            answer,
        ).result == report_result(state, offset, len, is_last, report),
{
}

/// What is reported for a failed firmware upload says what the device complained
/// about, if it was the size or the checksum of the image, and otherwise that
/// the connection was lost. Only a complete upload ends in another state than
/// idle.
pub proof fn law_failed_upload_is_reported(
    images: int,
    image: usize,
    result: Result<(), FirmwareUploadError>,
)
    ensures
        result matches Err(e) ==> (fota_end(images, image, result) matches FotaEnd::Report(
            state,
            reported,
        ) && {
            &&& state == FirmwareUpdateState::Idle
            &&& reported == FirmwareUpdateResult::NoFlash <==> e == FirmwareUploadError::Lsdl(
                FirmwareStatus::TooBig,
            )
            &&& reported == FirmwareUpdateResult::IntegrityCheckFail <==> e
                == FirmwareUploadError::Lsdl(FirmwareStatus::ChecksumErr)
            &&& reported == FirmwareUpdateResult::NoFlash || reported
                == FirmwareUpdateResult::IntegrityCheckFail || reported
                == FirmwareUpdateResult::ConnectionLost
        }),
        result is Ok ==> (fota_end(images, image, result) is NextImage <==> image + 1 < images),
{
}

/// Nothing was downloaded to a device that was just heard of.
pub proof fn law_no_download_at_first()
    ensures
        ({
            let download = default_download();
            &&& download.status == DataDownloadStatus::Idle
            &&& download.status_time is None
            &&& download.start_time is None
            &&& download.slot == 0
            &&& download.checksum == 0
            &&& download.content_tag == 0
        }),
{
}

} // verus!
