use lemonbeatd::device::container::FirmwareContainer;
use lemonbeatd::device::container::FirmwareContainerImage;
use lemonbeatd::device::fota::be_bytes_u32;
use lemonbeatd::device::fota::begin_chunk;
use lemonbeatd::device::fota::chunk_pause;
use lemonbeatd::device::fota::data_download_int;
use lemonbeatd::device::fota::finish_chunk;
use lemonbeatd::device::fota::on_data_activated;
use lemonbeatd::device::fota::on_data_upload_finished;
use lemonbeatd::device::fota::on_firmware_info;
use lemonbeatd::device::fota::on_fota_upload_finished;
use lemonbeatd::device::fota::on_init_report;
use lemonbeatd::device::fota::on_next_image_started;
use lemonbeatd::device::fota::plan_firmware_init;
use lemonbeatd::device::fota::random_chunk_pause;
use lemonbeatd::device::fota::ChunkAnswer;
use lemonbeatd::device::fota::DataDownload;
use lemonbeatd::device::fota::FirmwareUploadError;
use lemonbeatd::device::fota::FirmwareUploadKind;
use lemonbeatd::device::fota::FirmwareUploadState;
use lemonbeatd::device::fota::FotaEnd;
use lemonbeatd::device::fota::InitNext;
use lemonbeatd::device::fota::InitPlan;
use lemonbeatd::error::Error;
use lemonbeatd::lsdl::FirmwareReport;
use lemonbeatd::lsdl::FirmwareStatus;
use lemonbeatd::lwm2m::DataDownloadStatus;
use lemonbeatd::lwm2m::FirmwareUpdateResult;
use lemonbeatd::lwm2m::FirmwareUpdateState;
use lemonbeatd::time::MAX_DURATION;
use sha2::Digest;

fn container_bytes(version: &[u8], images: &[(u32, &[u8])]) -> Vec<u8> {
    let mut data = b"LBFW".to_vec();
    data.push(0);
    data.push(version.len() as u8);
    data.extend(version);
    for (slot, image) in images {
        data.extend(slot.to_le_bytes());
        data.extend((image.len() as u32).to_le_bytes());
        data.extend(*image);
    }
    let digest = sha2::Sha512::digest(&data);
    data.extend(digest);
    data
}

#[test]
fn parsed_container() {
    let data = container_bytes(b"1.2.3", &[(1, &[1, 2, 3, 4, 5]), (2, b"123456789")]);
    let container = FirmwareContainer::from_slice(&data).unwrap();
    assert_eq!(container.firmware_version, "1.2.3");
    assert_eq!(
        container.images,
        vec![
            FirmwareContainerImage { slot: 2, start: 32, end: 41, crc: 0x31c3 },
            FirmwareContainerImage { slot: 1, start: 19, end: 24, crc: 0x8208 },
        ]
    );
    let (layout, end) = FirmwareContainer::parse_layout(&data).unwrap();
    assert_eq!(end, 41);
    assert_eq!(layout.images[0].crc, 0);
}

#[test]
fn images_of_the_same_slot_stay_in_order() {
    let data = container_bytes(b"", &[(3, &[1]), (1, &[2]), (3, &[3]), (1, &[4])]);
    let container = FirmwareContainer::from_slice(&data).unwrap();
    let firsts: Vec<u8> = container.images.iter().map(|image| data[image.start]).collect();
    assert_eq!(firsts, vec![1, 3, 2, 4]);
}

fn container_error(data: &[u8]) -> Error {
    FirmwareContainer::from_slice(data).unwrap_err()
}

#[test]
fn broken_containers() {
    let good = container_bytes(b"1", &[(1, &[9, 8, 7])]);
    assert!(FirmwareContainer::from_slice(&good).is_ok());
    assert_eq!(container_error(b"LBF"), Error::ShortRead);
    assert_eq!(container_error(b"LBFX\0\0"), Error::UnsupportedMagic);
    assert_eq!(container_error(b"LBFW"), Error::ShortRead);
    assert_eq!(container_error(b"LBFW\x01\0"), Error::UnsupportedFormatVersion);
    assert_eq!(container_error(b"LBFW\0\x02a"), Error::ShortRead);
    assert_eq!(container_error(&container_bytes(&[0xff], &[(1, &[1])])), Error::InvalidUtf8);
    assert_eq!(container_error(&container_bytes(b"1", &[])), Error::NoMainImage);
    assert_eq!(container_error(&container_bytes(b"1", &[(2, &[1])])), Error::NoMainImage);
    assert_eq!(
        container_error(&container_bytes(b"1", &[(1, &[1]), (0, &[1])])),
        Error::NoMainImage
    );
    // an image that claims more than there is
    let mut broken = good.clone();
    broken[11] = 200;
    assert_eq!(container_error(&broken), Error::ShortRead);
    // every byte is covered by the digest
    for i in 6..good.len() {
        let mut broken = good.clone();
        broken[i] ^= 1;
        assert!(FirmwareContainer::from_slice(&broken).is_err());
    }
    let mut broken = good.clone();
    *broken.last_mut().unwrap() ^= 1;
    assert_eq!(container_error(&broken), Error::InvalidChecksum);
    assert_eq!(
        FirmwareContainer::check_digest(&[1, 2, 3], 1, &[2, 4]),
        Err(Error::InvalidChecksum)
    );
    assert_eq!(FirmwareContainer::check_digest(&[1, 2, 3], 1, &[2, 3]), Ok(()));
}

fn upload(data: &[u8], chunk_size: usize) -> FirmwareUploadState {
    FirmwareUploadState::new(
        chunk_size,
        FirmwareUploadKind::Data { data: data.to_vec(), slot: 5 },
        100,
    )
}

#[test]
fn chunks_make_up_the_data() {
    let data = [1u8, 2, 3, 4, 5, 6, 7];
    let mut state = upload(&data, 3);
    let mut sent: Vec<u8> = Vec::new();
    while let Some(chunk) = state.next_chunk().unwrap() {
        assert_eq!(chunk.offset, sent.len());
        sent.extend(&chunk.data);
        assert_eq!(chunk.is_last, sent.len() == data.len());
        state.confirm_receival().unwrap();
    }
    assert_eq!(sent, data);
    assert_eq!(state.index, 3);
}

#[test]
fn chunk_of_exact_size_is_last() {
    let mut state = upload(&[1, 2, 3, 4], 2);
    state.set_index(1);
    let chunk = state.next_chunk().unwrap().unwrap();
    assert_eq!(chunk.data, vec![3, 4]);
    assert!(chunk.is_last);
}

#[test]
fn attempts_run_out() {
    let mut state = upload(&[1, 2, 3], 2);
    for _ in 0..10 {
        assert_eq!(state.next_chunk().unwrap().unwrap().offset, 0);
    }
    assert_eq!(state.next_chunk().unwrap_err(), Error::OutOfAttempts);
    state.set_index(0);
    assert!(state.next_chunk().is_ok());
}

#[test]
fn nothing_to_send() {
    assert!(upload(&[1, 2, 3], 0).next_chunk().unwrap().is_none());
    let mut state = upload(&[1, 2, 3], 2);
    state.set_index(usize::MAX);
    assert!(state.next_chunk().unwrap().is_none());
    assert_eq!(state.confirm_receival(), Err(Error::IndexOverflow));
}

#[test]
fn upload_of_an_image() {
    let data = container_bytes(b"1", &[(1, &[1, 2, 3]), (2, &[4, 5])]);
    let container = || FirmwareContainer::from_slice(&data).unwrap();
    let kind = |image| FirmwareUploadKind::Fota { data: data.clone(), container: container(), image };
    assert_eq!(kind(0).data(), Ok(&[4u8, 5][..]));
    assert_eq!(kind(1).data(), Ok(&[1u8, 2, 3][..]));
    assert_eq!(kind(2).data(), Err(Error::NoSuchImage));
    let mut broken = container();
    broken.images[0].end = 5000;
    let kind = FirmwareUploadKind::Fota { data: data.clone(), container: broken, image: 0 };
    assert_eq!(kind.data(), Err(Error::ImageOutsideData));
    let state = FirmwareUploadState::new(2, kind, 0);
    assert!(matches!(state.kind(), FirmwareUploadKind::Fota { image: 0, .. }));
}

fn report(status: FirmwareStatus, expected_offset: Option<u32>) -> ChunkAnswer {
    ChunkAnswer::Report(FirmwareReport { status, expected_offset })
}

#[test]
fn sent_chunks() {
    assert_eq!(begin_chunk(&mut None).unwrap_err(), FirmwareUploadError::MissingState);
    let mut state = Some(upload(&[0xab, 2, 3], 2));
    let sent = begin_chunk(&mut state).unwrap().unwrap();
    assert_eq!(sent.offset, 0);
    assert_eq!(sent.len, 2);
    assert_eq!(sent.data, "ab02");
    assert!(!sent.is_last);
    let outcome = finish_chunk(
        &mut state,
        sent.offset,
        sent.len,
        sent.is_last,
        report(FirmwareStatus::Accepted, None),
        1000,
        5,
    );
    assert_eq!(outcome.result, Ok(false));
    assert_eq!(state.as_ref().unwrap().next_attempt, Some(1005));
    let sent = begin_chunk(&mut state).unwrap().unwrap();
    assert_eq!(sent.data, "03");
    assert!(sent.is_last);
    let outcome = finish_chunk(
        &mut state,
        sent.offset,
        sent.len,
        sent.is_last,
        report(FirmwareStatus::Accepted, None),
        1000,
        5,
    );
    assert_eq!(outcome.result, Ok(true));
    assert!(begin_chunk(&mut state).unwrap().is_none());
    let mut state = Some(upload(&[1], 1));
    state.as_mut().unwrap().attempts_left = 0;
    assert_eq!(
        begin_chunk(&mut state).unwrap_err(),
        FirmwareUploadError::UploadFailed(Error::OutOfAttempts)
    );
}

fn finish(state: &mut Option<FirmwareUploadState>, is_last: bool, answer: ChunkAnswer) -> Result<bool, FirmwareUploadError> {
    finish_chunk(state, 0, 2, is_last, answer, 0, 0).result
}

#[test]
fn answers_to_chunks() {
    let mut state = Some(upload(&[1, 2, 3, 4, 5], 2));
    assert_eq!(finish(&mut state, false, ChunkAnswer::Failed), Ok(false));
    assert_eq!(
        finish(&mut state, false, ChunkAnswer::Invalid(Error::InvalidSize)),
        Err(FirmwareUploadError::InvalidResponse(Error::InvalidSize))
    );
    // the device asks for another chunk
    assert_eq!(
        finish(&mut state, false, report(FirmwareStatus::WrongOffset, Some(4))),
        Ok(false)
    );
    assert_eq!(state.as_ref().unwrap().index, 2);
    assert_eq!(
        finish(&mut state, false, report(FirmwareStatus::WrongOffset, Some(5))),
        Ok(true)
    );
    assert_eq!(
        finish(&mut state, false, report(FirmwareStatus::WrongOffset, Some(3))),
        Err(FirmwareUploadError::InvalidResponse(Error::OffsetNotOnChunk))
    );
    assert_eq!(
        finish(&mut state, false, report(FirmwareStatus::WrongOffset, None)),
        Err(FirmwareUploadError::InvalidResponse(Error::MissingOffset))
    );
    // refused because it has been received before
    assert_eq!(finish(&mut state, true, report(FirmwareStatus::Refused, Some(2))), Ok(true));
    assert_eq!(
        finish(&mut state, false, report(FirmwareStatus::Refused, Some(2))),
        Err(FirmwareUploadError::Lsdl(FirmwareStatus::Refused))
    );
    assert_eq!(
        finish(&mut state, true, report(FirmwareStatus::Refused, None)),
        Err(FirmwareUploadError::MissingExpectedOffset)
    );
    assert_eq!(
        finish(&mut state, false, report(FirmwareStatus::Other(99), None)),
        Err(FirmwareUploadError::Lsdl(FirmwareStatus::Other(99)))
    );
    assert_eq!(
        finish_chunk(&mut None, 0, 0, false, ChunkAnswer::Failed, 0, 0).result,
        Err(FirmwareUploadError::MissingState)
    );
}

#[test]
fn blocked_chunks() {
    let mut state = Some(upload(&[1, 2, 3], 2));
    let blocked = || report(FirmwareStatus::BlockedByApplication, None);
    assert_eq!(finish(&mut state, false, blocked()), Ok(false));
    assert_eq!(finish(&mut state, false, blocked()), Ok(false));
    assert_eq!(finish(&mut state, false, blocked()), Err(FirmwareUploadError::BlockedByDevice));
    state.as_mut().unwrap().attempts_left = 0;
    let outcome = finish_chunk(&mut state, 0, 2, false, ChunkAnswer::Failed, 0, 0);
    assert!(outcome.set_offline);
}

#[test]
fn pauses_between_chunks() {
    assert_eq!(chunk_pause(1_000_000_000, 999), 1_999_000_000);
    assert_eq!(chunk_pause(MAX_DURATION, 1), MAX_DURATION);
    let pause = random_chunk_pause(1_000_000_000);
    assert!((1_000_000_000..2_000_000_000).contains(&pause));
}

#[test]
fn images_follow_one_another() {
    let data = container_bytes(b"1", &[(1, &[1, 2, 3]), (2, &[4, 5])]);
    let container = FirmwareContainer::from_slice(&data).unwrap();
    assert_eq!(on_fota_upload_finished(&container, 0, Ok(())), FotaEnd::NextImage(1));
    assert_eq!(
        on_fota_upload_finished(&container, 1, Ok(())),
        FotaEnd::Report(FirmwareUpdateState::DownloadComplete, FirmwareUpdateResult::Initial)
    );
    for (error, result) in [
        (
            FirmwareUploadError::Lsdl(FirmwareStatus::TooBig),
            FirmwareUpdateResult::NoFlash,
        ),
        (
            FirmwareUploadError::Lsdl(FirmwareStatus::ChecksumErr),
            FirmwareUpdateResult::IntegrityCheckFail,
        ),
        (FirmwareUploadError::Aborted, FirmwareUpdateResult::ConnectionLost),
    ] {
        assert_eq!(
            on_fota_upload_finished(&container, 0, Err(error)),
            FotaEnd::Report(FirmwareUpdateState::Idle, result)
        );
    }
    assert_eq!(on_next_image_started(true), None);
    assert_eq!(
        on_next_image_started(false),
        Some((FirmwareUpdateState::Idle, FirmwareUpdateResult::IntegrityCheckFail))
    );
}

#[test]
fn announced_images() {
    let data = container_bytes(b"1", &[(1, &[1, 2, 3, 4, 5]), (2, b"123456789")]);
    let container = FirmwareContainer::from_slice(&data).unwrap();
    assert_eq!(
        plan_firmware_init(&data, &container, 0),
        Ok(InitPlan { content_tag: Some(0xcbf43926), len: 9, crc: 0x31c3, slot: 2 })
    );
    assert_eq!(
        plan_firmware_init(&data, &container, 1),
        Ok(InitPlan { content_tag: None, len: 5, crc: 0x8208, slot: 1 })
    );
    assert_eq!(plan_firmware_init(&data, &container, 2), Err(Error::NoSuchImage));
    assert_eq!(plan_firmware_init(&data[..20], &container, 0), Err(Error::ImageOutsideData));
}

#[test]
fn answers_to_announcements() {
    let accepted = |expected_offset| FirmwareReport {
        status: FirmwareStatus::Accepted,
        expected_offset,
    };
    assert_eq!(on_init_report(9, accepted(Some(9))), Ok(InitNext::Skip));
    assert_eq!(on_init_report(9, accepted(Some(3))), Ok(InitNext::AskForChunkSize));
    assert_eq!(on_init_report(9, accepted(None)), Ok(InitNext::AskForChunkSize));
    assert_eq!(on_init_report(1 << 32, accepted(None)), Err(Error::OutOfRange));
    let refused = FirmwareReport { status: FirmwareStatus::TooBig, expected_offset: None };
    assert_eq!(on_init_report(9, refused), Err(Error::InitRefused(FirmwareStatus::TooBig)));
    assert_eq!(on_firmware_info(9, 9, 64), Ok(64));
    assert_eq!(on_firmware_info(9, 8, 64), Err(Error::SizeMismatch));
}

#[test]
fn data_uploads() {
    let end = on_data_upload_finished(Ok(()));
    assert_eq!(end.status, DataDownloadStatus::Activating);
    assert!(end.activate);
    let end = on_data_upload_finished(Err(FirmwareUploadError::Aborted));
    assert_eq!(end.status, DataDownloadStatus::UploadFailed);
    assert!(!end.activate);
    assert_eq!(
        on_data_activated(Ok(FirmwareStatus::Accepted)),
        DataDownloadStatus::Activated
    );
    assert_eq!(
        on_data_activated(Ok(FirmwareStatus::ChecksumErr)),
        DataDownloadStatus::ActivationFailed
    );
    assert_eq!(
        on_data_activated(Err(Error::RequestFailed)),
        DataDownloadStatus::ActivationFailed
    );
    let mut download = DataDownload::new();
    assert!(!download.set_status(DataDownloadStatus::Idle, 3));
    assert!(download.set_status(DataDownloadStatus::Uploading, 3));
    assert_eq!(download.status_time, Some(3));
}

#[test]
fn big_endian_numbers() {
    assert_eq!(be_bytes_u32(0x01020304), [1, 2, 3, 4]);
    assert_eq!(data_download_int(2, 0xcbf43926), vec![0, 0, 0, 2, 0xcb, 0xf4, 0x39, 0x26]);
}

#[test]
fn blocked_chunks_end_the_upload() {
    let blocked = || report(FirmwareStatus::BlockedByApplication, None);
    let mut state = Some(upload(&[1, 2, 3, 4, 5], 2));
    for _ in 0..2 {
        assert_eq!(begin_chunk(&mut state).unwrap().unwrap().offset, 0);
        assert_eq!(finish(&mut state, false, blocked()), Ok(false));
    }
    assert_eq!(begin_chunk(&mut state).unwrap().unwrap().offset, 0);
    assert_eq!(finish(&mut state, false, blocked()), Err(FirmwareUploadError::BlockedByDevice));

    let mut state = Some(upload(&[1, 2, 3, 4, 5], 2));
    let moves = [report(FirmwareStatus::Accepted, None), report(FirmwareStatus::WrongOffset, Some(2))];
    for answer in moves {
        assert_eq!(finish(&mut state, false, blocked()), Ok(false));
        assert_eq!(finish(&mut state, false, blocked()), Ok(false));
        assert_eq!(finish(&mut state, false, answer), Ok(false));
        assert_eq!(state.as_ref().unwrap().blocked_count, 0);
        assert_eq!(state.as_ref().unwrap().index, 1);
    }
}

#[test]
fn jumps_start_afresh() {
    let mut state = upload(&[1, 2, 3, 4, 5], 2);
    state.attempts_left = 0;
    state.blocked_count = 2;
    state.set_index(2);
    assert_eq!(state.attempts_left, 10);
    assert_eq!(state.blocked_count, 0);
    let chunk = state.next_chunk().unwrap().unwrap();
    assert_eq!(chunk.offset, 4);
    assert_eq!(chunk.data, vec![5]);
    assert!(chunk.is_last);
}
