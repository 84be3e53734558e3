//! The object through which the firmware of a device is updated.

use crate::device::Device;
use crate::device::container;
use crate::device::container::FirmwareContainer;
use crate::device::container::FirmwareContainerImage;
use crate::device::fota::FirmwareUploadKind;
use crate::device::fota::FirmwareUploadState;
use crate::error::Error;
use crate::lsdl::FirmwareStatus;
use crate::lwm2m::FirmwareUpdateResult;
use crate::lwm2m::FirmwareUpdateState;
use crate::lwm2m::Resource;
use crate::storage::persistent::PersistentState;
use crate::time::Nanos;
use crate::utils;
use crate::utils::VersionOrder;
use crate::utils::create_version;
use vstd::prelude::*;

verus! {

/// What has to happen before a package can be taken.
#[derive(Clone, Copy, Debug, PartialEq, Eq, Structural)]
pub enum PackageStep {
    /// The package only says to forget the last one.
    Flush,
    /// Another package is being uploaded; it has to be given up first.
    AbortFirst,
    /// The package can be looked at.
    Accept,
}

/// Whether a new status changes the state of the device.
pub open spec fn status_outcome(
    before: PersistentState,
    included: bool,
    state: FirmwareUpdateState,
    result: FirmwareUpdateResult,
) -> Result<bool, Error> {
    if !included {
        Err(Error::NotIncluded)
    } else {
        Ok(before.firmware_update_state != state || before.firmware_update_result != result)
    }
}

/// Whether `after` is the state after a status was set.
pub open spec fn has_status(
    after: PersistentState,
    before: PersistentState,
    state: FirmwareUpdateState,
    result: FirmwareUpdateResult,
) -> bool {
    &&& after.same_but_update(before)
    &&& after.firmware_update_state == state
    &&& after.firmware_update_result == result
    &&& after.firmware_update_pkg_version@ == (if before.firmware_update_state != state && (state
        == FirmwareUpdateState::Idle || state == FirmwareUpdateState::Updating) {
        Seq::empty()
    } else {
        before.firmware_update_pkg_version@
    })
}

impl Device {
    /// Sets the state and the result of the firmware update. Returns whether
    /// anything has changed and is to be saved and published.
    pub fn set_firmware_update_status(
        &mut self,
        state: FirmwareUpdateState,
        result: FirmwareUpdateResult,
    ) -> (res: Result<bool, Error>)
        ensures
            res == status_outcome(
                old(self).persistent,
                old(self).description.included,
                state,
                result,
            ),
            if res is Ok {
                has_status(final(self).persistent, old(self).persistent, state, result)
            } else {
                final(self).persistent == old(self).persistent
            },
            *final(self) == (Device { persistent: final(self).persistent, ..*old(self) }),
    {
        let included: bool = self.description.included;
        self.persistent.set_firmware_update_status(included, state, result)
    }

    /// Decides what has to happen before a package can be taken. A single zero
    /// byte, once a package is complete, only resets the update. A data upload
    /// is not given up for a firmware.
    pub fn begin_package(&self, package: &[u8]) -> (res: Result<PackageStep, Error>)
        ensures
            if self.persistent.firmware_update_state == FirmwareUpdateState::DownloadComplete
                && package@ == seq![0u8] {
                res == Ok::<PackageStep, Error>(PackageStep::Flush)
            } else {
                match self.upload_state {
                    None => res == Ok::<PackageStep, Error>(PackageStep::Accept),
                    Some(state) => match state.kind {
                        FirmwareUploadKind::Fota { .. } => res == Ok::<PackageStep, Error>(
                            PackageStep::AbortFirst,
                        ),
                        FirmwareUploadKind::Data { slot, .. } => res == Err::<PackageStep, Error>(
                            Error::UploadRunning(slot),
                        ),
                    },
                }
            },
    {
        let reset: bool = package.len() == 1 && package[0] == 0;
        proof {
            if reset {
                assert(package@ =~= seq![0u8]);
            } else if package@ == seq![0u8] {
                assert(package@[0] == 0u8);
            }
        }
        if self.persistent.firmware_update_state == FirmwareUpdateState::DownloadComplete && reset {
            return Ok(PackageStep::Flush);
        }
        match &self.upload_state {
            None => Ok(PackageStep::Accept),
            Some(state) => match &state.kind {
                FirmwareUploadKind::Fota { .. } => Ok(PackageStep::AbortFirst),
                FirmwareUploadKind::Data { slot, .. } => Err(Error::UploadRunning(*slot)),
            },
        }
    }

    /// Forgets the last update to make room for a package, while no other one is
    /// being uploaded or installed. Returns whether anything has changed and is
    /// to be saved and published, which is to happen before the package is looked
    /// at.
    pub fn reset_for_package(&mut self) -> (res: Result<bool, Error>)
        ensures
            *final(self) == (Device { persistent: final(self).persistent, ..*old(self) }),
            ({
                let before = old(self).persistent;
                if before.firmware_update_state == FirmwareUpdateState::Downloading
                    || before.firmware_update_state == FirmwareUpdateState::Updating {
                    &&& res == Err::<bool, Error>(Error::UpdateInProgress)
                    &&& final(self).persistent == before
                } else {
                    &&& res == status_outcome(
                        before,
                        old(self).description.included,
                        FirmwareUpdateState::Idle,
                        FirmwareUpdateResult::Initial,
                    )
                    &&& if res is Ok {
                        has_status(
                            final(self).persistent,
                            before,
                            FirmwareUpdateState::Idle,
                            FirmwareUpdateResult::Initial,
                        )
                    } else {
                        final(self).persistent == before
                    }
                }
            }),
    {
        match self.persistent.firmware_update_state {
            FirmwareUpdateState::Downloading | FirmwareUpdateState::Updating => Err(
                Error::UpdateInProgress,
            ),
            _ => self.set_firmware_update_status(
                FirmwareUpdateState::Idle,
                FirmwareUpdateResult::Initial,
            ),
        }
    }

    /// Looks at a package, once the last update was forgotten. The version of a
    /// container is kept and is to be saved. The container has to be uploaded
    /// from its first image on.
    pub fn accept_package(&mut self, package: &[u8]) -> (res: Result<FirmwareContainer, Error>)
        ensures
            *final(self) == (Device { persistent: final(self).persistent, ..*old(self) }),
            match res {
                Ok(container) => {
                    &&& container::container_contents(package@) == Ok::<
                        (Seq<char>, Seq<FirmwareContainerImage>),
                        Error,
                    >((container.firmware_version@, container.images@))
                    &&& container.fits(package@)
                    &&& ({
                        let after = final(self).persistent;
                        &&& after.firmware_update_pkg_version@ == container.firmware_version@
                        &&& after == (PersistentState {
                            firmware_update_pkg_version: after.firmware_update_pkg_version,
                            ..old(self).persistent
                        })
                    })
                },
                Err(e) => {
                    &&& container::container_contents(package@) == Err::<
                        (Seq<char>, Seq<FirmwareContainerImage>),
                        Error,
                    >(e)
                    &&& final(self).persistent == old(self).persistent
                },
            },
    {
        let container = FirmwareContainer::from_slice(package)?;
        self.persistent.firmware_update_pkg_version = container.firmware_version.clone();
        Ok(container)
    }

    /// The status to set once the device was asked to take the first image.
    pub fn on_package_started(started: bool) -> (res: (FirmwareUpdateState, FirmwareUpdateResult))
        ensures
            res == (if started {
                (FirmwareUpdateState::Downloading, FirmwareUpdateResult::Success)
            } else {
                (FirmwareUpdateState::Idle, FirmwareUpdateResult::IntegrityCheckFail)
            }),
    {
        if started {
            (FirmwareUpdateState::Downloading, FirmwareUpdateResult::Success)
        } else {
            (FirmwareUpdateState::Idle, FirmwareUpdateResult::IntegrityCheckFail)
        }
    }

    /// Gives up a running upload.
    pub fn abort_upload(&mut self) -> (res: Option<FirmwareUploadState>)
        ensures
            res == old(self).upload_state,
            *final(self) == (Device { upload_state: None, ..*old(self) }),
    {
        self.upload_state.take()
    }

    pub fn set_upload_state(&mut self, state: FirmwareUploadState)
        ensures
            *final(self) == (Device { upload_state: Some(state), ..*old(self) }),
    {
        self.upload_state = Some(state);
    }

    /// Whether the stack of the device is older than a version.
    pub open spec fn spec_stack_older_than(self, major: i32, minor: i32, patch: i32) -> bool {
        utils::version_order(self.description.spec_version_stack(), utils::three_numbers(major, minor, patch))
            == VersionOrder::Older
    }

    fn stack_older_than(&self, major: i32, minor: i32, patch: i32) -> (res: bool)
        ensures
            res == self.spec_stack_older_than(major, minor, patch),
    {
        let order = self.description.version_stack_parsed().compare(
            &create_version(major, minor, patch),
        );
        order == VersionOrder::Older
    }

    /// Whether an update may be installed at all.
    pub fn begin_update(&self) -> (res: Result<(), Error>)
        ensures
            res == (if self.persistent.firmware_update_state
                == FirmwareUpdateState::DownloadComplete {
                Ok::<(), Error>(())
            } else {
                Err::<(), Error>(Error::NotDownloaded)
            }),
    {
        if self.persistent.firmware_update_state == FirmwareUpdateState::DownloadComplete {
            Ok(())
        } else {
            Err(Error::NotDownloaded)
        }
    }

    /// Decides, on what the device reports of the upload, how the update goes
    /// on.
    pub fn on_update_info(&self, size: u32, received_size: u32) -> (res: UpdateStep)
        ensures
            res == update_step(
                size,
                received_size,
                self.spec_stack_older_than(1, 5, 3),
                self.spec_stack_older_than(1, 5, 2),
                self.description.spec_is_cbtl(),
            ),
    {
        let no_reset: bool = self.stack_older_than(1, 5, 3);
        let slow: bool = self.stack_older_than(1, 5, 2);
        plan_update(size, received_size, no_reset, slow, self.description.is_cbtl())
    }

    /// The state of the firmware update as it is shown. A running upload shows
    /// as such, whatever is stored.
    pub fn firmware_update_state(&self) -> (res: FirmwareUpdateState)
        ensures
            res == (if self.upload_state is Some {
                FirmwareUpdateState::Downloading
            } else {
                self.persistent.firmware_update_state
            }),
    {
        if self.upload_state.is_some() {
            FirmwareUpdateState::Downloading
        } else {
            self.persistent.firmware_update_state
        }
    }

    pub fn update_result(&self) -> (res: FirmwareUpdateResult)
        ensures
            res == self.persistent.firmware_update_result,
    {
        self.persistent.firmware_update_result
    }

    /// The version of the last package.
    pub fn pkg_version(&self) -> (res: String)
        ensures
            res@ == self.persistent.firmware_update_pkg_version@,
    {
        self.persistent.firmware_update_pkg_version.clone()
    }

    /// A package is never fetched from anywhere.
    pub fn package_uri(&self) -> (res: &'static str)
        ensures
            res@ == ""@,
    {
        ""
    }

    pub fn set_package_uri(&mut self) -> (res: Result<(), Error>)
        ensures
            res == Err::<(), Error>(Error::Unsupported),
            *final(self) == *old(self),
    {
        Err(Error::Unsupported)
    }

    /// Packages are pushed, which is method 1.
    pub fn firmware_update_delivery_method(&self) -> (res: i64)
        ensures
            res == 1,
    {
        1
    }
}

/// The resources that are published when the status of an update has changed.
pub fn changed_by_update() -> (res: Vec<Resource>)
    ensures
        res@ == seq![
            Resource::FirmwareUpdateState,
            Resource::FirmwareUpdateUpdateResult,
            Resource::FirmwareUpdatePkgVersion,
        ],
{
    let mut res: Vec<Resource> = Vec::new();
    res.push(Resource::FirmwareUpdateState);
    res.push(Resource::FirmwareUpdateUpdateResult);
    res.push(Resource::FirmwareUpdatePkgVersion);
    res
}

/// How long to wait for the description of a device whose radio module was
/// rebooted.
pub const REBOOT_TIMEOUT: u128 = 5_000_000_000;

/// Whether any device description shows that a radio module that was rebooted at
/// `sent` is back. Such a description is not handled in any other way: it would
/// look like the end of a failed update.
pub fn confirms_reboot(received: Nanos, sent: Nanos) -> (res: bool)
    ensures
        res == (received >= sent),
{
    received >= sent
}

/// How an update is started.
#[derive(Clone, Copy, Debug, PartialEq, Eq, Structural)]
pub struct UpdateStart {
    /// The radio module of the device has to be rebooted first.
    pub reboot_radio: bool,
    /// The device takes its time to confirm, and must not be asked twice.
    pub long_timeout: bool,
}

/// A step of an update: the status to set, and how to go on.
#[derive(Clone, Copy, Debug, PartialEq, Eq)]
pub struct UpdateStep {
    pub state: FirmwareUpdateState,
    pub result: FirmwareUpdateResult,
    pub next: Result<UpdateStart, Error>,
}

/// How an update goes on, by the sizes that the device reports of the upload, by
/// whether it can be reset after one, whether it is slow to confirm, and whether
/// its radio module is updated separately. An upload of nothing only resets the
/// device.
pub open spec fn update_step(
    size: u32,
    received_size: u32,
    no_reset: bool,
    slow: bool,
    has_radio: bool,
) -> UpdateStep {
    if size != received_size {
        UpdateStep {
            state: FirmwareUpdateState::Idle,
            result: FirmwareUpdateResult::NoFlash,
            next: Err(Error::IncompleteDownload),
        }
    } else if size == 0 && no_reset {
        UpdateStep {
            state: FirmwareUpdateState::Idle,
            result: FirmwareUpdateResult::UpdateFailed,
            next: Err(Error::ResetNotSupported),
        }
    } else {
        UpdateStep {
            state: FirmwareUpdateState::Updating,
            result: FirmwareUpdateResult::Initial,
            next: Ok(UpdateStart { reboot_radio: has_radio, long_timeout: slow }),
        }
    }
}

/// How an update goes on.
pub fn plan_update(
    size: u32,
    received_size: u32,
    no_reset: bool,
    slow: bool,
    has_radio: bool,
) -> (res: UpdateStep)
    ensures
        res == update_step(size, received_size, no_reset, slow, has_radio),
{
    if size != received_size {
        return UpdateStep {
            state: FirmwareUpdateState::Idle,
            result: FirmwareUpdateResult::NoFlash,
            next: Err(Error::IncompleteDownload),
        };
    }
    if size == 0 && no_reset {
        return UpdateStep {
            state: FirmwareUpdateState::Idle,
            result: FirmwareUpdateResult::UpdateFailed,
            next: Err(Error::ResetNotSupported),
        };
    }
    UpdateStep {
        state: FirmwareUpdateState::Updating,
        result: FirmwareUpdateResult::Initial,
        next: Ok(UpdateStart { reboot_radio: has_radio, long_timeout: slow }),
    }
}

/// What a device answers to the start of an update means.
#[derive(Clone, Copy, Debug, PartialEq, Eq)]
pub struct UpdateEnd {
    pub state: FirmwareUpdateState,
    pub result: FirmwareUpdateResult,
    pub outcome: Result<(), Error>,
}

pub open spec fn update_end(status: FirmwareStatus) -> UpdateEnd {
    match status {
        FirmwareStatus::Accepted => UpdateEnd {
            state: FirmwareUpdateState::Updating,
            result: FirmwareUpdateResult::Success,
            outcome: Ok(()),
        },
        FirmwareStatus::ChecksumErr => UpdateEnd {
            state: FirmwareUpdateState::Idle,
            result: FirmwareUpdateResult::IntegrityCheckFail,
            outcome: Err(Error::UpdateRefused(status)),
        },
        _ => UpdateEnd {
            state: FirmwareUpdateState::Idle,
            result: FirmwareUpdateResult::UpdateFailed,
            outcome: Err(Error::UpdateRefused(status)),
        },
    }
}

/// The status to set once the device has answered the start of an update.
pub fn on_update_started(status: FirmwareStatus) -> (res: UpdateEnd)
    ensures
        res == update_end(status),
{
    match status {
        FirmwareStatus::Accepted => UpdateEnd {
            state: FirmwareUpdateState::Updating,
            result: FirmwareUpdateResult::Success,
            outcome: Ok(()),
        },
        FirmwareStatus::ChecksumErr => UpdateEnd {
            state: FirmwareUpdateState::Idle,
            result: FirmwareUpdateResult::IntegrityCheckFail,
            outcome: Err(Error::UpdateRefused(status)),
        },
        _ => UpdateEnd {
            state: FirmwareUpdateState::Idle,
            result: FirmwareUpdateResult::UpdateFailed,
            outcome: Err(Error::UpdateRefused(status)),
        },
    }
}

/// What to do when the device description comes after an update.
#[derive(Clone, Copy, Debug, PartialEq, Eq, Structural)]
pub enum AfterUpdate {
    /// The device is still included: it did not take the update.
    Failed,
    /// The device started anew and has to be included again.
    IncludeAgain,
}

/// Decides, on the description that a device sends after an update, what became
/// of it.
pub fn fota_on_device_description(included: bool) -> (res: AfterUpdate)
    ensures
        res == (if included {
            AfterUpdate::Failed
        } else {
            AfterUpdate::IncludeAgain
        }),
{
    if included {
        AfterUpdate::Failed
    } else {
        AfterUpdate::IncludeAgain
    }
}

/// The status to set once it is known what became of an update, or nothing if
/// the device has to be forgotten: it could not be included again.
pub fn after_update_status(after: AfterUpdate, included_again: bool) -> (res: Option<
    (FirmwareUpdateState, FirmwareUpdateResult),
>)
    ensures
        res == (match after {
            AfterUpdate::Failed => Some(
                (FirmwareUpdateState::Idle, FirmwareUpdateResult::UpdateFailed),
            ),
            AfterUpdate::IncludeAgain => if included_again {
                Some((FirmwareUpdateState::Idle, FirmwareUpdateResult::Success))
            } else {
                None
            },
        }),
{
    match after {
        AfterUpdate::Failed => Some(
            (FirmwareUpdateState::Idle, FirmwareUpdateResult::UpdateFailed),
        ),
        AfterUpdate::IncludeAgain => {
            if included_again {
                Some((FirmwareUpdateState::Idle, FirmwareUpdateResult::Success))
            } else {
                None
            }
        },
    }
}

/// Whatever a device answers to the start of an update, the update is over or
/// under way, and it is under way only if the device accepted it.
pub proof fn law_update_outcome(status: FirmwareStatus)
    ensures
        update_end(status).outcome is Ok <==> status == FirmwareStatus::Accepted,
        update_end(status).state == (if status == FirmwareStatus::Accepted {
            FirmwareUpdateState::Updating
        } else {
            FirmwareUpdateState::Idle
        }),
{
}

/// A status is only taken from an included device, and it is news if the state or
/// the result is another one.
pub proof fn law_news_of_an_update(
    before: PersistentState,
    state: FirmwareUpdateState,
    result: FirmwareUpdateResult,
)
    ensures
        status_outcome(before, false, state, result) == Err::<bool, Error>(Error::NotIncluded),
        status_outcome(before, true, state, result) is Ok,
        status_outcome(before, true, before.firmware_update_state, before.firmware_update_result)
            == Ok::<bool, Error>(false),
        state != before.firmware_update_state || result != before.firmware_update_result
            ==> status_outcome(before, true, state, result) == Ok::<bool, Error>(true),
{
}

/// A status replaces the one before. The version of the package is forgotten when
/// the update begins or is over, and kept in all other cases. All that has
/// nothing to do with the update stays.
pub proof fn law_status_of_an_update(
    after: PersistentState,
    before: PersistentState,
    state: FirmwareUpdateState,
    result: FirmwareUpdateResult,
)
    requires
        has_status(after, before, state, result),
    ensures
        after.same_but_update(before),
        after.firmware_update_state == state,
        after.firmware_update_result == result,
        state == before.firmware_update_state ==> after.firmware_update_pkg_version@
            == before.firmware_update_pkg_version@,
        state != before.firmware_update_state ==> match state {
            FirmwareUpdateState::Idle
            | FirmwareUpdateState::Updating => after.firmware_update_pkg_version@.len() == 0,
            _ => after.firmware_update_pkg_version@ == before.firmware_update_pkg_version@,
        },
{
}

/// An update is only begun with a complete upload, and the upload of nothing only
/// on a device that can be reset. All other uploads are installed.
pub proof fn law_update_begins(
    step: UpdateStep,
    size: u32,
    received_size: u32,
    no_reset: bool,
    slow: bool,
    has_radio: bool,
)
    requires
        step == update_step(size, received_size, no_reset, slow, has_radio),
    ensures
        step.next is Ok <==> size == received_size && (size != 0 || !no_reset),
        step.next matches Ok(start) ==> start.reboot_radio == has_radio && start.long_timeout
            == slow,
        step.next is Ok ==> step.state == FirmwareUpdateState::Updating && step.result
            == FirmwareUpdateResult::Initial,
        step.next is Err ==> step.state == FirmwareUpdateState::Idle,
        size != received_size ==> step.result == FirmwareUpdateResult::NoFlash,
        size != received_size ==> step.next == Err::<UpdateStart, Error>(Error::IncompleteDownload),
        size == received_size && size == 0 && no_reset ==> step.result
            == FirmwareUpdateResult::UpdateFailed,
        size == received_size && size == 0 && no_reset ==> step.next == Err::<UpdateStart, Error>(
            Error::ResetNotSupported,
        ),
{
}

/// The answer of the device decides on the result of an update, and why it was
/// refused is handed on.
pub proof fn law_update_result(status: FirmwareStatus)
    ensures
        update_end(status).result == FirmwareUpdateResult::Success <==> status
            == FirmwareStatus::Accepted,
        update_end(status).result == FirmwareUpdateResult::IntegrityCheckFail <==> status
            == FirmwareStatus::ChecksumErr,
        status != FirmwareStatus::Accepted && status != FirmwareStatus::ChecksumErr ==> update_end(
            status,
        ).result == FirmwareUpdateResult::UpdateFailed,
        update_end(status).outcome matches Err(e) ==> e == Error::UpdateRefused(status),
{
}

/// A stack is older than three numbers if its version is, and one that cannot be
/// read counts as 1.0.0.
pub proof fn law_old_stacks(device: Device, major: i32, minor: i32, patch: i32)
    ensures
        ({
            let limit = seq![
                utils::PartView::Number(major),
                utils::PartView::Number(minor),
                utils::PartView::Number(patch),
            ];
            let stack = match utils::version_parts(device.description.version_stack@) {
                Some(parts) => parts,
                None => seq![
                    utils::PartView::Number(1),
                    utils::PartView::Number(0),
                    utils::PartView::Number(0),
                ],
            };
            device.spec_stack_older_than(major, minor, patch) <==> utils::version_order(
                stack,
                limit,
            ) == VersionOrder::Older
        }),
{
}

} // verus!
