//! How a device comes and goes.

use crate::abortable_sleep::SleepResult;
use crate::config::Config;
use crate::device::Device;
use crate::device::NewDeviceSource;
use crate::device::PublicationState;
use crate::device::fota;
use crate::device::values;
use crate::device::values::validate_values;
use crate::error::Error;
use crate::lwm2m::FirmwareUpdateState;
use crate::net::SocketAddr;
use crate::storage::description::ConnectionStatus;
use crate::storage::description::DeviceDescription;
use crate::storage::persistent::PersistentState;
use crate::storage::value::Value;
use crate::storage::value::ValueDescription;
use crate::time::Nanos;
use vstd::prelude::*;

verus! {

/// What a device answers when it is time for one of its regular tasks.
#[derive(Clone, Copy, Debug, PartialEq, Eq, Structural)]
pub enum TaskAnswer {
    /// The task is due again after this time.
    Next(Nanos),
    Failed,
    /// The device is gone.
    Closed,
    /// There was no answer, which should not happen.
    NoAnswer,
}

/// How long to wait before a regular task is due again; nothing if it never is.
pub open spec fn pause_after(answer: TaskAnswer, config: Config) -> Option<Nanos> {
    match answer {
        TaskAnswer::Next(pause) => Some(pause),
        TaskAnswer::Closed => None,
        TaskAnswer::Failed | TaskAnswer::NoAnswer => Some(config.error_timeout_interval),
    }
}

/// How long to wait before a regular task is due again; nothing if it never is.
pub fn task_pause(answer: TaskAnswer, config: &Config) -> (res: Option<Nanos>)
    ensures
        res == pause_after(answer, *config),
{
    match answer {
        TaskAnswer::Next(pause) => Some(pause),
        TaskAnswer::Closed => None,
        TaskAnswer::Failed | TaskAnswer::NoAnswer => Some(config.error_timeout_interval),
    }
}

/// What is done regularly for a device.
#[derive(Clone, Copy, Debug, PartialEq, Eq, Structural)]
pub enum RegularTask {
    /// Looking whether the device is still there.
    Ping,
    /// Telling the device the offset of its time zone.
    UtcOffset,
    /// Going on with an upload.
    Fota,
}

/// Whether a task waits until no other device is talked to. An upload does not:
/// it would keep all others waiting.
pub fn takes_radio_lock(task: RegularTask) -> (res: bool)
    ensures
        res == (task != RegularTask::Fota),
{
    match task {
        RegularTask::Ping | RegularTask::UtcOffset => true,
        RegularTask::Fota => false,
    }
}

/// What happens to a regular task.
#[derive(Clone, Copy, Debug, PartialEq, Eq)]
pub enum TaskEvent {
    Started,
    /// The device was asked to do the task.
    Answered(TaskAnswer),
    /// The pause has come to an end.
    Slept(SleepResult),
}

/// What a regular task does next.
#[derive(Clone, Copy, Debug, PartialEq, Eq, Structural)]
pub enum TaskAction {
    /// Ask the device to do the task.
    Ask,
    Sleep(Nanos),
    Stop,
}

/// What a regular task does next: it asks at once, pauses after each answer, and
/// asks again when the pause is over or cut short, until the device is gone.
pub fn task_step(event: TaskEvent, config: &Config) -> (res: TaskAction)
    ensures
        res == (match event {
            TaskEvent::Started => TaskAction::Ask,
            TaskEvent::Answered(answer) => match pause_after(answer, *config) {
                Some(pause) => TaskAction::Sleep(pause),
                None => TaskAction::Stop,
            },
            TaskEvent::Slept(SleepResult::Dropped) => TaskAction::Stop,
            TaskEvent::Slept(_) => TaskAction::Ask,
        }),
{
    match event {
        TaskEvent::Started => TaskAction::Ask,
        TaskEvent::Answered(answer) => match task_pause(answer, config) {
            Some(pause) => TaskAction::Sleep(pause),
            None => TaskAction::Stop,
        },
        TaskEvent::Slept(SleepResult::Dropped) => TaskAction::Stop,
        TaskEvent::Slept(_) => TaskAction::Ask,
    }
}

/// What has to be published when a device is forgotten.
#[derive(Clone, Copy, Debug, PartialEq, Eq, Structural)]
pub enum Farewell {
    Nothing,
    /// That it can no longer be included.
    IncludableDevice,
    /// That it is gone.
    Device,
}

impl Device {
    /// Whether a device is announced as one that can be included as soon as it
    /// is known.
    pub fn announces_itself(&self) -> (res: bool)
        ensures
            res == (self.persistent.connection_status == ConnectionStatus::Online
                && !self.description.included),
    {
        self.online() && !self.description.included
    }

    /// Whether the device has to be told that it is excluded before it is
    /// forgotten.
    pub fn begin_forget(&self) -> (res: bool)
        ensures
            res == self.description.included,
    {
        self.description.included
    }

    /// The device was told that it is excluded. From now on it counts as
    /// excluded, whatever came of that.
    pub fn on_exclusion_attempted(&mut self)
        ensures
            !final(self).spec_is_published(),
            *final(self) == (Device {
                description: DeviceDescription { included: false, ..old(self).description },
                ..*old(self)
            }),
    {
        self.description.included = false;
    }

    /// What has to be published once the device is forgotten.
    pub fn farewell(&self) -> (res: Farewell)
        ensures
            res == (match self.publication_state {
                PublicationState::Invisible => Farewell::Nothing,
                PublicationState::Includable => Farewell::IncludableDevice,
                PublicationState::Ready => Farewell::Device,
            }),
    {
        match self.publication_state {
            PublicationState::Invisible => Farewell::Nothing,
            PublicationState::Includable => Farewell::IncludableDevice,
            PublicationState::Ready => Farewell::Device,
        }
    }

    /// A device as it was stored. Without a stored state it counts as offline.
    /// There has to be a value of the right type for each description. It counts
    /// as published: whoever asks for the devices at start gets to know of it.
    pub fn load(
        interface: SocketAddr,
        description: DeviceDescription,
        persistent: Option<PersistentState>,
        value_descriptions: Vec<ValueDescription>,
        values: Vec<Value>,
        now: Nanos,
        wall_clock: Nanos,
        max_unincluded: Nanos,
    ) -> (res: Result<Self, Error>)
        requires
            now + max_unincluded <= u128::MAX,
        ensures
            match res {
                Ok(device) => {
                    &&& values::validation(value_descriptions@, values@) is Ok
                    &&& device.interface == interface
                    &&& device.description == description
                    &&& match persistent {
                        Some(persistent) => device.persistent == (if persistent.is_stale(
                            description.included,
                        ) {
                            PersistentState {
                                firmware_update_state: FirmwareUpdateState::Idle,
                                ..persistent
                            }
                        } else {
                            persistent
                        }),
                        None => device.persistent.is_fresh(
                            ConnectionStatus::Offline,
                            wall_clock,
                        ),
                    }
                    &&& !device.persistent.is_stale(description.included)
                    &&& device.value_descriptions == value_descriptions
                    &&& device.values == values
                    &&& device.dont_delete_until == now + max_unincluded
                    &&& device.awake_until is None
                    &&& device.last_communication_attempt is None
                    &&& device.online_changed_at == now
                    &&& device.last_write is None
                    &&& device.last_rf_link_quality_publish is None
                    &&& !device.time_out_of_sync
                    &&& device.upload_state is None
                    &&& device.data_download == fota::default_download()
                    &&& device.publication_state == (if description.included {
                        PublicationState::Ready
                    } else {
                        PublicationState::Invisible
                    })
                },
                Err(e) => values::validation(value_descriptions@, values@) == Err::<(), Error>(e),
            },
    {
        validate_values(value_descriptions.as_slice(), values.as_slice())?;
        let mut device = Device::new(
            interface,
            description,
            persistent,
            NewDeviceSource::Storage,
            now,
            wall_clock,
            max_unincluded,
        );
        device.value_descriptions = value_descriptions;
        device.values = values;
        if device.description.included {
            device.publication_state = PublicationState::Ready;
        }
        Ok(device)
    }
}

/// A task that is answered pauses for as long as it says, one that is told to
/// end gets no further turn, and one that fails or is not answered is tried
/// again after the time for errors.
pub proof fn law_pauses(answer: TaskAnswer, pause: Nanos, config: Config)
    ensures
        pause_after(TaskAnswer::Next(pause), config) == Some(pause),
        pause_after(answer, config) is None <==> answer == TaskAnswer::Closed,
        answer == TaskAnswer::Failed || answer == TaskAnswer::NoAnswer ==> pause_after(
            answer,
            config,
        ) == Some(config.error_timeout_interval),
{
}

} // verus!
